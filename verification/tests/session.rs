use base64::Engine;
use dsh_shell::session_log::{save_session_log, write_failure};

#[test]
fn encoded_log_comes_out() {
    assert_eq!(save_session_log(""), Ok(vec![]));
    assert_eq!(save_session_log("aGVsbG8="), Ok(b"hello".to_vec()));
    assert_eq!(save_session_log("/w=="), Ok(vec![255]));
    assert_eq!(save_session_log("+/+/"), Ok(vec![251, 255, 191]));
    for length in 0..40usize {
        let bytes: Vec<u8> = (0..length).map(|i| (i * 37 + 200) as u8).collect();
        let data = base64::engine::general_purpose::STANDARD.encode(&bytes);
        assert_eq!(save_session_log(&data), Ok(bytes));
    }
}

#[test]
fn data_that_encode_nothing_are_rejected() {
    for data in ["a", "aa", "aaa", "aGVsbG8", "aGVsbG8=\n", "/x==", "a===", "====", "aGVs=G8=", "主"] {
        let error = save_session_log(data).unwrap_err();
        assert!(error.starts_with("base64 解码失败: "));
    }
    assert_eq!(
        save_session_log("a$aa"),
        Err("base64 解码失败: Invalid symbol 36, offset 1.".to_string())
    );
}

#[test]
fn write_failure_names_the_path() {
    assert_eq!(write_failure("/x/y.zip", "denied"), "写入 /x/y.zip 失败: denied");
}
