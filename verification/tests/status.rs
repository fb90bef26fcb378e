use dsh_shell::status::{
    boot_failure_script, js_escape, loading_status, page_load_scripts, set_loading_status,
    LoadingStatus,
};

#[test]
fn quotes_and_backslashes_are_escaped() {
    assert_eq!(js_escape("it's C:\\x"), "it\\'s C:\\\\x");
    assert_eq!(js_escape(""), "");
    assert_eq!(js_escape("正在启动"), "正在启动");
}

#[test]
fn escaped_text_reads_back() {
    for text in ["plain", "a'b", "a\\b", "\\'", "'\\", "''\\\\", "结尾\\"] {
        let escaped = js_escape(text);
        let mut read = String::new();
        let mut chars = escaped.chars();
        while let Some(c) = chars.next() {
            assert_ne!(c, '\'');
            if c == '\\' {
                read.push(chars.next().unwrap());
            } else {
                read.push(c);
            }
        }
        assert_eq!(read, text);
    }
}

#[test]
fn status_line_is_kept_and_shown() {
    let mut status = LoadingStatus::new();
    assert_eq!(loading_status(&status), "");
    let script = set_loading_status(&mut status, "it's up");
    assert_eq!(
        script,
        "window.__dshLoading && window.__dshLoading.setStatus('it\\'s up');"
    );
    assert_eq!(loading_status(&status), "it's up");
    set_loading_status(&mut status, "second");
    assert_eq!(loading_status(&status), "second");
}

#[test]
fn page_of_the_service_gets_no_script() {
    let mut status = LoadingStatus::new();
    set_loading_status(&mut status, "x");
    assert!(page_load_scripts(Some("127.0.0.1"), "dark", &status).is_empty());
}

#[test]
fn other_pages_get_theme_and_status() {
    let mut status = LoadingStatus::new();
    let theme = "window.__dshTheme = 'dark'; if (window.__dshLoading) window.__dshLoading.applyTheme();";
    assert_eq!(page_load_scripts(None, "dark", &status), vec![theme]);
    set_loading_status(&mut status, "a\\b");
    assert_eq!(
        page_load_scripts(Some("tauri.localhost"), "dark", &status),
        vec![
            theme,
            "if (window.__dshLoading) window.__dshLoading.setStatus('a\\\\b');",
        ]
    );
}

#[test]
fn failure_is_shown_escaped() {
    assert_eq!(
        boot_failure_script("can't"),
        "document.getElementById('status').textContent = '启动失败';document.getElementById('error').textContent = '启动失败：can\\'t';"
    );
}
