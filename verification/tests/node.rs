use std::collections::BTreeSet;

use dsh_shell::assemble::{arg_value, completion_line, resolve_repo, run, BuildStage, Run};
use dsh_shell::node_fetch::{
    check_download, fetch_node_macos, fetch_node_runtime, fetch_node_windows, node_file_name,
    ready_line, FetchStep, NodePlan,
};
use dsh_shell::paths::Platform;
use dsh_shell::search::Search;
use dsh_shell::process::{kill_tree, KillPlan};

/// The names that are left after the steps, in a directory that was empty.
fn left_after(steps: &[FetchStep]) -> Vec<String> {
    let mut names: BTreeSet<String> = BTreeSet::new();
    for step in steps {
        match step {
            FetchStep::Download { archive, .. } => {
                names.insert(archive.clone());
            }
            FetchStep::Unzip { archive, dir } | FetchStep::Untar { archive, dir, .. } => {
                assert!(names.contains(archive));
                names.insert(dir.clone());
            }
            FetchStep::Require { path, .. } => {
                assert!(names.iter().any(|name| path.starts_with(name)));
            }
            FetchStep::Rename { from, to } => {
                names.remove(from);
                names.insert(to.clone());
            }
            FetchStep::Lipo { first, second, to, .. } => {
                assert!(names.contains(first) && names.contains(second));
                names.insert(to.clone());
            }
            FetchStep::RemoveDir { path } | FetchStep::RemoveFile { path } => {
                assert!(names.remove(path));
            }
        }
    }
    names.into_iter().collect()
}

#[test]
fn windows_fetches_the_zip() {
    let steps = fetch_node_windows("24.19.0");
    assert_eq!(steps.len(), 6);
    match &steps[0] {
        FetchStep::Download { urls, min_bytes, archive, failure } => {
            assert_eq!(
                urls,
                &vec![
                    "https://npmmirror.com/mirrors/node/v24.19.0/node-v24.19.0-win-x64.zip".to_string(),
                    "https://nodejs.org/dist/v24.19.0/node-v24.19.0-win-x64.zip".to_string(),
                ]
            );
            assert_eq!(*min_bytes, 10_000_000);
            assert_eq!(archive, "node-v24.19.0-win-x64.zip");
            assert_eq!(failure, "所有下载源失败；请手动下载 node.exe 放到 resources/node.exe");
        }
        _ => panic!("no download"),
    }
    match &steps[2] {
        FetchStep::Require { path, failure } => {
            assert_eq!(path, "node-v24.19.0-win-x64/node.exe");
            assert_eq!(failure, "node.zip 解压失败；请手动下载 node.exe 放到 resources/node.exe");
        }
        _ => panic!("no test"),
    }
    assert_eq!(left_after(&steps), vec!["node.exe"]);
}

#[test]
fn macos_fetches_the_archive_of_the_machine() {
    for (machine, arch) in [("aarch64", "arm64"), ("x86_64", "x64")] {
        let steps = fetch_node_macos("1.2.3", machine, None).unwrap();
        assert_eq!(steps.len(), 7);
        match &steps[0] {
            FetchStep::Download { urls, min_bytes, archive, failure } => {
                assert_eq!(urls[0], format!("https://npmmirror.com/mirrors/node/v1.2.3/node-v1.2.3-darwin-{arch}.tar.gz"));
                assert_eq!(urls[1], format!("https://nodejs.org/dist/v1.2.3/node-v1.2.3-darwin-{arch}.tar.gz"));
                assert_eq!(urls.len(), 2);
                assert_eq!(*min_bytes, 15_000_000);
                assert_eq!(archive, &format!("node-v1.2.3-darwin-{arch}.tar.gz"));
                assert_eq!(failure, &format!("所有下载源失败；请手动下载 node-v1.2.3-darwin-{arch}.tar.gz，解出其中的 bin/node 放到 resources/"));
            }
            _ => panic!("no download"),
        }
        match &steps[1] {
            FetchStep::Untar { failure, .. } => {
                assert_eq!(failure, &format!("tar 解压 node-v1.2.3-darwin-{arch}.tar.gz 失败"));
            }
            _ => panic!("not unpacked"),
        }
        assert_eq!(left_after(&steps), vec!["node"]);
    }
}

#[test]
fn requested_target_goes_before_the_machine() {
    let steps = fetch_node_macos("1", "aarch64", Some("darwin-x64")).unwrap();
    assert!(matches!(&steps[6], FetchStep::Rename { from, to } if from == "node-darwin-x64" && to == "node"));
    assert_eq!(left_after(&steps), vec!["node"]);
}

#[test]
fn universal_binary_is_joined_from_both() {
    let steps = fetch_node_macos("1", "x86_64", Some("darwin-universal")).unwrap();
    assert_eq!(steps.len(), 15);
    match &steps[12] {
        FetchStep::Lipo { first, second, to, failure } => {
            assert_eq!((first.as_str(), second.as_str(), to.as_str()), ("node-darwin-x64", "node-darwin-arm64", "node"));
            assert_eq!(failure, "lipo 合并通用 node 二进制失败");
        }
        _ => panic!("not joined"),
    }
    assert_eq!(left_after(&steps), vec!["node"]);
}

#[test]
fn unknown_target_is_rejected() {
    for target in ["linux-x64", "", "darwin", "x64"] {
        assert_eq!(
            fetch_node_macos("1", "x86_64", Some(target)).err().as_deref(),
            Some("--node-target 应形如 darwin-x64 / darwin-arm64 / darwin-universal")
        );
    }
}

#[test]
fn node_that_is_there_is_not_fetched_again() {
    assert!(matches!(fetch_node_runtime(Platform::Windows, true, "1", "x", None), Ok(NodePlan::AlreadyThere)));
    assert!(matches!(fetch_node_runtime(Platform::Macos, true, "1", "x", Some("bad")), Ok(NodePlan::AlreadyThere)));
    assert!(matches!(fetch_node_runtime(Platform::Other, false, "1", "x", None), Ok(NodePlan::NotOffered)));
    assert!(matches!(fetch_node_runtime(Platform::Windows, false, "1", "x", None), Ok(NodePlan::Steps(steps)) if steps.len() == 6));
    assert!(matches!(fetch_node_runtime(Platform::Macos, false, "1", "x", None), Ok(NodePlan::Steps(steps)) if steps.len() == 7));
    assert!(fetch_node_runtime(Platform::Macos, false, "1", "x", Some("bad")).is_err());
    assert_eq!(node_file_name(Platform::Windows), "node.exe");
    assert_eq!(node_file_name(Platform::Other), "node");
}

#[test]
fn node_is_announced() {
    assert_eq!(
        ready_line(Platform::Windows, "1.2", "x86_64", None).as_deref(),
        Some("[build-runtime] node.exe 就绪：v1.2")
    );
    assert_eq!(
        ready_line(Platform::Macos, "1.2", "aarch64", None).as_deref(),
        Some("[build-runtime] node 就绪：v1.2（darwin-arm64）")
    );
    assert_eq!(
        ready_line(Platform::Macos, "1.2", "x86_64", Some("darwin-universal")).as_deref(),
        Some("[build-runtime] node 就绪：v1.2（darwin-universal）")
    );
    assert_eq!(ready_line(Platform::Other, "1.2", "x86_64", None), None);
}

#[test]
fn first_good_source_is_taken() {
    let mut search = Search::start(2);
    assert_eq!(search, Search::Trying { index: 0, count: 2 });
    search = search.step(false);
    assert_eq!(search, Search::Trying { index: 1, count: 2 });
    assert_eq!(search.step(true), Search::Found { index: 1 });
    assert_eq!(search.step(false), Search::Exhausted);
    assert_eq!(Search::start(2).step(true), Search::Found { index: 0 });
    assert_eq!(Search::start(0), Search::Exhausted);
    assert_eq!(Search::Found { index: 0 }.step(false), Search::Found { index: 0 });
}

#[test]
fn short_response_is_refused() {
    assert_eq!(check_download(10_000_000, 10_000_000), Ok(()));
    assert_eq!(
        check_download(9_999_999, 10_000_000),
        Err("响应尺寸异常（9999999 字节），疑似下载不完整".to_string())
    );
    assert_eq!(
        check_download(0, 1),
        Err("响应尺寸异常（0 字节），疑似下载不完整".to_string())
    );
}

#[test]
fn flag_value_follows_the_flag() {
    let args: Vec<String> = ["prog", "--repo", "/r", "--repo", "/s", "--node-target"]
        .iter()
        .map(|arg| arg.to_string())
        .collect();
    assert_eq!(arg_value(&args, "--repo").as_deref(), Some("/r"));
    assert_eq!(arg_value(&args, "--node-target"), None);
    assert_eq!(arg_value(&args, "--other"), None);
    assert_eq!(arg_value(&vec![], "--repo"), None);
}

#[test]
fn repository_comes_from_the_command_line_first() {
    let text = |text: &str| Some(text.to_string());
    assert_eq!(resolve_repo(text("a"), text("b"), "c".to_string()), "a");
    assert_eq!(resolve_repo(None, text("b"), "c".to_string()), "b");
    assert_eq!(resolve_repo(None, None, "c".to_string()), "c");
}

#[test]
fn stages_follow_each_other() {
    let mut state = run(true, "/r");
    for stage in [
        BuildStage::Materialize,
        BuildStage::Prune,
        BuildStage::Bundle,
        BuildStage::FetchNode,
    ] {
        assert!(matches!(state, Run::At(at) if at == stage));
        state = state.step(Ok(()));
    }
    assert!(matches!(state, Run::Finished));
    assert!(matches!(state.step(Err("late".to_string())), Run::Finished));
}

#[test]
fn failed_stage_ends_the_assembly() {
    let state = run(true, "/r").step(Ok(())).step(Err("disk full".to_string())).step(Ok(()));
    assert!(matches!(state, Run::Failed(message) if message == "disk full"));
    let state = run(false, "/nowhere").step(Ok(()));
    assert!(matches!(state, Run::Failed(message)
        if message == "主仓库不存在：/nowhere\n请用 --repo <主仓库路径> 或 DSH_REPO 环境变量指定。"));
}

#[test]
fn completion_names_the_binary() {
    assert_eq!(
        completion_line(Platform::Windows),
        "\n[build-runtime] 完成：resources/dsh.zip + resources/node.exe 已就绪，可执行 cargo run / tauri build。"
    );
    assert_eq!(
        completion_line(Platform::Macos),
        "\n[build-runtime] 完成：resources/dsh.zip + resources/node 已就绪，可执行 cargo run / tauri build。"
    );
}

#[test]
fn process_tree_is_ended_on_windows() {
    assert!(matches!(kill_tree(Platform::Windows, 4711), KillPlan::Taskkill(args)
        if args == vec!["/pid", "4711", "/T", "/F"]));
    assert!(matches!(kill_tree(Platform::Macos, 4711), KillPlan::Kill));
    assert!(matches!(kill_tree(Platform::Other, 1), KillPlan::Kill));
}
