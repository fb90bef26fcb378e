use std::path::PathBuf;

use dsh_shell::boot::{
    boot, launch_plan, service_output, Boot, BootAction, BootEvent, LaunchArg, LogStream,
};
use dsh_shell::config::DshConfig;
use dsh_shell::paths::Platform;
use dsh_shell::probe::{is_dsh_response, probe_request, service_url, DSH_BOOT_MARKER};

fn config() -> DshConfig {
    DshConfig {
        port: Some(3999),
        max_wait_ms: Some(2_500),
        poll_ms: Some(70),
        data_home: None,
    }
}

fn begin() -> Boot {
    boot(&config(), Platform::Other, Some("/home/u"), None)
}

fn located(path: &str) -> BootEvent {
    BootEvent::Located { path: Ok(PathBuf::from(path)) }
}

fn runtime(present: bool) -> BootEvent {
    BootEvent::Runtime { bin: PathBuf::from("/v/bin.js"), present }
}

/// A start that is about to ask the port for the first time.
fn at_first_probe() -> Boot {
    let start = begin();
    assert!(matches!(start.action(), BootAction::LocateNode));
    let start = start.step(located("/opt/node"));
    assert!(matches!(start.action(), BootAction::LocateVendor));
    let start = start.step(located("/v"));
    assert!(matches!(start.action(), BootAction::CheckRuntime { vendor_root }
        if *vendor_root == PathBuf::from("/v")));
    let start = start.step(runtime(true));
    assert!(matches!(start.action(), BootAction::Probe { port: 3999 }));
    start
}

/// A start that is about to ask the port for the launched service.
fn at_probe() -> Boot {
    let start = at_first_probe().step(BootEvent::Probed { answer: None });
    assert!(matches!(start.action(), BootAction::Launch { .. }));
    let start = start.step(BootEvent::Launched { result: Ok(()) });
    assert!(matches!(start.action(), BootAction::Probe { port: 3999 }));
    start
}

fn failure(start: &Boot) -> String {
    match start.action() {
        BootAction::Fail { message } => message,
        _ => panic!("the start did not fail"),
    }
}

#[test]
fn running_service_is_adopted() {
    let start = at_first_probe().step(BootEvent::Probed { answer: Some(true) });
    assert!(matches!(start.action(), BootAction::Show { port: 3999 }));
    let start = start.step(BootEvent::Shown { result: Ok(()) });
    assert!(matches!(start.action(), BootAction::Ready { launched: false }));
    let start = start.step(BootEvent::Launched { result: Ok(()) });
    assert!(matches!(start.action(), BootAction::Ready { launched: false }));
}

#[test]
fn port_of_another_program_is_an_error() {
    let start = at_first_probe().step(BootEvent::Probed { answer: Some(false) });
    assert_eq!(failure(&start), "端口 3999 已被其他程序占用，且响应页面不含 DSH 标记");
    let start = at_probe().step(BootEvent::Probed { answer: Some(false) });
    assert_eq!(failure(&start), "端口 3999 被其他程序占用，且不是 DSH 服务");
}

#[test]
fn launched_service_is_waited_for() {
    let mut start = at_probe();
    for elapsed_ms in [0, 100, 2_500] {
        start = start.step(BootEvent::Probed { answer: None });
        assert!(matches!(start.action(), BootAction::CheckChild));
        start = start.step(BootEvent::Child { exited: false });
        assert!(matches!(start.action(), BootAction::CheckClock));
        start = start.step(BootEvent::Clock { elapsed_ms });
        assert!(matches!(start.action(), BootAction::Sleep { ms: 70 }));
        start = start.step(BootEvent::Slept);
        assert!(matches!(start.action(), BootAction::Probe { port: 3999 }));
    }
    start = start.step(BootEvent::Probed { answer: Some(true) });
    assert!(matches!(start.action(), BootAction::Show { port: 3999 }));
    start = start.step(BootEvent::Shown { result: Ok(()) });
    assert!(matches!(start.action(), BootAction::Ready { launched: true }));
}

#[test]
fn wait_is_limited() {
    let start = at_probe()
        .step(BootEvent::Probed { answer: None })
        .step(BootEvent::Child { exited: false })
        .step(BootEvent::Clock { elapsed_ms: 2_501 });
    assert_eq!(failure(&start), "服务在 2 秒内未就绪");
}

#[test]
fn service_that_exits_is_an_error() {
    let start = at_probe()
        .step(BootEvent::Probed { answer: None })
        .step(BootEvent::Child { exited: true });
    assert_eq!(failure(&start), "服务进程异常退出");
}

#[test]
fn missing_parts_are_errors() {
    let missing = || BootEvent::Located { path: Err("gone".to_string()) };
    assert_eq!(failure(&begin().step(missing())), "gone");
    assert_eq!(failure(&begin().step(located("/opt/node")).step(missing())), "gone");
    let start = begin().step(located("/opt/node")).step(located("/v")).step(runtime(false));
    assert_eq!(
        failure(&start),
        "未找到内置运行时 /v/bin.js；请先运行 build-runtime 装配运行时并重新打包"
    );
}

#[test]
fn launch_and_window_failures_are_reported() {
    let start = at_first_probe()
        .step(BootEvent::Probed { answer: None })
        .step(BootEvent::Launched { result: Err("denied".to_string()) });
    assert_eq!(failure(&start), "无法启动服务进程 /opt/node: denied");
    let no_window = || BootEvent::Shown { result: Err("no window".to_string()) };
    let start = at_first_probe().step(BootEvent::Probed { answer: Some(true) }).step(no_window());
    assert_eq!(failure(&start), "no window");
    let start = at_probe().step(BootEvent::Probed { answer: Some(true) }).step(no_window());
    assert_eq!(failure(&start), "no window");
}

fn texts(args: &[LaunchArg]) -> Vec<String> {
    args.iter()
        .map(|arg| match arg {
            LaunchArg::Text(text) => text.clone(),
            LaunchArg::Path(path) => format!("<{}>", path.display()),
        })
        .collect()
}

#[test]
fn service_is_launched_with_what_was_found() {
    let start = at_first_probe().step(BootEvent::Probed { answer: None });
    assert_eq!(start.data_home(), "/home/u/.dsh");
    match start.action() {
        BootAction::Launch { plan } => {
            assert_eq!(plan.status, "正在启动内置服务…");
            assert_eq!(*plan.program, PathBuf::from("/opt/node"));
            assert_eq!(
                texts(&plan.args),
                vec!["--expose-internals", "</v/bin.js>", "web", "--port", "3999", "--no-open"]
            );
            assert_eq!(*plan.dir, PathBuf::from("/v"));
            assert_eq!((plan.variable, plan.value.as_str()), ("DSH_HOME", "/home/u/.dsh"));
            assert_eq!(plan.stdin, LogStream::Null);
        }
        _ => panic!("nothing is launched"),
    }
}

#[test]
fn launch_plan_on_another_port() {
    let (node, bin, root) = (PathBuf::from("n"), PathBuf::from("b"), PathBuf::from("r"));
    let plan = launch_plan(&node, &bin, &root, "~/.dsh", 80);
    assert_eq!(
        texts(&plan.args),
        vec!["--expose-internals", "<b>", "web", "--port", "80", "--no-open"]
    );
    assert_eq!((plan.program, plan.dir, plan.value.as_str()), (&node, &root, "~/.dsh"));
}

#[test]
fn request_and_address() {
    assert_eq!(service_url(3090), "http://127.0.0.1:3090");
    assert_eq!(service_url(0), "http://127.0.0.1:0");
    assert_eq!(service_url(65535), "http://127.0.0.1:65535");
    assert_eq!(
        probe_request(8080),
        "GET / HTTP/1.1\r\nHost: 127.0.0.1:8080\r\nConnection: close\r\n\r\n"
    );
}

#[test]
fn marker_tells_the_service() {
    assert!(is_dsh_response(&b"HTTP/1.1 200 OK\r\n\r\n<script>window.__DSH_BOOT__={}</script>".to_vec()));
    assert!(is_dsh_response(&DSH_BOOT_MARKER.as_bytes().to_vec()));
    assert!(!is_dsh_response(&b"HTTP/1.1 404 Not Found".to_vec()));
    assert!(!is_dsh_response(&vec![]));
    assert!(!is_dsh_response(&b"__DSH_BOOT_".to_vec()));
    let mut broken = vec![0xff, 0xe4, 0xb8];
    broken.extend_from_slice(b"__DSH_BOOT__");
    broken.push(0xf0);
    assert!(is_dsh_response(&broken));
    assert!(String::from_utf8_lossy(&broken).contains("__DSH_BOOT__"));
}

#[test]
fn log_problems_do_not_matter() {
    assert_eq!(service_output(true, true), (LogStream::Log, LogStream::Log));
    assert_eq!(service_output(true, false), (LogStream::Log, LogStream::Null));
    assert_eq!(service_output(false, true), (LogStream::Null, LogStream::Null));
    assert_eq!(service_output(false, false), (LogStream::Null, LogStream::Null));
}
