//! The start of the service: an answering service is taken over, otherwise the
//! bundled one is launched and waited for.
//!
//! [`Boot`] decides what is done next. The program performs the action and hands
//! back what came of it.

use crate::config::DshConfig;
use crate::paths::{path_text, str_view, text_of_path, Platform};
use crate::text::{decimal, decimal_of, text3};
use std::path::PathBuf;
use vstd::prelude::*;

verus! {

/// The resource that holds the runtime.
pub const VENDOR_RESOURCE: &'static str = "vendor/dsh";

/// The entry of the runtime, below the runtime's directory.
pub const BIN_PATH: &'static str = "node_modules/@deepseek-ai/dsh/lib/bin.js";

/// The log of the service, below the data directory.
pub const SERVICE_LOG: &'static str = "dsh-service.log";

/// The status line while the service is launched.
pub const STARTING_STATUS: &'static str = "正在启动内置服务…";

/// Where a stream of the service goes or comes from.
#[derive(Clone, Copy, Debug, PartialEq, Eq, Structural)]
pub enum LogStream {
    /// The log.
    Log,
    /// Nowhere.
    Null,
}

/// One argument of the service's command line.
pub enum LaunchArg<'a> {
    /// A text as it stands.
    Text(String),
    /// A path.
    Path(&'a PathBuf),
}

/// One argument of the service's command line, as a mathematical value.
pub enum ArgModel {
    Text(Seq<char>),
    Path(PathBuf),
}

impl<'a> View for LaunchArg<'a> {
    type V = ArgModel;

    open spec fn view(&self) -> ArgModel {
        match self {
            LaunchArg::Text(text) => ArgModel::Text(text@),
            LaunchArg::Path(path) => ArgModel::Path(**path),
        }
    }
}

/// How the service is launched.
pub struct LaunchPlan<'a> {
    /// The status line that is shown before the launch.
    pub status: &'static str,
    /// The program that is run.
    pub program: &'a PathBuf,
    /// Its arguments, in order.
    pub args: Vec<LaunchArg<'a>>,
    /// Its working directory.
    pub dir: &'a PathBuf,
    /// The variable that is added to its environment, and its value.
    pub variable: &'static str,
    pub value: String,
    /// Its input.
    pub stdin: LogStream,
}

/// How the service is launched, as a mathematical value.
pub struct PlanModel {
    pub status: Seq<char>,
    pub program: PathBuf,
    pub args: Seq<ArgModel>,
    pub dir: PathBuf,
    pub variable: Seq<char>,
    pub value: Seq<char>,
    pub stdin: LogStream,
}

impl<'a> View for LaunchPlan<'a> {
    type V = PlanModel;

    open spec fn view(&self) -> PlanModel {
        PlanModel {
            status: self.status@,
            program: *self.program,
            args: self.args@.map_values(|arg: LaunchArg<'a>| arg@),
            dir: *self.dir,
            variable: self.variable@,
            value: self.value@,
            stdin: self.stdin,
        }
    }
}

/// How the service is launched: the bundled node runs the entry of the runtime, in
/// the directory of the runtime, as a web service on the port that opens no
/// browser of its own, with the data directory in its environment and without
/// input. The first argument is a flag that the service's module loader needs.
pub open spec fn plan_for(
    node: PathBuf,
    bin: PathBuf,
    vendor_root: PathBuf,
    data_home: Seq<char>,
    port: u16,
) -> PlanModel {
    PlanModel {
        status: STARTING_STATUS@,
        program: node,
        args: seq![
            ArgModel::Text("--expose-internals"@),
            ArgModel::Path(bin),
            ArgModel::Text("web"@),
            ArgModel::Text("--port"@),
            ArgModel::Text(decimal_of(port as nat)),
            ArgModel::Text("--no-open"@),
        ],
        dir: vendor_root,
        variable: "DSH_HOME"@,
        value: data_home,
        stdin: LogStream::Null,
    }
}

/// How the service is launched.
pub fn launch_plan<'a>(
    node: &'a PathBuf,
    bin: &'a PathBuf,
    vendor_root: &'a PathBuf,
    data_home: &str,
    port: u16,
) -> (plan: LaunchPlan<'a>)
    ensures
        plan@ == plan_for(*node, *bin, *vendor_root, data_home@, port),
{
    let mut args: Vec<LaunchArg<'a>> = Vec::new();
    args.push(LaunchArg::Text("--expose-internals".to_owned()));
    args.push(LaunchArg::Path(bin));
    args.push(LaunchArg::Text("web".to_owned()));
    args.push(LaunchArg::Text("--port".to_owned()));
    args.push(LaunchArg::Text(decimal(port as u64)));
    args.push(LaunchArg::Text("--no-open".to_owned()));
    let plan = LaunchPlan {
        status: STARTING_STATUS,
        program: node,
        args,
        dir: vendor_root,
        variable: "DSH_HOME",
        value: data_home.to_owned(),
        stdin: LogStream::Null,
    };
    assert(plan@.args == plan_for(*node, *bin, *vendor_root, data_home@, port).args);
    plan
}

/// What the program is to do next.
pub enum BootAction<'a> {
    /// Find the bundled node binary.
    LocateNode,
    /// Find the directory of the runtime.
    LocateVendor,
    /// Look whether the entry of the runtime is there.
    CheckRuntime { vendor_root: &'a PathBuf },
    /// Ask the port for the service.
    Probe { port: u16 },
    /// Bring up the window on the service.
    Show { port: u16 },
    /// Launch the bundled service.
    Launch { plan: LaunchPlan<'a> },
    /// Look whether the launched service has exited.
    CheckChild,
    /// Read the time since the launch.
    CheckClock,
    /// Wait.
    Sleep { ms: u64 },
    /// The service is up. `launched` tells whether it is ours to end.
    Ready { launched: bool },
    /// The start failed.
    Fail { message: String },
}

/// What came of an action.
pub enum BootEvent {
    /// The path that was looked for, or why there is none.
    Located { path: Result<PathBuf, String> },
    /// The entry of the runtime, and whether it is there.
    Runtime { bin: PathBuf, present: bool },
    /// Whether the port answered as the service; `None` where nothing answered.
    Probed { answer: Option<bool> },
    /// Whether the window came up, or why not.
    Shown { result: Result<(), String> },
    /// Whether the service was launched, or why not.
    Launched { result: Result<(), String> },
    /// Whether the service has exited.
    Child { exited: bool },
    /// The time since the launch.
    Clock { elapsed_ms: u128 },
    /// The wait is over.
    Slept,
}

/// Where the start stands.
enum Phase {
    LocateNode,
    LocateVendor { node: PathBuf },
    CheckRuntime { node: PathBuf, vendor_root: PathBuf },
    FirstProbe { node: PathBuf, vendor_root: PathBuf, bin: PathBuf },
    Adopt,
    Launch { node: PathBuf, vendor_root: PathBuf, bin: PathBuf },
    Probe,
    Show,
    CheckChild,
    CheckClock,
    Sleep,
    Ready { launched: bool },
    Failed { message: String },
}

/// Where the start stands, as a mathematical value.
pub enum BootPhase {
    /// The node binary is looked for.
    LocateNode,
    /// The runtime is looked for.
    LocateVendor { node: PathBuf },
    /// The entry of the runtime is looked for.
    CheckRuntime { node: PathBuf, vendor_root: PathBuf },
    /// The port is asked before anything is launched.
    FirstProbe { node: PathBuf, vendor_root: PathBuf, bin: PathBuf },
    /// The window is brought up on a service that was there before.
    Adopt,
    /// The service is launched.
    Launch { node: PathBuf, vendor_root: PathBuf, bin: PathBuf },
    /// The port is asked for the launched service.
    Probe,
    /// The window is brought up on the launched service.
    Show,
    /// The launched service is looked at.
    CheckChild,
    /// The time since the launch is read.
    CheckClock,
    /// The next probe is waited for.
    Sleep,
    Ready { launched: bool },
    Failed { message: Seq<char> },
}

/// What the program is to do next, as a mathematical value.
pub enum BootActionModel {
    LocateNode,
    LocateVendor,
    CheckRuntime { vendor_root: PathBuf },
    Probe { port: u16 },
    Show { port: u16 },
    Launch { plan: PlanModel },
    CheckChild,
    CheckClock,
    Sleep { ms: u64 },
    Ready { launched: bool },
    Fail { message: Seq<char> },
}

/// What came of an action, as a mathematical value.
pub enum BootEventModel {
    Located { path: Result<PathBuf, Seq<char>> },
    Runtime { bin: PathBuf, present: bool },
    Probed { answer: Option<bool> },
    Shown { result: Result<(), Seq<char>> },
    Launched { result: Result<(), Seq<char>> },
    Child { exited: bool },
    Clock { elapsed_ms: u128 },
    Slept,
}

impl<'a> View for BootAction<'a> {
    type V = BootActionModel;

    open spec fn view(&self) -> BootActionModel {
        match self {
            BootAction::LocateNode => BootActionModel::LocateNode,
            BootAction::LocateVendor => BootActionModel::LocateVendor,
            BootAction::CheckRuntime { vendor_root } => BootActionModel::CheckRuntime {
                vendor_root: **vendor_root,
            },
            BootAction::Probe { port } => BootActionModel::Probe { port: *port },
            BootAction::Show { port } => BootActionModel::Show { port: *port },
            BootAction::Launch { plan } => BootActionModel::Launch { plan: plan@ },
            BootAction::CheckChild => BootActionModel::CheckChild,
            BootAction::CheckClock => BootActionModel::CheckClock,
            BootAction::Sleep { ms } => BootActionModel::Sleep { ms: *ms },
            BootAction::Ready { launched } => BootActionModel::Ready { launched: *launched },
            BootAction::Fail { message } => BootActionModel::Fail { message: message@ },
        }
    }
}

/// A result with its message as a sequence.
pub open spec fn done_view(result: Result<(), String>) -> Result<(), Seq<char>> {
    match result {
        Ok(done) => Ok(done),
        Err(message) => Err(message@),
    }
}

impl View for BootEvent {
    type V = BootEventModel;

    open spec fn view(&self) -> BootEventModel {
        match self {
            BootEvent::Located { path } => BootEventModel::Located {
                path: match path {
                    Ok(path) => Ok(*path),
                    Err(message) => Err(message@),
                },
            },
            BootEvent::Runtime { bin, present } => BootEventModel::Runtime {
                bin: *bin,
                present: *present,
            },
            BootEvent::Probed { answer } => BootEventModel::Probed { answer: *answer },
            BootEvent::Shown { result } => BootEventModel::Shown { result: done_view(*result) },
            BootEvent::Launched { result } => BootEventModel::Launched {
                result: done_view(*result),
            },
            BootEvent::Child { exited } => BootEventModel::Child { exited: *exited },
            BootEvent::Clock { elapsed_ms } => BootEventModel::Clock { elapsed_ms: *elapsed_ms },
            BootEvent::Slept => BootEventModel::Slept,
        }
    }
}

impl View for Phase {
    type V = BootPhase;

    closed spec fn view(&self) -> BootPhase {
        match self {
            Phase::LocateNode => BootPhase::LocateNode,
            Phase::LocateVendor { node } => BootPhase::LocateVendor { node: *node },
            Phase::CheckRuntime { node, vendor_root } => BootPhase::CheckRuntime {
                node: *node,
                vendor_root: *vendor_root,
            },
            Phase::FirstProbe { node, vendor_root, bin } => BootPhase::FirstProbe {
                node: *node,
                vendor_root: *vendor_root,
                bin: *bin,
            },
            Phase::Adopt => BootPhase::Adopt,
            Phase::Launch { node, vendor_root, bin } => BootPhase::Launch {
                node: *node,
                vendor_root: *vendor_root,
                bin: *bin,
            },
            Phase::Probe => BootPhase::Probe,
            Phase::Show => BootPhase::Show,
            Phase::CheckChild => BootPhase::CheckChild,
            Phase::CheckClock => BootPhase::CheckClock,
            Phase::Sleep => BootPhase::Sleep,
            Phase::Ready { launched } => BootPhase::Ready { launched: *launched },
            Phase::Failed { message } => BootPhase::Failed { message: message@ },
        }
    }
}

/// Why the start fails where the runtime is missing.
pub open spec fn missing_runtime(bin: Seq<char>) -> Seq<char> {
    "未找到内置运行时 "@ + bin + "；请先运行 build-runtime 装配运行时并重新打包"@
}

/// Why the start fails where another program holds the port.
pub open spec fn port_taken(port: u16) -> Seq<char> {
    "端口 "@ + decimal_of(port as nat) + " 已被其他程序占用，且响应页面不含 DSH 标记"@
}

/// Why the start fails where another program took the port after the launch.
pub open spec fn port_lost(port: u16) -> Seq<char> {
    "端口 "@ + decimal_of(port as nat) + " 被其他程序占用，且不是 DSH 服务"@
}

/// Why the start fails where the service cannot be launched.
pub open spec fn launch_failed(node: Seq<char>, error: Seq<char>) -> Seq<char> {
    "无法启动服务进程 "@ + node + ": "@ + error
}

/// Why the start fails where the service does not come up in time.
pub open spec fn not_ready(max_wait_ms: u64) -> Seq<char> {
    "服务在 "@ + decimal_of((max_wait_ms / 1000) as nat) + " 秒内未就绪"@
}

/// The state of the start.
pub struct BootModel {
    pub port: u16,
    pub max_wait_ms: u64,
    pub poll_ms: u64,
    /// The directory of the user data.
    pub data_home: Seq<char>,
    pub phase: BootPhase,
}

impl BootModel {
    /// The state at the start.
    pub open spec fn start(config: DshConfig, data_home: Seq<char>) -> BootModel {
        BootModel {
            port: config.port_in_force(),
            max_wait_ms: config.max_wait_in_force(),
            poll_ms: config.poll_in_force(),
            data_home,
            phase: BootPhase::LocateNode,
        }
    }

    pub open spec fn to(self, phase: BootPhase) -> BootModel {
        BootModel { phase, ..self }
    }

    pub open spec fn fail(self, message: Seq<char>) -> BootModel {
        self.to(BootPhase::Failed { message })
    }

    /// The state after an event. An event that does not answer the action at
    /// hand changes nothing.
    pub open spec fn after(self, event: BootEventModel) -> BootModel {
        match (self.phase, event) {
            (BootPhase::LocateNode, BootEventModel::Located { path }) => match path {
                Ok(node) => self.to(BootPhase::LocateVendor { node }),
                Err(message) => self.fail(message),
            },
            (BootPhase::LocateVendor { node }, BootEventModel::Located { path }) => match path {
                Ok(vendor_root) => self.to(BootPhase::CheckRuntime { node, vendor_root }),
                Err(message) => self.fail(message),
            },
            (
                BootPhase::CheckRuntime { node, vendor_root },
                BootEventModel::Runtime { bin, present },
            ) => if present {
                self.to(BootPhase::FirstProbe { node, vendor_root, bin })
            } else {
                self.fail(missing_runtime(path_text(bin)))
            },
            (
                BootPhase::FirstProbe { node, vendor_root, bin },
                BootEventModel::Probed { answer },
            ) => match answer {
                Some(true) => self.to(BootPhase::Adopt),
                Some(false) => self.fail(port_taken(self.port)),
                None => self.to(BootPhase::Launch { node, vendor_root, bin }),
            },
            (BootPhase::Adopt, BootEventModel::Shown { result }) => match result {
                Ok(_) => self.to(BootPhase::Ready { launched: false }),
                Err(message) => self.fail(message),
            },
            (
                BootPhase::Launch { node, vendor_root, bin },
                BootEventModel::Launched { result },
            ) => match result {
                Ok(_) => self.to(BootPhase::Probe),
                Err(error) => self.fail(launch_failed(path_text(node), error)),
            },
            (BootPhase::Probe, BootEventModel::Probed { answer }) => match answer {
                Some(true) => self.to(BootPhase::Show),
                Some(false) => self.fail(port_lost(self.port)),
                None => self.to(BootPhase::CheckChild),
            },
            (BootPhase::Show, BootEventModel::Shown { result }) => match result {
                Ok(_) => self.to(BootPhase::Ready { launched: true }),
                Err(message) => self.fail(message),
            },
            (BootPhase::CheckChild, BootEventModel::Child { exited }) => if exited {
                self.fail("服务进程异常退出"@)
            } else {
                self.to(BootPhase::CheckClock)
            },
            (BootPhase::CheckClock, BootEventModel::Clock { elapsed_ms }) => if elapsed_ms
                > self.max_wait_ms {
                self.fail(not_ready(self.max_wait_ms))
            } else {
                self.to(BootPhase::Sleep)
            },
            (BootPhase::Sleep, BootEventModel::Slept) => self.to(BootPhase::Probe),
            _ => self,
        }
    }

    /// What is to be done next.
    pub open spec fn action(self) -> BootActionModel {
        match self.phase {
            BootPhase::LocateNode => BootActionModel::LocateNode,
            BootPhase::LocateVendor { node } => BootActionModel::LocateVendor,
            BootPhase::CheckRuntime { node, vendor_root } => BootActionModel::CheckRuntime {
                vendor_root,
            },
            BootPhase::FirstProbe { node, vendor_root, bin } => BootActionModel::Probe {
                port: self.port,
            },
            BootPhase::Adopt => BootActionModel::Show { port: self.port },
            BootPhase::Launch { node, vendor_root, bin } => BootActionModel::Launch {
                plan: plan_for(node, bin, vendor_root, self.data_home, self.port),
            },
            BootPhase::Probe => BootActionModel::Probe { port: self.port },
            BootPhase::Show => BootActionModel::Show { port: self.port },
            BootPhase::CheckChild => BootActionModel::CheckChild,
            BootPhase::CheckClock => BootActionModel::CheckClock,
            BootPhase::Sleep => BootActionModel::Sleep { ms: self.poll_ms },
            BootPhase::Ready { launched } => BootActionModel::Ready { launched },
            BootPhase::Failed { message } => BootActionModel::Fail { message },
        }
    }
}

/// The start of the service.
pub struct Boot {
    port: u16,
    max_wait_ms: u64,
    poll_ms: u64,
    data_home: String,
    phase: Phase,
}

impl View for Boot {
    type V = BootModel;

    closed spec fn view(&self) -> BootModel {
        BootModel {
            port: self.port,
            max_wait_ms: self.max_wait_ms,
            poll_ms: self.poll_ms,
            data_home: self.data_home@,
            phase: self.phase@,
        }
    }
}

/// Begins the start with a configuration, on a system with these directories.
pub fn boot(
    config: &DshConfig,
    platform: Platform,
    home: Option<&str>,
    appdata: Option<&str>,
) -> (boot: Boot)
    ensures
        boot@ == BootModel::start(
            *config,
            crate::paths::expanded(
                config.data_home_in_force(),
                platform,
                str_view(home),
                str_view(appdata),
            ),
        ),
{
    Boot {
        port: config.port(),
        max_wait_ms: config.max_wait_ms(),
        poll_ms: config.poll_ms(),
        data_home: config.data_home(platform, home, appdata),
        phase: Phase::LocateNode,
    }
}

impl Boot {
    /// What is to be done next.
    pub fn action<'a>(&'a self) -> (action: BootAction<'a>)
        ensures
            action@ == self@.action(),
    {
        match &self.phase {
            Phase::LocateNode => BootAction::LocateNode,
            Phase::LocateVendor { node } => BootAction::LocateVendor,
            Phase::CheckRuntime { node, vendor_root } => BootAction::CheckRuntime { vendor_root },
            Phase::FirstProbe { node, vendor_root, bin } => BootAction::Probe { port: self.port },
            Phase::Adopt => BootAction::Show { port: self.port },
            Phase::Launch { node, vendor_root, bin } => BootAction::Launch {
                plan: launch_plan(node, bin, vendor_root, self.data_home.as_str(), self.port),
            },
            Phase::Probe => BootAction::Probe { port: self.port },
            Phase::Show => BootAction::Show { port: self.port },
            Phase::CheckChild => BootAction::CheckChild,
            Phase::CheckClock => BootAction::CheckClock,
            Phase::Sleep => BootAction::Sleep { ms: self.poll_ms },
            Phase::Ready { launched } => BootAction::Ready { launched: *launched },
            Phase::Failed { message } => BootAction::Fail { message: message.clone() },
        }
    }

    fn to(self, phase: Phase) -> (boot: Boot)
        ensures
            boot@ == self@.to(phase@),
    {
        Boot { phase, ..self }
    }

    fn fail(self, message: String) -> (boot: Boot)
        ensures
            boot@ == self@.fail(message@),
    {
        self.to(Phase::Failed { message })
    }

    /// The directory of the user data.
    pub fn data_home(&self) -> (path: &str)
        ensures
            path@ == self@.data_home,
    {
        self.data_home.as_str()
    }

    /// The start after an event. An event that does not answer the action at
    /// hand changes nothing.
    pub fn step(self, event: BootEvent) -> (boot: Boot)
        ensures
            boot@ == self@.after(event@),
    {
        let ghost before = self@;
        let Boot { port, max_wait_ms, poll_ms, data_home, phase } = self;
        let rest = Boot { port, max_wait_ms, poll_ms, data_home, phase: Phase::Adopt };
        assert(before.phase == phase@);
        match (phase, event) {
            (Phase::LocateNode, BootEvent::Located { path }) => match path {
                Ok(node) => rest.to(Phase::LocateVendor { node }),
                Err(message) => rest.fail(message),
            },
            (Phase::LocateVendor { node }, BootEvent::Located { path }) => match path {
                Ok(vendor_root) => rest.to(Phase::CheckRuntime { node, vendor_root }),
                Err(message) => rest.fail(message),
            },
            (Phase::CheckRuntime { node, vendor_root }, BootEvent::Runtime { bin, present }) => {
                if present {
                    rest.to(Phase::FirstProbe { node, vendor_root, bin })
                } else {
                    rest.fail(
                        text3(
                            "未找到内置运行时 ",
                            text_of_path(&bin).as_str(),
                            "；请先运行 build-runtime 装配运行时并重新打包",
                        ),
                    )
                }
            },
            (
                Phase::FirstProbe { node, vendor_root, bin },
                BootEvent::Probed { answer },
            ) => match answer {
                Some(true) => rest.to(Phase::Adopt),
                Some(false) => rest.fail(
                    text3(
                        "端口 ",
                        decimal(port as u64).as_str(),
                        " 已被其他程序占用，且响应页面不含 DSH 标记",
                    ),
                ),
                None => rest.to(Phase::Launch { node, vendor_root, bin }),
            },
            (Phase::Adopt, BootEvent::Shown { result }) => match result {
                Ok(_) => rest.to(Phase::Ready { launched: false }),
                Err(message) => rest.fail(message),
            },
            (Phase::Launch { node, vendor_root, bin }, BootEvent::Launched { result }) => {
                match result {
                    Ok(_) => rest.to(Phase::Probe),
                    Err(error) => {
                        let mut message = text3(
                            "无法启动服务进程 ",
                            text_of_path(&node).as_str(),
                            ": ",
                        );
                        message.append(error.as_str());
                        rest.fail(message)
                    },
                }
            },
            (Phase::Probe, BootEvent::Probed { answer }) => match answer {
                Some(true) => rest.to(Phase::Show),
                Some(false) => rest.fail(
                    text3(
                        "端口 ",
                        decimal(port as u64).as_str(),
                        " 被其他程序占用，且不是 DSH 服务",
                    ),
                ),
                None => rest.to(Phase::CheckChild),
            },
            (Phase::Show, BootEvent::Shown { result }) => match result {
                Ok(_) => rest.to(Phase::Ready { launched: true }),
                Err(message) => rest.fail(message),
            },
            (Phase::CheckChild, BootEvent::Child { exited }) => if exited {
                rest.fail("服务进程异常退出".to_owned())
            } else {
                rest.to(Phase::CheckClock)
            },
            (Phase::CheckClock, BootEvent::Clock { elapsed_ms }) => if elapsed_ms
                > max_wait_ms as u128 {
                rest.fail(
                    text3(
                        "服务在 ",
                        decimal(max_wait_ms / 1000).as_str(),
                        " 秒内未就绪",
                    ),
                )
            } else {
                rest.to(Phase::Sleep)
            },
            (Phase::Sleep, BootEvent::Slept) => rest.to(Phase::Probe),
            (phase, _) => rest.to(phase),
        }
    }
}

/// Where the output and the errors of the service go. The errors need a handle of
/// their own on the log. A log that could not be opened, or that gave no second
/// handle, never keeps the service from starting.
pub fn service_output(log_opened: bool, cloned: bool) -> (streams: (LogStream, LogStream))
    ensures
        streams.0 == if log_opened {
            LogStream::Log
        } else {
            LogStream::Null
        },
        streams.1 == if log_opened && cloned {
            LogStream::Log
        } else {
            LogStream::Null
        },
{
    if log_opened {
        if cloned {
            (LogStream::Log, LogStream::Log)
        } else {
            (LogStream::Log, LogStream::Null)
        }
    } else {
        (LogStream::Null, LogStream::Null)
    }
}

/// The state after a run of events.
pub open spec fn after_all(state: BootModel, events: Seq<BootEventModel>) -> BootModel
    decreases events.len(),
{
    if events.len() == 0 {
        state
    } else {
        after_all(state, events.drop_last()).after(events.last())
    }
}

/// How often a run launches the service.
pub open spec fn launches(state: BootModel, events: Seq<BootEventModel>) -> nat
    decreases events.len(),
{
    if events.len() == 0 {
        0
    } else {
        let before = after_all(state, events.drop_last());
        launches(state, events.drop_last()) + if before.phase is Launch && events.last() is Launched {
            1nat
        } else {
            0nat
        }
    }
}

/// Whether the port has answered as the service in a run.
pub open spec fn was_recognised(events: Seq<BootEventModel>) -> bool {
    events.contains(BootEventModel::Probed { answer: Some(true) })
}

/// Whether a phase comes before any launch.
spec fn before_launch(phase: BootPhase) -> bool {
    match phase {
        BootPhase::LocateNode | BootPhase::LocateVendor { .. } | BootPhase::CheckRuntime { .. }
        | BootPhase::FirstProbe { .. } | BootPhase::Launch { .. } => true,
        _ => false,
    }
}

/// Whether a phase comes after a launch.
spec fn after_launch(phase: BootPhase) -> bool {
    match phase {
        BootPhase::Probe | BootPhase::Show | BootPhase::CheckChild | BootPhase::CheckClock
        | BootPhase::Sleep => true,
        _ => false,
    }
}

/// A start launches the service at most once. When it is ready, the service
/// counts as launched exactly if this start launched it, and the port has
/// answered as the service.
pub proof fn service_is_launched_at_most_once(
    config: DshConfig,
    data_home: Seq<char>,
    events: Seq<BootEventModel>,
)
    ensures
        launches(BootModel::start(config, data_home), events) <= 1,
        match after_all(BootModel::start(config, data_home), events).phase {
            BootPhase::Ready { launched } => launched == (launches(
                BootModel::start(config, data_home),
                events,
            ) == 1) && was_recognised(events),
            _ => true,
        },
{
    launch_history(config, data_home, events);
}

proof fn launch_history(config: DshConfig, data_home: Seq<char>, events: Seq<BootEventModel>)
    ensures
        ({
            let start = BootModel::start(config, data_home);
            let state = after_all(start, events);
            let count = launches(start, events);
            &&& count <= 1
            &&& before_launch(state.phase) || state.phase is Adopt ==> count == 0
            &&& after_launch(state.phase) ==> count == 1
            &&& state.phase is Adopt || state.phase is Show || state.phase is Ready
                ==> was_recognised(events)
            &&& match state.phase {
                BootPhase::Ready { launched } => launched == (count == 1),
                _ => true,
            }
        }),
    decreases events.len(),
{
    if events.len() > 0 {
        launch_history(config, data_home, events.drop_last());
        let before = after_all(BootModel::start(config, data_home), events.drop_last());
        assert(events.drop_last().push(events.last()) == events);
        if was_recognised(events.drop_last()) {
            let i = choose|i: int|
                0 <= i < events.drop_last().len() && events.drop_last()[i]
                    == (BootEventModel::Probed { answer: Some(true) });
            assert(events[i] == events.drop_last()[i]);
        }
        assert(events[events.len() - 1] == events.last());
    }
}

/// A service that answers before the launch is taken over: nothing is launched,
/// and the window is brought up on it.
pub proof fn running_service_is_taken_over(state: BootModel)
    requires
        state.phase is FirstProbe,
    ensures
        state.after(BootEventModel::Probed { answer: Some(true) }).action() == (
        BootActionModel::Show { port: state.port }),
        state.after(BootEventModel::Probed { answer: Some(true) }).after(
            BootEventModel::Shown { result: Ok(()) },
        ).action() == (BootActionModel::Ready { launched: false }),
{
}

/// Where nothing answers on the port, the bundled service is launched with what
/// was found: the bundled node on the entry of the runtime, in the directory of
/// the runtime, with the configured data directory. If that fails, so does the
/// start.
pub proof fn bundled_service_is_launched(
    config: DshConfig,
    data_home: Seq<char>,
    node: PathBuf,
    vendor_root: PathBuf,
    bin: PathBuf,
    error: Seq<char>,
)
    ensures
        ({
            let launching = BootModel::start(config, data_home).after(
                BootEventModel::Located { path: Ok(node) },
            ).after(BootEventModel::Located { path: Ok(vendor_root) }).after(
                BootEventModel::Runtime { bin, present: true },
            ).after(BootEventModel::Probed { answer: None });
            &&& launching.action() == (BootActionModel::Launch {
                plan: plan_for(node, bin, vendor_root, data_home, config.port_in_force()),
            })
            &&& launching.after(BootEventModel::Launched { result: Err(error) }).action() == (
            BootActionModel::Fail { message: launch_failed(path_text(node), error) })
        }),
{
}

/// While the port is silent, the service lives and the longest wait is not
/// over, the start waits and asks again. Once the longest wait is over it fails.
pub proof fn start_waits_as_long_as_configured(state: BootModel, elapsed_ms: u128)
    requires
        state.phase is Probe,
    ensures
        ({
            let waiting = state.after(BootEventModel::Probed { answer: None }).after(
                BootEventModel::Child { exited: false },
            ).after(BootEventModel::Clock { elapsed_ms });
            &&& elapsed_ms <= state.max_wait_ms ==> {
                &&& waiting.action() == (BootActionModel::Sleep { ms: state.poll_ms })
                &&& waiting.after(BootEventModel::Slept) == state
            }
            &&& elapsed_ms > state.max_wait_ms ==> waiting.action() == (BootActionModel::Fail {
                message: not_ready(state.max_wait_ms),
            })
        }),
{
}

/// A start that is over, well or not, stays as it is.
pub proof fn finished_start_stays(state: BootModel, event: BootEventModel)
    requires
        state.phase is Ready || state.phase is Failed,
    ensures
        state.after(event) == state,
{
}

/// The service is launched as the bundled node on the entry of the runtime: it
/// runs in the runtime's directory as a web service on the port, opens no browser,
/// finds the data directory in `DSH_HOME` and gets no input.
pub proof fn service_is_launched_like_this<'a>(
    node: &'a PathBuf,
    bin: &'a PathBuf,
    vendor_root: &'a PathBuf,
    data_home: &str,
    port: u16,
    plan: LaunchPlan<'a>,
)
    requires
        call_ensures(launch_plan, (node, bin, vendor_root, data_home, port), plan),
    ensures
        *plan.program == *node,
        *plan.dir == *vendor_root,
        plan.variable@ == "DSH_HOME"@,
        plan.value@ == data_home@,
        plan.stdin == LogStream::Null,
        plan.status@ == "正在启动内置服务…"@,
        plan.args@.len() == 6,
        plan.args@[0]@ == ArgModel::Text("--expose-internals"@),
        plan.args@[1]@ == ArgModel::Path(*bin),
        plan.args@[2]@ == ArgModel::Text("web"@),
        plan.args@[3]@ == ArgModel::Text("--port"@),
        plan.args@[4]@ is Text && crate::text::number_of(plan.args@[4]@->Text_0) == port,
        plan.args@[5]@ == ArgModel::Text("--no-open"@),
{
    crate::text::decimal_stands_for_the_number(port as nat);
    let args = plan@.args;
    assert(args.len() == plan.args@.len());
    assert(args[0] == plan.args@[0]@ && args[1] == plan.args@[1]@ && args[2] == plan.args@[2]@);
    assert(args[3] == plan.args@[3]@ && args[4] == plan.args@[4]@ && args[5] == plan.args@[5]@);
}

/// The runtime is looked for where the assembly puts it: its entry is in the place
/// of the command line package.
pub proof fn entry_is_in_the_command_line_package()
    ensures
        BIN_PATH@ == "node_modules/"@ + crate::tree::CLI_PLACE@ + "/lib/bin.js"@,
        VENDOR_RESOURCE@ == "vendor/dsh"@,
        SERVICE_LOG@ == "dsh-service.log"@,
{
    reveal_strlit("node_modules/@deepseek-ai/dsh/lib/bin.js");
    reveal_strlit("node_modules/");
    reveal_strlit("@deepseek-ai/dsh");
    reveal_strlit("/lib/bin.js");
}

/// A start begins with the configured values: the port that is asked and launched
/// on, the wait, the time between two probes and the data directory are those of
/// the configuration.
pub proof fn start_has_the_configured_values(
    config: DshConfig,
    platform: Platform,
    home: Option<&str>,
    appdata: Option<&str>,
    begun: Boot,
    port: u16,
    max_wait_ms: u64,
    poll_ms: u64,
    data_home: String,
)
    requires
        call_ensures(boot, (&config, platform, home, appdata), begun),
        call_ensures(DshConfig::port, (&config,), port),
        call_ensures(DshConfig::max_wait_ms, (&config,), max_wait_ms),
        call_ensures(DshConfig::poll_ms, (&config,), poll_ms),
        call_ensures(DshConfig::data_home, (&config, platform, home, appdata), data_home),
    ensures
        begun@.port == port,
        begun@.max_wait_ms == max_wait_ms,
        begun@.poll_ms == poll_ms,
        begun@.data_home == data_home@,
        begun@.action() == BootActionModel::LocateNode,
{
}

/// Before the port is asked, the node binary, the runtime and its entry have to be
/// there, in this order: what is missing ends the start with its message, and the
/// entry that is missing is named.
pub proof fn runtime_has_to_be_there(
    config: DshConfig,
    data_home: Seq<char>,
    node: PathBuf,
    vendor_root: PathBuf,
    bin: PathBuf,
    message: Seq<char>,
)
    ensures
        ({
            let start = BootModel::start(config, data_home);
            let found = start.after(BootEventModel::Located { path: Ok(node) });
            let both = found.after(BootEventModel::Located { path: Ok(vendor_root) });
            &&& start.action() == BootActionModel::LocateNode
            &&& start.after(BootEventModel::Located { path: Err(message) }).action() == (
            BootActionModel::Fail { message })
            &&& found.action() == BootActionModel::LocateVendor
            &&& found.after(BootEventModel::Located { path: Err(message) }).action() == (
            BootActionModel::Fail { message })
            &&& both.action() == (BootActionModel::CheckRuntime { vendor_root })
            &&& both.after(BootEventModel::Runtime { bin, present: false }).action() == (
            BootActionModel::Fail {
                message: "未找到内置运行时 "@ + path_text(bin)
                    + "；请先运行 build-runtime 装配运行时并重新打包"@,
            })
            &&& both.after(BootEventModel::Runtime { bin, present: true }).action() == (
            BootActionModel::Probe { port: config.port_in_force() })
        }),
{
}

/// A port on which another program answers ends the start, before the launch as
/// well as after it, and the message names the port. Nothing is launched or shown
/// on it.
pub proof fn other_programs_keep_their_port(state: BootModel)
    requires
        state.phase is FirstProbe || state.phase is Probe,
    ensures
        ({
            let end = state.after(BootEventModel::Probed { answer: Some(false) });
            &&& state.action() == (BootActionModel::Probe { port: state.port })
            &&& end.action() is Fail
            &&& exists|digits: Seq<char>|
                crate::text::number_of(digits) == state.port && #[trigger] ("端口 "@ + digits) + (
                if state.phase is FirstProbe {
                    " 已被其他程序占用，且响应页面不含 DSH 标记"@
                } else {
                    " 被其他程序占用，且不是 DSH 服务"@
                }) == end.action()->message
        }),
{
    crate::text::decimal_stands_for_the_number(state.port as nat);
}

/// Once the launched service answers, the window is brought up on it and the start
/// is over, with the service to be ended by the shell. A window that cannot be
/// brought up ends the start with its message, whoever started the service.
pub proof fn answering_service_is_shown(state: BootModel, message: Seq<char>)
    requires
        state.phase is Probe,
    ensures
        ({
            let shown = state.after(BootEventModel::Probed { answer: Some(true) });
            &&& shown.action() == (BootActionModel::Show { port: state.port })
            &&& shown.after(BootEventModel::Shown { result: Ok(()) }).action() == (
            BootActionModel::Ready { launched: true })
            &&& shown.after(BootEventModel::Shown { result: Err(message) }).action() == (
            BootActionModel::Fail { message })
            &&& state.to(BootPhase::Adopt).after(
                BootEventModel::Shown { result: Err(message) },
            ).action() == (BootActionModel::Fail { message })
        }),
{
}

/// While the port is silent, the launched service is looked at before the clock: a
/// service that has exited ends the start at once, whatever time is left. The
/// message of a start that took too long names the whole seconds that were waited.
pub proof fn dead_service_is_not_waited_for(state: BootModel, elapsed_ms: u128)
    requires
        state.phase is Probe,
    ensures
        ({
            let silent = state.after(BootEventModel::Probed { answer: None });
            let late = silent.after(BootEventModel::Child { exited: false }).after(
                BootEventModel::Clock { elapsed_ms },
            );
            &&& silent.action() == BootActionModel::CheckChild
            &&& silent.after(BootEventModel::Child { exited: true }).action() == (
            BootActionModel::Fail { message: "服务进程异常退出"@ })
            &&& silent.after(BootEventModel::Child { exited: false }).action()
                == BootActionModel::CheckClock
            &&& elapsed_ms > state.max_wait_ms ==> late.action() is Fail && exists|
                digits: Seq<char>,
            |
                crate::text::number_of(digits) == state.max_wait_ms / 1000 && #[trigger] ("服务在 "@
                    + digits + " 秒内未就绪"@) == late.action()->message
            &&& elapsed_ms <= state.max_wait_ms ==> late.action() == (BootActionModel::Sleep {
                ms: state.poll_ms,
            })
        }),
{
    crate::text::decimal_stands_for_the_number((state.max_wait_ms / 1000) as nat);
}

/// Whether an event is of the kind that an action asks for.
pub open spec fn is_answer(action: BootActionModel, event: BootEventModel) -> bool {
    match action {
        BootActionModel::LocateNode => event is Located,
        BootActionModel::LocateVendor => event is Located,
        BootActionModel::CheckRuntime { .. } => event is Runtime,
        BootActionModel::Probe { .. } => event is Probed,
        BootActionModel::Show { .. } => event is Shown,
        BootActionModel::Launch { .. } => event is Launched,
        BootActionModel::CheckChild => event is Child,
        BootActionModel::CheckClock => event is Clock,
        BootActionModel::Sleep { .. } => event is Slept,
        _ => false,
    }
}

/// An event moves the start exactly where it is of the kind that was asked for, and
/// never changes the configured values.
pub proof fn only_answers_move_the_start(start: Boot, event: BootEvent, next: Boot)
    requires
        call_ensures(Boot::step, (start, event), next),
    ensures
        next@ != start@ <==> is_answer(start@.action(), event@),
        next@.port == start@.port,
        next@.max_wait_ms == start@.max_wait_ms,
        next@.poll_ms == start@.poll_ms,
        next@.data_home == start@.data_home,
{
}

/// Output and errors of the service go to the log exactly as far as there are
/// handles on it, and nowhere else.
pub proof fn output_goes_to_the_log(
    log_opened: bool,
    cloned: bool,
    streams: (LogStream, LogStream),
)
    requires
        call_ensures(service_output, (log_opened, cloned), streams),
    ensures
        streams.0 == LogStream::Log <==> log_opened,
        streams.1 == LogStream::Log <==> log_opened && cloned,
{
}

/// A service that was launched is asked for on its port. One that could not be
/// launched ends the start, and the message names the program and the reason.
pub proof fn launched_service_is_asked_for(state: BootModel, error: Seq<char>)
    requires
        state.phase is Launch,
    ensures
        ({
            let launched = state.after(BootEventModel::Launched { result: Ok(()) });
            &&& launched.action() == (BootActionModel::Probe { port: state.port })
            &&& launched.phase is Probe
            &&& state.after(BootEventModel::Launched { result: Err(error) }).action() == (
            BootActionModel::Fail {
                message: "无法启动服务进程 "@ + path_text(state.phase->Launch_node) + ": "@ + error,
            })
        }),
{
}

} // verus!
