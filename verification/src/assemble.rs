//! The assembly of the runtime as a whole, and its command line.

use crate::node_fetch::node_file_name;
use crate::paths::Platform;
use crate::text::{same_text, text3};
use vstd::prelude::*;

verus! {

/// What follows the first `flag` from index `from` on.
pub open spec fn value_after(args: Seq<Seq<char>>, flag: Seq<char>, from: int) -> Option<Seq<char>>
    decreases args.len() - from,
{
    if from < 0 || from >= args.len() {
        None
    } else if args[from] == flag {
        if from + 1 < args.len() {
            Some(args[from + 1])
        } else {
            None
        }
    } else {
        value_after(args, flag, from + 1)
    }
}

/// The value of a flag on the command line: what follows its first occurrence.
pub fn arg_value(args: &Vec<String>, flag: &str) -> (value: Option<String>)
    ensures
        crate::json::text_view(value) == value_after(crate::text::views(args@), flag@, 0),
{
    let mut i: usize = 0;
    while i < args.len()
        invariant
            i <= args.len(),
            value_after(crate::text::views(args@), flag@, 0) == value_after(
                crate::text::views(args@),
                flag@,
                i as int,
            ),
        decreases args.len() - i,
    {
        if same_text(args[i].as_str(), flag) {
            if i + 1 < args.len() {
                return Some(args[i + 1].clone());
            }
            return None;
        }
        i = i + 1;
    }
    None
}

/// Where the main repository lies: as the command line says, else the
/// environment, else in the default place.
pub fn resolve_repo(argument: Option<String>, environment: Option<String>, default: String) -> (repo:
    String)
    ensures
        repo@ == match (argument, environment) {
            (Some(path), _) => path@,
            (None, Some(path)) => path@,
            (None, None) => default@,
        },
{
    match argument {
        Some(path) => path,
        None => match environment {
            Some(path) => path,
            None => default,
        },
    }
}

/// The stages of the assembly.
#[derive(Clone, Copy, Debug, PartialEq, Eq, Structural)]
pub enum BuildStage {
    /// Copy the dependency closure.
    Materialize,
    /// Remove what the runtime does not need.
    Prune,
    /// Pack the tree.
    Bundle,
    /// Fetch the node binary.
    FetchNode,
}

/// Where the assembly stands.
pub enum Run {
    /// This stage is to be done.
    At(BuildStage),
    /// All is done.
    Finished,
    /// A stage failed.
    Failed(String),
}

/// Where the assembly stands, as a mathematical value.
pub enum RunModel {
    At(BuildStage),
    Finished,
    Failed(Seq<char>),
}

impl View for Run {
    type V = RunModel;

    open spec fn view(&self) -> RunModel {
        match self {
            Run::At(stage) => RunModel::At(*stage),
            Run::Finished => RunModel::Finished,
            Run::Failed(message) => RunModel::Failed(message@),
        }
    }
}

/// Why the assembly fails where there is no main repository.
pub open spec fn no_repo(repo: Seq<char>) -> Seq<char> {
    "主仓库不存在："@ + repo
        + "\n请用 --repo <主仓库路径> 或 DSH_REPO 环境变量指定。"@
}

impl RunModel {
    /// After a stage ended, well or with a message.
    pub open spec fn after(self, result: Result<(), Seq<char>>) -> RunModel {
        match (self, result) {
            (RunModel::At(stage), Ok(_)) => match stage {
                BuildStage::Materialize => RunModel::At(BuildStage::Prune),
                BuildStage::Prune => RunModel::At(BuildStage::Bundle),
                BuildStage::Bundle => RunModel::At(BuildStage::FetchNode),
                BuildStage::FetchNode => RunModel::Finished,
            },
            (RunModel::At(stage), Err(message)) => RunModel::Failed(message),
            _ => self,
        }
    }
}

/// Starts the assembly, if the main repository is there.
pub fn run(repo_present: bool, repo: &str) -> (run: Run)
    ensures
        run@ == if repo_present {
            RunModel::At(BuildStage::Materialize)
        } else {
            RunModel::Failed(no_repo(repo@))
        },
{
    if repo_present {
        return Run::At(BuildStage::Materialize);
    }
    Run::Failed(
        text3(
            "主仓库不存在：",
            repo,
            "\n请用 --repo <主仓库路径> 或 DSH_REPO 环境变量指定。",
        ),
    )
}

impl Run {
    /// Goes on after a stage ended. A stage that failed ends the assembly.
    pub fn step(self, result: Result<(), String>) -> (run: Run)
        ensures
            run@ == self@.after(crate::boot::done_view(result)),
    {
        match (self, result) {
            (Run::At(stage), Ok(_)) => match stage {
                BuildStage::Materialize => Run::At(BuildStage::Prune),
                BuildStage::Prune => Run::At(BuildStage::Bundle),
                BuildStage::Bundle => Run::At(BuildStage::FetchNode),
                BuildStage::FetchNode => Run::Finished,
            },
            (Run::At(_), Err(message)) => Run::Failed(message),
            (other, _) => other,
        }
    }
}

/// The assembly is finished exactly when the tree was copied, pruned and packed
/// and node was fetched, in this order and each with success.
pub proof fn all_stages_make_a_runtime(
    copied: Result<(), Seq<char>>,
    pruned: Result<(), Seq<char>>,
    packed: Result<(), Seq<char>>,
    fetched: Result<(), Seq<char>>,
)
    ensures
        ({
            let end = RunModel::At(BuildStage::Materialize).after(copied).after(pruned).after(
                packed,
            ).after(fetched);
            &&& end is Finished <==> copied is Ok && pruned is Ok && packed is Ok && fetched is Ok
            &&& match (copied, pruned, packed, fetched) {
                (Err(message), _, _, _) => end == RunModel::Failed(message),
                (Ok(_), Err(message), _, _) => end == RunModel::Failed(message),
                (Ok(_), Ok(_), Err(message), _) => end == RunModel::Failed(message),
                (Ok(_), Ok(_), Ok(_), Err(message)) => end == RunModel::Failed(message),
                (Ok(_), Ok(_), Ok(_), Ok(_)) => true,
            }
        }),
{
}

/// What is said when all is done.
pub fn completion_line(platform: Platform) -> (line: String)
    ensures
        line@ == "\n[build-runtime] 完成：resources/dsh.zip + resources/"@
            + crate::node_fetch::node_file(platform)
            + " 已就绪，可执行 cargo run / tauri build。"@,
{
    text3(
        "\n[build-runtime] 完成：resources/dsh.zip + resources/",
        node_file_name(platform),
        " 已就绪，可执行 cargo run / tauri build。",
    )
}

/// The value of a flag is what follows it where it stands first, whatever that is.
/// A flag that stands nowhere, or last, has none.
pub proof fn value_follows_the_first_flag(
    args: Vec<String>,
    flag: &str,
    value: Option<String>,
    at: int,
)
    requires
        call_ensures(arg_value, (&args, flag), value),
    ensures
        0 <= at < args@.len() && args@[at]@ == flag@ && (forall|i: int|
            0 <= i < at ==> (#[trigger] args@[i])@ != flag@) ==> crate::json::text_view(value) == (
        if at + 1 < args@.len() {
            Some(args@[at + 1]@)
        } else {
            None
        }),
        (forall|i: int| 0 <= i < args@.len() ==> (#[trigger] args@[i])@ != flag@) ==> value is None,
{
    let texts = crate::text::views(args@);
    assert(texts.len() == args@.len());
    assert(forall|i: int| 0 <= i < args@.len() ==> texts[i] == (#[trigger] args@[i])@);
    if 0 <= at < args@.len() && args@[at]@ == flag@ && (forall|i: int|
        0 <= i < at ==> (#[trigger] args@[i])@ != flag@) {
        value_from(texts, flag@, 0, at);
    }
    if forall|i: int| 0 <= i < args@.len() ==> (#[trigger] args@[i])@ != flag@ {
        value_from(texts, flag@, 0, texts.len() as int);
    }
}

proof fn value_from(args: Seq<Seq<char>>, flag: Seq<char>, from: int, to: int)
    requires
        0 <= from <= to <= args.len(),
        forall|i: int| from <= i < to ==> #[trigger] args[i] != flag,
    ensures
        value_after(args, flag, from) == value_after(args, flag, to),
    decreases to - from,
{
    if from < to {
        assert(args[from] != flag);
        value_from(args, flag, from + 1, to);
    }
}

/// The repository is the one on the command line, where that is given, else that
/// of the environment, else the default.
pub proof fn command_line_goes_before_the_environment(
    argument: Option<String>,
    environment: Option<String>,
    default: String,
    repo: String,
)
    requires
        call_ensures(resolve_repo, (argument, environment, default), repo),
    ensures
        argument is Some ==> repo@ == argument->0@,
        argument is None && environment is Some ==> repo@ == environment->0@,
        argument is None && environment is None ==> repo@ == default@,
{
}

/// The assembly begins with the copying if there is a repository, and goes on to
/// the pruning, the packing and the fetching of node, each once the one before it
/// ended well. A stage that fails ends it with its message, and what is over stays
/// over.
pub proof fn stages_follow_each_other(
    repo_present: bool,
    repo: &str,
    begun: Run,
    run: Run,
    result: Result<(), String>,
    next: Run,
)
    requires
        call_ensures(self::run, (repo_present, repo), begun),
        call_ensures(Run::step, (run, result), next),
    ensures
        repo_present ==> begun == Run::At(BuildStage::Materialize),
        !repo_present ==> begun is Failed && exists|before: Seq<char>, after: Seq<char>| #[trigger]
            (before + repo@ + after) == (begun->Failed_0)@,
        match (run, result) {
            (Run::At(BuildStage::Materialize), Ok(_)) => next == Run::At(BuildStage::Prune),
            (Run::At(BuildStage::Prune), Ok(_)) => next == Run::At(BuildStage::Bundle),
            (Run::At(BuildStage::Bundle), Ok(_)) => next == Run::At(BuildStage::FetchNode),
            (Run::At(BuildStage::FetchNode), Ok(_)) => next is Finished,
            (Run::At(_), Err(message)) => next is Failed && (next->Failed_0)@ == message@,
            (Run::Finished, _) => next is Finished,
            (Run::Failed(message), _) => next is Failed && (next->Failed_0)@ == message@,
        },
{
    if !repo_present {
        assert(("主仓库不存在："@ + repo@
            + "\n请用 --repo <主仓库路径> 或 DSH_REPO 环境变量指定。"@) == (begun->Failed_0)@);
    }
}

/// The last line names the file that the download of node leaves.
pub proof fn completion_names_the_node_file(
    platform: Platform,
    line: String,
    name: &'static str,
)
    requires
        call_ensures(completion_line, (platform,), line),
        call_ensures(node_file_name, (platform,), name),
    ensures
        line@ == "\n[build-runtime] 完成：resources/dsh.zip + resources/"@ + name@
            + " 已就绪，可执行 cargo run / tauri build。"@,
{
}

} // verus!
