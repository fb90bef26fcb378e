//! The download of the bundled node binary: what is fetched from where, and
//! what is done with it. Paths are below the resource directory.

use crate::paths::{str_view, Platform};
use crate::search::{first_good_is_found, Search};
use crate::text::{chars_of, decimal, same_text, starts_with, text2, text3, text_of};
use vstd::prelude::*;

verus! {

/// At most so many bytes are read of a response.
pub const MAX_DOWNLOAD_BYTES: u64 = 200_000_000;

/// One step of the download.
pub enum FetchStep {
    /// Fetch the first of the addresses that gives at least so many bytes, and
    /// write it; if none does, fail.
    Download { urls: Vec<String>, min_bytes: usize, archive: String, failure: String },
    /// Unpack the zip archive, which holds one directory.
    Unzip { archive: String, dir: String },
    /// Unpack the compressed tar archive, which holds one directory.
    Untar { archive: String, dir: String, failure: String },
    /// Fail if the file is not there.
    Require { path: String, failure: String },
    /// Move a file.
    Rename { from: String, to: String },
    /// Join two binaries into one for both architectures.
    Lipo { first: String, second: String, to: String, failure: String },
    /// Remove a directory; it does not matter if that fails.
    RemoveDir { path: String },
    /// Remove a file; it does not matter if that fails.
    RemoveFile { path: String },
}

/// One step of the download, as a mathematical value.
pub enum StepModel {
    Download { urls: Seq<Seq<char>>, min_bytes: int, archive: Seq<char>, failure: Seq<char> },
    Unzip { archive: Seq<char>, dir: Seq<char> },
    Untar { archive: Seq<char>, dir: Seq<char>, failure: Seq<char> },
    Require { path: Seq<char>, failure: Seq<char> },
    Rename { from: Seq<char>, to: Seq<char> },
    Lipo { first: Seq<char>, second: Seq<char>, to: Seq<char>, failure: Seq<char> },
    RemoveDir { path: Seq<char> },
    RemoveFile { path: Seq<char> },
}

impl View for FetchStep {
    type V = StepModel;

    open spec fn view(&self) -> StepModel {
        match self {
            FetchStep::Download { urls, min_bytes, archive, failure } => StepModel::Download {
                urls: crate::text::views(urls@),
                min_bytes: *min_bytes as int,
                archive: archive@,
                failure: failure@,
            },
            FetchStep::Unzip { archive, dir } => StepModel::Unzip {
                archive: archive@,
                dir: dir@,
            },
            FetchStep::Untar { archive, dir, failure } => StepModel::Untar {
                archive: archive@,
                dir: dir@,
                failure: failure@,
            },
            FetchStep::Require { path, failure } => StepModel::Require {
                path: path@,
                failure: failure@,
            },
            FetchStep::Rename { from, to } => StepModel::Rename { from: from@, to: to@ },
            FetchStep::Lipo { first, second, to, failure } => StepModel::Lipo {
                first: first@,
                second: second@,
                to: to@,
                failure: failure@,
            },
            FetchStep::RemoveDir { path } => StepModel::RemoveDir { path: path@ },
            FetchStep::RemoveFile { path } => StepModel::RemoveFile { path: path@ },
        }
    }
}

/// The steps of a list.
pub open spec fn steps_view(steps: Seq<FetchStep>) -> Seq<StepModel> {
    steps.map_values(|step: FetchStep| step@)
}

/// The file that the download leaves.
pub open spec fn node_file(platform: Platform) -> Seq<char> {
    if platform == Platform::Windows {
        "node.exe"@
    } else {
        "node"@
    }
}

/// The file that the download leaves.
pub fn node_file_name(platform: Platform) -> (name: &'static str)
    ensures
        name@ == node_file(platform),
{
    if platform == Platform::Windows {
        "node.exe"
    } else {
        "node"
    }
}

/// The addresses of a file of a node version: the mirror first, then the
/// official one.
pub open spec fn source_urls(version: Seq<char>, file: Seq<char>) -> Seq<Seq<char>> {
    seq![
        "https://npmmirror.com/mirrors/node/v"@ + version + "/"@ + file,
        "https://nodejs.org/dist/v"@ + version + "/"@ + file,
    ]
}

/// The name of the Windows package of a version.
pub open spec fn windows_package(version: Seq<char>) -> Seq<char> {
    "node-v"@ + version + "-win-x64"@
}

/// The name of the macOS package of a version for an architecture.
pub open spec fn macos_package(version: Seq<char>, arch: Seq<char>) -> Seq<char> {
    "node-v"@ + version + "-darwin-"@ + arch
}

/// Where the binary for an architecture is kept until it is in place.
pub open spec fn staged_node(arch: Seq<char>) -> Seq<char> {
    "node-darwin-"@ + arch
}

/// The steps on Windows.
pub open spec fn windows_steps(version: Seq<char>) -> Seq<StepModel> {
    let package = windows_package(version);
    let archive = package + ".zip"@;
    seq![
        StepModel::Download {
            urls: source_urls(version, archive),
            min_bytes: 10_000_000,
            archive,
            failure: "所有下载源失败；请手动下载 node.exe 放到 resources/node.exe"@,
        },
        StepModel::Unzip { archive, dir: package },
        StepModel::Require {
            path: package + "/node.exe"@,
            failure: "node.zip 解压失败；请手动下载 node.exe 放到 resources/node.exe"@,
        },
        StepModel::Rename { from: package + "/node.exe"@, to: "node.exe"@ },
        StepModel::RemoveDir { path: package },
        StepModel::RemoveFile { path: archive },
    ]
}

/// The steps for one architecture on macOS. They leave the binary staged.
pub open spec fn macos_arch_steps(version: Seq<char>, arch: Seq<char>) -> Seq<StepModel> {
    let package = macos_package(version, arch);
    let archive = package + ".tar.gz"@;
    seq![
        StepModel::Download {
            urls: source_urls(version, archive),
            min_bytes: 15_000_000,
            archive,
            failure: "所有下载源失败；请手动下载 "@ + archive
                + "，解出其中的 bin/node 放到 resources/"@,
        },
        StepModel::Untar {
            archive,
            dir: package,
            failure: "tar 解压 "@ + archive + " 失败"@,
        },
        StepModel::RemoveFile { path: archive },
        StepModel::Require {
            path: package + "/bin/node"@,
            failure: archive + " 解压后未找到 bin/node"@,
        },
        StepModel::Rename { from: package + "/bin/node"@, to: staged_node(arch) },
        StepModel::RemoveDir { path: package },
    ]
}

/// The target on macOS: the requested one, else that of the machine.
pub open spec fn macos_target(machine: Seq<char>, requested: Option<Seq<char>>) -> Seq<char> {
    match requested {
        Some(target) => target,
        None => if machine == "aarch64"@ {
            "darwin-arm64"@
        } else {
            "darwin-x64"@
        },
    }
}

/// The steps on macOS for a target, or `None` where it is no such target.
pub open spec fn macos_steps(version: Seq<char>, target: Seq<char>) -> Option<Seq<StepModel>> {
    if target == "darwin-universal"@ {
        Some(
            macos_arch_steps(version, "x64"@) + macos_arch_steps(version, "arm64"@) + seq![
                StepModel::Lipo {
                    first: staged_node("x64"@),
                    second: staged_node("arm64"@),
                    to: "node"@,
                    failure: "lipo 合并通用 node 二进制失败"@,
                },
                StepModel::RemoveFile { path: staged_node("x64"@) },
                StepModel::RemoveFile { path: staged_node("arm64"@) },
            ],
        )
    } else if crate::text::occurs_at(target, "darwin-"@, 0) {
        let arch = target.skip("darwin-"@.len() as int);
        Some(
            macos_arch_steps(version, arch) + seq![
                StepModel::Rename { from: staged_node(arch), to: "node"@ },
            ],
        )
    } else {
        None
    }
}

/// What is to be done to get node.
pub enum NodePlan {
    /// Nothing: it is there.
    AlreadyThere,
    /// Nothing: the system has its own.
    NotOffered,
    /// These steps.
    Steps(Vec<FetchStep>),
}

fn sources(version: &str, file: &str) -> (urls: Vec<String>)
    ensures
        crate::text::views(urls@) == source_urls(version@, file@),
{
    let mut urls: Vec<String> = Vec::new();
    urls.push(
        text2(text3("https://npmmirror.com/mirrors/node/v", version, "/").as_str(), file),
    );
    urls.push(text2(text3("https://nodejs.org/dist/v", version, "/").as_str(), file));
    urls
}

/// The steps on Windows: the zip is fetched, `node.exe` taken out of it, and the
/// rest cleared away.
pub fn fetch_node_windows(version: &str) -> (steps: Vec<FetchStep>)
    ensures
        steps_view(steps@) == windows_steps(version@),
{
    let package = text3("node-v", version, "-win-x64");
    let archive = text2(package.as_str(), ".zip");
    let binary = text2(package.as_str(), "/node.exe");
    let mut steps: Vec<FetchStep> = Vec::new();
    steps.push(
        FetchStep::Download {
            urls: sources(version, archive.as_str()),
            min_bytes: 10_000_000,
            archive: archive.clone(),
            failure: "所有下载源失败；请手动下载 node.exe 放到 resources/node.exe".to_owned(),
        },
    );
    steps.push(FetchStep::Unzip { archive: archive.clone(), dir: package.clone() });
    steps.push(
        FetchStep::Require {
            path: binary.clone(),
            failure: "node.zip 解压失败；请手动下载 node.exe 放到 resources/node.exe".to_owned(),
        },
    );
    steps.push(FetchStep::Rename { from: binary, to: "node.exe".to_owned() });
    steps.push(FetchStep::RemoveDir { path: package });
    steps.push(FetchStep::RemoveFile { path: archive });
    steps
}

/// Appends the steps for one architecture on macOS.
fn fetch_macos_node_arch(steps: &mut Vec<FetchStep>, version: &str, arch: &str)
    ensures
        steps_view(final(steps)@) == steps_view(old(steps)@) + macos_arch_steps(version@, arch@),
{
    let package = text2(text3("node-v", version, "-darwin-").as_str(), arch);
    let archive = text2(package.as_str(), ".tar.gz");
    let binary = text2(package.as_str(), "/bin/node");
    steps.push(
        FetchStep::Download {
            urls: sources(version, archive.as_str()),
            min_bytes: 15_000_000,
            archive: archive.clone(),
            failure: text3(
                "所有下载源失败；请手动下载 ",
                archive.as_str(),
                "，解出其中的 bin/node 放到 resources/",
            ),
        },
    );
    steps.push(
        FetchStep::Untar {
            archive: archive.clone(),
            dir: package.clone(),
            failure: text3("tar 解压 ", archive.as_str(), " 失败"),
        },
    );
    steps.push(FetchStep::RemoveFile { path: archive.clone() });
    steps.push(
        FetchStep::Require {
            path: binary.clone(),
            failure: text2(archive.as_str(), " 解压后未找到 bin/node"),
        },
    );
    steps.push(FetchStep::Rename { from: binary, to: text2("node-darwin-", arch) });
    steps.push(FetchStep::RemoveDir { path: package });
    assert(steps_view(steps@) == steps_view(old(steps)@) + macos_arch_steps(version@, arch@));
}

/// The target on macOS: the requested one, else that of the machine.
fn node_target<'a>(machine: &str, requested: Option<&'a str>) -> (target: &'a str)
    ensures
        target@ == macos_target(machine@, str_view(requested)),
{
    match requested {
        Some(target) => target,
        None => if same_text(machine, "aarch64") {
            "darwin-arm64"
        } else {
            "darwin-x64"
        },
    }
}

/// The steps on macOS for the requested target, or for the architecture of the
/// machine. A binary for both architectures is joined from one of each.
pub fn fetch_node_macos(version: &str, machine: &str, requested: Option<&str>) -> (result: Result<
    Vec<FetchStep>,
    String,
>)
    ensures
        ({
            let target = macos_target(machine@, str_view(requested));
            match result {
                Ok(steps) => macos_steps(version@, target) == Some(steps_view(steps@)),
                Err(message) => macos_steps(version@, target) is None && message@
                    == "--node-target 应形如 darwin-x64 / darwin-arm64 / darwin-universal"@,
            }
        }),
{
    let target = node_target(machine, requested);
    let mut steps: Vec<FetchStep> = Vec::new();
    assert(steps_view(steps@) == Seq::<StepModel>::empty());
    if same_text(target, "darwin-universal") {
        fetch_macos_node_arch(&mut steps, version, "x64");
        fetch_macos_node_arch(&mut steps, version, "arm64");
        steps.push(
            FetchStep::Lipo {
                first: text2("node-darwin-", "x64"),
                second: text2("node-darwin-", "arm64"),
                to: "node".to_owned(),
                failure: "lipo 合并通用 node 二进制失败".to_owned(),
            },
        );
        steps.push(FetchStep::RemoveFile { path: text2("node-darwin-", "x64") });
        steps.push(FetchStep::RemoveFile { path: text2("node-darwin-", "arm64") });
        assert(steps_view(steps@) == macos_steps(version@, target@)->0);
        return Ok(steps);
    }
    let chars = chars_of(target);
    let prefix = chars_of("darwin-");
    if !starts_with(&chars, &prefix) {
        return Err(
            "--node-target 应形如 darwin-x64 / darwin-arm64 / darwin-universal".to_owned(),
        );
    }
    let arch = text_of(&chars, prefix.len(), chars.len());
    assert(arch@ == target@.skip(prefix@.len() as int));
    fetch_macos_node_arch(&mut steps, version, arch.as_str());
    steps.push(
        FetchStep::Rename { from: text2("node-darwin-", arch.as_str()), to: "node".to_owned() },
    );
    assert(steps_view(steps@) == macos_steps(version@, target@)->0);
    Ok(steps)
}

/// What is to be done to get node on a system. Where it is there already,
/// nothing is.
pub fn fetch_node_runtime(
    platform: Platform,
    present: bool,
    version: &str,
    machine: &str,
    requested: Option<&str>,
) -> (result: Result<NodePlan, String>)
    ensures
        ({
            let target = macos_target(machine@, str_view(requested));
            match platform {
                Platform::Other => result == Ok::<NodePlan, String>(NodePlan::NotOffered),
                Platform::Windows => if present {
                    result == Ok::<NodePlan, String>(NodePlan::AlreadyThere)
                } else {
                    result matches Ok(NodePlan::Steps(steps)) && steps_view(steps@) == windows_steps(
                        version@,
                    )
                },
                Platform::Macos => if present {
                    result == Ok::<NodePlan, String>(NodePlan::AlreadyThere)
                } else {
                    match macos_steps(version@, target) {
                        Some(wanted) => result matches Ok(NodePlan::Steps(steps)) && steps_view(
                            steps@,
                        ) == wanted,
                        None => result matches Err(message) && message@
                            == "--node-target 应形如 darwin-x64 / darwin-arm64 / darwin-universal"@,
                    }
                },
            }
        }),
{
    match platform {
        Platform::Other => Ok(NodePlan::NotOffered),
        Platform::Windows => if present {
            Ok(NodePlan::AlreadyThere)
        } else {
            Ok(NodePlan::Steps(fetch_node_windows(version)))
        },
        Platform::Macos => if present {
            Ok(NodePlan::AlreadyThere)
        } else {
            match fetch_node_macos(version, machine, requested) {
                Ok(steps) => Ok(NodePlan::Steps(steps)),
                Err(message) => Err(message),
            }
        },
    }
}

/// What is said once the steps are done. A system for which node is not fetched
/// has nothing to say.
pub fn ready_line(
    platform: Platform,
    version: &str,
    machine: &str,
    requested: Option<&str>,
) -> (line: Option<String>)
    ensures
        crate::json::text_view(line) == (match platform {
            Platform::Windows => Some("[build-runtime] node.exe 就绪：v"@ + version@),
            Platform::Macos => Some(
                "[build-runtime] node 就绪：v"@ + version@ + "（"@ + macos_target(
                    machine@,
                    str_view(requested),
                ) + "）"@,
            ),
            Platform::Other => None,
        }),
{
    match platform {
        Platform::Windows => Some(text2("[build-runtime] node.exe 就绪：v", version)),
        Platform::Macos => {
            let start = text3("[build-runtime] node 就绪：v", version, "（");
            Some(text3(start.as_str(), node_target(machine, requested), "）"))
        },
        Platform::Other => None,
    }
}

/// A response that is too short is taken for an error page.
pub fn check_download(length: usize, min_bytes: usize) -> (result: Result<(), String>)
    ensures
        match result {
            Ok(_) => length >= min_bytes,
            Err(message) => length < min_bytes && message@ == "响应尺寸异常（"@
                + crate::text::decimal_of(length as nat)
                + " 字节），疑似下载不完整"@,
        },
{
    if length < min_bytes {
        Err(
            text3(
                "响应尺寸异常（",
                decimal(length as u64).as_str(),
                " 字节），疑似下载不完整",
            ),
        )
    } else {
        Ok(())
    }
}

/// The addresses of a download are tried from the first one on: the first that
/// gives the file is used, and the download fails only where none does. `good`
/// tells of each address whether it gives the file.
pub proof fn first_good_source_is_used(version: Seq<char>, file: Seq<char>, good: Seq<bool>)
    requires
        good.len() == source_urls(version, file).len(),
    ensures
        match Search::started(source_urls(version, file).len() as int).after_all(good) {
            Search::Trying { .. } => false,
            Search::Found { index } => {
                &&& index < source_urls(version, file).len()
                &&& good[index as int]
                &&& forall|i: int| 0 <= i < index ==> !good[i]
            },
            Search::Exhausted => forall|i: int| 0 <= i < good.len() ==> !good[i],
        },
{
    first_good_is_found(good, source_urls(version, file).len() as int);
}

/// The names in the resource directory after a step.
pub open spec fn names_after(names: Set<Seq<char>>, step: StepModel) -> Set<Seq<char>> {
    match step {
        StepModel::Download { urls, min_bytes, archive, failure } => names.insert(archive),
        StepModel::Unzip { archive, dir } => names.insert(dir),
        StepModel::Untar { archive, dir, failure } => names.insert(dir),
        StepModel::Require { path, failure } => names,
        StepModel::Rename { from, to } => names.remove(from).insert(to),
        StepModel::Lipo { first, second, to, failure } => names.insert(to),
        StepModel::RemoveDir { path } => names.remove(path),
        StepModel::RemoveFile { path } => names.remove(path),
    }
}

/// The names in the resource directory after some steps.
pub open spec fn names_after_all(names: Set<Seq<char>>, steps: Seq<StepModel>) -> Set<Seq<char>>
    decreases steps.len(),
{
    if steps.len() == 0 {
        names
    } else {
        names_after(names_after_all(names, steps.drop_last()), steps.last())
    }
}

proof fn names_after_concat(names: Set<Seq<char>>, a: Seq<StepModel>, b: Seq<StepModel>)
    ensures
        names_after_all(names, a + b) == names_after_all(names_after_all(names, a), b),
    decreases b.len(),
{
    if b.len() == 0 {
        assert(a + b == a);
    } else {
        assert((a + b).drop_last() == a + b.drop_last());
        names_after_concat(names, a, b.drop_last());
    }
}

proof fn names_after_six(names: Set<Seq<char>>, steps: Seq<StepModel>)
    requires
        steps.len() == 6,
    ensures
        names_after_all(names, steps) == names_after(
            names_after(
                names_after(
                    names_after(
                        names_after(names_after(names, steps[0]), steps[1]),
                        steps[2],
                    ),
                    steps[3],
                ),
                steps[4],
            ),
            steps[5],
        ),
{
    let five = steps.drop_last();
    let four = five.drop_last();
    let three = four.drop_last();
    let two = three.drop_last();
    let one = two.drop_last();
    assert(one.drop_last().len() == 0);
    assert(names_after_all(names, one.drop_last()) == names);
    assert(names_after_all(names, one) == names_after(names, steps[0]));
    assert(names_after_all(names, two) == names_after(names_after_all(names, one), steps[1]));
    assert(names_after_all(names, three) == names_after(names_after_all(names, two), steps[2]));
    assert(names_after_all(names, four) == names_after(names_after_all(names, three), steps[3]));
    assert(names_after_all(names, five) == names_after(names_after_all(names, four), steps[4]));
}

/// The steps for one architecture leave the staged binary and, beyond what was
/// there, nothing else.
proof fn arch_steps_leave_the_binary(names: Set<Seq<char>>, version: Seq<char>, arch: Seq<char>)
    ensures
        ({
            let left = names_after_all(names, macos_arch_steps(version, arch));
            forall|name: Seq<char>| #[trigger]
                left.contains(name) ==> name == staged_node(arch) || names.contains(name)
        }),
{
    names_after_six(names, macos_arch_steps(version, arch));
}

proof fn names_after_one_or_three(names: Set<Seq<char>>, steps: Seq<StepModel>)
    requires
        1 <= steps.len() <= 3,
    ensures
        steps.len() == 1 ==> names_after_all(names, steps) == names_after(names, steps[0]),
        steps.len() == 3 ==> names_after_all(names, steps) == names_after(
            names_after(names_after(names, steps[0]), steps[1]),
            steps[2],
        ),
{
    if steps.len() == 1 {
        assert(names_after_all(names, steps.drop_last()) == names);
    } else if steps.len() == 3 {
        let two = steps.drop_last();
        let one = two.drop_last();
        assert(names_after_all(names, one.drop_last()) == names);
        assert(names_after_all(names, one) == names_after(names, steps[0]));
        assert(names_after_all(names, two) == names_after(names_after_all(names, one), steps[1]));
    }
}

/// A download on Windows leaves `node.exe` and, beyond what was there, nothing
/// else: neither the archive nor what was unpacked from it.
pub proof fn windows_download_leaves_only_node(names: Set<Seq<char>>, version: Seq<char>)
    ensures
        ({
            let left = names_after_all(names, windows_steps(version));
            &&& left.contains(node_file(Platform::Windows))
            &&& forall|name: Seq<char>| #[trigger]
                left.contains(name) ==> name == node_file(Platform::Windows) || names.contains(name)
        }),
{
    let package = windows_package(version);
    names_after_six(names, windows_steps(version));
    reveal_strlit("node-v");
    reveal_strlit("node.exe");
    assert(package[4] == '-');
    assert((package + ".zip"@)[4] == '-');
    assert("node.exe"@[4] == '.');
}

/// A download on macOS leaves `node` and, beyond what was there, nothing else:
/// neither the archives, nor what was unpacked from them, nor the binaries of
/// the single architectures.
pub proof fn macos_download_leaves_only_node(
    names: Set<Seq<char>>,
    version: Seq<char>,
    target: Seq<char>,
)
    requires
        macos_steps(version, target) is Some,
    ensures
        ({
            let left = names_after_all(names, macos_steps(version, target)->0);
            &&& left.contains(node_file(Platform::Macos))
            &&& forall|name: Seq<char>| #[trigger]
                left.contains(name) ==> name == node_file(Platform::Macos) || names.contains(name)
        }),
{
    reveal_strlit("node");
    reveal_strlit("node-darwin-");
    if target == "darwin-universal"@ {
        let x64 = macos_arch_steps(version, "x64"@);
        let arm64 = macos_arch_steps(version, "arm64"@);
        let all = macos_steps(version, target)->0;
        let rest = all.skip((x64.len() + arm64.len()) as int);
        assert(all == x64 + arm64 + rest);
        names_after_concat(names, x64 + arm64, rest);
        names_after_concat(names, x64, arm64);
        let after_x64 = names_after_all(names, x64);
        let after_arm64 = names_after_all(after_x64, arm64);
        arch_steps_leave_the_binary(names, version, "x64"@);
        arch_steps_leave_the_binary(after_x64, version, "arm64"@);
        names_after_one_or_three(after_arm64, rest);
        assert(staged_node("x64"@).len() != "node"@.len());
        assert(staged_node("arm64"@).len() != "node"@.len());
    } else {
        let arch = target.skip("darwin-"@.len() as int);
        let steps = macos_arch_steps(version, arch);
        let rest = seq![StepModel::Rename { from: staged_node(arch), to: "node"@ }];
        names_after_concat(names, steps, rest);
        arch_steps_leave_the_binary(names, version, arch);
        names_after_one_or_three(names_after_all(names, steps), rest);
    }
}

/// What the download works with: what each address gives, how large that is, the
/// files that are in an archive, by their paths, and what two binaries are joined
/// to. What a file holds is known by a number.
pub struct Supply {
    pub served: Map<Seq<char>, int>,
    pub size: spec_fn(int) -> int,
    pub unpacked: spec_fn(int) -> Map<Seq<char>, int>,
    pub joined: spec_fn(int, int) -> int,
}

impl Supply {
    /// Whether an address gives at least so many bytes.
    pub open spec fn gives(self, url: Seq<char>, min_bytes: int) -> bool {
        self.served.contains_key(url) && (self.size)(self.served[url]) >= min_bytes
    }

    /// What the first address from number `from` on gives that gives at least so
    /// many bytes.
    pub open spec fn first_given(self, urls: Seq<Seq<char>>, min_bytes: int, from: int) -> Option<
        int,
    >
        decreases urls.len() - from,
    {
        if from < 0 || from >= urls.len() {
            None
        } else if self.gives(urls[from], min_bytes) {
            Some(self.served[urls[from]])
        } else {
            self.first_given(urls, min_bytes, from + 1)
        }
    }
}

/// What a download from a mirror and an official address gives: what the mirror
/// gives where that is enough, else what the official address gives.
pub open spec fn given(
    supply: Supply,
    mirror: Seq<char>,
    official: Seq<char>,
    min_bytes: int,
) -> Option<int> {
    if supply.gives(mirror, min_bytes) {
        Some(supply.served[mirror])
    } else if supply.gives(official, min_bytes) {
        Some(supply.served[official])
    } else {
        None
    }
}

/// Whether all files lie below a directory.
pub open spec fn all_below(files: Map<Seq<char>, int>, dir: Seq<char>) -> bool {
    forall|path: Seq<char>| #[trigger] files.contains_key(path) ==> is_below(path, dir)
}

/// Whether a path lies below a directory.
pub open spec fn is_below(path: Seq<char>, dir: Seq<char>) -> bool {
    exists|rest: Seq<char>| #[trigger] (dir + "/"@ + rest) == path
}

/// The files in the resource directory after a step, by their paths; where it
/// fails, the message, if the step has one.
pub open spec fn performed(
    supply: Supply,
    files: Map<Seq<char>, int>,
    step: StepModel,
) -> Result<Map<Seq<char>, int>, Option<Seq<char>>> {
    match step {
        StepModel::Download { urls, min_bytes, archive, failure } => match supply.first_given(
            urls,
            min_bytes,
            0,
        ) {
            Some(content) => Ok(files.insert(archive, content)),
            None => Err(Some(failure)),
        },
        StepModel::Unzip { archive, dir } => if files.contains_key(archive) {
            Ok(files.union_prefer_right((supply.unpacked)(files[archive])))
        } else {
            Err(None)
        },
        StepModel::Untar { archive, dir, failure } => if files.contains_key(archive) {
            Ok(files.union_prefer_right((supply.unpacked)(files[archive])))
        } else {
            Err(Some(failure))
        },
        StepModel::Require { path, failure } => if files.contains_key(path) {
            Ok(files)
        } else {
            Err(Some(failure))
        },
        StepModel::Rename { from, to } => if files.contains_key(from) {
            Ok(files.remove(from).insert(to, files[from]))
        } else {
            Err(None)
        },
        StepModel::Lipo { first, second, to, failure } => if files.contains_key(first)
            && files.contains_key(second) {
            Ok(files.insert(to, (supply.joined)(files[first], files[second])))
        } else {
            Err(Some(failure))
        },
        StepModel::RemoveDir { path } => Ok(
            files.restrict(Set::new(|name: Seq<char>| !is_below(name, path))),
        ),
        StepModel::RemoveFile { path } => Ok(files.remove(path)),
    }
}

/// The files in the resource directory after some steps. A step that fails ends
/// them.
pub open spec fn performed_all(
    supply: Supply,
    files: Map<Seq<char>, int>,
    steps: Seq<StepModel>,
) -> Result<Map<Seq<char>, int>, Option<Seq<char>>>
    decreases steps.len(),
{
    if steps.len() == 0 {
        Ok(files)
    } else {
        match performed_all(supply, files, steps.drop_last()) {
            Ok(left) => performed(supply, left, steps.last()),
            Err(message) => Err(message),
        }
    }
}

proof fn performed_concat(
    supply: Supply,
    files: Map<Seq<char>, int>,
    a: Seq<StepModel>,
    b: Seq<StepModel>,
)
    ensures
        performed_all(supply, files, a + b) == (match performed_all(supply, files, a) {
            Ok(left) => performed_all(supply, left, b),
            Err(message) => Err(message),
        }),
    decreases b.len(),
{
    if b.len() == 0 {
        assert(a + b == a);
    } else {
        assert((a + b).drop_last() == a + b.drop_last());
        performed_concat(supply, files, a, b.drop_last());
    }
}

proof fn performed_one_more(
    supply: Supply,
    files: Map<Seq<char>, int>,
    steps: Seq<StepModel>,
    count: int,
)
    requires
        0 <= count < steps.len(),
    ensures
        performed_all(supply, files, steps.take(0)) == Ok::<
            Map<Seq<char>, int>,
            Option<Seq<char>>,
        >(files),
        performed_all(supply, files, steps.take(count + 1)) == (match performed_all(
            supply,
            files,
            steps.take(count),
        ) {
            Ok(left) => performed(supply, left, steps[count]),
            Err(message) => Err(message),
        }),
{
    assert(steps.take(count + 1).drop_last() == steps.take(count));
}

/// What a download of a file of a version gives: the mirror's where that gives
/// enough, else the official one.
proof fn sources_in_order(supply: Supply, version: Seq<char>, file: Seq<char>, min_bytes: int)
    ensures
        ({
            let mirror = "https://npmmirror.com/mirrors/node/v"@ + version + "/"@ + file;
            let official = "https://nodejs.org/dist/v"@ + version + "/"@ + file;
            supply.first_given(source_urls(version, file), min_bytes, 0) == given(
                supply,
                mirror,
                official,
                min_bytes,
            )
        }),
{
    let urls = source_urls(version, file);
    assert(supply.first_given(urls, min_bytes, 2) is None);
    assert(supply.first_given(urls, min_bytes, 1) == if supply.gives(urls[1], min_bytes) {
        Some(supply.served[urls[1]])
    } else {
        None
    });
}

/// Whether a file is in the way of a download: it lies below the directory of the
/// package, or has the name of the archive or of the staged binary.
pub open spec fn is_in_the_way(
    name: Seq<char>,
    dir: Seq<char>,
    archive: Seq<char>,
    staged: Seq<char>,
) -> bool {
    is_below(name, dir) || name == archive || name == staged
}

/// Whether `new` is there with its content, nothing is left that is in the way, and
/// all other files are what they were.
pub open spec fn only_added(
    left: Map<Seq<char>, int>,
    files: Map<Seq<char>, int>,
    new: Seq<char>,
    content: int,
    dir: Seq<char>,
    archive: Seq<char>,
    staged: Seq<char>,
) -> bool {
    &&& left.contains_key(new) && left[new] == content
    &&& forall|name: Seq<char>| #[trigger]
        left.contains_key(name) && name != new ==> files.contains_key(name) && left[name]
            == files[name] && !is_in_the_way(name, dir, archive, staged)
    &&& forall|name: Seq<char>| #[trigger]
        files.contains_key(name) && name != new && !is_in_the_way(name, dir, archive, staged)
            ==> left.contains_key(name)
}

/// Paths that start differently are not below each other's.
proof fn not_below(path: Seq<char>, dir: Seq<char>, at: int)
    requires
        0 <= at < dir.len(),
        path.len() <= at || path[at] != dir[at],
    ensures
        !is_below(path, dir),
{
    if is_below(path, dir) {
        let rest = choose|rest: Seq<char>| #[trigger] (dir + "/"@ + rest) == path;
        assert((dir + "/"@ + rest)[at] == dir[at]);
    }
}

/// What the steps for one architecture do, where an address gives its archive.
proof fn arch_steps_stage_the_binary(
    supply: Supply,
    files: Map<Seq<char>, int>,
    version: Seq<char>,
    arch: Seq<char>,
)
    ensures
        ({
            let package = "node-v"@ + version + "-darwin-"@ + arch;
            let archive = package + ".tar.gz"@;
            let given = supply.first_given(source_urls(version, archive), 15_000_000, 0);
            let end = performed_all(supply, files, macos_arch_steps(version, arch));
            match given {
                None => end == Err::<Map<Seq<char>, int>, Option<Seq<char>>>(
                    Some(
                        "所有下载源失败；请手动下载 "@ + archive
                            + "，解出其中的 bin/node 放到 resources/"@,
                    ),
                ),
                Some(content) => {
                    let inside = (supply.unpacked)(content);
                    all_below(inside, package) ==> {
                        &&& inside.contains_key(package + "/bin/node"@) ==> end is Ok && only_added(
                            end->Ok_0,
                            files,
                            "node-darwin-"@ + arch,
                            inside[package + "/bin/node"@],
                            package,
                            archive,
                            archive,
                        )
                        &&& !inside.contains_key(package + "/bin/node"@) && !files.contains_key(
                            package + "/bin/node"@,
                        ) ==> end == Err::<Map<Seq<char>, int>, Option<Seq<char>>>(
                            Some(archive + " 解压后未找到 bin/node"@),
                        )
                    }
                },
            }
        }),
{
    let package = "node-v"@ + version + "-darwin-"@ + arch;
    let archive = package + ".tar.gz"@;
    let binary = package + "/bin/node"@;
    let staged = "node-darwin-"@ + arch;
    let steps = macos_arch_steps(version, arch);
    reveal_strlit("node-v");
    reveal_strlit("node-darwin-");
    reveal_strlit(".tar.gz");
    reveal_strlit("/bin/node");
    reveal_strlit("bin/node");
    reveal_strlit("/");
    performed_one_more(supply, files, steps, 0);
    performed_one_more(supply, files, steps, 1);
    performed_one_more(supply, files, steps, 2);
    performed_one_more(supply, files, steps, 3);
    performed_one_more(supply, files, steps, 4);
    performed_one_more(supply, files, steps, 5);
    assert(steps.take(6) == steps);
    assert(staged[5] == 'd' && package[5] == 'v' && archive[5] == 'v' && binary[5] == 'v');
    assert(archive.len() != binary.len());
    not_below(staged, package, 5);
    assert(package + "/"@ + "bin/node"@ == binary);
    assert(is_below(binary, package));
    assert(archive[package.len() as int] == '.');
    if is_below(archive, package) {
        let rest = choose|rest: Seq<char>| #[trigger] (package + "/"@ + rest) == archive;
        assert((package + "/"@ + rest)[package.len() as int] == '/');
    }
}

/// A download on macOS puts the binary of the official package in place: `node`
/// is what `bin/node` is in the archive of the architecture. The archive comes
/// from the mirror if that gives it, else from the official address, and counts
/// from 15000000 bytes on. Nothing else is left of it, and other files stay as
/// they were. The architecture is that of the requested target, else that of the
/// machine. Where no address gives the archive, or it has no such file, the
/// download fails and says so.
pub proof fn macos_download_installs_the_binary(
    version: &str,
    machine: &str,
    requested: Option<&str>,
    result: Result<Vec<FetchStep>, String>,
    supply: Supply,
    files: Map<Seq<char>, int>,
    arch: Seq<char>,
)
    requires
        call_ensures(fetch_node_macos, (version, machine, requested), result),
        match requested {
            Some(target) => target@ == "darwin-"@ + arch && arch != "universal"@,
            None => arch == if machine@ == "aarch64"@ {
                "arm64"@
            } else {
                "x64"@
            },
        },
    ensures
        ({
            let package = "node-v"@ + version@ + "-darwin-"@ + arch;
            let archive = package + ".tar.gz"@;
            let mirror = "https://npmmirror.com/mirrors/node/v"@ + version@ + "/"@ + archive;
            let official = "https://nodejs.org/dist/v"@ + version@ + "/"@ + archive;
            let end = performed_all(supply, files, steps_view(result->Ok_0@));
            &&& result is Ok
            &&& match given(supply, mirror, official, 15_000_000) {
                Some(content) => {
                    let inside = (supply.unpacked)(content);
                    all_below(inside, package) ==> {
                        &&& inside.contains_key(package + "/bin/node"@) ==> end is Ok && only_added(
                            end->Ok_0,
                            files,
                            "node"@,
                            inside[package + "/bin/node"@],
                            package,
                            archive,
                            "node-darwin-"@ + arch,
                        )
                        &&& !inside.contains_key(package + "/bin/node"@) && !files.contains_key(
                            package + "/bin/node"@,
                        ) ==> end == Err::<Map<Seq<char>, int>, Option<Seq<char>>>(
                            Some(archive + " 解压后未找到 bin/node"@),
                        )
                    }
                },
                None => end == Err::<Map<Seq<char>, int>, Option<Seq<char>>>(
                    Some(
                        "所有下载源失败；请手动下载 "@ + archive
                            + "，解出其中的 bin/node 放到 resources/"@,
                    ),
                ),
            }
        }),
{
    reveal_strlit("darwin-");
    reveal_strlit("darwin-universal");
    reveal_strlit("universal");
    reveal_strlit("darwin-arm64");
    reveal_strlit("arm64");
    reveal_strlit("darwin-x64");
    reveal_strlit("x64");
    reveal_strlit("node");
    reveal_strlit("node-v");
    reveal_strlit("node-darwin-");
    reveal_strlit("aarch64");
    let target = macos_target(machine@, str_view(requested));
    let package = "node-v"@ + version@ + "-darwin-"@ + arch;
    let archive = package + ".tar.gz"@;
    let staged = "node-darwin-"@ + arch;
    assert(target == "darwin-"@ + arch) by {
        if requested is None {
            if machine@ == "aarch64"@ {
                assert("darwin-arm64"@ == "darwin-"@ + "arm64"@);
            } else {
                assert("darwin-x64"@ == "darwin-"@ + "x64"@);
            }
        }
    }
    if target == "darwin-universal"@ {
        assert("darwin-universal"@.skip(7) == "universal"@);
        assert(target.skip(7) == arch);
        assert("x64"@.len() != "universal"@.len() && "arm64"@.len() != "universal"@.len());
    }
    assert(target.subrange(0, 7) == "darwin-"@);
    assert(target.skip(7) == arch);
    let steps = macos_arch_steps(version@, arch);
    let last = seq![StepModel::Rename { from: staged, to: "node"@ }];
    assert(macos_steps(version@, target) == Some(steps + last));
    sources_in_order(supply, version@, archive, 15_000_000);
    arch_steps_stage_the_binary(supply, files, version@, arch);
    performed_concat(supply, files, steps, last);
    if let Ok(left) = performed_all(supply, files, steps) {
        performed_one_more(supply, left, last, 0);
        assert(last.take(1) == last);
        assert(staged.len() > 4);
        not_below("node"@, package, 4);
        assert(archive.len() > 4);
    }
}

/// A download on macOS for both architectures puts the two official binaries,
/// joined, in place of `node`, and leaves nothing else.
pub proof fn universal_download_joins_both_binaries(
    version: &str,
    machine: &str,
    requested: &str,
    result: Result<Vec<FetchStep>, String>,
    supply: Supply,
    files: Map<Seq<char>, int>,
    x64: int,
    arm64: int,
)
    requires
        call_ensures(fetch_node_macos, (version, machine, Some(requested)), result),
        requested@ == "darwin-universal"@,
        is_supplied(supply, version@, "x64"@, x64),
        is_supplied(supply, version@, "arm64"@, arm64),
    ensures
        ({
            let end = performed_all(supply, files, steps_view(result->Ok_0@));
            &&& result is Ok
            &&& end is Ok
            &&& end->Ok_0.contains_key("node"@)
            &&& end->Ok_0["node"@] == (supply.joined)(x64, arm64)
            &&& forall|name: Seq<char>| #[trigger]
                end->Ok_0.contains_key(name) && name != "node"@ ==> files.contains_key(name)
                    && end->Ok_0[name] == files[name]
        }),
{
    reveal_strlit("node");
    reveal_strlit("x64");
    reveal_strlit("arm64");
    reveal_strlit("node-v");
    reveal_strlit("node-darwin-");
    let first = macos_arch_steps(version@, "x64"@);
    let second = macos_arch_steps(version@, "arm64"@);
    let staged_x64 = "node-darwin-"@ + "x64"@;
    let staged_arm64 = "node-darwin-"@ + "arm64"@;
    let package = "node-v"@ + version@ + "-darwin-"@ + "arm64"@;
    let all = macos_steps(version@, requested@)->0;
    let rest = all.skip((first.len() + second.len()) as int);
    assert(all == first + second + rest);
    assert(staged_x64.len() != staged_arm64.len());
    assert(staged_x64.len() > 4 && staged_arm64.len() > 4);
    assert(staged_x64[5] == 'd' && package[5] == 'v' && (package + ".tar.gz"@)[5] == 'v');
    not_below(staged_x64, package, 5);
    sources_in_order(
        supply,
        version@,
        "node-v"@ + version@ + "-darwin-"@ + "x64"@ + ".tar.gz"@,
        15_000_000,
    );
    sources_in_order(supply, version@, package + ".tar.gz"@, 15_000_000);
    arch_steps_stage_the_binary(supply, files, version@, "x64"@);
    performed_concat(supply, files, first + second, rest);
    performed_concat(supply, files, first, second);
    let one = performed_all(supply, files, first)->Ok_0;
    arch_steps_stage_the_binary(supply, one, version@, "arm64"@);
    let two = performed_all(supply, one, second)->Ok_0;
    assert(two.contains_key(staged_x64) && two[staged_x64] == x64) by {
        assert(one.contains_key(staged_x64));
    }
    assert(rest.len() == 3);
    performed_one_more(supply, two, rest, 0);
    performed_one_more(supply, two, rest, 1);
    performed_one_more(supply, two, rest, 2);
    assert(rest.take(3) == rest);
}

/// Whether an address gives the macOS archive of a version for an architecture,
/// with its files below one directory and `content` in `bin/node`.
pub open spec fn is_supplied(
    supply: Supply,
    version: Seq<char>,
    arch: Seq<char>,
    content: int,
) -> bool {
    let package = "node-v"@ + version + "-darwin-"@ + arch;
    let archive = package + ".tar.gz"@;
    let mirror = "https://npmmirror.com/mirrors/node/v"@ + version + "/"@ + archive;
    let official = "https://nodejs.org/dist/v"@ + version + "/"@ + archive;
    match given(supply, mirror, official, 15_000_000) {
        Some(archived) => {
            let inside = (supply.unpacked)(archived);
            &&& all_below(inside, package)
            &&& inside.contains_key(package + "/bin/node"@)
            &&& inside[package + "/bin/node"@] == content
        },
        None => false,
    }
}

/// A target that does not start with `darwin-` is rejected, and no other one is.
pub proof fn other_targets_are_rejected(
    version: &str,
    machine: &str,
    requested: Option<&str>,
    result: Result<Vec<FetchStep>, String>,
)
    requires
        call_ensures(fetch_node_macos, (version, machine, requested), result),
    ensures
        result is Ok <==> requested is None || exists|arch: Seq<char>| #[trigger]
            ("darwin-"@ + arch) == requested->0@,
        result is Err ==> result->Err_0@
            == "--node-target 应形如 darwin-x64 / darwin-arm64 / darwin-universal"@,
{
    reveal_strlit("darwin-");
    reveal_strlit("darwin-universal");
    reveal_strlit("darwin-arm64");
    reveal_strlit("darwin-x64");
    let target = macos_target(machine@, str_view(requested));
    assert("darwin-arm64"@.subrange(0, 7) == "darwin-"@);
    assert("darwin-x64"@.subrange(0, 7) == "darwin-"@);
    assert("darwin-universal"@.subrange(0, 7) == "darwin-"@);
    if target.len() >= 7 && target.subrange(0, 7) == "darwin-"@ {
        assert("darwin-"@ + target.skip(7) == target);
    }
    if requested is Some {
        assert forall|arch: Seq<char>| #[trigger]
            ("darwin-"@ + arch) == requested->0@ implies target.subrange(0, 7) == "darwin-"@ by {
            assert(("darwin-"@ + arch).subrange(0, 7) == "darwin-"@);
        }
    }
}

/// A download on Windows puts the binary of the official package in place:
/// `node.exe` is the file of that name in the archive. The archive comes from the
/// mirror if that gives it, else from the official address, and counts from
/// 10000000 bytes on. Nothing else is left of it, and other files stay as they
/// were. Where no address gives the archive, or it has no such file, the download
/// fails and says so.
pub proof fn windows_download_installs_the_binary(
    version: &str,
    steps: Vec<FetchStep>,
    supply: Supply,
    files: Map<Seq<char>, int>,
)
    requires
        call_ensures(fetch_node_windows, (version,), steps),
    ensures
        ({
            let package = "node-v"@ + version@ + "-win-x64"@;
            let archive = package + ".zip"@;
            let mirror = "https://npmmirror.com/mirrors/node/v"@ + version@ + "/"@ + archive;
            let official = "https://nodejs.org/dist/v"@ + version@ + "/"@ + archive;
            let end = performed_all(supply, files, steps_view(steps@));
            match given(supply, mirror, official, 10_000_000) {
                Some(content) => {
                    let inside = (supply.unpacked)(content);
                    all_below(inside, package) ==> {
                        &&& inside.contains_key(package + "/node.exe"@) ==> end is Ok && only_added(
                            end->Ok_0,
                            files,
                            "node.exe"@,
                            inside[package + "/node.exe"@],
                            package,
                            archive,
                            archive,
                        )
                        &&& !inside.contains_key(package + "/node.exe"@) && !files.contains_key(
                            package + "/node.exe"@,
                        ) ==> end == Err::<Map<Seq<char>, int>, Option<Seq<char>>>(
                            Some(
                                "node.zip 解压失败；请手动下载 node.exe 放到 resources/node.exe"@,
                            ),
                        )
                    }
                },
                None => end == Err::<Map<Seq<char>, int>, Option<Seq<char>>>(
                    Some("所有下载源失败；请手动下载 node.exe 放到 resources/node.exe"@),
                ),
            }
        }),
{
    let package = "node-v"@ + version@ + "-win-x64"@;
    let archive = package + ".zip"@;
    let binary = package + "/node.exe"@;
    let plan = windows_steps(version@);
    reveal_strlit("node-v");
    reveal_strlit("node.exe");
    reveal_strlit(".zip");
    reveal_strlit("/node.exe");
    reveal_strlit("/");
    sources_in_order(supply, version@, archive, 10_000_000);
    performed_one_more(supply, files, plan, 0);
    performed_one_more(supply, files, plan, 1);
    performed_one_more(supply, files, plan, 2);
    performed_one_more(supply, files, plan, 3);
    performed_one_more(supply, files, plan, 4);
    performed_one_more(supply, files, plan, 5);
    assert(plan.take(6) == plan);
    assert("node.exe"@[4] == '.' && package[4] == '-' && archive[4] == '-' && binary[4] == '-');
    assert(archive.len() != binary.len());
    not_below("node.exe"@, package, 4);
    assert(package + "/"@ + "node.exe"@ == binary);
    assert(is_below(binary, package));
    assert(archive[package.len() as int] == '.');
    if is_below(archive, package) {
        let rest = choose|rest: Seq<char>| #[trigger] (package + "/"@ + rest) == archive;
        assert((package + "/"@ + rest)[package.len() as int] == '/');
    }
}

/// Node that is there is never fetched again, and a system that has its own gets
/// none. Else the steps are those of the system, and a target that macOS rejects
/// is rejected with the same words.
pub proof fn runtime_is_fetched_where_it_is_missing(
    platform: Platform,
    present: bool,
    version: &str,
    machine: &str,
    requested: Option<&str>,
    result: Result<NodePlan, String>,
    windows: Vec<FetchStep>,
    macos: Result<Vec<FetchStep>, String>,
)
    requires
        call_ensures(
            fetch_node_runtime,
            (platform, present, version, machine, requested),
            result,
        ),
        call_ensures(fetch_node_windows, (version,), windows),
        call_ensures(fetch_node_macos, (version, machine, requested), macos),
    ensures
        platform == Platform::Other ==> result == Ok::<NodePlan, String>(NodePlan::NotOffered),
        platform != Platform::Other && present ==> result == Ok::<NodePlan, String>(
            NodePlan::AlreadyThere,
        ),
        platform == Platform::Windows && !present ==> result is Ok && result->Ok_0 is Steps
            && steps_view(((result->Ok_0)->Steps_0)@) == steps_view(windows@),
        platform == Platform::Macos && !present ==> match macos {
            Ok(steps) => result is Ok && result->Ok_0 is Steps && steps_view(
                ((result->Ok_0)->Steps_0)@,
            ) == steps_view(steps@),
            Err(message) => result is Err && result->Err_0@ == message@,
        },
{
}

/// The file that is looked for is the one that the download leaves: `node.exe` on
/// Windows, `node` elsewhere.
pub proof fn node_file_has_an_extension_on_windows(platform: Platform, name: &'static str)
    requires
        call_ensures(node_file_name, (platform,), name),
    ensures
        platform == Platform::Windows ==> name@ == "node.exe"@,
        platform != Platform::Windows ==> name@ == "node"@,
{
}

/// What is said of a download on macOS ends with the target in force: the
/// requested one, whatever that is, else that of the machine. On Windows only the
/// version is named.
pub proof fn ready_line_names_the_target(
    platform: Platform,
    version: &str,
    machine: &str,
    requested: Option<&str>,
    line: Option<String>,
)
    requires
        call_ensures(ready_line, (platform, version, machine, requested), line),
    ensures
        line is None <==> platform == Platform::Other,
        platform == Platform::Windows ==> line->0@ == "[build-runtime] node.exe 就绪：v"@ + version@,
        platform == Platform::Macos ==> line->0@ == "[build-runtime] node 就绪：v"@ + version@
            + "（"@ + (match requested {
            Some(target) => target@,
            None => if machine@ == "aarch64"@ {
                "darwin-arm64"@
            } else {
                "darwin-x64"@
            },
        }) + "）"@,
{
}

/// A response counts exactly from its least length on. The message that rejects
/// another names its length.
pub proof fn short_responses_are_rejected(
    length: usize,
    min_bytes: usize,
    result: Result<(), String>,
)
    requires
        call_ensures(check_download, (length, min_bytes), result),
    ensures
        result is Ok <==> min_bytes <= length,
        result is Err ==> exists|digits: Seq<char>|
            crate::text::number_of(digits) == length && #[trigger] ("响应尺寸异常（"@ + digits
                + " 字节），疑似下载不完整"@) == result->Err_0@,
{
    crate::text::decimal_stands_for_the_number(length as nat);
}

/// No more is read of a response than 200000000 bytes, which is more than any
/// download has to have.
pub proof fn downloads_fit(version: Seq<char>, arch: Seq<char>)
    ensures
        MAX_DOWNLOAD_BYTES == 200_000_000,
        windows_steps(version)[0] matches StepModel::Download { min_bytes, .. } && min_bytes
            == 10_000_000,
        macos_arch_steps(version, arch)[0] matches StepModel::Download { min_bytes, .. }
            && min_bytes == 15_000_000,
{
}

} // verus!
