//! Paths: where user data and resources lie.

use crate::text::{chars_of, replace_char, replace_text, starts_with, text2, text3, text_of};
use std::path::PathBuf;
use vstd::prelude::*;

verus! {

/// `std::path::PathBuf`, a path of the system.
#[verifier::external_type_specification]
#[verifier::external_body]
pub struct ExPathBuf(std::path::PathBuf);

/// A path as text, with a replacement character for what is not Unicode.
pub uninterp spec fn path_text(path: std::path::PathBuf) -> Seq<char>;

/// Calls `Path::to_string_lossy`. The text depends on the path alone.
#[verifier::external_body]
pub(crate) fn text_of_path(path: &PathBuf) -> (text: String)
    ensures
        text@ == path_text(*path),
{
    path.to_string_lossy().into_owned()
}

/// Calls `PathBuf::from` with a text. The path is that text.
#[verifier::external_body]
fn path_from_text(text: String) -> (path: PathBuf)
    ensures
        path_text(path) == text@,
{
    PathBuf::from(text)
}

/// The systems between which the shell tells apart.
#[derive(Clone, Copy, Debug, PartialEq, Eq, Structural)]
pub enum Platform {
    Windows,
    Macos,
    Other,
}

/// The resource name of the bundled node binary.
pub fn node_resource_name(platform: Platform) -> (name: &'static str)
    ensures
        name@ == if platform == Platform::Windows {
            "node/node.exe"@
        } else {
            "node/node"@
        },
{
    if platform == Platform::Windows {
        "node/node.exe"
    } else {
        "node/node"
    }
}

/// The user's home directory: `USERPROFILE` on Windows, `HOME` elsewhere; `None`
/// where that is not set.
pub fn home_env(platform: Platform, userprofile: Option<String>, home: Option<String>) -> (result:
    Option<String>)
    ensures
        result == if platform == Platform::Windows {
            userprofile
        } else {
            home
        },
{
    if platform == Platform::Windows {
        userprofile
    } else {
        home
    }
}

/// The text of an option.
pub open spec fn str_view(text: Option<&str>) -> Option<Seq<char>> {
    match text {
        Some(text) => Some(text@),
        None => None,
    }
}

/// A path template with `~` replaced by the home directory.
pub open spec fn with_home(template: Seq<char>, home: Option<Seq<char>>) -> Seq<char> {
    match home {
        Some(home) => crate::text::replaced(template, '~', home),
        None => template,
    }
}

/// A path template with `~` replaced by the home directory and, on Windows,
/// `%APPDATA%` by the application data directory. What is not known stands as it
/// is.
pub open spec fn expanded(
    template: Seq<char>,
    platform: Platform,
    home: Option<Seq<char>>,
    appdata: Option<Seq<char>>,
) -> Seq<char> {
    match appdata {
        Some(appdata) => if platform == Platform::Windows {
            crate::text::replaced_text(with_home(template, home), "%APPDATA%"@, appdata)
        } else {
            with_home(template, home)
        },
        None => with_home(template, home),
    }
}

/// Expands a path template. A directory that is not known is left as it is
/// written.
pub fn expand_path(
    template: &str,
    platform: Platform,
    home: Option<&str>,
    appdata: Option<&str>,
) -> (path: String)
    ensures
        path@ == expanded(template@, platform, str_view(home), str_view(appdata)),
{
    let at_home = match home {
        Some(home) => replace_char(template, '~', home),
        None => template.to_owned(),
    };
    if platform == Platform::Windows {
        if let Some(appdata) = appdata {
            proof {
                reveal_strlit("%APPDATA%");
            }
            return replace_text(at_home.as_str(), "%APPDATA%", appdata);
        }
    }
    at_home
}

/// A template without `~`, and on Windows without `%APPDATA%`, is a path as it
/// stands.
pub proof fn plain_path_is_kept(
    template: Seq<char>,
    platform: Platform,
    home: Option<Seq<char>>,
    appdata: Option<Seq<char>>,
)
    requires
        !template.contains('~'),
        platform == Platform::Windows ==> crate::text::position(template, "%APPDATA%"@, 0) is None,
    ensures
        expanded(template, platform, home, appdata) == template,
{
    if let Some(home) = home {
        crate::text::replaced_without(template, '~', home);
    }
}

/// Where neither directory is known, any template is kept as it is written.
pub proof fn unknown_directories_are_kept(template: Seq<char>, platform: Platform)
    ensures
        expanded(template, platform, None, None) == template,
{
}

/// A template that starts with `~`, and has no other, is the home directory
/// followed by the rest of the template. On Windows this is said where the
/// outcome has no `%APPDATA%`.
pub proof fn home_prefix_is_expanded(
    rest: Seq<char>,
    platform: Platform,
    home: Seq<char>,
    appdata: Option<Seq<char>>,
)
    requires
        !rest.contains('~'),
        platform == Platform::Windows ==> crate::text::position(home + rest, "%APPDATA%"@, 0) is None,
    ensures
        expanded("~"@ + rest, platform, Some(home), appdata) == home + rest,
{
    reveal_strlit("~");
    crate::text::replaced_without(rest, '~', home);
    crate::text::replaced_concat("~"@, rest, '~', home);
    assert("~"@.drop_last() == Seq::<char>::empty());
    assert(crate::text::replaced("~"@, '~', home) == home) by {
        reveal_with_fuel(crate::text::replaced, 2);
    }
}

/// Whether a path has the prefix that marks it as verbatim on Windows.
pub open spec fn is_verbatim(path: Seq<char>) -> bool {
    crate::text::occurs_at(path, "\\\\?\\"@, 0)
}

/// A path without the prefix that marks it as verbatim on Windows.
pub open spec fn plain_path(path: Seq<char>) -> Seq<char> {
    if crate::text::occurs_at(path, "\\\\?\\UNC\\"@, 0) {
        "\\\\"@ + path.skip("\\\\?\\UNC\\"@.len() as int)
    } else if is_verbatim(path) {
        path.skip("\\\\?\\"@.len() as int)
    } else {
        path
    }
}

/// The text of a verbatim path without its prefix; `None` for any other path.
pub fn plain_text(path: &str) -> (result: Option<String>)
    ensures
        crate::json::text_view(result) == if is_verbatim(path@) {
            Some(plain_path(path@))
        } else {
            None
        },
{
    proof {
        reveal_strlit("\\\\?\\UNC\\");
        reveal_strlit("\\\\?\\");
    }
    let chars = chars_of(path);
    let unc = chars_of("\\\\?\\UNC\\");
    let verbatim = chars_of("\\\\?\\");
    if starts_with(&chars, &unc) {
        let rest = text_of(&chars, unc.len(), chars.len());
        proof {
            assert(rest@ == path@.skip(unc@.len() as int));
            assert(unc@.subrange(0, 4) == verbatim@);
            assert(path@.subrange(0, 8).subrange(0, 4) == path@.subrange(0, 4));
        }
        return Some(text2("\\\\", rest.as_str()));
    }
    if starts_with(&chars, &verbatim) {
        let rest = text_of(&chars, verbatim.len(), chars.len());
        assert(rest@ == path@.skip(verbatim@.len() as int));
        return Some(rest);
    }
    None
}

/// Removes the verbatim prefix from a Windows path: `\\?\C:\...` becomes
/// `C:\...`, `\\?\UNC\server\...` becomes `\\server\...`. Node takes neither
/// verbatim form as its entry path. Any other path is handed back as it is, Unicode
/// or not.
pub fn strip_verbatim_prefix(path: PathBuf) -> (result: PathBuf)
    ensures
        is_stripped(result, path),
{
    match plain_text(text_of_path(&path).as_str()) {
        Some(text) => path_from_text(text),
        None => path,
    }
}

/// A verbatim path is given back as the path that was made verbatim: a share
/// with its two backslashes, any other path as it was.
pub proof fn verbatim_prefix_is_removed(path: Seq<char>)
    ensures
        plain_path("\\\\?\\UNC\\"@ + path) == "\\\\"@ + path,
        !crate::text::occurs_at(path, "UNC\\"@, 0) ==> plain_path("\\\\?\\"@ + path) == path,
{
    let unc = "\\\\?\\UNC\\"@;
    let verbatim = "\\\\?\\"@;
    reveal_strlit("\\\\?\\UNC\\");
    reveal_strlit("\\\\?\\");
    reveal_strlit("UNC\\");
    assert(unc == verbatim + "UNC\\"@);
    assert((unc + path).subrange(0, unc.len() as int) == unc);
    assert((unc + path).skip(unc.len() as int) == path);
    assert((verbatim + path).subrange(0, verbatim.len() as int) == verbatim);
    assert((verbatim + path).skip(verbatim.len() as int) == path);
    if crate::text::occurs_at(verbatim + path, unc, 0) {
        assert(path.subrange(0, 4) == (verbatim + path).subrange(0, unc.len() as int).subrange(
            4,
            8,
        ));
        assert(unc.subrange(4, 8) == "UNC\\"@);
        assert(crate::text::occurs_at(path, "UNC\\"@, 0));
    }
}

/// Whether a path is another one without its verbatim prefix.
pub open spec fn is_stripped(result: PathBuf, path: PathBuf) -> bool {
    &&& is_verbatim(path_text(path)) ==> path_text(result) == plain_path(path_text(path))
    &&& !is_verbatim(path_text(path)) ==> result == path
}

/// Where a resource lies: the packaged one if it exists, else the one of the
/// development tree if that exists. Each path is given if the file is there.
pub fn resolve_resource(
    relative: &str,
    packaged: Option<PathBuf>,
    development: Option<PathBuf>,
) -> (result: Result<PathBuf, String>)
    ensures
        match (packaged, development) {
            (Some(path), _) => result is Ok && is_stripped(result->Ok_0, path),
            (None, Some(path)) => result is Ok && is_stripped(result->Ok_0, path),
            (None, None) => result is Err && result->Err_0@ == "找不到资源 "@ + relative@
                + "（resource_dir 与本工程 resources/ 均不存在，请先运行 build-runtime 装配运行时）"@,
        },
{
    match packaged {
        Some(path) => Ok(strip_verbatim_prefix(path)),
        None => match development {
            Some(path) => Ok(strip_verbatim_prefix(path)),
            None => Err(
                text3(
                    "找不到资源 ",
                    relative,
                    "（resource_dir 与本工程 resources/ 均不存在，请先运行 build-runtime 装配运行时）",
                ),
            ),
        },
    }
}

/// Away from Windows each `~` is the home directory and nothing else is expanded,
/// whatever the application data directory is: a template is expanded part by
/// part.
pub proof fn every_tilde_is_the_home_directory(
    before: Seq<char>,
    after: Seq<char>,
    platform: Platform,
    home: Seq<char>,
    appdata: Option<Seq<char>>,
)
    requires
        platform != Platform::Windows,
    ensures
        expanded(before + "~"@ + after, platform, Some(home), appdata) == expanded(
            before,
            platform,
            Some(home),
            appdata,
        ) + home + expanded(after, platform, Some(home), appdata),
        !before.contains('~') ==> expanded(before, platform, Some(home), appdata) == before,
{
    reveal_strlit("~");
    assert("~"@ == seq!['~']);
    crate::text::replaced_where_it_stands(before, '~', after, home);
    if !before.contains('~') {
        crate::text::replaced_without(before, '~', home);
    }
}

/// On Windows `%APPDATA%` is the application data directory: a template without
/// `~` is what stands before the first `%APPDATA%`, the directory, and what stands
/// behind it, expanded in its turn. A template without either is a path as it
/// stands.
pub proof fn appdata_is_expanded_on_windows(
    before: Seq<char>,
    after: Seq<char>,
    home: Option<Seq<char>>,
    appdata: Seq<char>,
)
    requires
        !before.contains('~'),
        !after.contains('~'),
    ensures
        (forall|i: int|
            0 <= i < before.len() ==> !#[trigger] crate::text::occurs_at(
                before + "%APPDATA%"@ + after,
                "%APPDATA%"@,
                i,
            )) ==> expanded(
            before + "%APPDATA%"@ + after,
            Platform::Windows,
            home,
            Some(appdata),
        ) == before + appdata + expanded(after, Platform::Windows, home, Some(appdata)),
        (forall|i: int| !#[trigger] crate::text::occurs_at(before, "%APPDATA%"@, i)) ==> expanded(
            before,
            Platform::Windows,
            home,
            Some(appdata),
        ) == before,
{
    reveal_strlit("%APPDATA%");
    let whole = before + "%APPDATA%"@ + after;
    crate::text::replaced_text_from_the_left(before, "%APPDATA%"@, after, appdata);
    if let Some(home) = home {
        assert forall|i: int| 0 <= i < whole.len() implies whole[i] != '~' by {
            if i < before.len() {
                assert(before.contains(before[i]));
            } else if i >= before.len() + 9 {
                assert(after.contains(after[i - before.len() - 9]));
            }
        }
        crate::text::replaced_without(whole, '~', home);
        crate::text::replaced_without(before, '~', home);
        crate::text::replaced_without(after, '~', home);
    }
}

/// On Windows both are expanded, the home directory first; where one of the two
/// directories is not known, its sign stands as it is.
pub proof fn windows_expands_both(
    template: &str,
    home: Option<&str>,
    appdata: Option<&str>,
    path: String,
    at_home: String,
    elsewhere: String,
)
    requires
        call_ensures(expand_path, (template, Platform::Windows, home, appdata), path),
        call_ensures(expand_path, (template, Platform::Windows, home, None::<&str>), at_home),
        call_ensures(expand_path, (template, Platform::Other, home, appdata), elsewhere),
    ensures
        path@ == expanded(template@, Platform::Windows, str_view(home), str_view(appdata)),
        elsewhere@ == expanded(template@, Platform::Other, str_view(home), str_view(appdata)),
        at_home@ == elsewhere@,
        home is None ==> at_home@ == template@,
        appdata is None ==> path@ == at_home@,
        appdata is Some ==> path@ == expanded(
            at_home@,
            Platform::Windows,
            None,
            str_view(appdata),
        ),
{
}

/// The home directory is the value of the one variable of the system, and no other
/// stands in for it.
pub proof fn home_is_the_variable_of_the_system(
    platform: Platform,
    userprofile: Option<String>,
    home: Option<String>,
    result: Option<String>,
)
    requires
        call_ensures(home_env, (platform, userprofile, home), result),
    ensures
        platform == Platform::Windows ==> result == userprofile,
        platform != Platform::Windows ==> result == home,
{
}

/// The node binary is `node/node`, with an extension on Windows.
pub proof fn node_resource_has_an_extension_on_windows(platform: Platform, name: &'static str)
    requires
        call_ensures(node_resource_name, (platform,), name),
    ensures
        platform == Platform::Windows ==> name@ == "node/node"@ + ".exe"@,
        platform != Platform::Windows ==> name@ == "node/node"@,
{
    reveal_strlit("node/node.exe");
    reveal_strlit("node/node");
    reveal_strlit(".exe");
    assert("node/node.exe"@ == "node/node"@ + ".exe"@);
}

/// A path is changed only by its verbatim prefix: one that was made verbatim by
/// `\\?\`, or a share by `\\?\UNC\`, becomes what it was, and any other path is
/// handed back as it is.
pub proof fn only_the_verbatim_prefix_comes_off(path: PathBuf, result: PathBuf, rest: Seq<char>)
    requires
        call_ensures(strip_verbatim_prefix, (path,), result),
    ensures
        path_text(path) == "\\\\?\\UNC\\"@ + rest ==> path_text(result) == "\\\\"@ + rest,
        path_text(path) == "\\\\?\\"@ + rest && !(exists|share: Seq<char>| #[trigger]
            ("UNC\\"@ + share) == rest) ==> path_text(result) == rest,
        !(exists|plain: Seq<char>| #[trigger] ("\\\\?\\"@ + plain) == path_text(path)) ==> result
            == path,
{
    let text = path_text(path);
    let unc = "\\\\?\\UNC\\"@;
    let verbatim = "\\\\?\\"@;
    verbatim_prefix_is_removed(rest);
    reveal_strlit("\\\\?\\UNC\\");
    reveal_strlit("\\\\?\\");
    reveal_strlit("UNC\\");
    if text == unc + rest {
        assert(verbatim + ("UNC\\"@ + rest) == text);
        assert(text.subrange(0, 4) == verbatim);
    }
    if text == verbatim + rest {
        assert(text.subrange(0, 4) == verbatim);
        if crate::text::occurs_at(rest, "UNC\\"@, 0) {
            assert("UNC\\"@ + rest.skip(4) == rest) by {
                assert(rest.subrange(0, 4) == "UNC\\"@);
            }
        }
    }
    if is_verbatim(text) {
        assert(verbatim + text.skip(4) == text) by {
            assert(text.subrange(0, 4) == verbatim);
        }
    }
}

/// A resource is the packaged one where there is one, else that of the development
/// tree, each as it comes without its verbatim prefix; it is missing only where
/// both are.
pub proof fn packaged_resource_goes_first(
    relative: &str,
    packaged: Option<PathBuf>,
    development: Option<PathBuf>,
    result: Result<PathBuf, String>,
)
    requires
        call_ensures(resolve_resource, (relative, packaged, development), result),
    ensures
        result is Err <==> packaged is None && development is None,
        packaged is Some && !(exists|plain: Seq<char>| #[trigger]
            ("\\\\?\\"@ + plain) == path_text(packaged->0)) ==> result == Ok::<PathBuf, String>(
            packaged->0,
        ),
        packaged is None && development is Some && !(exists|plain: Seq<char>| #[trigger]
            ("\\\\?\\"@ + plain) == path_text(development->0)) ==> result == Ok::<PathBuf, String>(
            development->0,
        ),
        result is Ok ==> is_stripped(
            result->Ok_0,
            if packaged is Some {
                packaged->0
            } else {
                development->0
            },
        ),
        result is Err ==> exists|before: Seq<char>, after: Seq<char>| #[trigger]
            (before + relative@ + after) == result->Err_0@,
{
    let verbatim = "\\\\?\\"@;
    if let Some(path) = packaged {
        if is_verbatim(path_text(path)) {
            assert(path_text(path).subrange(0, verbatim.len() as int) == verbatim);
            assert(verbatim + path_text(path).skip(verbatim.len() as int) == path_text(path));
        }
    } else if let Some(path) = development {
        if is_verbatim(path_text(path)) {
            assert(path_text(path).subrange(0, verbatim.len() as int) == verbatim);
            assert(verbatim + path_text(path).skip(verbatim.len() as int) == path_text(path));
        }
    } else {
        assert(("找不到资源 "@ + relative@
            + "（resource_dir 与本工程 resources/ 均不存在，请先运行 build-runtime 装配运行时）"@)
            == result->Err_0@);
    }
}

} // verus!
