//! What is removed from the vendored tree because the runtime never reads it.

use crate::archive::EntryKind;
use crate::text::{chars_of, ends_with, same_text};
use vstd::prelude::*;

verus! {

/// A text in lower case, as the standard library has it.
pub uninterp spec fn lowercase(text: Seq<char>) -> Seq<char>;

/// The lower case of an ASCII character.
pub open spec fn ascii_lower(c: char) -> char {
    if 'A' <= c <= 'Z' {
        (c as int + 32) as char
    } else {
        c
    }
}

/// `str::to_lowercase` gives the lower case of a text, which depends on the text
/// alone. Of an ASCII text it changes the letters `A` to `Z` and nothing else.
pub assume_specification[ str::to_lowercase ](text: &str) -> (result: String)
    ensures
        result@ == lowercase(text@),
        vstd::utf8::is_ascii_chars(text@) ==> result@ == text@.map_values(|c: char| ascii_lower(c)),
;

/// Whether a file of that lower case name is of no use at run time: sources,
/// source maps, documents and debug data.
pub open spec fn is_useless(lower: Seq<char>) -> bool {
    ||| crate::text::has_suffix(lower, ".pdb"@)
    ||| crate::text::has_suffix(lower, ".map"@)
    ||| crate::text::has_suffix(lower, ".ts"@)
    ||| crate::text::has_suffix(lower, ".tsx"@)
    ||| crate::text::has_suffix(lower, ".mts"@)
    ||| crate::text::has_suffix(lower, ".cts"@)
    ||| crate::text::has_suffix(lower, ".md"@)
    ||| crate::text::has_suffix(lower, ".tsbuildinfo"@)
}

/// Whether a file of that lower case name is of no use at run time.
pub fn useless_name(lower: &str) -> (useless: bool)
    ensures
        useless == is_useless(lower@),
{
    let name = chars_of(lower);
    ends_with(&name, &chars_of(".pdb")) || ends_with(&name, &chars_of(".map")) || ends_with(
        &name,
        &chars_of(".ts"),
    ) || ends_with(&name, &chars_of(".tsx")) || ends_with(&name, &chars_of(".mts")) || ends_with(
        &name,
        &chars_of(".cts"),
    ) || ends_with(&name, &chars_of(".md")) || ends_with(&name, &chars_of(".tsbuildinfo"))
}

/// The one package of types that is removed.
pub const NODE_TYPES: &'static str = "node";

/// What is done with an entry of a directory.
#[derive(Clone, Copy, Debug, PartialEq, Eq, Structural)]
pub enum PruneAction {
    /// Remove the directory, once all entries were looked at.
    RemoveLater,
    /// Remove the directory [`NODE_TYPES`] in it, and leave the rest.
    RemoveNodeTypes,
    /// Prune the directory.
    Descend,
    /// Remove the file.
    RemoveFile,
    /// Leave the entry.
    Keep,
}

/// Whether a directory is that of the `node-pty` package: its path ends with
/// `node_modules` and `node-pty`.
pub open spec fn is_node_pty(dir: Seq<Seq<char>>) -> bool {
    &&& dir.len() >= 2
    &&& dir[dir.len() - 1] == "node-pty"@
    &&& dir[dir.len() - 2] == "node_modules"@
}

/// What is done with an entry, given its lower case name.
pub open spec fn prune_action(
    node_pty: bool,
    name: Seq<char>,
    lower: Seq<char>,
    kind: EntryKind,
) -> PruneAction {
    match kind {
        EntryKind::Directory => if node_pty && (name == "third_party"@ || name == "build"@) {
            PruneAction::RemoveLater
        } else if name == "@types"@ {
            PruneAction::RemoveNodeTypes
        } else {
            PruneAction::Descend
        },
        EntryKind::File => if is_useless(lower) {
            PruneAction::RemoveFile
        } else {
            PruneAction::Keep
        },
        EntryKind::Symlink => PruneAction::Keep,
        EntryKind::Other => PruneAction::Keep,
    }
}

/// The directories that are removed at the end once an entry was dealt with.
pub open spec fn doomed_after(
    doomed: Seq<Seq<char>>,
    name: Seq<char>,
    action: PruneAction,
) -> Seq<Seq<char>> {
    if action == PruneAction::RemoveLater {
        doomed.push(name)
    } else {
        doomed
    }
}

/// The pruning of one directory.
pub struct PruneDir {
    node_pty: bool,
    doomed: Vec<String>,
}

impl PruneDir {
    /// Whether the directory is that of the `node-pty` package.
    pub closed spec fn node_pty(self) -> bool {
        self.node_pty
    }

    /// The directories that are removed at the end, by name.
    pub closed spec fn doomed_names(self) -> Seq<Seq<char>> {
        crate::text::views(self.doomed@)
    }

    /// The pruning of the directory with that path, given by its parts.
    pub fn new(dir: &Vec<String>) -> (prune: PruneDir)
        ensures
            prune.node_pty() == is_node_pty(crate::text::views(dir@)),
            prune.doomed_names() == Seq::<Seq<char>>::empty(),
    {
        let count: usize = dir.len();
        let node_pty = count >= 2 && same_text(dir[count - 1].as_str(), "node-pty") && same_text(
            dir[count - 2].as_str(),
            "node_modules",
        );
        let prune = PruneDir { node_pty, doomed: Vec::new() };
        assert(crate::text::views(prune.doomed@) == Seq::<Seq<char>>::empty());
        prune
    }

    /// Takes an entry with its lower case name.
    pub fn entry_lowered(&mut self, name: &str, lower: &str, kind: EntryKind) -> (action: PruneAction)
        ensures
            action == prune_action(old(self).node_pty(), name@, lower@, kind),
            final(self).node_pty() == old(self).node_pty(),
            final(self).doomed_names() == doomed_after(old(self).doomed_names(), name@, action),
    {
        match kind {
            EntryKind::Directory => {
                if self.node_pty && (same_text(name, "third_party") || same_text(name, "build")) {
                    self.doomed.push(name.to_owned());
                    assert(crate::text::views(self.doomed@) == crate::text::views(
                        old(self).doomed@,
                    ).push(name@));
                    PruneAction::RemoveLater
                } else if same_text(name, "@types") {
                    PruneAction::RemoveNodeTypes
                } else {
                    PruneAction::Descend
                }
            },
            EntryKind::File => if useless_name(lower) {
                PruneAction::RemoveFile
            } else {
                PruneAction::Keep
            },
            EntryKind::Symlink => PruneAction::Keep,
            EntryKind::Other => PruneAction::Keep,
        }
    }

    /// Takes an entry of the directory and tells what is done with it.
    pub fn entry(&mut self, name: &str, kind: EntryKind) -> (action: PruneAction)
        ensures
            action == prune_action(old(self).node_pty(), name@, lowercase(name@), kind),
            vstd::utf8::is_ascii_chars(name@) ==> action == prune_action(
                old(self).node_pty(),
                name@,
                name@.map_values(|c: char| ascii_lower(c)),
                kind,
            ),
            final(self).node_pty() == old(self).node_pty(),
            final(self).doomed_names() == doomed_after(old(self).doomed_names(), name@, action),
    {
        let lower = name.to_lowercase();
        self.entry_lowered(name, lower.as_str(), kind)
    }

    /// The directories that are removed now that all entries were looked at.
    pub fn doomed(self) -> (names: Vec<String>)
        ensures
            crate::text::views(names@) == self.doomed_names(),
    {
        self.doomed
    }
}

/// Compiled code is kept: no file whose lower case name ends with `.js` is
/// removed.
pub proof fn compiled_code_is_kept(
    node_pty: bool,
    name: Seq<char>,
    lower: Seq<char>,
)
    requires
        crate::text::has_suffix(lower, ".js"@),
    ensures
        prune_action(node_pty, name, lower, EntryKind::File) == PruneAction::Keep,
{
    reveal_strlit(".js");
    reveal_strlit(".pdb");
    reveal_strlit(".map");
    reveal_strlit(".ts");
    reveal_strlit(".tsx");
    reveal_strlit(".mts");
    reveal_strlit(".cts");
    reveal_strlit(".md");
    reveal_strlit(".tsbuildinfo");
    let n = lower.len() as int;
    let end = lower.subrange(n - 3, n);
    assert(end[1] == 'j' && end[2] == 's');
    assert(lower[n - 2] == 'j' && lower[n - 1] == 's');
    if crate::text::has_suffix(lower, ".pdb"@) {
        assert(lower.subrange(n - 4, n)[3] == lower[n - 1]);
    }
    if crate::text::has_suffix(lower, ".map"@) {
        assert(lower.subrange(n - 4, n)[3] == lower[n - 1]);
    }
    if crate::text::has_suffix(lower, ".ts"@) {
        assert(end[1] == 't');
    }
    if crate::text::has_suffix(lower, ".tsx"@) {
        assert(lower.subrange(n - 4, n)[3] == lower[n - 1]);
    }
    if crate::text::has_suffix(lower, ".mts"@) {
        assert(lower.subrange(n - 4, n)[2] == lower[n - 2]);
    }
    if crate::text::has_suffix(lower, ".cts"@) {
        assert(lower.subrange(n - 4, n)[2] == lower[n - 2]);
    }
    if crate::text::has_suffix(lower, ".md"@) {
        assert(end[2] == 'd');
    }
    if crate::text::has_suffix(lower, ".tsbuildinfo"@) {
        assert(lower.subrange(n - 12, n)[11] == lower[n - 1]);
    }
}

proof fn suffix_is_the_extension(stem: Seq<char>, extension: Seq<char>, other: Seq<char>)
    requires
        !extension.contains('.'),
        !other.contains('.'),
    ensures
        crate::text::has_suffix(stem + seq!['.'] + extension, seq!['.'] + other) == (extension
            == other),
{
    let name = stem + seq!['.'] + extension;
    let suffix = seq!['.'] + other;
    let start = name.len() - suffix.len();
    if crate::text::has_suffix(name, suffix) {
        let end = name.subrange(start, name.len() as int);
        assert(forall|i: int| 0 <= i < suffix.len() ==> end[i] == #[trigger] suffix[i]);
        if start > stem.len() {
            assert(end[0] == '.');
            assert(extension[start - stem.len() - 1] == '.');
        } else if start < stem.len() {
            assert(end[stem.len() - start] == '.');
            assert(other[stem.len() - start - 1] == '.');
        }
        assert forall|i: int| 0 <= i < other.len() implies extension[i] == other[i] by {
            assert(end[i + 1] == suffix[i + 1]);
        }
        assert(extension == other);
    }
    if extension == other {
        assert(name.subrange(start, name.len() as int) == suffix);
    }
}

proof fn no_suffix_without_a_dot(name: Seq<char>, other: Seq<char>)
    requires
        !name.contains('.'),
    ensures
        !crate::text::has_suffix(name, seq!['.'] + other),
{
    let suffix = seq!['.'] + other;
    if crate::text::has_suffix(name, suffix) {
        let start = name.len() - suffix.len();
        assert(name.subrange(start, name.len() as int)[0] == '.');
        assert(name[start] == '.');
    }
}

/// The extensions with and without their dots.
proof fn extensions_with_dots()
    ensures
        ".pdb"@ == seq!['.'] + "pdb"@ && !"pdb"@.contains('.'),
        ".map"@ == seq!['.'] + "map"@ && !"map"@.contains('.'),
        ".ts"@ == seq!['.'] + "ts"@ && !"ts"@.contains('.'),
        ".tsx"@ == seq!['.'] + "tsx"@ && !"tsx"@.contains('.'),
        ".mts"@ == seq!['.'] + "mts"@ && !"mts"@.contains('.'),
        ".cts"@ == seq!['.'] + "cts"@ && !"cts"@.contains('.'),
        ".md"@ == seq!['.'] + "md"@ && !"md"@.contains('.'),
        ".tsbuildinfo"@ == seq!['.'] + "tsbuildinfo"@ && !"tsbuildinfo"@.contains('.'),
{
    reveal_strlit(".pdb");
    reveal_strlit("pdb");
    reveal_strlit(".map");
    reveal_strlit("map");
    reveal_strlit(".ts");
    reveal_strlit("ts");
    reveal_strlit(".tsx");
    reveal_strlit("tsx");
    reveal_strlit(".mts");
    reveal_strlit("mts");
    reveal_strlit(".cts");
    reveal_strlit("cts");
    reveal_strlit(".md");
    reveal_strlit("md");
    reveal_strlit(".tsbuildinfo");
    reveal_strlit("tsbuildinfo");
}

proof fn listed_extensions(extension: Seq<char>)
    ensures
        seq![
            "pdb"@,
            "map"@,
            "ts"@,
            "tsx"@,
            "mts"@,
            "cts"@,
            "md"@,
            "tsbuildinfo"@,
        ].contains(extension) <==> {
            ||| extension == "pdb"@
            ||| extension == "map"@
            ||| extension == "ts"@
            ||| extension == "tsx"@
            ||| extension == "mts"@
            ||| extension == "cts"@
            ||| extension == "md"@
            ||| extension == "tsbuildinfo"@
        },
{
    let all = seq![
        "pdb"@,
        "map"@,
        "ts"@,
        "tsx"@,
        "mts"@,
        "cts"@,
        "md"@,
        "tsbuildinfo"@,
    ];
    assert(all[0] == "pdb"@ && all[1] == "map"@ && all[2] == "ts"@ && all[3] == "tsx"@);
    assert(all[4] == "mts"@ && all[5] == "cts"@ && all[6] == "md"@ && all[7] == "tsbuildinfo"@);
}

/// A file is removed exactly where the last extension of its lower case name is
/// one of the eight: any other extension is kept, and so is a name without one.
pub proof fn only_these_extensions_are_removed(
    node_pty: bool,
    name: Seq<char>,
    stem: Seq<char>,
    extension: Seq<char>,
)
    ensures
        !extension.contains('.') ==> prune_action(
            node_pty,
            name,
            stem + seq!['.'] + extension,
            EntryKind::File,
        ) == if seq![
            "pdb"@,
            "map"@,
            "ts"@,
            "tsx"@,
            "mts"@,
            "cts"@,
            "md"@,
            "tsbuildinfo"@,
        ].contains(extension) {
            PruneAction::RemoveFile
        } else {
            PruneAction::Keep
        },
        !stem.contains('.') ==> prune_action(node_pty, name, stem, EntryKind::File)
            == PruneAction::Keep,
{
    extensions_with_dots();
    listed_extensions(extension);
    if !extension.contains('.') {
        suffix_is_the_extension(stem, extension, "pdb"@);
        suffix_is_the_extension(stem, extension, "map"@);
        suffix_is_the_extension(stem, extension, "ts"@);
        suffix_is_the_extension(stem, extension, "tsx"@);
        suffix_is_the_extension(stem, extension, "mts"@);
        suffix_is_the_extension(stem, extension, "cts"@);
        suffix_is_the_extension(stem, extension, "md"@);
        suffix_is_the_extension(stem, extension, "tsbuildinfo"@);
    }
    if !stem.contains('.') {
        no_suffix_without_a_dot(stem, "pdb"@);
        no_suffix_without_a_dot(stem, "map"@);
        no_suffix_without_a_dot(stem, "ts"@);
        no_suffix_without_a_dot(stem, "tsx"@);
        no_suffix_without_a_dot(stem, "mts"@);
        no_suffix_without_a_dot(stem, "cts"@);
        no_suffix_without_a_dot(stem, "md"@);
        no_suffix_without_a_dot(stem, "tsbuildinfo"@);
    }
}

/// A lower case name is of no use exactly where its last extension is one of the
/// eight.
pub proof fn useless_names_have_these_extensions(
    lower: &str,
    useless: bool,
    stem: Seq<char>,
    extension: Seq<char>,
)
    requires
        call_ensures(useless_name, (lower,), useless),
    ensures
        lower@ == stem + seq!['.'] + extension && !extension.contains('.') ==> useless
            == seq![
            "pdb"@,
            "map"@,
            "ts"@,
            "tsx"@,
            "mts"@,
            "cts"@,
            "md"@,
            "tsbuildinfo"@,
        ].contains(extension),
        !lower@.contains('.') ==> !useless,
{
    if lower@ == stem + seq!['.'] + extension {
        only_these_extensions_are_removed(false, lower@, stem, extension);
    }
    only_these_extensions_are_removed(false, lower@, lower@, extension);
}

/// The upper case letters of ASCII become the lower case ones, in order, and
/// nothing else changes.
pub proof fn letters_are_lowered(c: char)
    ensures
        'A' <= c <= 'Z' ==> 'a' <= ascii_lower(c) <= 'z' && ascii_lower(c) as int - 'a' as int
            == c as int - 'A' as int,
        !('A' <= c <= 'Z') ==> ascii_lower(c) == c,
{
}

/// The pruning of a directory knows the package `node-pty` by the end of its
/// path: it lies in a directory `node_modules`.
pub proof fn node_pty_is_known_by_its_path(dir: Vec<String>, prune: PruneDir)
    requires
        call_ensures(PruneDir::new, (&dir,), prune),
    ensures
        prune.node_pty() <==> exists|base: Seq<Seq<char>>| #[trigger]
            base.push("node_modules"@).push("node-pty"@) == crate::text::views(dir@),
        prune.doomed_names().len() == 0,
{
    path_of_node_pty(crate::text::views(dir@));
}

proof fn path_of_node_pty(dir: Seq<Seq<char>>)
    ensures
        is_node_pty(dir) <==> exists|base: Seq<Seq<char>>| #[trigger]
            base.push("node_modules"@).push("node-pty"@) == dir,
{
    if is_node_pty(dir) {
        let base = dir.drop_last().drop_last();
        assert(base.push("node_modules"@).push("node-pty"@) == dir);
    }
}

/// A directory is left to be removed at the end exactly where it is `third_party`
/// or `build` of `node-pty`. Of `@types` only one package goes. Any other directory
/// is pruned in its turn, and links and special files are left.
pub proof fn what_is_done_with_directories(dir: Seq<Seq<char>>, name: Seq<char>, lower: Seq<char>)
    ensures
        ({
            let action = prune_action(is_node_pty(dir), name, lower, EntryKind::Directory);
            let of_node_pty = exists|base: Seq<Seq<char>>| #[trigger]
                base.push("node_modules"@).push("node-pty"@) == dir;
            &&& action == PruneAction::RemoveLater <==> of_node_pty && (name == "third_party"@
                || name == "build"@)
            &&& action == PruneAction::RemoveNodeTypes <==> name == "@types"@
            &&& action == PruneAction::RemoveLater || action == PruneAction::RemoveNodeTypes || action
                == PruneAction::Descend
        }),
        prune_action(is_node_pty(dir), name, lower, EntryKind::Symlink) == PruneAction::Keep,
        prune_action(is_node_pty(dir), name, lower, EntryKind::Other) == PruneAction::Keep,
{
    path_of_node_pty(dir);
    reveal_strlit("third_party");
    reveal_strlit("build");
    reveal_strlit("@types");
    assert("third_party"@.len() != "@types"@.len() && "build"@.len() != "@types"@.len());
}

/// What is removed at the end are exactly the directories that were left for it, in
/// the order in which they were met.
pub proof fn doomed_are_those_left_for_later(
    doomed: Seq<Seq<char>>,
    name: Seq<char>,
    action: PruneAction,
    prune: PruneDir,
    names: Vec<String>,
)
    requires
        call_ensures(PruneDir::doomed, (prune,), names),
    ensures
        crate::text::views(names@) == prune.doomed_names(),
        action == PruneAction::RemoveLater ==> doomed_after(doomed, name, action).last() == name
            && doomed_after(doomed, name, action).drop_last() == doomed,
        action != PruneAction::RemoveLater ==> doomed_after(doomed, name, action) == doomed,
{
    assert(doomed.push(name).drop_last() == doomed);
}

/// A file with an ASCII name is removed exactly where its last extension, in any
/// mixture of upper and lower case, is one of the eight, in every directory. It is
/// not left for later, and neither is anything but a directory.
pub proof fn files_go_by_their_extension_in_any_case(
    prune: &mut PruneDir,
    name: &str,
    kind: EntryKind,
    action: PruneAction,
    stem: Seq<char>,
    extension: Seq<char>,
)
    requires
        call_ensures(PruneDir::entry, (prune, name, kind), action),
        vstd::utf8::is_ascii_chars(name@),
        name@ == stem + seq!['.'] + extension,
        !extension.contains('.'),
    ensures
        kind == EntryKind::File ==> (action == PruneAction::RemoveFile <==> seq![
            "pdb"@,
            "map"@,
            "ts"@,
            "tsx"@,
            "mts"@,
            "cts"@,
            "md"@,
            "tsbuildinfo"@,
        ].contains(extension.map_values(|c: char| ascii_lower(c)))),
        kind == EntryKind::File ==> action == PruneAction::RemoveFile || action == PruneAction::Keep,
        kind != EntryKind::Directory ==> final(prune).doomed_names() == old(prune).doomed_names(),
        final(prune).node_pty() == old(prune).node_pty(),
{
    let lower = |c: char| ascii_lower(c);
    let low_stem = stem.map_values(lower);
    let low_extension = extension.map_values(lower);
    assert(name@.map_values(lower) == low_stem + seq!['.'] + low_extension);
    assert forall|i: int| 0 <= i < low_extension.len() implies low_extension[i] != '.' by {
        assert(extension.contains(extension[i]));
    }
    only_these_extensions_are_removed(
        old(prune).node_pty(),
        name@,
        low_stem,
        low_extension,
    );
}

/// A directory is left for later exactly where it is `third_party` or `build` of
/// `node-pty`, and is then the last of those that are removed at the end.
pub proof fn build_directories_are_left_for_later(
    prune: &mut PruneDir,
    name: &str,
    action: PruneAction,
)
    requires
        call_ensures(PruneDir::entry, (prune, name, EntryKind::Directory), action),
    ensures
        action == PruneAction::RemoveLater <==> old(prune).node_pty() && (name@ == "third_party"@
            || name@ == "build"@),
        action == PruneAction::RemoveLater ==> final(prune).doomed_names()
            == old(prune).doomed_names() + seq![name@],
        action != PruneAction::RemoveLater ==> final(prune).doomed_names()
            == old(prune).doomed_names(),
        action == PruneAction::RemoveNodeTypes <==> name@ == "@types"@,
{
    reveal_strlit("third_party");
    reveal_strlit("build");
    reveal_strlit("@types");
    assert("third_party"@.len() != "@types"@.len() && "build"@.len() != "@types"@.len());
}

} // verus!
