//! Trees of files and archives: which entries of a directory are copied or
//! packed, and which entries of an archive are unpacked and where to.

use crate::paths::Platform;
use crate::text::{chars_of, join, replace_char, same_text};
use vstd::prelude::*;

verus! {

/// What an entry of a directory is. A link is not followed.
#[derive(Clone, Copy, Debug, PartialEq, Eq, Structural)]
pub enum EntryKind {
    Directory,
    File,
    Symlink,
    Other,
}

/// What is done with an entry.
#[derive(Clone, Copy, Debug, PartialEq, Eq, Structural)]
pub enum TreeAction {
    /// Go into the directory.
    Descend,
    /// Take the file.
    Take,
    /// Leave the entry out.
    Skip,
}

/// What is done with an entry of a package that is copied: its files and
/// directories are, but neither links nor the dependencies below it.
pub open spec fn copy_action(name: Seq<char>, kind: EntryKind) -> TreeAction {
    match kind {
        EntryKind::Directory => if name == "node_modules"@ {
            TreeAction::Skip
        } else {
            TreeAction::Descend
        },
        EntryKind::File => TreeAction::Take,
        EntryKind::Symlink => TreeAction::Skip,
        EntryKind::Other => TreeAction::Skip,
    }
}

/// What is done with an entry of a tree that is packed.
pub open spec fn pack_action(kind: EntryKind) -> TreeAction {
    match kind {
        EntryKind::Directory => TreeAction::Descend,
        EntryKind::File => TreeAction::Take,
        EntryKind::Symlink => TreeAction::Skip,
        EntryKind::Other => TreeAction::Skip,
    }
}

/// What is done with an entry of a package that is copied.
pub fn copy_entry(name: &str, kind: EntryKind) -> (action: TreeAction)
    ensures
        action == copy_action(name@, kind),
{
    match kind {
        EntryKind::Directory => if same_text(name, "node_modules") {
            TreeAction::Skip
        } else {
            TreeAction::Descend
        },
        EntryKind::File => TreeAction::Take,
        EntryKind::Symlink => TreeAction::Skip,
        EntryKind::Other => TreeAction::Skip,
    }
}

/// What is done with an entry of a tree that is packed.
pub fn pack_entry(kind: EntryKind) -> (action: TreeAction)
    ensures
        action == pack_action(kind),
{
    match kind {
        EntryKind::Directory => TreeAction::Descend,
        EntryKind::File => TreeAction::Take,
        EntryKind::Symlink => TreeAction::Skip,
        EntryKind::Other => TreeAction::Skip,
    }
}

/// The name of a file in an archive: the parts of its path below the packed
/// directory, with `/` between them on every system.
pub fn archive_name(parts: &Vec<String>) -> (name: String)
    ensures
        name@ == crate::text::joined(crate::text::views(parts@), "/"@),
{
    join(parts, "/")
}

/// The parts of a text between separators. There is one more than there are
/// separators; any may be empty.
pub open spec fn segments(text: Seq<char>, separator: char) -> Seq<Seq<char>>
    decreases text.len(),
{
    if text.len() == 0 {
        seq![seq![]]
    } else {
        let before = segments(text.drop_last(), separator);
        if text.last() == separator {
            before.push(seq![])
        } else {
            before.drop_last().push(before.last().push(text.last()))
        }
    }
}

/// Whether a part of a path names something in the directory where it stands.
pub open spec fn is_inner(segment: Seq<char>) -> bool {
    segment.len() > 0 && segment != ".."@
}

/// Whether each part of a path names something in the directory where it stands.
pub open spec fn all_inner(path: Seq<char>) -> bool {
    forall|i: int|
        0 <= i < segments(path, '/').len() ==> is_inner(#[trigger] segments(path, '/')[i])
}

/// The path of an archive's entry, with `/` for either separator.
pub open spec fn entry_path(name: Seq<char>) -> Seq<char> {
    crate::text::replaced(name, '\\', "/"@)
}

/// Whether a path has no part that is empty or leads up.
fn is_all_inner(path: &str) -> (inner: bool)
    ensures
        inner == all_inner(path@),
{
    let chars = chars_of(path);
    let mut current = String::new();
    let ghost mut closed: Seq<Seq<char>> = seq![];
    let mut i: usize = 0;
    assert(segments(chars@.take(0), '/') == closed.push(seq![]));
    let mut good: bool = true;
    while i < chars.len()
        invariant
            i <= chars.len(),
            segments(chars@.take(i as int), '/') == closed.push(current@),
            good == (forall|k: int| 0 <= k < closed.len() ==> is_inner(#[trigger] closed[k])),
        decreases chars.len() - i,
    {
        let c: char = chars[i];
        proof {
            assert(chars@.take(i + 1).drop_last() == chars@.take(i as int));
            assert(closed.push(current@).drop_last() == closed);
        }
        if c == '/' {
            let segment_is_inner = !current.as_str().is_empty() && !same_text(
                current.as_str(),
                "..",
            );
            proof {
                let longer = closed.push(current@);
                assert(longer[closed.len() as int] == current@);
                assert(forall|k: int| 0 <= k < closed.len() ==> longer[k] == closed[k]);
                closed = longer;
            }
            good = good && segment_is_inner;
            current = String::new();
        } else {
            current.push(c);
        }
        i = i + 1;
    }
    let last_is_inner = !current.as_str().is_empty() && !same_text(current.as_str(), "..");
    proof {
        assert(chars@.take(chars@.len() as int) == chars@);
        let all = segments(path@, '/');
        assert(all[closed.len() as int] == current@);
        assert(forall|k: int| 0 <= k < closed.len() ==> all[k] == closed[k]);
    }
    good && last_is_inner
}

/// Whether a character is an ASCII letter.
pub open spec fn is_letter(c: char) -> bool {
    'a' <= c <= 'z' || 'A' <= c <= 'Z'
}

/// Whether a path starts with the letter of a drive, as in `C:/x` or `C:x`.
pub open spec fn names_a_drive(path: Seq<char>) -> bool {
    path.len() >= 2 && is_letter(path[0]) && path[1] == ':'
}

/// Whether a path stays below the directory to which it is appended: each part
/// names something in the directory where it stands, and on Windows the path
/// starts with no drive.
pub open spec fn stays_below(platform: Platform, path: Seq<char>) -> bool {
    all_inner(path) && !(platform == Platform::Windows && names_a_drive(path))
}

/// Whether a path starts with the letter of a drive.
fn has_drive(path: &str) -> (drive: bool)
    ensures
        drive == names_a_drive(path@),
{
    let chars = chars_of(path);
    if chars.len() < 2 {
        return false;
    }
    let first: char = chars[0];
    (('a' <= first && first <= 'z') || ('A' <= first && first <= 'Z')) && chars[1] == ':'
}

/// Where an entry of an archive is unpacked to, below the target directory.
/// Directories are left out, and so are entries whose path has an empty part or
/// one that leads up, or that names a drive on Windows.
pub fn entry_target(platform: Platform, name: &str, is_dir: bool) -> (target: Option<String>)
    ensures
        match target {
            Some(path) => {
                &&& !is_dir
                &&& stays_below(platform, entry_path(name@))
                &&& path@ == entry_path(name@)
            },
            None => is_dir || !stays_below(platform, entry_path(name@)),
        },
{
    if is_dir {
        return None;
    }
    let path = replace_char(name, '\\', "/");
    if platform == Platform::Windows && has_drive(path.as_str()) {
        return None;
    }
    if is_all_inner(path.as_str()) {
        Some(path)
    } else {
        None
    }
}

/// How many directories below its start a walk along the parts of a path ends.
pub open spec fn depth(parts: Seq<Seq<char>>) -> int
    decreases parts.len(),
{
    if parts.len() == 0 {
        0
    } else {
        depth(parts.drop_last()) + if parts.last() == ".."@ {
            -1int
        } else if parts.last() == "."@ || parts.last().len() == 0 {
            0int
        } else {
            1int
        }
    }
}

proof fn first_segment(path: Seq<char>)
    requires
        path.len() > 0,
    ensures
        segments(path, '/').len() > 0,
        path[0] == '/' ==> segments(path, '/').len() > 1 && segments(path, '/')[0].len() == 0,
    decreases path.len(),
{
    if path.len() > 1 {
        first_segment(path.drop_last());
        assert(path.drop_last()[0] == path[0]);
    } else {
        assert(path.drop_last() == Seq::<char>::empty());
        assert(segments(path.drop_last(), '/') == seq![Seq::<char>::empty()]);
    }
}

proof fn depth_of_inner(parts: Seq<Seq<char>>)
    requires
        forall|i: int| 0 <= i < parts.len() ==> is_inner(#[trigger] parts[i]),
    ensures
        depth(parts) >= 0,
    decreases parts.len(),
{
    if parts.len() > 0 {
        let before = parts.drop_last();
        assert forall|i: int| 0 <= i < before.len() implies is_inner(#[trigger] before[i]) by {
            assert(before[i] == parts[i]);
        }
        depth_of_inner(before);
        assert(is_inner(parts[parts.len() - 1]));
    }
}

/// No entry leads out of the target directory: the path that is used does not
/// start with `/`, starts with no drive on Windows, and a walk along its parts is
/// never above its start.
pub proof fn target_stays_inside(platform: Platform, name: Seq<char>, steps: int)
    requires
        stays_below(platform, entry_path(name)),
        0 <= steps <= segments(entry_path(name), '/').len(),
    ensures
        entry_path(name).len() > 0,
        entry_path(name)[0] != '/',
        platform == Platform::Windows ==> !names_a_drive(entry_path(name)),
        depth(segments(entry_path(name), '/').take(steps)) >= 0,
{
    let path = entry_path(name);
    let parts = segments(path, '/');
    if path.len() == 0 {
        assert(is_inner(parts[0]));
    } else {
        first_segment(path);
        assert(is_inner(parts[0]));
    }
    let walked = parts.take(steps);
    assert forall|i: int| 0 <= i < walked.len() implies is_inner(#[trigger] walked[i]) by {
        assert(walked[i] == parts[i]);
    }
    depth_of_inner(walked);
}

/// A path is its parts with `/` between each two, and no part has a `/` in it.
proof fn segments_make_the_path(text: Seq<char>)
    ensures
        segments(text, '/').len() > 0,
        crate::text::joined(segments(text, '/'), "/"@) == text,
        forall|i: int|
            0 <= i < segments(text, '/').len() ==> !(#[trigger] segments(text, '/')[i]).contains('/'),
    decreases text.len(),
{
    reveal_strlit("/");
    let all = segments(text, '/');
    if text.len() == 0 {
        assert(all == seq![Seq::<char>::empty()]);
        assert(crate::text::joined(all, "/"@) == all[0]);
    } else {
        let before = segments(text.drop_last(), '/');
        segments_make_the_path(text.drop_last());
        assert(text.drop_last().push(text.last()) == text);
        if text.last() == '/' {
            assert(all.drop_last() == before);
            assert(crate::text::joined(all, "/"@) == text.drop_last() + "/"@ + Seq::<char>::empty());
            assert forall|i: int| 0 <= i < all.len() implies !(#[trigger] all[i]).contains('/') by {
                if i < before.len() {
                    assert(all[i] == before[i]);
                }
            }
        } else {
            let longer = before.last().push(text.last());
            assert(all == before.drop_last().push(longer));
            assert(all.drop_last() == before.drop_last());
            assert(all.last() == longer);
            assert(crate::text::joined(all, "/"@) == crate::text::joined(before, "/"@).push(
                text.last(),
            ));
            assert forall|i: int| 0 <= i < all.len() implies !(#[trigger] all[i]).contains('/') by {
                if i < before.len() - 1 {
                    assert(all[i] == before[i]);
                } else {
                    assert(!before[before.len() - 1].contains('/'));
                    assert forall|k: int| 0 <= k < longer.len() implies longer[k] != '/' by {
                        if k < longer.len() - 1 {
                            assert(longer[k] == before.last()[k]);
                        }
                    }
                }
            }
        }
    }
}

/// Characters other than `/` go to the last part.
proof fn segments_of_longer(text: Seq<char>, more: Seq<char>)
    requires
        !more.contains('/'),
    ensures
        segments(text + more, '/') == segments(text, '/').drop_last().push(
            segments(text, '/').last() + more,
        ),
    decreases more.len(),
{
    segments_make_the_path(text);
    if more.len() == 0 {
        assert(text + more == text);
        assert(segments(text, '/').last() + more == segments(text, '/').last());
        assert(segments(text, '/').drop_last().push(segments(text, '/').last()) == segments(
            text,
            '/',
        ));
    } else {
        let less = more.drop_last();
        assert(more[more.len() - 1] != '/');
        assert(!less.contains('/')) by {
            assert forall|k: int| 0 <= k < less.len() implies less[k] != '/' by {
                assert(more[k] != '/');
            }
        }
        segments_of_longer(text, less);
        assert((text + more).drop_last() == text + less);
        assert((segments(text, '/').last() + less).push(more.last()) == segments(text, '/').last()
            + more);
        assert(segments(text + less, '/').drop_last() == segments(text, '/').drop_last());
    }
}

/// Parts without a `/` are found again in what they are joined to.
proof fn joined_parts_are_the_segments(parts: Seq<Seq<char>>)
    requires
        parts.len() > 0,
        forall|i: int| 0 <= i < parts.len() ==> !(#[trigger] parts[i]).contains('/'),
    ensures
        segments(crate::text::joined(parts, "/"@), '/') == parts,
    decreases parts.len(),
{
    reveal_strlit("/");
    let empty = Seq::<char>::empty();
    let last = parts.last();
    assert(!parts[parts.len() - 1].contains('/'));
    if parts.len() == 1 {
        segments_of_longer(empty, last);
        assert(segments(empty, '/') == seq![empty]);
        assert(empty + last == last);
        assert(segments(last, '/') == seq![last]);
        assert(parts == seq![last]);
    } else {
        let front = parts.drop_last();
        assert forall|i: int| 0 <= i < front.len() implies !(#[trigger] front[i]).contains('/') by {
            assert(front[i] == parts[i]);
        }
        joined_parts_are_the_segments(front);
        let text = crate::text::joined(front, "/"@) + "/"@;
        assert(text.drop_last() == crate::text::joined(front, "/"@));
        assert(segments(text, '/') == front.push(empty));
        segments_of_longer(text, last);
        assert(front.push(empty).drop_last() == front);
        assert(empty + last == last);
        assert(front.push(last) == parts);
    }
}

proof fn replaced_one_by_one(text: Seq<char>, c: char, by: char)
    ensures
        crate::text::replaced(text, c, seq![by]).len() == text.len(),
        forall|i: int|
            0 <= i < text.len() ==> #[trigger] crate::text::replaced(text, c, seq![by])[i] == (
            if text[i] == c {
                by
            } else {
                text[i]
            }),
    decreases text.len(),
{
    if text.len() > 0 {
        replaced_one_by_one(text.drop_last(), c, by);
    }
}

/// Whether a text is the name of something in the directory where it stands.
pub open spec fn is_plain_name(part: Seq<char>) -> bool {
    part.len() > 0 && part != ".."@ && !part.contains('/') && !part.contains('\\')
}

/// Whether a path is a list of such names with `/` between each two.
pub open spec fn is_made_of_names(path: Seq<char>) -> bool {
    exists|parts: Seq<Seq<char>>|
        {
            &&& parts.len() > 0
            &&& forall|i: int| 0 <= i < parts.len() ==> is_plain_name(#[trigger] parts[i])
            &&& #[trigger] crate::text::joined(parts, "/"@) == path
        }
}

/// An entry of an archive that is a file is unpacked exactly where its path, with
/// `/` for each `\`, is a list of names, none of which is empty or leads up, and on
/// Windows does not start with a drive. It is unpacked to that path.
pub proof fn entries_go_where_their_names_say(
    platform: Platform,
    name: &str,
    is_dir: bool,
    target: Option<String>,
    path: Seq<char>,
)
    requires
        call_ensures(entry_target, (platform, name, is_dir), target),
        path.len() == name@.len(),
        forall|i: int|
            0 <= i < path.len() ==> #[trigger] path[i] == (if name@[i] == '\\' {
                '/'
            } else {
                name@[i]
            }),
    ensures
        target is Some <==> {
            &&& !is_dir
            &&& is_made_of_names(path)
            &&& platform == Platform::Windows ==> !(path.len() >= 2 && path[1] == ':' && (
            'a' <= path[0] <= 'z' || 'A' <= path[0] <= 'Z'))
        },
        target is Some ==> target->0@ == path,
{
    reveal_strlit("/");
    replaced_one_by_one(name@, '\\', '/');
    assert("/"@ == seq!['/']);
    assert(entry_path(name@) == path);
    let parts = segments(path, '/');
    segments_make_the_path(path);
    if all_inner(path) {
        assert forall|i: int| 0 <= i < parts.len() implies is_plain_name(#[trigger] parts[i]) by {
            assert(is_inner(parts[i]));
            if parts[i].contains('\\') {
                part_of_joined(parts, i, '\\');
                let k = choose|k: int| 0 <= k < path.len() && path[k] == '\\';
                assert(path[k] == '\\');
            }
        }
        assert(is_made_of_names(path));
    }
    if is_made_of_names(path) {
        let names = choose|names: Seq<Seq<char>>|
            {
                &&& names.len() > 0
                &&& forall|i: int| 0 <= i < names.len() ==> is_plain_name(#[trigger] names[i])
                &&& #[trigger] crate::text::joined(names, "/"@) == path
            };
        assert forall|i: int| 0 <= i < names.len() implies !(#[trigger] names[i]).contains('/') by {
            assert(is_plain_name(names[i]));
        }
        joined_parts_are_the_segments(names);
        assert forall|i: int| 0 <= i < parts.len() implies is_inner(#[trigger] parts[i]) by {
            assert(is_plain_name(names[i]));
        }
    }
}

/// What a part holds, the parts joined hold.
proof fn part_of_joined(parts: Seq<Seq<char>>, i: int, c: char)
    requires
        0 <= i < parts.len(),
        parts[i].contains(c),
    ensures
        crate::text::joined(parts, "/"@).contains(c),
    decreases parts.len(),
{
    let whole = crate::text::joined(parts, "/"@);
    if parts.len() > 1 {
        let front = crate::text::joined(parts.drop_last(), "/"@);
        if i < parts.len() - 1 {
            assert(parts.drop_last()[i] == parts[i]);
            part_of_joined(parts.drop_last(), i, c);
            let k = choose|k: int| 0 <= k < front.len() && front[k] == c;
            assert(whole[k] == c);
        } else {
            let k = choose|k: int| 0 <= k < parts[i].len() && parts[i][k] == c;
            assert(whole[front.len() + "/"@.len() + k] == c);
        }
    }
}

/// What is packed is unpacked to where it was: a file whose path has ordinary
/// names gets a name in the archive that is unpacked to itself, and from which the
/// parts of the path can be told. On Windows the first name is not a drive.
pub proof fn packed_names_are_unpacked(
    parts: Vec<String>,
    name: String,
    text: &str,
    platform: Platform,
    target: Option<String>,
)
    requires
        call_ensures(archive_name, (&parts,), name),
        call_ensures(entry_target, (platform, text, false), target),
        text@ == name@,
        parts@.len() > 0,
        forall|i: int| 0 <= i < parts@.len() ==> is_plain_name((#[trigger] parts@[i])@),
        platform == Platform::Windows ==> !parts@[0]@.contains(':'),
    ensures
        target is Some && target->0@ == name@,
        segments(name@, '/') == crate::text::views(parts@),
{
    reveal_strlit("/");
    let names = crate::text::views(parts@);
    assert forall|i: int| 0 <= i < names.len() implies is_plain_name(#[trigger] names[i]) && !names[
        i].contains('/') by {
        assert(is_plain_name(parts@[i]@));
    }
    joined_parts_are_the_segments(names);
    let path = name@;
    joined_without(names, '\\');
    assert forall|i: int| 0 <= i < path.len() implies #[trigger] path[i] == (if text@[i] == '\\' {
        '/'
    } else {
        text@[i]
    }) by {
        assert(path.contains(path[i]));
    }
    assert(is_made_of_names(path));
    if platform == Platform::Windows && path.len() >= 2 && path[1] == ':' {
        first_part_first(names);
        if names[0].len() >= 2 {
            assert(path[1] == names[0][1]);
            assert(names[0].contains(':'));
        } else {
            assert(path[1] == '/');
        }
    }
    entries_go_where_their_names_say(platform, text, false, target, path);
}

proof fn joined_without(parts: Seq<Seq<char>>, c: char)
    requires
        c != '/',
        forall|i: int| 0 <= i < parts.len() ==> !(#[trigger] parts[i]).contains(c),
    ensures
        !crate::text::joined(parts, "/"@).contains(c),
    decreases parts.len(),
{
    reveal_strlit("/");
    let whole = crate::text::joined(parts, "/"@);
    if parts.len() > 0 {
        let last = parts.last();
        assert(!parts[parts.len() - 1].contains(c));
        if parts.len() > 1 {
            let front = parts.drop_last();
            assert forall|i: int| 0 <= i < front.len() implies !(#[trigger] front[i]).contains(
                c,
            ) by {
                assert(front[i] == parts[i]);
            }
            joined_without(front, c);
            let start = crate::text::joined(front, "/"@);
            assert forall|k: int| 0 <= k < whole.len() implies whole[k] != c by {
                if k < start.len() {
                    assert(start.contains(start[k]));
                } else if k > start.len() {
                    assert(last.contains(last[k - start.len() - 1]));
                }
            }
        } else {
            assert(whole == parts[0]);
        }
    }
}

/// Joined parts start with the first of them, and go on with a `/`.
proof fn first_part_first(parts: Seq<Seq<char>>)
    requires
        parts.len() > 0,
    ensures
        ({
            let whole = crate::text::joined(parts, "/"@);
            &&& whole.len() >= parts[0].len()
            &&& whole.take(parts[0].len() as int) == parts[0]
            &&& forall|i: int| 0 <= i < parts[0].len() ==> whole[i] == parts[0][i]
            &&& whole.len() > parts[0].len() ==> whole[parts[0].len() as int] == '/'
        }),
    decreases parts.len(),
{
    reveal_strlit("/");
    if parts.len() > 1 {
        first_part_first(parts.drop_last());
        let start = crate::text::joined(parts.drop_last(), "/"@);
        let whole = crate::text::joined(parts, "/"@);
        assert(parts.drop_last()[0] == parts[0]);
        assert(forall|i: int| 0 <= i < start.len() ==> whole[i] == start[i]);
        assert(whole.take(parts[0].len() as int) == start.take(parts[0].len() as int));
    }
}

/// Every file of a package is copied, and every directory gone into but
/// `node_modules`; of a tree that is packed, every directory. Links and special
/// files are left out.
pub proof fn files_are_taken_and_directories_entered(
    name: &str,
    kind: EntryKind,
    copied: TreeAction,
    packed: TreeAction,
)
    requires
        call_ensures(copy_entry, (name, kind), copied),
        call_ensures(pack_entry, (kind,), packed),
    ensures
        copied == TreeAction::Take <==> kind == EntryKind::File,
        packed == TreeAction::Take <==> kind == EntryKind::File,
        copied == TreeAction::Descend <==> kind == EntryKind::Directory && name@ != "node_modules"@,
        packed == TreeAction::Descend <==> kind == EntryKind::Directory,
{
}

} // verus!
