//! Which files of a whole tree are copied, packed and pruned.
//!
//! A tree of files is what is at each path, where a path is a list of names. A
//! walk goes through a directory entry by entry, and goes into those directories
//! for which the decision on the entry says so.

use crate::archive::{copy_action, pack_action, EntryKind, TreeAction};
use crate::prune::{
    is_node_pty, is_useless, lowercase, only_these_extensions_are_removed, prune_action,
    PruneAction, NODE_TYPES,
};
use vstd::prelude::*;

verus! {

/// Whether a path leads to an entry of that kind.
pub open spec fn is_at(
    tree: Map<Seq<Seq<char>>, EntryKind>,
    path: Seq<Seq<char>>,
    kind: EntryKind,
) -> bool {
    tree.contains_key(path) && tree[path] == kind
}

/// Whether a path leads through directories to a file.
pub open spec fn is_file(tree: Map<Seq<Seq<char>>, EntryKind>, path: Seq<Seq<char>>) -> bool {
    &&& path.len() > 0
    &&& is_at(tree, path, EntryKind::File)
    &&& forall|i: int|
        0 < i < path.len() ==> is_at(tree, #[trigger] path.take(i), EntryKind::Directory)
}

/// Whether a walk goes into a directory, where `decide` is what is done with an
/// entry of a name and a kind.
pub open spec fn is_entered(
    tree: Map<Seq<Seq<char>>, EntryKind>,
    decide: spec_fn(Seq<char>, EntryKind) -> TreeAction,
    dir: Seq<Seq<char>>,
) -> bool
    decreases dir.len(),
{
    dir.len() == 0 || {
        &&& is_entered(tree, decide, dir.drop_last())
        &&& tree.contains_key(dir)
        &&& decide(dir.last(), tree[dir]) == TreeAction::Descend
    }
}

/// Whether a walk takes the file at a path.
pub open spec fn is_taken(
    tree: Map<Seq<Seq<char>>, EntryKind>,
    decide: spec_fn(Seq<char>, EntryKind) -> TreeAction,
    path: Seq<Seq<char>>,
) -> bool {
    &&& path.len() > 0
    &&& is_entered(tree, decide, path.drop_last())
    &&& tree.contains_key(path)
    &&& decide(path.last(), tree[path]) == TreeAction::Take
}

/// The decision by which a package is copied.
pub open spec fn copying() -> spec_fn(Seq<char>, EntryKind) -> TreeAction {
    |name: Seq<char>, kind: EntryKind| copy_action(name, kind)
}

/// The decision by which a tree is packed.
pub open spec fn packing() -> spec_fn(Seq<char>, EntryKind) -> TreeAction {
    |name: Seq<char>, kind: EntryKind| pack_action(kind)
}

/// Whether the name number `i` of a path is that of a directory other than
/// `node_modules`.
spec fn is_copied_dir(
    tree: Map<Seq<Seq<char>>, EntryKind>,
    path: Seq<Seq<char>>,
    i: int,
) -> bool {
    is_at(tree, path.take(i + 1), EntryKind::Directory) && path[i] != "node_modules"@
}

/// Whether that holds of each of the first `count` names of a path.
spec fn is_copied_through(
    tree: Map<Seq<Seq<char>>, EntryKind>,
    path: Seq<Seq<char>>,
    count: int,
) -> bool {
    forall|i: int| 0 <= i < count ==> #[trigger] is_copied_dir(tree, path, i)
}

proof fn copy_enters(tree: Map<Seq<Seq<char>>, EntryKind>, path: Seq<Seq<char>>, count: int)
    requires
        0 <= count <= path.len(),
    ensures
        is_entered(tree, copying(), path.take(count)) == is_copied_through(tree, path, count),
    decreases count,
{
    if count > 0 {
        copy_enters(tree, path, count - 1);
        let dir = path.take(count);
        assert(dir.drop_last() == path.take(count - 1));
        assert(dir.last() == path[count - 1]);
        if is_copied_through(tree, path, count) {
            assert(is_copied_dir(tree, path, count - 1));
        }
    }
}

/// The files of a package that are copied are all that lie in it, but for those
/// below a directory `node_modules`. What a link stands for is not followed.
pub proof fn copied_files(tree: Map<Seq<Seq<char>>, EntryKind>, path: Seq<Seq<char>>)
    ensures
        is_taken(tree, copying(), path) <==> is_file(tree, path) && !path.drop_last().contains(
            "node_modules"@,
        ),
{
    if path.len() > 0 {
        let dirs = path.drop_last();
        let count = path.len() - 1;
        copy_enters(tree, path, count);
        assert(path.take(count) == dirs);
        if is_taken(tree, copying(), path) {
            assert(is_copied_through(tree, path, count));
            if dirs.contains("node_modules"@) {
                let i = choose|i: int| 0 <= i < dirs.len() && dirs[i] == "node_modules"@;
                assert(is_copied_dir(tree, path, i));
            }
            assert forall|i: int| 0 < i < path.len() implies is_at(
                tree,
                #[trigger] path.take(i),
                EntryKind::Directory,
            ) by {
                assert(is_copied_dir(tree, path, i - 1));
            }
        }
        if is_file(tree, path) && !dirs.contains("node_modules"@) {
            assert forall|i: int| 0 <= i < count implies #[trigger] is_copied_dir(
                tree,
                path,
                i,
            ) by {
                assert(dirs[i] == path[i]);
                assert(is_at(tree, path.take(i + 1), EntryKind::Directory));
            }
        }
    }
}

proof fn pack_enters(tree: Map<Seq<Seq<char>>, EntryKind>, path: Seq<Seq<char>>, count: int)
    requires
        0 <= count <= path.len(),
    ensures
        is_entered(tree, packing(), path.take(count)) == (forall|i: int|
            0 < i <= count ==> is_at(tree, #[trigger] path.take(i), EntryKind::Directory)),
    decreases count,
{
    if count > 0 {
        pack_enters(tree, path, count - 1);
        assert(path.take(count).drop_last() == path.take(count - 1));
    }
}

/// The files of a tree that are packed are all that lie in it.
pub proof fn packed_files(tree: Map<Seq<Seq<char>>, EntryKind>, path: Seq<Seq<char>>)
    ensures
        is_taken(tree, packing(), path) <==> is_file(tree, path),
{
    if path.len() > 0 {
        pack_enters(tree, path, path.len() - 1);
        assert(path.take(path.len() - 1) == path.drop_last());
    }
}

/// What the pruning of the tree in the directory `base` does with the entry at a
/// path.
pub open spec fn prune_at(
    tree: Map<Seq<Seq<char>>, EntryKind>,
    base: Seq<Seq<char>>,
    path: Seq<Seq<char>>,
) -> PruneAction {
    prune_action(
        is_node_pty(base + path.drop_last()),
        path.last(),
        lowercase(path.last()),
        tree[path],
    )
}

/// Whether the pruning goes into a directory.
pub open spec fn is_pruned_in(
    tree: Map<Seq<Seq<char>>, EntryKind>,
    base: Seq<Seq<char>>,
    dir: Seq<Seq<char>>,
) -> bool
    decreases dir.len(),
{
    dir.len() == 0 || {
        &&& is_pruned_in(tree, base, dir.drop_last())
        &&& tree.contains_key(dir)
        &&& prune_at(tree, base, dir) == PruneAction::Descend
    }
}

/// Whether the decision on the entry made of the first `count` names of a path
/// removes what is at the path.
pub open spec fn removes(
    tree: Map<Seq<Seq<char>>, EntryKind>,
    base: Seq<Seq<char>>,
    path: Seq<Seq<char>>,
    count: int,
) -> bool {
    let entry = path.take(count);
    &&& 0 < count <= path.len()
    &&& is_pruned_in(tree, base, entry.drop_last())
    &&& tree.contains_key(entry)
    &&& match prune_at(tree, base, entry) {
        PruneAction::RemoveFile => count == path.len(),
        PruneAction::RemoveLater => true,
        PruneAction::RemoveNodeTypes => count + 1 < path.len() && path[count] == NODE_TYPES@,
        _ => false,
    }
}

/// Whether the pruning removes what is at a path.
pub open spec fn is_removed(
    tree: Map<Seq<Seq<char>>, EntryKind>,
    base: Seq<Seq<char>>,
    path: Seq<Seq<char>>,
) -> bool {
    exists|count: int| removes(tree, base, path, count)
}

/// Whether the directory number `i` along a path is one that `node-pty` needs only
/// to be built.
pub open spec fn is_build_dir(base: Seq<Seq<char>>, path: Seq<Seq<char>>, i: int) -> bool {
    is_node_pty(base + path.take(i)) && (path[i] == "third_party"@ || path[i] == "build"@)
}

/// Whether the pruning does not go into the directory number `i` along a path.
pub open spec fn is_special(base: Seq<Seq<char>>, path: Seq<Seq<char>>, i: int) -> bool {
    path[i] == "@types"@ || is_build_dir(base, path, i)
}

/// The first directory along a path, from number `i` on, into which the pruning
/// does not go.
pub open spec fn first_special(base: Seq<Seq<char>>, path: Seq<Seq<char>>, i: int) -> Option<int>
    decreases path.len() - i,
{
    if i < 0 || i >= path.len() - 1 {
        None
    } else if is_special(base, path, i) {
        Some(i)
    } else {
        first_special(base, path, i + 1)
    }
}

/// Whether a file is of no use at run time: it lies in a directory that is needed
/// only for a build, in the types of node, or, outside of these and of other types,
/// its name says so.
pub open spec fn is_dispensable(base: Seq<Seq<char>>, path: Seq<Seq<char>>) -> bool {
    match first_special(base, path, 0) {
        Some(i) => is_build_dir(base, path, i) || (i + 2 < path.len() && path[i + 1]
            == NODE_TYPES@),
        None => is_useless(lowercase(path.last())),
    }
}

proof fn first_special_is_first(base: Seq<Seq<char>>, path: Seq<Seq<char>>, i: int)
    requires
        0 <= i,
    ensures
        match first_special(base, path, i) {
            Some(at) => {
                &&& i <= at < path.len() - 1
                &&& is_special(base, path, at)
                &&& forall|k: int| i <= k < at ==> !#[trigger] is_special(base, path, k)
            },
            None => forall|k: int|
                i <= k < path.len() - 1 ==> !#[trigger] is_special(base, path, k),
        },
    decreases path.len() - i,
{
    if i < path.len() - 1 && !is_special(base, path, i) {
        first_special_is_first(base, path, i + 1);
    }
}

proof fn prune_of_dir(
    tree: Map<Seq<Seq<char>>, EntryKind>,
    base: Seq<Seq<char>>,
    path: Seq<Seq<char>>,
    i: int,
)
    requires
        is_file(tree, path),
        0 <= i < path.len() - 1,
    ensures
        tree.contains_key(path.take(i + 1)),
        prune_at(tree, base, path.take(i + 1)) == if is_build_dir(base, path, i) {
            PruneAction::RemoveLater
        } else if path[i] == "@types"@ {
            PruneAction::RemoveNodeTypes
        } else {
            PruneAction::Descend
        },
{
    let dir = path.take(i + 1);
    assert(is_at(tree, path.take(i + 1), EntryKind::Directory));
    assert(dir.drop_last() == path.take(i));
    assert(dir.last() == path[i]);
}

/// Whether none of the first `count` directories along a path is special.
spec fn none_special(base: Seq<Seq<char>>, path: Seq<Seq<char>>, count: int) -> bool {
    forall|k: int| 0 <= k < count ==> !#[trigger] is_special(base, path, k)
}

proof fn prune_enters(
    tree: Map<Seq<Seq<char>>, EntryKind>,
    base: Seq<Seq<char>>,
    path: Seq<Seq<char>>,
    count: int,
)
    requires
        is_file(tree, path),
        0 <= count <= path.len() - 1,
    ensures
        is_pruned_in(tree, base, path.take(count)) == none_special(base, path, count),
    decreases count,
{
    if count > 0 {
        let before = count - 1;
        prune_enters(tree, base, path, before);
        prune_of_dir(tree, base, path, before);
        assert(path.take(count).drop_last() == path.take(before));
        if is_special(base, path, before) {
            assert(!none_special(base, path, count));
        } else {
            assert(none_special(base, path, count) == none_special(base, path, before)) by {
                if none_special(base, path, before) {
                    assert forall|k: int| 0 <= k < count implies !#[trigger] is_special(
                        base,
                        path,
                        k,
                    ) by {}
                } else {
                    let k = choose|k: int| 0 <= k < before && #[trigger] is_special(base, path, k);
                    assert(is_special(base, path, k));
                }
            }
        }
    }
}

/// What is decided on a file into whose directory the pruning goes.
proof fn prune_of_file(
    tree: Map<Seq<Seq<char>>, EntryKind>,
    base: Seq<Seq<char>>,
    path: Seq<Seq<char>>,
)
    requires
        is_file(tree, path),
    ensures
        removes(tree, base, path, path.len() as int) <==> none_special(base, path, path.len() - 1)
            && is_useless(lowercase(path.last())),
{
    let last = path.len() - 1;
    assert(path.take(path.len() as int) == path);
    assert(path.drop_last() == path.take(last));
    prune_enters(tree, base, path, last);
}

/// What is decided on a directory along the path of a file.
proof fn prune_on_the_way(
    tree: Map<Seq<Seq<char>>, EntryKind>,
    base: Seq<Seq<char>>,
    path: Seq<Seq<char>>,
    i: int,
)
    requires
        is_file(tree, path),
        0 <= i < path.len() - 1,
    ensures
        removes(tree, base, path, i + 1) <==> none_special(base, path, i) && (is_build_dir(
            base,
            path,
            i,
        ) || (path[i] == "@types"@ && i + 2 < path.len() && path[i + 1] == NODE_TYPES@)),
{
    prune_enters(tree, base, path, i);
    prune_of_dir(tree, base, path, i);
    assert(path.take(i + 1).drop_last() == path.take(i));
}

/// The files that the pruning removes are exactly the dispensable ones.
pub proof fn pruned_files(
    tree: Map<Seq<Seq<char>>, EntryKind>,
    base: Seq<Seq<char>>,
    path: Seq<Seq<char>>,
)
    requires
        is_file(tree, path),
    ensures
        is_removed(tree, base, path) <==> is_dispensable(base, path),
{
    first_special_is_first(base, path, 0);
    prune_of_file(tree, base, path);
    if is_dispensable(base, path) {
        match first_special(base, path, 0) {
            None => {
                assert(removes(tree, base, path, path.len() as int));
            },
            Some(i) => {
                prune_on_the_way(tree, base, path, i);
                assert(removes(tree, base, path, i + 1));
            },
        }
    }
    if is_removed(tree, base, path) {
        let count = choose|count: int| removes(tree, base, path, count);
        if count < path.len() {
            let i = count - 1;
            prune_on_the_way(tree, base, path, i);
            assert(is_special(base, path, i));
            let first = first_special(base, path, 0)->0;
            assert(is_special(base, path, first));
            assert(first == i);
        } else if let Some(i) = first_special(base, path, 0) {
            assert(is_special(base, path, i));
        }
    }
}

/// Whether a directory along `base + path`, below `base` and above the last name
/// of `path`, is `third_party` or `build` of a package `node-pty` in a directory
/// `node_modules`.
pub open spec fn leads_through_a_build(base: Seq<Seq<char>>, path: Seq<Seq<char>>) -> bool {
    exists|i: int| #[trigger] is_build_of_node_pty(base + path, i) && base.len() <= i + 2 < base.len()
        + path.len() - 1
}

/// Whether the names from number `i` on are `node_modules`, `node-pty` and one of
/// the directories that are there for its build.
pub open spec fn is_build_of_node_pty(path: Seq<Seq<char>>, i: int) -> bool {
    &&& 0 <= i
    &&& i + 2 < path.len()
    &&& path[i] == "node_modules"@
    &&& path[i + 1] == "node-pty"@
    &&& path[i + 2] == "third_party"@ || path[i + 2] == "build"@
}

proof fn build_dirs(base: Seq<Seq<char>>, path: Seq<Seq<char>>, i: int)
    requires
        0 <= i < path.len(),
    ensures
        is_build_dir(base, path, i) == is_build_of_node_pty(base + path, base.len() + i - 2),
{
    let whole = base + path;
    let dir = base + path.take(i);
    assert(whole[base.len() + i] == path[i]);
    if dir.len() >= 2 {
        assert(whole[base.len() + i - 1] == dir[dir.len() - 1]);
        assert(whole[base.len() + i - 2] == dir[dir.len() - 2]);
    }
}

/// A file on whose path there is neither `@types` nor a build directory of
/// `node-pty` is removed exactly where the last extension of its lower case name
/// is one of the eight.
pub proof fn pruned_by_extension(
    tree: Map<Seq<Seq<char>>, EntryKind>,
    base: Seq<Seq<char>>,
    path: Seq<Seq<char>>,
    stem: Seq<char>,
    extension: Seq<char>,
)
    requires
        is_file(tree, path),
        !path.drop_last().contains("@types"@),
        !leads_through_a_build(base, path),
    ensures
        lowercase(path.last()) == stem + seq!['.'] + extension && !extension.contains('.') ==> (
        is_removed(tree, base, path) <==> seq![
            "pdb"@,
            "map"@,
            "ts"@,
            "tsx"@,
            "mts"@,
            "cts"@,
            "md"@,
            "tsbuildinfo"@,
        ].contains(extension)),
        !lowercase(path.last()).contains('.') ==> !is_removed(tree, base, path),
{
    pruned_files(tree, base, path);
    first_special_is_first(base, path, 0);
    if let Some(i) = first_special(base, path, 0) {
        build_dirs(base, path, i);
        assert(path.drop_last()[i] == path[i]);
        assert(is_build_of_node_pty(base + path, base.len() + i - 2));
    }
    only_these_extensions_are_removed(false, path.last(), stem, extension);
    only_these_extensions_are_removed(false, path.last(), lowercase(path.last()), extension);
}

/// All files in the build directories of `node-pty` and in `@types/node` are
/// removed, whatever their names are. No other `@types` may stand before these on
/// the path.
pub proof fn pruned_by_directory(
    tree: Map<Seq<Seq<char>>, EntryKind>,
    base: Seq<Seq<char>>,
    front: Seq<Seq<char>>,
    rest: Seq<Seq<char>>,
    dir: Seq<char>,
)
    requires
        rest.len() > 0,
        !front.contains("@types"@),
        dir == "third_party"@ || dir == "build"@,
    ensures
        is_file(tree, front.push("node_modules"@).push("node-pty"@).push(dir) + rest) ==> is_removed(
            tree,
            base,
            front.push("node_modules"@).push("node-pty"@).push(dir) + rest,
        ),
        is_file(tree, front.push("@types"@).push("node"@) + rest) ==> is_removed(
            tree,
            base,
            front.push("@types"@).push("node"@) + rest,
        ),
{
    reveal_strlit("@types");
    reveal_strlit("node_modules");
    reveal_strlit("node-pty");
    let at = front.len() as int;
    let one = front.push("node_modules"@).push("node-pty"@).push(dir) + rest;
    if is_file(tree, one) {
        pruned_files(tree, base, one);
        first_special_is_first(base, one, 0);
        build_dirs(base, one, at + 2);
        assert((base + one)[base.len() + at] == one[at]);
        assert((base + one)[base.len() + at + 1] == one[at + 1]);
        assert((base + one)[base.len() + at + 2] == one[at + 2]);
        assert(is_special(base, one, at + 2));
        let i = first_special(base, one, 0)->0;
        if i < at {
            assert(one[i] == front[i]);
        } else if i < at + 2 {
            assert("node_modules"@.len() != "@types"@.len());
            assert("node-pty"@.len() != "@types"@.len());
        }
    }
    let two = front.push("@types"@).push("node"@) + rest;
    if is_file(tree, two) {
        pruned_files(tree, base, two);
        first_special_is_first(base, two, 0);
        assert(is_special(base, two, at));
        let i = first_special(base, two, 0)->0;
        if i < at {
            assert(two[i] == front[i]);
        }
    }
}

/// What is below `@types` but not in `@types/node` is kept, whatever it is, where
/// no directory before it is removed.
pub proof fn other_types_are_kept(
    tree: Map<Seq<Seq<char>>, EntryKind>,
    base: Seq<Seq<char>>,
    front: Seq<Seq<char>>,
    rest: Seq<Seq<char>>,
)
    requires
        rest.len() > 0,
        rest.len() == 1 || rest[0] != "node"@,
        !front.contains("@types"@),
        !leads_through_a_build(base, front.push("@types"@)),
        is_file(tree, front.push("@types"@) + rest),
    ensures
        !is_removed(tree, base, front.push("@types"@) + rest),
{
    reveal_strlit("@types");
    reveal_strlit("third_party");
    reveal_strlit("build");
    let at = front.len() as int;
    let path = front.push("@types"@) + rest;
    let before = front.push("@types"@);
    pruned_files(tree, base, path);
    first_special_is_first(base, path, 0);
    assert(path[at] == "@types"@);
    assert(is_special(base, path, at));
    let i = first_special(base, path, 0)->0;
    build_dirs(base, path, i);
    if i < at {
        assert(path[i] == front[i]);
        build_dirs(base, before, i);
        assert(path.take(i) == before.take(i));
        assert(path[i] == before[i]);
        assert(is_build_of_node_pty(base + before, base.len() + i - 2));
    } else {
        assert("@types"@.len() != "third_party"@.len() && "@types"@.len() != "build"@.len());
        assert(path[at + 1] == rest[0]);
    }
}

} // verus!
