//! The paths of the places in the vendored tree, and what node finds along them.

use crate::tree::{
    below_place, child, child_is_there, found, path_of, place_for, top_is_found, top_place,
    SpotModel, CLI_PLACE,
};
use crate::vendor::{ActionModel, EventModel, PhaseModel, VendorModel};
use crate::vendor_laws::{
    after_all, all_answer, answers, came_from, every_dependency_is_found, has_origin, is_found_well, new_spot,
    step_adds, walk, walk_run, walk_start, Workspace,
};
use vstd::prelude::*;

verus! {

/// Whether a package was copied to the path.
pub open spec fn is_copied_to(state: VendorModel, rel: Seq<char>) -> bool {
    exists|i: int|
        0 <= i < state.tree.len() && (#[trigger] state.tree[i]).copied && path_of(
            state.tree,
            i,
            state.separator,
        ) == rel
}

/// Whether an event says of a path that it is taken exactly where a package was
/// copied to it.
pub open spec fn tells_places(state: VendorModel, event: EventModel) -> bool {
    match (state.action(), event) {
        (ActionModel::CheckTarget { rel }, EventModel::Target { taken }) => taken == is_copied_to(
            state,
            rel,
        ),
        _ => true,
    }
}

/// Whether each event of a run says of a path that it is taken exactly where a
/// package was copied to it.
pub open spec fn all_tell_places(state: VendorModel, events: Seq<EventModel>) -> bool
    decreases events.len(),
{
    events.len() > 0 ==> {
        &&& all_tell_places(state, events.drop_last())
        &&& tells_places(after_all(state, events.drop_last()), events.last())
    }
}

proof fn path_of_push(tree: Seq<SpotModel>, spot: SpotModel, at: int, separator: Seq<char>)
    requires
        0 <= at < tree.len(),
    ensures
        path_of(tree.push(spot), at, separator) == path_of(tree, at, separator),
    decreases at,
{
    assert(tree.push(spot)[at] == tree[at]);
    if 0 <= tree[at].parent < at {
        path_of_push(tree, spot, tree[at].parent, separator);
    }
}

/// No path was copied to twice, and that of the copy at hand was not.
spec fn paths_differ(state: VendorModel) -> bool {
    &&& forall|i: int, j: int|
        0 <= i < j < state.tree.len() && (#[trigger] state.tree[i]).copied && (
        #[trigger] state.tree[j]).copied ==> path_of(state.tree, i, state.separator) != path_of(
            state.tree,
            j,
            state.separator,
        )
    &&& match state.phase {
        PhaseModel::Copying { names, next, package, parent } => !is_copied_to(
            state,
            place_for(state.tree, parent, names[next], state.separator),
        ),
        _ => true,
    }
}

proof fn paths_step(state: VendorModel, event: EventModel)
    requires
        state.well_formed(),
        paths_differ(state),
        tells_places(state, event),
    ensures
        paths_differ(state.after(event)),
{
    step_adds(state, event);
    if let Some(spot) = new_spot(state, event) {
        let tree = state.tree;
        let later = state.after(event).tree;
        assert(later == tree.push(spot));
        assert forall|i: int| 0 <= i < tree.len() implies #[trigger] path_of(
            later,
            i,
            state.separator,
        ) == path_of(tree, i, state.separator) by {
            path_of_push(tree, spot, i, state.separator);
        }
        assert forall|i: int, j: int|
            0 <= i < j < later.len() && (#[trigger] later[i]).copied && (
            #[trigger] later[j]).copied implies path_of(later, i, state.separator) != path_of(
            later,
            j,
            state.separator,
        ) by {
            assert(later[i] == tree[i]);
            assert(path_of(later, i, state.separator) == path_of(tree, i, state.separator));
            if j < tree.len() {
                assert(later[j] == tree[j]);
                assert(path_of(later, j, state.separator) == path_of(tree, j, state.separator));
            } else {
                if spot.parent >= 0 {
                    path_of_push(tree, spot, spot.parent, state.separator);
                }
                assert(path_of(later, j, state.separator) == place_for(
                    tree,
                    spot.parent,
                    spot.name,
                    state.separator,
                ));
            }
        }
    }
}

proof fn paths_run(workspace: Workspace, state: VendorModel, events: Seq<EventModel>)
    requires
        walk(workspace, state),
        paths_differ(state),
        all_answer(workspace, state, events),
        all_tell_places(state, events),
    ensures
        paths_differ(after_all(state, events)),
    decreases events.len(),
{
    if events.len() > 0 {
        paths_run(workspace, state, events.drop_last());
        walk_run(workspace, state, events.drop_last());
        paths_step(after_all(state, events.drop_last()), events.last());
    }
}

/// In a tree that starts empty no package is copied over another: no path is
/// copied to twice.
pub proof fn no_place_is_filled_twice(
    workspace: Workspace,
    cli: u64,
    first: Option<Seq<char>>,
    separator: Seq<char>,
    events: Seq<EventModel>,
)
    requires
        all_answer(workspace, VendorModel::start(cli, first, separator), events),
        all_tell_places(VendorModel::start(cli, first, separator), events),
    ensures
        ({
            let state = after_all(VendorModel::start(cli, first, separator), events);
            forall|i: int, j: int|
                0 <= i < j < state.tree.len() && (#[trigger] state.tree[i]).copied && (
                #[trigger] state.tree[j]).copied ==> path_of(state.tree, i, separator) != path_of(
                    state.tree,
                    j,
                    separator,
                )
        }),
{
    let start = VendorModel::start(cli, first, separator);
    walk_start(workspace, cli, first, separator);
    walk_run(workspace, start, events);
    paths_run(workspace, start, events);
}

impl Workspace {
    /// Whether a package depends on something by that name.
    pub open spec fn uses(self, name: Seq<char>) -> bool {
        exists|from: u64, j: int| #[trigger] self.is_name(from, j, name)
    }

    /// Whether that is the name of the dependency number `j` of `from`.
    pub open spec fn is_name(self, from: u64, j: int, name: Seq<char>) -> bool {
        match (self.names)(from) {
            Some(names) => 0 <= j < names.len() && names[j] == name,
            None => false,
        }
    }
}

/// Whether a place has no directory `node_modules` before its last part.
pub open spec fn is_flat(place: Seq<char>) -> bool {
    forall|at: int| !#[trigger] crate::text::occurs_at("/"@ + place, "/node_modules/"@, at)
}

/// Whether the names that are used in a workspace keep their places apart: each
/// has a place of its own, which does not lead through `node_modules`, and that
/// of the command line package has no other name.
pub open spec fn names_keep_apart(workspace: Workspace, separator: Seq<char>) -> bool {
    &&& forall|name: Seq<char>| #[trigger]
        workspace.uses(name) ==> is_flat(crate::text::replaced(name, '/', separator)) && (
        crate::text::replaced(name, '/', separator) == CLI_PLACE@ ==> name == CLI_PLACE@)
    &&& forall|a: Seq<char>, b: Seq<char>| #[trigger]
        workspace.uses(a) && #[trigger] workspace.uses(b) && crate::text::replaced(
            a,
            '/',
            separator,
        ) == crate::text::replaced(b, '/', separator) ==> a == b
}

proof fn dependency_is_used(workspace: Workspace, from: u64, j: int, to: u64)
    requires
        workspace.dependency(from, j, to),
    ensures
        workspace.uses((workspace.names)(from)->0[j]),
{
    assert(workspace.is_name(from, j, (workspace.names)(from)->0[j]));
}

/// A flat place is not below another.
proof fn flat_is_not_below(place: Seq<char>, below: Seq<char>, rest: Seq<char>)
    requires
        is_flat(place),
    ensures
        place != below_place(below, rest),
{
    if place == below_place(below, rest) {
        let middle = "/node_modules/"@;
        let path = "/"@ + place;
        reveal_strlit("/");
        let at = below.len() as int + 1;
        assert(path.subrange(at, at + middle.len()) == middle);
        assert(crate::text::occurs_at(path, middle, at));
    }
}

/// The command line package's own place is not below another.
proof fn cli_place_is_not_below(below: Seq<char>, rest: Seq<char>)
    ensures
        CLI_PLACE@ != below_place(below, rest),
{
    reveal_strlit("@deepseek-ai/dsh");
    reveal_strlit("/node_modules/");
    let place = below_place(below, rest);
    let at = below.len() as int + 5;
    assert(place[at] == '_');
    assert(CLI_PLACE@.len() == 16);
    assert(CLI_PLACE@[5] != '_' && CLI_PLACE@[6] != '_' && CLI_PLACE@[7] != '_');
    if CLI_PLACE@ == place {
        assert(5 <= at <= 7);
    }
}

proof fn shorter_below(a: Seq<char>, p: Seq<char>, b: Seq<char>, q: Seq<char>)
    requires
        is_flat(p),
        below_place(a, p) == below_place(b, q),
    ensures
        b.len() <= a.len(),
{
    reveal_strlit("/node_modules/");
    reveal_strlit("/");
    let middle = "/node_modules/"@;
    let whole = below_place(a, p);
    if a.len() < b.len() {
        assert(whole[b.len() as int] == '/') by {
            assert(below_place(b, q)[b.len() as int] == middle[0]);
        }
        if b.len() < a.len() + 13 {
            assert(whole[b.len() as int] == middle[b.len() - a.len()]);
        } else {
            let path = "/"@ + p;
            let at = b.len() - a.len() - 13;
            assert(whole.len() == a.len() + 14 + p.len());
            assert(below_place(b, q).len() == b.len() + 14 + q.len());
            assert forall|i: int| 0 <= i < middle.len() implies path[at + i] == middle[i] by {
                assert(path[at + i] == whole[b.len() + i]) by {
                    if at + i == 0 {
                        assert(whole[a.len() as int + 13] == middle[13]);
                    } else {
                        assert(path[at + i] == p[at + i - 1]);
                    }
                }
                assert(below_place(b, q)[b.len() + i] == middle[i]);
            }
            assert(path.subrange(at, at + middle.len()) == middle);
            assert(crate::text::occurs_at(path, middle, at));
        }
    }
}

/// A place below another is so in one way only.
proof fn below_in_one_way(a: Seq<char>, p: Seq<char>, b: Seq<char>, q: Seq<char>)
    requires
        is_flat(p),
        is_flat(q),
        below_place(a, p) == below_place(b, q),
    ensures
        a == b,
        p == q,
{
    shorter_below(a, p, b, q);
    shorter_below(b, q, a, p);
    let whole = below_place(a, p);
    assert(a == whole.take(a.len() as int));
    assert(b == whole.take(b.len() as int));
    let start = a.len() + "/node_modules/"@.len();
    assert(p == whole.skip(start as int));
    assert(q == whole.skip(start as int));
}

/// Whether a name may be placed below `at`: it is used in the workspace, or is
/// that of the command line package at the top.
spec fn is_known(workspace: Workspace, at: int, name: Seq<char>) -> bool {
    workspace.uses(name) || (at < 0 && name == CLI_PLACE@)
}

proof fn placed_name_is_known(workspace: Workspace, state: VendorModel, i: int)
    requires
        walk(workspace, state),
        0 <= i < state.tree.len(),
    ensures
        is_known(workspace, state.tree[i].parent, state.tree[i].name),
{
    if i > 0 {
        assert(has_origin(workspace, state.tree, i));
        let (k, j) = choose|k: int, j: int| came_from(workspace, state.tree, i, k, j);
        dependency_is_used(workspace, state.tree[k].package, j, state.tree[i].package);
    }
}

/// A top place is not below another.
proof fn top_is_not_below(
    workspace: Workspace,
    name: Seq<char>,
    separator: Seq<char>,
    below: Seq<char>,
    rest: Seq<char>,
)
    requires
        names_keep_apart(workspace, separator),
        is_known(workspace, -1, name),
    ensures
        top_place(name, separator) != below_place(below, rest),
{
    if name == CLI_PLACE@ {
        cli_place_is_not_below(below, rest);
    } else {
        flat_is_not_below(top_place(name, separator), below, rest);
    }
}

/// A path is that of one name below one package only.
proof fn path_tells_the_place(
    workspace: Workspace,
    state: VendorModel,
    i: int,
    at: int,
    name: Seq<char>,
)
    requires
        walk(workspace, state),
        names_keep_apart(workspace, state.separator),
        0 <= i < state.tree.len(),
        -1 <= at < state.tree.len(),
        is_known(workspace, at, name),
        path_of(state.tree, i, state.separator) == place_for(state.tree, at, name, state.separator),
    ensures
        state.tree[i].parent == at,
        state.tree[i].name == name,
    decreases i,
{
    let tree = state.tree;
    let separator = state.separator;
    let spot = tree[i];
    placed_name_is_known(workspace, state, i);
    if spot.parent < 0 {
        if at >= 0 {
            top_is_not_below(
                workspace,
                spot.name,
                separator,
                path_of(tree, at, separator),
                crate::text::replaced(name, '/', separator),
            );
        }
    } else {
        let above = path_of(tree, spot.parent, separator);
        let place = crate::text::replaced(spot.name, '/', separator);
        if at < 0 {
            top_is_not_below(workspace, name, separator, above, place);
        } else {
            below_in_one_way(
                above,
                place,
                path_of(tree, at, separator),
                crate::text::replaced(name, '/', separator),
            );
            placed_name_is_known(workspace, state, at);
            path_tells_the_place(workspace, state, spot.parent, tree[at].parent, tree[at].name);
            if spot.parent < at {
                assert(!(tree[spot.parent].parent == tree[at].parent && tree[spot.parent].name
                    == tree[at].name));
            } else if at < spot.parent {
                assert(!(tree[at].parent == tree[spot.parent].parent && tree[at].name
                    == tree[spot.parent].name));
            }
        }
    }
}

/// Whether every package was copied to its place.
pub open spec fn all_are_copied(tree: Seq<SpotModel>) -> bool {
    forall|i: int| 0 <= i < tree.len() ==> (#[trigger] tree[i]).copied
}

proof fn copied_step(workspace: Workspace, state: VendorModel, event: EventModel)
    requires
        walk(workspace, state),
        all_are_copied(state.tree),
        names_keep_apart(workspace, state.separator),
        answers(workspace, state, event),
        tells_places(state, event),
    ensures
        all_are_copied(state.after(event).tree),
{
    step_adds(state, event);
    if let PhaseModel::Placing { names, next, package, parent } = state.phase {
        let tree = state.tree;
        let name = names[next];
        let rel = place_for(tree, parent, name, state.separator);
        if is_copied_to(state, rel) {
            let i = choose|i: int|
                0 <= i < tree.len() && (#[trigger] tree[i]).copied && path_of(
                    tree,
                    i,
                    state.separator,
                ) == rel;
            assert(workspace.dependency(state.dir(), next, package));
            dependency_is_used(workspace, state.dir(), next, package);
            path_tells_the_place(workspace, state, i, parent, name);
            child_is_there(tree, parent, name);
            if parent == -1 {
                top_is_found(tree, tree[state.head - 1].parent, name);
            }
        }
    }
}

proof fn copied_run(workspace: Workspace, state: VendorModel, events: Seq<EventModel>)
    requires
        walk(workspace, state),
        all_are_copied(state.tree),
        names_keep_apart(workspace, state.separator),
        all_answer(workspace, state, events),
        all_tell_places(state, events),
    ensures
        all_are_copied(after_all(state, events).tree),
    decreases events.len(),
{
    if events.len() > 0 {
        copied_run(workspace, state, events.drop_last());
        walk_run(workspace, state, events.drop_last());
        copied_step(workspace, after_all(state, events.drop_last()), events.last());
    }
}

/// The package that was copied to a path.
pub open spec fn package_at(state: VendorModel, rel: Seq<char>) -> Option<u64> {
    if is_copied_to(state, rel) {
        let i = choose|i: int|
            0 <= i < state.tree.len() && (#[trigger] state.tree[i]).copied && path_of(
                state.tree,
                i,
                state.separator,
            ) == rel;
        Some(state.tree[i].package)
    } else {
        None
    }
}

/// What node finds for a name, looking along paths from the package at `at`: the
/// package in its own `node_modules` directory, else that in the nearest
/// enclosing one.
pub open spec fn node_finds(state: VendorModel, at: int, name: Seq<char>) -> Option<u64>
    decreases at + 1,
{
    match package_at(state, place_for(state.tree, at, name, state.separator)) {
        Some(package) => Some(package),
        None => if 0 <= at < state.tree.len() && -1 <= state.tree[at].parent < at {
            node_finds(state, state.tree[at].parent, name)
        } else {
            None
        },
    }
}

proof fn node_finds_what_is_found(
    workspace: Workspace,
    state: VendorModel,
    at: int,
    name: Seq<char>,
)
    requires
        walk(workspace, state),
        all_are_copied(state.tree),
        names_keep_apart(workspace, state.separator),
        workspace.uses(name),
        -1 <= at < state.tree.len(),
    ensures
        node_finds(state, at, name) == found(state.tree, at, name),
    decreases at + 1,
{
    let tree = state.tree;
    let rel = place_for(tree, at, name, state.separator);
    child_is_there(tree, at, name);
    if is_copied_to(state, rel) {
        let i = choose|i: int|
            0 <= i < tree.len() && (#[trigger] tree[i]).copied && path_of(tree, i, state.separator)
                == rel;
        path_tells_the_place(workspace, state, i, at, name);
        let c = child(tree, at, name)->0;
        if c < i {
            assert(!(tree[c].parent == tree[i].parent && tree[c].name == tree[i].name));
        } else if i < c {
            assert(!(tree[i].parent == tree[c].parent && tree[i].name == tree[c].name));
        }
    } else {
        if let Some(c) = child(tree, at, name) {
            assert(tree[c].copied);
            assert(path_of(tree, c, state.separator) == rel);
        }
        if 0 <= at {
            node_finds_what_is_found(workspace, state, tree[at].parent, name);
        }
    }
}

/// When the assembly of a tree that started empty is done, the tree is a
/// self-contained copy: every package was copied to its place, and from each of
/// its places node, looking along the paths, finds for every name that it depends
/// on the very package that the name stands for in the workspace, as far as that
/// is installed. The names have to keep their places apart.
pub proof fn tree_is_self_contained(
    workspace: Workspace,
    cli: u64,
    first: Option<Seq<char>>,
    separator: Seq<char>,
    events: Seq<EventModel>,
)
    requires
        names_keep_apart(workspace, separator),
        all_answer(workspace, VendorModel::start(cli, first, separator), events),
        all_tell_places(VendorModel::start(cli, first, separator), events),
        after_all(VendorModel::start(cli, first, separator), events).phase is Done,
    ensures
        ({
            let done = after_all(VendorModel::start(cli, first, separator), events);
            &&& all_are_copied(done.tree)
            &&& forall|k: int, j: int, to: u64|
                0 <= k < done.tree.len() && #[trigger] workspace.dependency(
                    done.tree[k].package,
                    j,
                    to,
                ) ==> node_finds(done, k, (workspace.names)(done.tree[k].package)->0[j]) == Some(to)
        }),
{
    let start = VendorModel::start(cli, first, separator);
    walk_start(workspace, cli, first, separator);
    walk_run(workspace, start, events);
    copied_run(workspace, start, events);
    every_dependency_is_found(workspace, cli, first, separator, events);
    let done = after_all(start, events);
    assert forall|k: int, j: int, to: u64|
        0 <= k < done.tree.len() && #[trigger] workspace.dependency(
            done.tree[k].package,
            j,
            to,
        ) implies node_finds(done, k, (workspace.names)(done.tree[k].package)->0[j]) == Some(
        to,
    ) by {
        dependency_is_used(workspace, done.tree[k].package, j, to);
        assert(is_found_well(
            done.tree,
            k,
            (workspace.names)(done.tree[k].package)->0[j],
            to,
        ));
        node_finds_what_is_found(
            workspace,
            done,
            k,
            (workspace.names)(done.tree[k].package)->0[j],
        );
    }
}

} // verus!
