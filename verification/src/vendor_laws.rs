//! What holds of every run of the assembly of the vendored tree: the packages in
//! it are the dependency closure, and node finds in it what each of them needs.

use crate::tree::{
    above_is_there, child, child_is_there, child_of_push, is_above, is_served, is_tree, looked_up,
    lookup_is_there, new_top_is_found, outlook, outlook_of_push, same_view, served_is_found,
    top_is_found, SpotModel, CLI_PLACE,
};
use crate::vendor::{ActionModel, EventModel, PhaseModel, VendorModel};
use vstd::prelude::*;

verus! {

/// The packages of a workspace: the names that each depends on, where its
/// manifest can be read, and the package that each name stands for, where it is
/// installed.
pub struct Workspace {
    pub names: spec_fn(u64) -> Option<Seq<Seq<char>>>,
    pub resolve: spec_fn(u64, Seq<char>) -> Option<u64>,
}

impl Workspace {
    /// Whether `to` is what the dependency number `j` of `from` stands for.
    pub open spec fn dependency(self, from: u64, j: int, to: u64) -> bool {
        match (self.names)(from) {
            Some(names) => 0 <= j < names.len() && (self.resolve)(from, names[j]) == Some(to),
            None => false,
        }
    }

    /// Whether `from` depends on `to`.
    pub open spec fn requires_package(self, from: u64, to: u64) -> bool {
        exists|j: int| self.dependency(from, j, to)
    }

    /// Whether `to` is reached from `from` over `steps` dependencies.
    pub open spec fn reaches_in(self, from: u64, to: u64, steps: nat) -> bool
        decreases steps,
    {
        if steps == 0 {
            from == to
        } else {
            exists|middle: u64|
                self.reaches_in(from, middle, (steps - 1) as nat) && #[trigger] self.requires_package(
                    middle,
                    to,
                )
        }
    }

    /// Whether `to` is reached from `from` over any number of dependencies.
    pub open spec fn reaches(self, from: u64, to: u64) -> bool {
        exists|steps: nat| self.reaches_in(from, to, steps)
    }
}

/// Whether an event answers the action at hand as the workspace has it.
pub open spec fn answers(workspace: Workspace, state: VendorModel, event: EventModel) -> bool {
    match (state.action(), event) {
        (ActionModel::CheckTarget { rel }, EventModel::Target { taken }) => true,
        (ActionModel::Copy { package, rel }, EventModel::Copied) => true,
        (ActionModel::Resolve { dir, name }, EventModel::Resolved { package }) => package == (
        workspace.resolve)(dir, name),
        (ActionModel::ReadManifest { dir }, EventModel::Manifest { names }) => names == (
        workspace.names)(dir),
        _ => false,
    }
}

/// The state after a run of events.
pub open spec fn after_all(state: VendorModel, events: Seq<EventModel>) -> VendorModel
    decreases events.len(),
{
    if events.len() == 0 {
        state
    } else {
        after_all(state, events.drop_last()).after(events.last())
    }
}

/// Whether each event of a run answers the action that is then at hand as the
/// workspace has it.
pub open spec fn all_answer(
    workspace: Workspace,
    state: VendorModel,
    events: Seq<EventModel>,
) -> bool
    decreases events.len(),
{
    events.len() > 0 ==> {
        &&& all_answer(workspace, state, events.drop_last())
        &&& answers(workspace, after_all(state, events.drop_last()), events.last())
    }
}

/// Whether no two places have the same name in the same directory.
pub open spec fn are_apart(tree: Seq<SpotModel>) -> bool {
    forall|i: int, j: int|
        0 <= i < j < tree.len() ==> !((#[trigger] tree[i]).parent == (#[trigger] tree[j]).parent
            && tree[i].name == tree[j].name)
}

/// Whether every name that is placed anywhere is placed at the top.
pub open spec fn names_are_at_top(tree: Seq<SpotModel>) -> bool {
    forall|i: int|
        0 <= i < tree.len() ==> child(tree, -1, (#[trigger] tree[i]).name) is Some
}

/// Whether the place `i` was filled because the package at `k` depends on what
/// is there, by its dependency number `j`.
pub open spec fn came_from(
    workspace: Workspace,
    tree: Seq<SpotModel>,
    i: int,
    k: int,
    j: int,
) -> bool {
    &&& 0 <= k < i
    &&& workspace.dependency(tree[k].package, j, tree[i].package)
    &&& (workspace.names)(tree[k].package)->0[j] == tree[i].name
}

/// Whether the package at `at` needs `package` by a name, and what node finds from
/// around its place is another package or lies beside its branch.
pub open spec fn needs_nested(
    workspace: Workspace,
    tree: Seq<SpotModel>,
    at: int,
    name: Seq<char>,
    package: u64,
) -> bool {
    &&& (workspace.resolve)(tree[at].package, name) == Some(package)
    &&& match looked_up(tree, tree[at].parent, name) {
        Some(i) => tree[i].package != package || !(tree[i].parent == -1 || i == at || is_above(
            tree,
            i,
            at,
        )),
        None => false,
    }
}

/// Whether the place `i` is at the top, or has to be where it is.
pub open spec fn is_due(workspace: Workspace, tree: Seq<SpotModel>, i: int) -> bool {
    tree[i].parent >= 0 ==> needs_nested(
        workspace,
        tree,
        tree[i].parent,
        tree[i].name,
        tree[i].package,
    )
}

/// Whether what is below a package has to be there.
pub open spec fn nested_are_needed(workspace: Workspace, tree: Seq<SpotModel>) -> bool {
    forall|i: int| 0 <= i < tree.len() ==> #[trigger] is_due(workspace, tree, i)
}

/// Whether the place `i` was filled because of an earlier one.
pub open spec fn has_origin(workspace: Workspace, tree: Seq<SpotModel>, i: int) -> bool {
    exists|k: int, j: int| came_from(workspace, tree, i, k, j)
}

/// Whether every place but the first was filled because of an earlier one.
pub open spec fn all_came_from(workspace: Workspace, tree: Seq<SpotModel>) -> bool {
    forall|i: int| 0 < i < tree.len() ==> #[trigger] has_origin(workspace, tree, i)
}

/// How many dependencies of the package at hand were dealt with.
pub open spec fn dealt_with(phase: PhaseModel) -> int {
    match phase {
        PhaseModel::Resolving { names, next } => next,
        PhaseModel::Placing { names, next, package, parent } => next,
        PhaseModel::Copying { names, next, package, parent } => next,
        _ => 0,
    }
}

/// Whether the dependency number `j` of the package at `k` was dealt with.
pub open spec fn is_settled(state: VendorModel, k: int, j: int) -> bool {
    &&& 0 <= k < state.head
    &&& k < state.head - 1 || state.phase is Done || j < dealt_with(state.phase)
}

/// Whether the package at each place is served with every dependency of it that
/// was dealt with.
pub open spec fn settled_are_served(workspace: Workspace, state: VendorModel) -> bool {
    forall|k: int, j: int, to: u64| #[trigger]
        workspace.dependency(state.tree[k].package, j, to) && is_settled(state, k, j) ==> is_served(
            state.tree,
            k,
            (workspace.names)(state.tree[k].package)->0[j],
            to,
        )
}

/// What the phase says of the dependency at hand.
pub open spec fn at_hand(workspace: Workspace, state: VendorModel) -> bool {
    match state.phase {
        PhaseModel::Resolving { names, next } => (workspace.names)(state.dir()) == Some(names),
        PhaseModel::Placing { names, next, package, parent }
        | PhaseModel::Copying { names, next, package, parent } => {
            &&& (workspace.names)(state.dir()) == Some(names)
            &&& (workspace.resolve)(state.dir(), names[next]) == Some(package)
            &&& outlook(state.tree, state.head - 1, names[next]) != Some((package, true))
            &&& child(state.tree, state.head - 1, names[next]) is None
            &&& parent == -1 <==> outlook(state.tree, state.head - 1, names[next]) is None
        },
        _ => true,
    }
}

/// What holds all through the walk of a workspace.
pub open spec fn walk(workspace: Workspace, state: VendorModel) -> bool {
    &&& state.well_formed()
    &&& state.tree.len() > 0 ==> {
        &&& state.tree[0].package == state.cli
        &&& state.tree[0].name == CLI_PLACE@
        &&& state.tree[0].parent == -1
    }
    &&& forall|i: int| 0 <= i < state.tree.len() ==> (#[trigger] state.tree[i]).parent < state.head
    &&& are_apart(state.tree)
    &&& names_are_at_top(state.tree)
    &&& all_came_from(workspace, state.tree)
    &&& nested_are_needed(workspace, state.tree)
    &&& at_hand(workspace, state)
    &&& settled_are_served(workspace, state)
}

/// The place that is filled when the step is done, if any is.
pub open spec fn new_spot(state: VendorModel, event: EventModel) -> Option<SpotModel> {
    match (state.phase, event) {
        (PhaseModel::PlaceCli, EventModel::Target { taken: true }) => Some(
            SpotModel { package: state.cli, name: CLI_PLACE@, parent: -1, copied: false },
        ),
        (PhaseModel::CopyCli, EventModel::Copied) => Some(
            SpotModel { package: state.cli, name: CLI_PLACE@, parent: -1, copied: true },
        ),
        (
            PhaseModel::Placing { names, next, package, parent },
            EventModel::Target { taken: true },
        ) => Some(SpotModel { package, name: names[next], parent, copied: false }),
        (PhaseModel::Copying { names, next, package, parent }, EventModel::Copied) => Some(
            SpotModel { package, name: names[next], parent, copied: true },
        ),
        _ => None,
    }
}

/// A step fills one place or none.
pub proof fn step_adds(state: VendorModel, event: EventModel)
    ensures
        state.after(event).tree == (match new_spot(state, event) {
            Some(spot) => state.tree.push(spot),
            None => state.tree,
        }),
        state.after(event).cli == state.cli,
        state.after(event).first == state.first,
        state.after(event).separator == state.separator,
        state.head <= state.after(event).head <= state.head + 1,
        state.after(event).head > state.head || state.after(event).phase is Done
            || dealt_with(state.after(event).phase) <= dealt_with(state.phase) + 1,
{
}

/// The new place has a name that its directory did not have.
pub(crate) proof fn new_spot_is_apart(workspace: Workspace, state: VendorModel, event: EventModel)
    requires
        walk(workspace, state),
        new_spot(state, event) is Some,
    ensures
        ({
            let spot = new_spot(state, event)->0;
            &&& child(state.tree, spot.parent, spot.name) is None
            &&& spot.parent >= 0 ==> child(state.tree, -1, spot.name) is Some
            &&& spot.parent == -1 || spot.parent == state.head - 1
        }),
{
    let spot = new_spot(state, event)->0;
    if state.head > 0 {
        let around = state.tree[state.head - 1].parent;
        lookup_is_there(state.tree, around, spot.name);
        if spot.parent == -1 {
            if child(state.tree, -1, spot.name) is Some {
                top_is_found(state.tree, around, spot.name);
            }
        } else {
            let i = looked_up(state.tree, around, spot.name)->0;
            assert(child(state.tree, -1, state.tree[i].name) is Some);
        }
    }
}

proof fn tree_step(workspace: Workspace, state: VendorModel, event: EventModel)
    requires
        walk(workspace, state),
    ensures
        are_apart(state.after(event).tree),
        names_are_at_top(state.after(event).tree),
        forall|i: int|
            0 <= i < state.after(event).tree.len() ==> (#[trigger] state.after(event).tree[i]).parent
                < state.after(event).head,
{
    step_adds(state, event);
    let tree = state.tree;
    let later = state.after(event).tree;
    if let Some(spot) = new_spot(state, event) {
        new_spot_is_apart(workspace, state, event);
        child_is_there(tree, spot.parent, spot.name);
        assert(later == tree.push(spot));
        assert forall|i: int, j: int| 0 <= i < j < later.len() implies !((
        #[trigger] later[i]).parent == (#[trigger] later[j]).parent && later[i].name
            == later[j].name) by {
            assert(later[i] == tree[i]);
            if j < tree.len() {
                assert(later[j] == tree[j]);
            }
        }
        assert forall|i: int| 0 <= i < later.len() implies child(
            later,
            -1,
            (#[trigger] later[i]).name,
        ) is Some by {
            child_of_push(tree, spot, -1, later[i].name);
            if i < tree.len() {
                assert(later[i] == tree[i]);
            }
        }
    }
}

/// A package that is served stays served.
proof fn served_stays(
    workspace: Workspace,
    state: VendorModel,
    event: EventModel,
    k: int,
    name: Seq<char>,
    package: u64,
)
    requires
        walk(workspace, state),
        0 <= k < state.head,
        is_served(state.tree, k, name, package),
        k < state.head - 1 || (new_spot(state, event) matches Some(spot) ==> spot.name != name),
    ensures
        is_served(state.after(event).tree, k, name, package),
{
    step_adds(state, event);
    if let Some(spot) = new_spot(state, event) {
        new_spot_is_apart(workspace, state, event);
        served_is_found(state.tree, k, name, package);
        let i = looked_up(state.tree, k, name)->0;
        assert(child(state.tree, -1, state.tree[i].name) is Some);
        child_is_there(state.tree, k, name);
        child_of_push(state.tree, spot, k, name);
        outlook_of_push(state.tree, spot, k, name);
    }
}

/// Once a dependency was dealt with, the package at hand is served with it.
proof fn just_served(
    workspace: Workspace,
    state: VendorModel,
    event: EventModel,
    j: int,
    to: u64,
)
    requires
        walk(workspace, state),
        answers(workspace, state, event),
        state.head > 0,
        workspace.dependency(state.dir(), j, to),
        !is_settled(state, state.head - 1, j),
        is_settled(state.after(event), state.head - 1, j),
    ensures
        is_served(
            state.after(event).tree,
            state.head - 1,
            (workspace.names)(state.dir())->0[j],
            to,
        ),
{
    step_adds(state, event);
    let at = state.head - 1;
    let tree = state.tree;
    match state.phase {
        PhaseModel::Resolving { names, next } => {
            assert(j == next);
            child_is_there(tree, at, names[next]);
            if let Some(i) = child(tree, at, names[next]) {
                assert(is_due(workspace, tree, i));
            }
        },
        PhaseModel::Placing { names, next, package, parent }
        | PhaseModel::Copying { names, next, package, parent } => {
            assert(j == next);
            let spot = new_spot(state, event)->0;
            child_of_push(tree, spot, at, spot.name);
            if parent == -1 {
                assert(tree.push(spot)[at] == tree[at]);
                new_top_is_found(tree, spot, tree[at].parent);
            }
        },
        _ => {},
    }
}

proof fn origin_step(workspace: Workspace, state: VendorModel, event: EventModel)
    requires
        walk(workspace, state),
    ensures
        all_came_from(workspace, state.after(event).tree),
        nested_are_needed(workspace, state.after(event).tree),
{
    step_adds(state, event);
    let tree = state.tree;
    let later = state.after(event).tree;
    if let Some(spot) = new_spot(state, event) {
        assert(later == tree.push(spot));
        assert forall|i: int| 0 < i < later.len() implies #[trigger] has_origin(
            workspace,
            later,
            i,
        ) by {
            if i < tree.len() {
                assert(has_origin(workspace, tree, i));
                let (k, j) = choose|k: int, j: int| came_from(workspace, tree, i, k, j);
                assert(later[i] == tree[i] && later[k] == tree[k]);
                assert(came_from(workspace, later, i, k, j));
            } else {
                assert(later[state.head - 1] == tree[state.head - 1]);
                assert(came_from(
                    workspace,
                    later,
                    i,
                    state.head - 1,
                    dealt_with(state.phase),
                ));
            }
        }
        new_spot_is_apart(workspace, state, event);
        assert forall|i: int| 0 <= i < later.len() implies #[trigger] is_due(
            workspace,
            later,
            i,
        ) by {
            let at = later[i].parent;
            if i < tree.len() {
                assert(later[i] == tree[i]);
                assert(is_due(workspace, tree, i));
                assert(child(tree, -1, tree[i].name) is Some);
            }
            if at >= 0 {
                assert(later[at] == tree[at]);
                outlook_of_push(tree, spot, at, later[i].name);
            }
        }
    }
}

proof fn at_hand_step(workspace: Workspace, state: VendorModel, event: EventModel)
    requires
        walk(workspace, state),
        answers(workspace, state, event),
    ensures
        at_hand(workspace, state.after(event)),
{
    step_adds(state, event);
    if state.head > 0 && new_spot(state, event) is Some {
        assert(state.after(event).tree[state.head - 1] == state.tree[state.head - 1]);
    }
}

/// The place that is filled holds a dependency that was not dealt with before.
proof fn new_name_is_new(
    workspace: Workspace,
    state: VendorModel,
    event: EventModel,
    j: int,
    to: u64,
)
    requires
        walk(workspace, state),
        state.head > 0,
        new_spot(state, event) is Some,
        workspace.dependency(state.dir(), j, to),
        is_settled(state, state.head - 1, j),
    ensures
        (new_spot(state, event)->0).name != (workspace.names)(state.dir())->0[j],
{
    let spot = new_spot(state, event)->0;
    assert((workspace.resolve)(state.dir(), spot.name) == Some(spot.package));
    assert(is_served(state.tree, state.head - 1, (workspace.names)(state.dir())->0[j], to));
}

proof fn settled_stays(
    workspace: Workspace,
    state: VendorModel,
    event: EventModel,
    k: int,
    j: int,
    to: u64,
)
    requires
        walk(workspace, state),
        0 <= k < state.head,
        workspace.dependency(state.tree[k].package, j, to),
        is_settled(state, k, j),
    ensures
        is_served(
            state.after(event).tree,
            k,
            (workspace.names)(state.tree[k].package)->0[j],
            to,
        ),
{
    let name = (workspace.names)(state.tree[k].package)->0[j];
    assert(is_served(state.tree, k, name, to));
    if k == state.head - 1 && new_spot(state, event) is Some {
        new_name_is_new(workspace, state, event, j, to);
    }
    served_stays(workspace, state, event, k, name, to);
}

proof fn settled_step(workspace: Workspace, state: VendorModel, event: EventModel)
    requires
        walk(workspace, state),
        answers(workspace, state, event),
    ensures
        settled_are_served(workspace, state.after(event)),
{
    step_adds(state, event);
    let later = state.after(event);
    assert(state.head == 0 ==> later.phase is Reading || later.head == 0);
    assert forall|k: int, j: int, to: u64| #[trigger]
        workspace.dependency(later.tree[k].package, j, to) && is_settled(
        later,
        k,
        j,
    ) implies is_served(
        later.tree,
        k,
        (workspace.names)(later.tree[k].package)->0[j],
        to,
    ) by {
        assert(k < state.head);
        assert(later.tree[k] == state.tree[k]);
        if is_settled(state, k, j) {
            settled_stays(workspace, state, event, k, j, to);
        } else {
            assert(k == state.head - 1);
            just_served(workspace, state, event, j, to);
        }
    }
}

pub(crate) proof fn walk_step(workspace: Workspace, state: VendorModel, event: EventModel)
    requires
        walk(workspace, state),
        answers(workspace, state, event),
    ensures
        walk(workspace, state.after(event)),
{
    state.step_keeps_form(event);
    step_adds(state, event);
    tree_step(workspace, state, event);
    origin_step(workspace, state, event);
    at_hand_step(workspace, state, event);
    settled_step(workspace, state, event);
}

pub(crate) proof fn walk_run(workspace: Workspace, state: VendorModel, events: Seq<EventModel>)
    requires
        walk(workspace, state),
        all_answer(workspace, state, events),
    ensures
        walk(workspace, after_all(state, events)),
        after_all(state, events).cli == state.cli,
        after_all(state, events).separator == state.separator,
    decreases events.len(),
{
    if events.len() > 0 {
        walk_run(workspace, state, events.drop_last());
        walk_step(workspace, after_all(state, events.drop_last()), events.last());
        step_adds(after_all(state, events.drop_last()), events.last());
    }
}

pub(crate) proof fn walk_start(
    workspace: Workspace,
    cli: u64,
    first: Option<Seq<char>>,
    separator: Seq<char>,
)
    ensures
        walk(workspace, VendorModel::start(cli, first, separator)),
{
}

/// Whether the place that node finds for a name, from the package at `at`, holds
/// `package`, and is at the top, below the package at `at` or on its branch.
pub open spec fn is_found_well(
    tree: Seq<SpotModel>,
    at: int,
    name: Seq<char>,
    package: u64,
) -> bool {
    match looked_up(tree, at, name) {
        Some(i) => {
            &&& tree[i].package == package
            &&& tree[i].parent == at || tree[i].parent == -1 || i == at || is_above(tree, i, at)
        },
        None => false,
    }
}

/// When the assembly is done, node finds in the tree what each package needs:
/// from every place of it, each name that it depends on leads to the very package
/// that the name stands for in the workspace, as far as that is installed. The
/// place that is found is at the top, below the package that needs it, or on the
/// branch of that package.
pub proof fn every_dependency_is_found(
    workspace: Workspace,
    cli: u64,
    first: Option<Seq<char>>,
    separator: Seq<char>,
    events: Seq<EventModel>,
)
    requires
        all_answer(workspace, VendorModel::start(cli, first, separator), events),
        after_all(VendorModel::start(cli, first, separator), events).phase is Done,
    ensures
        ({
            let done = after_all(VendorModel::start(cli, first, separator), events);
            forall|k: int, j: int, to: u64|
                0 <= k < done.tree.len() && #[trigger] workspace.dependency(
                    done.tree[k].package,
                    j,
                    to,
                ) ==> is_found_well(
                    done.tree,
                    k,
                    (workspace.names)(done.tree[k].package)->0[j],
                    to,
                )
        }),
{
    let start = VendorModel::start(cli, first, separator);
    walk_start(workspace, cli, first, separator);
    walk_run(workspace, start, events);
    let done = after_all(start, events);
    assert forall|k: int, j: int, to: u64|
        0 <= k < done.tree.len() && #[trigger] workspace.dependency(
            done.tree[k].package,
            j,
            to,
        ) implies is_found_well(
        done.tree,
        k,
        (workspace.names)(done.tree[k].package)->0[j],
        to,
    ) by {
        assert(is_settled(done, k, j));
        served_is_found(done.tree, k, (workspace.names)(done.tree[k].package)->0[j], to);
    }
}

/// Nothing is nested without need: a package is put below another only where that
/// one needs it and node, from around its place, finds another version, or finds
/// it only beside the branch.
pub proof fn nested_is_needed(
    workspace: Workspace,
    cli: u64,
    first: Option<Seq<char>>,
    separator: Seq<char>,
    events: Seq<EventModel>,
)
    requires
        all_answer(workspace, VendorModel::start(cli, first, separator), events),
    ensures
        nested_are_needed(
            workspace,
            after_all(VendorModel::start(cli, first, separator), events).tree,
        ),
{
    walk_start(workspace, cli, first, separator);
    walk_run(workspace, VendorModel::start(cli, first, separator), events);
}

proof fn branch_goes_through(tree: Seq<SpotModel>, above: int, at: int) -> (below: int)
    requires
        is_tree(tree),
        is_above(tree, above, at),
    ensures
        0 <= below < tree.len(),
        tree[below].parent == above,
    decreases at,
{
    if tree[at].parent == above {
        at
    } else {
        branch_goes_through(tree, above, tree[at].parent)
    }
}

/// The assembly is refused only where it would have no end: the next place is
/// below one of the same package, something is nested below that one, and all
/// that is nested there would have to be nested below the next place again.
pub proof fn refusal_is_right(
    workspace: Workspace,
    cli: u64,
    first: Option<Seq<char>>,
    separator: Seq<char>,
    events: Seq<EventModel>,
)
    requires
        all_answer(workspace, VendorModel::start(cli, first, separator), events),
        after_all(VendorModel::start(cli, first, separator), events).phase is Endless,
    ensures
        ({
            let state = after_all(VendorModel::start(cli, first, separator), events);
            exists|above: int|
                {
                    &&& #[trigger] is_above(state.tree, above, state.head)
                    &&& state.tree[above].package == state.tree[state.head].package
                    &&& exists|i: int|
                        0 <= i < state.tree.len() && (#[trigger] state.tree[i]).parent == above
                    &&& forall|i: int|
                        0 <= i < state.tree.len() && (#[trigger] state.tree[i]).parent == above
                            ==> needs_nested(
                            workspace,
                            state.tree,
                            state.head,
                            state.tree[i].name,
                            state.tree[i].package,
                        )
                }
        }),
{
    let start = VendorModel::start(cli, first, separator);
    walk_start(workspace, cli, first, separator);
    walk_run(workspace, start, events);
    let state = after_all(start, events);
    let tree = state.tree;
    let above = choose|above: int| #[trigger]
        is_above(tree, above, state.head) && tree[above].package == tree[state.head].package
            && same_view(tree, above, state.head);
    above_is_there(tree, above, state.head);
    let below = branch_goes_through(tree, above, state.head);
    assert(tree[below].parent == above);
    assert forall|i: int| 0 <= i < tree.len() && (
    #[trigger] tree[i]).parent == above implies needs_nested(
        workspace,
        tree,
        state.head,
        tree[i].name,
        tree[i].package,
    ) by {
        assert(is_due(workspace, tree, i));
    }
}

/// Whether a package is anywhere in a tree.
pub open spec fn is_in(tree: Seq<SpotModel>, package: u64) -> bool {
    exists|i: int| 0 <= i < tree.len() && (#[trigger] tree[i]).package == package
}

proof fn reached_is_in(workspace: Workspace, state: VendorModel, to: u64, steps: nat)
    requires
        walk(workspace, state),
        state.phase is Done,
        workspace.reaches_in(state.cli, to, steps),
    ensures
        is_in(state.tree, to),
    decreases steps,
{
    if steps == 0 {
        assert(state.tree[0].package == to);
    } else {
        let middle = choose|middle: u64|
            workspace.reaches_in(state.cli, middle, (steps - 1) as nat)
                && #[trigger] workspace.requires_package(middle, to);
        reached_is_in(workspace, state, middle, (steps - 1) as nat);
        let k = choose|k: int|
            0 <= k < state.tree.len() && (#[trigger] state.tree[k]).package == middle;
        let j = choose|j: int| workspace.dependency(middle, j, to);
        let name = (workspace.names)(middle)->0[j];
        assert(workspace.dependency(state.tree[k].package, j, to));
        assert(is_settled(state, k, j));
        served_is_found(state.tree, k, name, to);
        let i = looked_up(state.tree, k, name)->0;
        assert(state.tree[i].package == to);
    }
}

proof fn placed_is_reached(workspace: Workspace, state: VendorModel, i: int)
    requires
        walk(workspace, state),
        0 <= i < state.tree.len(),
    ensures
        workspace.reaches(state.cli, state.tree[i].package),
    decreases i,
{
    if i == 0 {
        assert(workspace.reaches_in(state.cli, state.tree[0].package, 0));
    } else {
        assert(has_origin(workspace, state.tree, i));
        let (k, j) = choose|k: int, j: int| came_from(workspace, state.tree, i, k, j);
        placed_is_reached(workspace, state, k);
        let from = state.tree[k].package;
        let to = state.tree[i].package;
        let steps = choose|steps: nat| workspace.reaches_in(state.cli, from, steps);
        assert(workspace.dependency(from, j, to));
        assert(workspace.requires_package(from, to));
        assert(workspace.reaches_in(state.cli, from, ((steps + 1) - 1) as nat));
        assert(workspace.reaches_in(state.cli, to, (steps + 1) as nat));
    }
}

/// When the assembly is done, the packages in the tree are the dependency
/// closure of the command line package: every package that is reached from it,
/// and no other. Cycles among the packages do not matter.
pub proof fn vendored_is_the_closure(
    workspace: Workspace,
    cli: u64,
    first: Option<Seq<char>>,
    separator: Seq<char>,
    events: Seq<EventModel>,
)
    requires
        all_answer(workspace, VendorModel::start(cli, first, separator), events),
        after_all(VendorModel::start(cli, first, separator), events).phase is Done,
    ensures
        ({
            let done = after_all(VendorModel::start(cli, first, separator), events);
            &&& done.head == done.tree.len()
            &&& forall|package: u64| #[trigger]
                is_in(done.tree, package) <==> workspace.reaches(cli, package)
        }),
{
    let start = VendorModel::start(cli, first, separator);
    walk_start(workspace, cli, first, separator);
    walk_run(workspace, start, events);
    let done = after_all(start, events);
    assert forall|package: u64| #[trigger]
        is_in(done.tree, package) <==> workspace.reaches(cli, package) by {
        if is_in(done.tree, package) {
            let i = choose|i: int|
                0 <= i < done.tree.len() && (#[trigger] done.tree[i]).package == package;
            placed_is_reached(workspace, done, i);
        }
        if workspace.reaches(cli, package) {
            let steps = choose|steps: nat| workspace.reaches_in(cli, package, steps);
            reached_is_in(workspace, done, package, steps);
        }
    }
}

/// The first version of a name stays at the top: whatever happens next, what a
/// `node_modules` directory holds under a name stays there.
pub proof fn placed_package_stays(
    workspace: Workspace,
    cli: u64,
    first: Option<Seq<char>>,
    separator: Seq<char>,
    events: Seq<EventModel>,
    event: EventModel,
    parent: int,
    name: Seq<char>,
)
    requires
        all_answer(workspace, VendorModel::start(cli, first, separator), events),
        child(
            after_all(VendorModel::start(cli, first, separator), events).tree,
            parent,
            name,
        ) is Some,
    ensures
        ({
            let state = after_all(VendorModel::start(cli, first, separator), events);
            child(state.after(event).tree, parent, name) == child(state.tree, parent, name)
        }),
{
    let start = VendorModel::start(cli, first, separator);
    walk_start(workspace, cli, first, separator);
    walk_run(workspace, start, events);
    let state = after_all(start, events);
    step_adds(state, event);
    if let Some(spot) = new_spot(state, event) {
        new_spot_is_apart(workspace, state, event);
        child_of_push(state.tree, spot, parent, name);
    }
}

/// What the installation guard has found out by a phase: before it nothing was
/// reached, and past it the first plain dependency, if there is one, is
/// installed.
spec fn guarded(workspace: Workspace, state: VendorModel) -> bool {
    match state.phase {
        PhaseModel::PlaceCli | PhaseModel::CopyCli => true,
        PhaseModel::Guard { name } => state.first == Some(name),
        PhaseModel::Unresolved => {
            &&& state.first is Some
            &&& (workspace.resolve)(state.cli, state.first->0) is None
        },
        _ => state.first is Some ==> (workspace.resolve)(state.cli, state.first->0) is Some,
    }
}

proof fn guarded_run(workspace: Workspace, state: VendorModel, events: Seq<EventModel>)
    requires
        guarded(workspace, state),
        all_answer(workspace, state, events),
    ensures
        guarded(workspace, after_all(state, events)),
        after_all(state, events).cli == state.cli,
        after_all(state, events).first == state.first,
    decreases events.len(),
{
    if events.len() > 0 {
        guarded_run(workspace, state, events.drop_last());
    }
}

/// A checkout without installed dependencies is refused, and only such a one:
/// the assembly is given up exactly where the first plain dependency of the
/// command line package is not installed, and then nothing was taken up.
pub proof fn incomplete_checkout_is_refused(
    workspace: Workspace,
    cli: u64,
    first: Option<Seq<char>>,
    separator: Seq<char>,
    events: Seq<EventModel>,
)
    requires
        all_answer(workspace, VendorModel::start(cli, first, separator), events),
    ensures
        ({
            let state = after_all(VendorModel::start(cli, first, separator), events);
            let installed = match first {
                Some(name) => (workspace.resolve)(cli, name) is Some,
                None => true,
            };
            &&& state.phase is Unresolved ==> !installed && state.head == 0
            &&& state.head > 0 || state.phase is Done ==> installed
        }),
{
    let start = VendorModel::start(cli, first, separator);
    guarded_run(workspace, start, events);
    walk_start(workspace, cli, first, separator);
    walk_run(workspace, start, events);
}

} // verus!
