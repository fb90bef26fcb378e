//! That the assembly of the vendored tree comes to an end.
//!
//! No place repeats one above it, there are only so many packages, and from each
//! place there are only so many views of the tree. So no branch of the tree is
//! longer than that, and there are only so many branches.

use crate::tree::{
    above_is_there, above_of_push, child, is_above, is_tree, looked_up, lookup_is_there, outlook,
    outlook_of_push, repeats, same_view, SpotModel, CLI_PLACE,
};
use crate::vendor::{EventModel, PhaseModel, VendorModel};
use crate::vendor_laws::{
    after_all, all_answer, answers, are_apart, came_from, has_origin, names_are_at_top, new_spot, new_spot_is_apart, step_adds,
    walk, walk_run, walk_start, walk_step, Workspace,
};
use vstd::prelude::*;

verus! {

/// A number for a word over the digits below `base`.
spec fn code(word: Seq<int>, base: int) -> int
    decreases word.len(),
{
    if word.len() == 0 {
        0
    } else {
        1 + word.last() + base * code(word.drop_last(), base)
    }
}

/// More than the number of any word over `base` digits that is no longer than
/// `length`.
pub open spec fn words(base: nat, length: nat) -> nat
    decreases length,
{
    if length == 0 {
        1
    } else {
        1 + base * words(base, (length - 1) as nat)
    }
}

/// Whether all digits of a word are below `base`.
spec fn has_digits(word: Seq<int>, base: int) -> bool {
    forall|i: int| 0 <= i < word.len() ==> 0 <= #[trigger] word[i] < base
}

proof fn digits_of_rest(word: Seq<int>, base: int)
    requires
        has_digits(word, base),
        word.len() > 0,
    ensures
        has_digits(word.drop_last(), base),
        0 <= word.last() < base,
{
    assert(0 <= word[word.len() - 1] < base);
    assert forall|i: int| 0 <= i < word.drop_last().len() implies 0
        <= #[trigger] word.drop_last()[i] < base by {
        assert(word.drop_last()[i] == word[i]);
    }
}

proof fn code_is_below(word: Seq<int>, base: nat)
    requires
        has_digits(word, base as int),
    ensures
        0 <= code(word, base as int) < words(base, word.len()),
    decreases word.len(),
{
    if word.len() > 0 {
        digits_of_rest(word, base as int);
        code_is_below(word.drop_last(), base);
        let rest = code(word.drop_last(), base as int);
        let limit = words(base, (word.len() - 1) as nat) as int;
        let last = word.last();
        assert(0 <= base * rest && last + base * rest < base * limit) by (nonlinear_arith)
            requires
                0 <= rest < limit,
                0 <= last < base,
        ;
    }
}

proof fn longer_words(base: nat, short: nat, long: nat)
    requires
        base >= 1,
        short <= long,
    ensures
        words(base, short) <= words(base, long),
    decreases long,
{
    if short < long {
        longer_words(base, short, (long - 1) as nat);
        let before = words(base, (long - 1) as nat);
        assert(base * before >= before) by (nonlinear_arith)
            requires
                base >= 1,
        ;
    }
}

proof fn code_tells_the_word(a: Seq<int>, b: Seq<int>, base: int)
    requires
        has_digits(a, base),
        has_digits(b, base),
        code(a, base) == code(b, base),
    ensures
        a == b,
    decreases a.len(),
{
    if a.len() > 0 {
        digits_of_rest(a, base);
        code_is_below(a.drop_last(), base as nat);
    }
    if b.len() > 0 {
        digits_of_rest(b, base);
        code_is_below(b.drop_last(), base as nat);
    }
    if a.len() == 0 || b.len() == 0 {
        if a.len() > 0 {
            let rest = code(a.drop_last(), base);
            assert(base * rest >= 0) by (nonlinear_arith)
                requires
                    base > 0,
                    rest >= 0,
            ;
        }
        if b.len() > 0 {
            let rest = code(b.drop_last(), base);
            assert(base * rest >= 0) by (nonlinear_arith)
                requires
                    base > 0,
                    rest >= 0,
            ;
        }
        assert(a == b);
    } else {
        let x = a.last();
        let y = b.last();
        let p = code(a.drop_last(), base);
        let q = code(b.drop_last(), base);
        assert(x == y && p == q) by (nonlinear_arith)
            requires
                0 <= x < base,
                0 <= y < base,
                x + base * p == y + base * q,
        ;
        code_tells_the_word(a.drop_last(), b.drop_last(), base);
        assert(a.drop_last().push(a.last()) == a);
        assert(b.drop_last().push(b.last()) == b);
    }
}

proof fn distinct_below(numbers: Seq<int>, total: nat)
    requires
        numbers.no_duplicates(),
        forall|i: int| 0 <= i < numbers.len() ==> 0 <= #[trigger] numbers[i] < total,
    ensures
        numbers.len() <= total,
{
    let limit = vstd::set_lib::set_int_range(0, total as int);
    vstd::set_lib::lemma_int_range(0, total as int);
    numbers.unique_seq_to_set();
    assert(numbers.to_set().subset_of(limit)) by {
        assert forall|n: int| numbers.to_set().contains(n) implies limit.contains(n) by {
            let i = choose|i: int| 0 <= i < numbers.len() && numbers[i] == n;
            assert(0 <= numbers[i] < total);
        }
    }
    vstd::set_lib::lemma_len_subset(numbers.to_set(), limit);
}

/// There are only so many words.
proof fn distinct_words(list: Seq<Seq<int>>, base: nat, length: nat)
    requires
        base >= 1,
        list.no_duplicates(),
        forall|i: int|
            0 <= i < list.len() ==> has_digits(#[trigger] list[i], base as int) && list[i].len()
                <= length,
    ensures
        list.len() <= words(base, length),
{
    let numbers = list.map_values(|word: Seq<int>| code(word, base as int));
    assert forall|i: int| 0 <= i < numbers.len() implies 0 <= #[trigger] numbers[i] < words(
        base,
        length,
    ) by {
        assert(has_digits(list[i], base as int) && list[i].len() <= length);
        code_is_below(list[i], base);
        longer_words(base, list[i].len(), length);
    }
    assert forall|i: int, j: int|
        0 <= i < numbers.len() && 0 <= j < numbers.len() && i != j implies numbers[i]
        != numbers[j] by {
        if numbers[i] == numbers[j] {
            assert(has_digits(list[i], base as int) && has_digits(list[j], base as int));
            code_tells_the_word(list[i], list[j], base as int);
        }
    }
    distinct_below(numbers, words(base, length));
}

/// The places above a place, from the top on.
spec fn all_above(tree: Seq<SpotModel>, at: int) -> Seq<int>
    decreases at,
{
    if 0 <= at < tree.len() && 0 <= tree[at].parent < at {
        all_above(tree, tree[at].parent).push(tree[at].parent)
    } else {
        seq![]
    }
}

proof fn all_above_are_above(tree: Seq<SpotModel>, at: int)
    requires
        is_tree(tree),
        0 <= at < tree.len(),
    ensures
        forall|a: int|
            0 <= a < all_above(tree, at).len() ==> is_above(tree, #[trigger] all_above(tree, at)[a], at)
                && 0 <= all_above(tree, at)[a] < at,
        forall|a: int, b: int|
            0 <= a < b < all_above(tree, at).len() ==> is_above(
                tree,
                #[trigger] all_above(tree, at)[a],
                #[trigger] all_above(tree, at)[b],
            ),
    decreases at,
{
    if tree[at].parent >= 0 {
        let parent = tree[at].parent;
        all_above_are_above(tree, parent);
        let above = all_above(tree, parent);
        let list = all_above(tree, at);
        assert forall|a: int| 0 <= a < list.len() implies is_above(tree, #[trigger] list[a], at)
            && 0 <= list[a] < at by {
            if a < above.len() {
                assert(list[a] == above[a]);
            }
        }
        assert forall|a: int, b: int| 0 <= a < b < list.len() implies is_above(
            tree,
            #[trigger] list[a],
            #[trigger] list[b],
        ) by {
            assert(list[a] == above[a]);
            if b < above.len() {
                assert(list[b] == above[b]);
            }
        }
    }
}

/// What a name leads to as a digit, with one for nothing.
spec fn view_digit(view: Option<(u64, bool)>) -> int {
    match view {
        Some((package, on_the_way)) => 2 * package + if on_the_way {
            2int
        } else {
            1int
        },
        None => 0,
    }
}

/// The package at a place and what every name leads to from around it.
spec fn view_word(tree: Seq<SpotModel>, at: int, names: Seq<Seq<char>>) -> Seq<int> {
    Seq::new(names.len(), |e: int| view_digit(outlook(tree, at, names[e]))).push(
        tree[at].package as int,
    )
}

/// The names along the branch of a place, as digits.
spec fn branch_word(tree: Seq<SpotModel>, at: int, names: Seq<Seq<char>>) -> Seq<int>
    decreases at,
{
    (if 0 <= at < tree.len() && 0 <= tree[at].parent < at {
        branch_word(tree, tree[at].parent, names)
    } else {
        seq![]
    }).push(names.index_of(tree[at].name))
}

/// Whether the packages of a tree are numbered below `total`, and its names are
/// among `names`.
spec fn is_bounded(tree: Seq<SpotModel>, total: nat, names: Seq<Seq<char>>) -> bool {
    forall|i: int|
        0 <= i < tree.len() ==> (#[trigger] tree[i]).package < total && names.contains(tree[i].name)
}

/// Whether every place is at the top or below one that was taken up.
spec fn parents_are_taken_up(state: VendorModel) -> bool {
    forall|i: int| 0 <= i < state.tree.len() ==> (#[trigger] state.tree[i]).parent < state.head
}

/// Whether no place that was taken up repeats one above it.
spec fn is_fresh(state: VendorModel) -> bool {
    forall|i: int| 0 <= i < state.head ==> !#[trigger] repeats(state.tree, i)
}

/// The length that no branch exceeds.
pub open spec fn longest_branch(total: nat, names: nat) -> nat {
    words(2 * total + 1, names + 1) + 1
}

/// The number of places that no tree exceeds.
pub open spec fn most_places(total: nat, names: nat) -> nat {
    words(names, longest_branch(total, names))
}

proof fn views_differ(
    state: VendorModel,
    a: int,
    b: int,
    total: nat,
    names: Seq<Seq<char>>,
)
    requires
        is_fresh(state),
        is_bounded(state.tree, total, names),
        0 <= b < state.head,
        is_above(state.tree, a, b),
    ensures
        view_word(state.tree, a, names) != view_word(state.tree, b, names),
{
    let tree = state.tree;
    let p = view_word(tree, a, names);
    let q = view_word(tree, b, names);
    if p == q {
        assert(p[names.len() as int] == q[names.len() as int]);
        assert forall|e: int| 0 <= e < tree.len() implies outlook(
            tree,
            a,
            (#[trigger] tree[e]).name,
        ) == outlook(tree, b, tree[e].name) by {
            let n = names.index_of(tree[e].name);
            assert(names.contains(tree[e].name));
            assert(p[n] == q[n]);
        }
        assert(same_view(tree, a, b));
        assert(repeats(tree, b));
    }
}

proof fn view_word_has_digits(tree: Seq<SpotModel>, at: int, total: nat, names: Seq<Seq<char>>)
    requires
        is_bounded(tree, total, names),
        0 <= at < tree.len(),
    ensures
        has_digits(view_word(tree, at, names), (2 * total + 1) as int),
        view_word(tree, at, names).len() == names.len() + 1,
{
    let word = view_word(tree, at, names);
    assert(tree[at].package < total);
    assert forall|e: int| 0 <= e < word.len() implies 0 <= #[trigger] word[e] < 2 * total
        + 1 by {
        if e < names.len() {
            lookup_is_there(tree, tree[at].parent, names[e]);
            if let Some(k) = looked_up(tree, tree[at].parent, names[e]) {
                assert(tree[k].package < total);
            }
        }
    }
}

/// The views from the places above a place all differ.
proof fn views_above_differ(
    state: VendorModel,
    at: int,
    low: int,
    high: int,
    total: nat,
    names: Seq<Seq<char>>,
)
    requires
        is_tree(state.tree),
        parents_are_taken_up(state),
        is_fresh(state),
        is_bounded(state.tree, total, names),
        0 <= at < state.tree.len(),
        0 <= low < high < all_above(state.tree, at).len(),
    ensures
        view_word(state.tree, all_above(state.tree, at)[low], names) != view_word(
            state.tree,
            all_above(state.tree, at)[high],
            names,
        ),
{
    let above = all_above(state.tree, at);
    all_above_are_above(state.tree, at);
    last_above_is_parent(state.tree, at, high);
    assert(is_above(state.tree, above[low], above[high]));
    assert(state.tree[at].parent < state.head);
    views_differ(state, above[low], above[high], total, names);
}

proof fn branch_is_short(
    state: VendorModel,
    at: int,
    total: nat,
    names: Seq<Seq<char>>,
)
    requires
        is_tree(state.tree),
        parents_are_taken_up(state),
        is_fresh(state),
        is_bounded(state.tree, total, names),
        0 <= at < state.tree.len(),
    ensures
        all_above(state.tree, at).len() <= words(2 * total + 1, names.len() + 1),
{
    let tree = state.tree;
    let above = all_above(tree, at);
    let list = Seq::new(above.len(), |i: int| view_word(tree, above[i], names));
    assert forall|i: int| 0 <= i < list.len() implies has_digits(
        #[trigger] list[i],
        (2 * total + 1) as int,
    ) && list[i].len() <= names.len() + 1 by {
        all_above_are_above(tree, at);
        view_word_has_digits(tree, above[i], total, names);
    }
    assert forall|i: int, j: int|
        0 <= i < list.len() && 0 <= j < list.len() && i != j implies list[i] != list[j] by {
        if i < j {
            views_above_differ(state, at, i, j, total, names);
        } else {
            views_above_differ(state, at, j, i, total, names);
        }
    }
    distinct_words(list, (2 * total + 1) as nat, (names.len() + 1) as nat);
}

proof fn last_above_is_parent(tree: Seq<SpotModel>, at: int, a: int)
    requires
        is_tree(tree),
        0 <= at < tree.len(),
        0 <= a < all_above(tree, at).len(),
    ensures
        all_above(tree, at)[a] <= tree[at].parent,
{
    all_above_are_above(tree, tree[at].parent);
    if a < all_above(tree, tree[at].parent).len() {
        assert(all_above(tree, at)[a] == all_above(tree, tree[at].parent)[a]);
    }
}

proof fn branch_word_has_digits(tree: Seq<SpotModel>, at: int, total: nat, names: Seq<Seq<char>>)
    requires
        is_tree(tree),
        is_bounded(tree, total, names),
        0 <= at < tree.len(),
    ensures
        has_digits(branch_word(tree, at, names), names.len() as int),
        branch_word(tree, at, names).len() == all_above(tree, at).len() + 1,
    decreases at,
{
    assert(names.contains(tree[at].name));
    let n = names.index_of(tree[at].name);
    assert(0 <= n < names.len());
    if tree[at].parent >= 0 {
        branch_word_has_digits(tree, tree[at].parent, total, names);
        let rest = branch_word(tree, tree[at].parent, names);
        let word = branch_word(tree, at, names);
        assert forall|i: int| 0 <= i < word.len() implies 0 <= #[trigger] word[i] < names.len() by {
            if i < rest.len() {
                assert(word[i] == rest[i]);
            }
        }
    }
}

proof fn branches_differ(
    tree: Seq<SpotModel>,
    i: int,
    j: int,
    total: nat,
    names: Seq<Seq<char>>,
)
    requires
        is_tree(tree),
        are_apart(tree),
        is_bounded(tree, total, names),
        0 <= i < tree.len(),
        0 <= j < tree.len(),
        branch_word(tree, i, names) == branch_word(tree, j, names),
    ensures
        i == j,
    decreases i,
{
    let a = branch_word(tree, i, names);
    let b = branch_word(tree, j, names);
    assert(a.last() == b.last());
    assert(names.contains(tree[i].name) && names.contains(tree[j].name));
    assert(tree[i].name == tree[j].name);
    branch_word_has_digits(tree, i, total, names);
    branch_word_has_digits(tree, j, total, names);
    assert(a.drop_last() == b.drop_last());
    if tree[i].parent >= 0 {
        branch_word_has_digits(tree, tree[i].parent, total, names);
        assert(a.drop_last() == branch_word(tree, tree[i].parent, names));
    }
    if tree[j].parent >= 0 {
        branch_word_has_digits(tree, tree[j].parent, total, names);
        assert(b.drop_last() == branch_word(tree, tree[j].parent, names));
    }
    if tree[i].parent >= 0 && tree[j].parent >= 0 {
        branches_differ(tree, tree[i].parent, tree[j].parent, total, names);
    }
    assert(tree[i].parent == tree[j].parent);
    if i < j {
        assert(!(tree[i].parent == tree[j].parent && tree[i].name == tree[j].name));
    } else if j < i {
        assert(!(tree[j].parent == tree[i].parent && tree[j].name == tree[i].name));
    }
}

proof fn tree_is_small(
    state: VendorModel,
    total: nat,
    names: Seq<Seq<char>>,
)
    requires
        is_tree(state.tree),
        are_apart(state.tree),
        parents_are_taken_up(state),
        is_fresh(state),
        is_bounded(state.tree, total, names),
        names.len() >= 1,
    ensures
        state.tree.len() <= most_places(total, names.len()),
{
    let tree = state.tree;
    let list = Seq::new(tree.len(), |i: int| branch_word(tree, i, names));
    assert forall|i: int| 0 <= i < list.len() implies has_digits(
        #[trigger] list[i],
        names.len() as int,
    ) && list[i].len() <= longest_branch(total, names.len()) by {
        branch_word_has_digits(tree, i, total, names);
        branch_is_short(state, i, total, names);
    }
    assert forall|i: int, j: int|
        0 <= i < list.len() && 0 <= j < list.len() && i != j implies list[i] != list[j] by {
        if list[i] == list[j] {
            branches_differ(tree, i, j, total, names);
        }
    }
    distinct_words(list, names.len(), longest_branch(total, names.len()));
}

/// A new place does not make one repeat that did not.
proof fn repeats_of_push(tree: Seq<SpotModel>, spot: SpotModel, i: int)
    requires
        is_tree(tree),
        names_are_at_top(tree),
        0 <= i < tree.len(),
        spot.parent == -1 ==> child(tree, -1, spot.name) is None,
        spot.parent == -1 || i <= spot.parent,
        repeats(tree.push(spot), i),
    ensures
        repeats(tree, i),
{
    let later = tree.push(spot);
    let a = choose|a: int| #[trigger]
        is_above(later, a, i) && later[a].package == later[i].package && same_view(later, a, i);
    above_of_push(tree, spot, a, i);
    above_is_there(tree, a, i);
    assert(later[a] == tree[a] && later[i] == tree[i]);
    assert forall|e: int| 0 <= e < tree.len() implies outlook(
        tree,
        a,
        (#[trigger] tree[e]).name,
    ) == outlook(tree, i, tree[e].name) by {
        assert(later[e] == tree[e]);
        outlook_of_push(tree, spot, a, tree[e].name);
        outlook_of_push(tree, spot, i, tree[e].name);
    }
    assert(same_view(tree, a, i));
}

proof fn fresh_step(workspace: Workspace, state: VendorModel, event: EventModel)
    requires
        walk(workspace, state),
        is_fresh(state),
    ensures
        is_fresh(state.after(event)),
{
    step_adds(state, event);
    let later = state.after(event).tree;
    assert forall|i: int| 0 <= i < state.head implies !#[trigger] repeats(later, i) by {
        assert(!repeats(state.tree, i));
        if new_spot(state, event) is Some && repeats(later, i) {
            new_spot_is_apart(workspace, state, event);
            repeats_of_push(state.tree, new_spot(state, event)->0, i);
        }
    }
}

proof fn fresh_run(workspace: Workspace, state: VendorModel, events: Seq<EventModel>)
    requires
        walk(workspace, state),
        is_fresh(state),
        all_answer(workspace, state, events),
    ensures
        is_fresh(after_all(state, events)),
    decreases events.len(),
{
    if events.len() > 0 {
        fresh_run(workspace, state, events.drop_last());
        walk_run(workspace, state, events.drop_last());
        fresh_step(workspace, after_all(state, events.drop_last()), events.last());
    }
}

/// Whether every package of the workspace is numbered below `total`.
pub open spec fn numbered_below(workspace: Workspace, total: nat) -> bool {
    forall|from: u64, name: Seq<char>|
        #![trigger (workspace.resolve)(from, name)]
        match (workspace.resolve)(from, name) {
            Some(to) => to < total,
            None => true,
        }
}

/// Whether every name that is used in the workspace is among `names`, and that
/// of the command line package too.
pub open spec fn named_among(workspace: Workspace, names: Seq<Seq<char>>) -> bool {
    &&& names.contains(CLI_PLACE@)
    &&& forall|name: Seq<char>| #[trigger] workspace.uses(name) ==> names.contains(name)
}

proof fn walk_is_bounded(
    workspace: Workspace,
    state: VendorModel,
    total: nat,
    names: Seq<Seq<char>>,
)
    requires
        walk(workspace, state),
        numbered_below(workspace, total),
        named_among(workspace, names),
        state.cli < total,
    ensures
        is_bounded(state.tree, total, names),
{
    let tree = state.tree;
    assert forall|i: int| 0 <= i < tree.len() implies (#[trigger] tree[i]).package < total
        && names.contains(tree[i].name) by {
        if i > 0 {
            assert(has_origin(workspace, tree, i));
            let (k, j) = choose|k: int, j: int| came_from(workspace, tree, i, k, j);
            assert((workspace.resolve)(tree[k].package, tree[i].name) == Some(tree[i].package));
            assert(workspace.is_name(tree[k].package, j, tree[i].name));
            assert(workspace.uses(tree[i].name));
        }
    }
}

/// What a phase has still to do for the dependency at hand.
pub open spec fn rank(phase: PhaseModel) -> nat {
    match phase {
        PhaseModel::PlaceCli => 4,
        PhaseModel::CopyCli => 3,
        PhaseModel::Guard { name } => 2,
        PhaseModel::Reading => 1,
        PhaseModel::Resolving { names, next } => 3,
        PhaseModel::Placing { names, next, package, parent } => 2,
        PhaseModel::Copying { names, next, package, parent } => 1,
        _ => 0,
    }
}

/// What the assembly has still to do, where there are at most so many places:
/// how many are not taken up, whether the manifest of the package at hand is
/// still to be read, how many of its dependencies are left, and what is left to
/// do for the one at hand.
pub open spec fn work_left(state: VendorModel, most: nat) -> (nat, nat, nat, nat) {
    let places = if state.phase is Done || state.phase is Unresolved || state.phase is Endless {
        0
    } else {
        (most - state.head + 1) as nat
    };
    let unread: nat = match state.phase {
        PhaseModel::PlaceCli | PhaseModel::CopyCli | PhaseModel::Guard { .. }
        | PhaseModel::Reading => 1,
        _ => 0,
    };
    let dependencies = match state.phase {
        PhaseModel::Resolving { names, next } => (names.len() - next) as nat,
        PhaseModel::Placing { names, next, package, parent } => (names.len() - next) as nat,
        PhaseModel::Copying { names, next, package, parent } => (names.len() - next) as nat,
        _ => 0,
    };
    (places, unread, dependencies, rank(state.phase))
}

proof fn work_gets_less(
    workspace: Workspace,
    state: VendorModel,
    event: EventModel,
    most: nat,
)
    requires
        state.well_formed(),
        state.after(event).well_formed(),
        answers(workspace, state, event),
        state.tree.len() <= most,
        state.after(event).tree.len() <= most,
    ensures
        ({
            let before = work_left(state, most);
            let left = work_left(state.after(event), most);
            decreases_to!(before.0, before.1, before.2, before.3 => left.0, left.1, left.2, left.3)
        }),
{
    step_adds(state, event);
}

/// Every step that answers the action at hand leaves less to do, so the assembly
/// comes to an end however the packages depend on each other: there are `total`
/// packages, and `names` by which they are known.
pub proof fn every_step_is_progress(
    workspace: Workspace,
    cli: u64,
    first: Option<Seq<char>>,
    separator: Seq<char>,
    events: Seq<EventModel>,
    event: EventModel,
    total: nat,
    names: Seq<Seq<char>>,
)
    requires
        numbered_below(workspace, total),
        named_among(workspace, names),
        cli < total,
        all_answer(workspace, VendorModel::start(cli, first, separator), events),
        answers(workspace, after_all(VendorModel::start(cli, first, separator), events), event),
    ensures
        ({
            let state = after_all(VendorModel::start(cli, first, separator), events);
            let before = work_left(state, most_places(total, names.len()));
            let left = work_left(state.after(event), most_places(total, names.len()));
            decreases_to!(before.0, before.1, before.2, before.3 => left.0, left.1, left.2, left.3)
        }),
{
    let start = VendorModel::start(cli, first, separator);
    walk_start(workspace, cli, first, separator);
    walk_run(workspace, start, events);
    fresh_run(workspace, start, events);
    let state = after_all(start, events);
    let later = state.after(event);
    walk_step(workspace, state, event);
    fresh_step(workspace, state, event);
    step_adds(state, event);
    walk_is_bounded(workspace, state, total, names);
    walk_is_bounded(workspace, later, total, names);
    assert(names.len() >= 1);
    tree_is_small(state, total, names);
    tree_is_small(later, total, names);
    work_gets_less(workspace, state, event, most_places(total, names.len()));
}

} // verus!
