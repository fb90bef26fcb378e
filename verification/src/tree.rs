//! The places of the vendored tree, and how node finds a package from one.
//!
//! A place is known by its number. Below the top `node_modules` directory each
//! package that was placed may have a `node_modules` directory of its own.

use crate::text::{replace_char, same_text, text3};
use vstd::prelude::*;

verus! {

/// Where the command line package is placed, and the name that it has there.
pub const CLI_PLACE: &'static str = "@deepseek-ai/dsh";

/// A place: what was put there under which name, and the place of the package
/// below which it is, if it is not at the top. `copied` tells whether the
/// package was copied or the place was taken.
pub struct Spot {
    pub package: u64,
    pub name: String,
    pub parent: Option<usize>,
    pub copied: bool,
}

/// A place as a mathematical value. The parent of a place at the top is -1.
pub struct SpotModel {
    pub package: u64,
    pub name: Seq<char>,
    pub parent: int,
    pub copied: bool,
}

/// A place as a number: -1 is the top.
pub open spec fn position_of(at: Option<usize>) -> int {
    match at {
        Some(at) => at as int,
        None => -1,
    }
}

impl View for Spot {
    type V = SpotModel;

    open spec fn view(&self) -> SpotModel {
        SpotModel {
            package: self.package,
            name: self.name@,
            parent: position_of(self.parent),
            copied: self.copied,
        }
    }
}

/// The places of a list.
pub open spec fn tree_view(spots: Seq<Spot>) -> Seq<SpotModel> {
    spots.map_values(|spot: Spot| spot@)
}

/// Whether each place is at the top or below an earlier one.
pub open spec fn is_tree(tree: Seq<SpotModel>) -> bool {
    forall|i: int| 0 <= i < tree.len() ==> -1 <= (#[trigger] tree[i]).parent < i
}

/// The place of that name in the `node_modules` directory of the package at
/// `parent`.
pub open spec fn child(tree: Seq<SpotModel>, parent: int, name: Seq<char>) -> Option<int>
    decreases tree.len(),
{
    if tree.len() == 0 {
        None
    } else if tree.last().parent == parent && tree.last().name == name {
        Some(tree.len() - 1)
    } else {
        child(tree.drop_last(), parent, name)
    }
}

/// The place that node finds for a name from the package at `at`: that in its
/// own `node_modules` directory, else in the nearest enclosing one.
pub open spec fn looked_up(tree: Seq<SpotModel>, at: int, name: Seq<char>) -> Option<int>
    decreases at + 1,
{
    match child(tree, at, name) {
        Some(i) => Some(i),
        None => if 0 <= at < tree.len() && -1 <= tree[at].parent < at {
            looked_up(tree, tree[at].parent, name)
        } else {
            None
        },
    }
}

/// The package that node finds for a name from the package at `at`.
pub open spec fn found(tree: Seq<SpotModel>, at: int, name: Seq<char>) -> Option<u64> {
    match looked_up(tree, at, name) {
        Some(i) => Some(tree[i].package),
        None => None,
    }
}

/// The path of a name at the top of the tree.
pub open spec fn top_place(name: Seq<char>, separator: Seq<char>) -> Seq<char> {
    if name == CLI_PLACE@ {
        CLI_PLACE@
    } else {
        crate::text::replaced(name, '/', separator)
    }
}

/// The path of what goes to `place` below the package with the path `below`.
pub open spec fn below_place(below: Seq<char>, place: Seq<char>) -> Seq<char> {
    below + "/node_modules/"@ + place
}

/// The path of a place.
pub open spec fn path_of(tree: Seq<SpotModel>, at: int, separator: Seq<char>) -> Seq<char>
    decreases at,
{
    if 0 <= at < tree.len() && 0 <= tree[at].parent < at {
        below_place(
            path_of(tree, tree[at].parent, separator),
            crate::text::replaced(tree[at].name, '/', separator),
        )
    } else {
        top_place(tree[at].name, separator)
    }
}

/// The path of a name below the package at `parent`, or at the top.
pub open spec fn place_for(
    tree: Seq<SpotModel>,
    parent: int,
    name: Seq<char>,
    separator: Seq<char>,
) -> Seq<char> {
    if parent < 0 {
        top_place(name, separator)
    } else {
        below_place(
            path_of(tree, parent, separator),
            crate::text::replaced(name, '/', separator),
        )
    }
}

/// Whether the place `b` is below the place `a`, at any depth.
pub open spec fn is_above(tree: Seq<SpotModel>, a: int, b: int) -> bool
    decreases b,
{
    &&& 0 <= b < tree.len()
    &&& 0 <= tree[b].parent < b
    &&& a == tree[b].parent || is_above(tree, a, tree[b].parent)
}

/// Whether the place `i` may serve the package at `at` from outside of it: it is
/// at the top, or on the branch of that package.
pub open spec fn is_on_the_way(tree: Seq<SpotModel>, i: int, at: int) -> bool {
    tree[i].parent == -1 || i == at || is_above(tree, i, at)
}

/// What node finds for a name from around the package at `at`, that is without
/// its own `node_modules` directory: the package, and whether it is at the top or
/// on the branch. One that lies beside the branch belongs to another package that
/// needs it.
pub open spec fn outlook(tree: Seq<SpotModel>, at: int, name: Seq<char>) -> Option<(u64, bool)> {
    match looked_up(tree, tree[at].parent, name) {
        Some(i) => Some((tree[i].package, is_on_the_way(tree, i, at))),
        None => None,
    }
}

/// Whether the package at `at` has `package` under a name: in its own
/// `node_modules` directory or, where that does not have the name, at the top or
/// on its branch.
pub open spec fn is_served(tree: Seq<SpotModel>, at: int, name: Seq<char>, package: u64) -> bool {
    match child(tree, at, name) {
        Some(i) => tree[i].package == package,
        None => outlook(tree, at, name) == Some((package, true)),
    }
}

/// Whether every name leads to the same from around the places `a` and `b`.
pub open spec fn same_view(tree: Seq<SpotModel>, a: int, b: int) -> bool {
    forall|e: int|
        0 <= e < tree.len() ==> outlook(tree, a, (#[trigger] tree[e]).name) == outlook(
            tree,
            b,
            tree[e].name,
        )
}

/// Whether a place repeats one above it: the same package with the same view.
/// What was nested below the upper one is then to be nested below the lower one
/// as well, and so on without end.
pub open spec fn repeats(tree: Seq<SpotModel>, at: int) -> bool {
    exists|above: int| #[trigger]
        is_above(tree, above, at) && tree[above].package == tree[at].package && same_view(
            tree,
            above,
            at,
        )
}

pub proof fn child_is_there(tree: Seq<SpotModel>, parent: int, name: Seq<char>)
    ensures
        match child(tree, parent, name) {
            Some(i) => 0 <= i < tree.len() && tree[i].parent == parent && tree[i].name == name,
            None => forall|i: int|
                0 <= i < tree.len() ==> !((#[trigger] tree[i]).parent == parent && tree[i].name
                    == name),
        },
    decreases tree.len(),
{
    if tree.len() > 0 {
        child_is_there(tree.drop_last(), parent, name);
        if child(tree, parent, name) is None {
            assert forall|i: int| 0 <= i < tree.len() implies !((#[trigger] tree[i]).parent
                == parent && tree[i].name == name) by {
                if i < tree.len() - 1 {
                    assert(tree.drop_last()[i] == tree[i]);
                }
            }
        }
    }
}

pub proof fn child_of_push(tree: Seq<SpotModel>, spot: SpotModel, parent: int, name: Seq<char>)
    ensures
        child(tree.push(spot), parent, name) == if spot.parent == parent && spot.name == name {
            Some(tree.len() as int)
        } else {
            child(tree, parent, name)
        },
{
    assert(tree.push(spot).drop_last() == tree);
}

pub proof fn lookup_is_there(tree: Seq<SpotModel>, at: int, name: Seq<char>)
    ensures
        match looked_up(tree, at, name) {
            Some(i) => 0 <= i < tree.len() && tree[i].name == name && (tree[i].parent == at
                || child(tree, at, name) is None),
            None => child(tree, at, name) is None,
        },
    decreases at + 1,
{
    child_is_there(tree, at, name);
    if child(tree, at, name) is None && 0 <= at < tree.len() && -1 <= tree[at].parent < at {
        lookup_is_there(tree, tree[at].parent, name);
    }
}

/// A new place does not matter to a lookup of another name, nor to one from a
/// place before its parent.
pub proof fn lookup_of_push(tree: Seq<SpotModel>, spot: SpotModel, at: int, name: Seq<char>)
    requires
        -1 <= at < tree.len(),
        spot.name != name || spot.parent > at,
    ensures
        looked_up(tree.push(spot), at, name) == looked_up(tree, at, name),
        found(tree.push(spot), at, name) == found(tree, at, name),
    decreases at + 1,
{
    child_of_push(tree, spot, at, name);
    if 0 <= at {
        assert(tree.push(spot)[at] == tree[at]);
        if -1 <= tree[at].parent < at {
            lookup_of_push(tree, spot, tree[at].parent, name);
        }
    }
    lookup_is_there(tree, at, name);
}

/// A new place is not above those before it.
pub proof fn above_of_push(tree: Seq<SpotModel>, spot: SpotModel, a: int, b: int)
    requires
        0 <= b < tree.len(),
    ensures
        is_above(tree.push(spot), a, b) == is_above(tree, a, b),
    decreases b,
{
    assert(tree.push(spot)[b] == tree[b]);
    if 0 <= tree[b].parent < b {
        above_of_push(tree, spot, a, tree[b].parent);
    }
}

/// A new place does not matter to the view of another name, nor to that from a
/// place up to its parent.
pub proof fn outlook_of_push(tree: Seq<SpotModel>, spot: SpotModel, at: int, name: Seq<char>)
    requires
        is_tree(tree),
        0 <= at < tree.len(),
        spot.name != name || spot.parent >= at,
    ensures
        outlook(tree.push(spot), at, name) == outlook(tree, at, name),
{
    assert(tree.push(spot)[at] == tree[at]);
    lookup_of_push(tree, spot, tree[at].parent, name);
    lookup_is_there(tree, tree[at].parent, name);
    if let Some(i) = looked_up(tree, tree[at].parent, name) {
        assert(tree.push(spot)[i] == tree[i]);
        above_of_push(tree, spot, i, at);
    }
}

/// What serves a package is what node finds from its place, and is at the top,
/// below it or on its branch.
pub proof fn served_is_found(tree: Seq<SpotModel>, at: int, name: Seq<char>, package: u64)
    requires
        is_tree(tree),
        0 <= at < tree.len(),
        is_served(tree, at, name, package),
    ensures
        match looked_up(tree, at, name) {
            Some(i) => {
                &&& 0 <= i < tree.len()
                &&& tree[i].name == name
                &&& tree[i].package == package
                &&& tree[i].parent == at || is_on_the_way(tree, i, at)
            },
            None => false,
        },
{
    lookup_is_there(tree, at, name);
    child_is_there(tree, at, name);
    lookup_is_there(tree, tree[at].parent, name);
}

/// A name that is at the top is found from everywhere.
pub proof fn top_is_found(tree: Seq<SpotModel>, at: int, name: Seq<char>)
    requires
        is_tree(tree),
        -1 <= at < tree.len(),
        child(tree, -1, name) is Some,
    ensures
        looked_up(tree, at, name) is Some,
    decreases at + 1,
{
    if 0 <= at {
        top_is_found(tree, tree[at].parent, name);
    }
}

/// A name that was found nowhere is found at the top once it was put there.
pub proof fn new_top_is_found(tree: Seq<SpotModel>, spot: SpotModel, at: int)
    requires
        is_tree(tree),
        -1 <= at < tree.len(),
        spot.parent == -1,
        looked_up(tree, at, spot.name) is None,
    ensures
        looked_up(tree.push(spot), at, spot.name) == Some(tree.len() as int),
    decreases at + 1,
{
    child_of_push(tree, spot, at, spot.name);
    if 0 <= at {
        assert(tree.push(spot)[at] == tree[at]);
        new_top_is_found(tree, spot, tree[at].parent);
    }
}

/// The place of that name in the `node_modules` directory of the package at
/// `parent`.
pub fn find_child(spots: &Vec<Spot>, parent: Option<usize>, name: &str) -> (result: Option<usize>)
    ensures
        match result {
            Some(i) => i < spots.len() && child(
                tree_view(spots@),
                position_of(parent),
                name@,
            ) == Some(i as int),
            None => child(tree_view(spots@), position_of(parent), name@) is None,
        },
{
    let ghost tree = tree_view(spots@);
    let mut i: usize = spots.len();
    assert(tree.take(tree.len() as int) == tree);
    while i > 0
        invariant
            i <= spots.len(),
            tree == tree_view(spots@),
            child(tree, position_of(parent), name@) == child(
                tree.take(i as int),
                position_of(parent),
                name@,
            ),
        decreases i,
    {
        i = i - 1;
        assert(tree.take(i + 1).drop_last() == tree.take(i as int));
        assert(tree.take(i + 1).last() == spots@[i as int]@);
        let same_parent = match (spots[i].parent, parent) {
            (Some(a), Some(b)) => a == b,
            (None, None) => true,
            _ => false,
        };
        if same_parent && same_text(spots[i].name.as_str(), name) {
            return Some(i);
        }
    }
    None
}

/// The place that node finds for a name from the package at `at`, or from the
/// top.
pub fn look_up(spots: &Vec<Spot>, at: Option<usize>, name: &str) -> (result: Option<usize>)
    requires
        is_tree(tree_view(spots@)),
        position_of(at) < spots.len(),
    ensures
        match result {
            Some(i) => i < spots.len() && looked_up(
                tree_view(spots@),
                position_of(at),
                name@,
            ) == Some(i as int),
            None => looked_up(tree_view(spots@), position_of(at), name@) is None,
        },
    decreases position_of(at) + 1,
{
    if let Some(i) = find_child(spots, at, name) {
        return Some(i);
    }
    match at {
        Some(k) => {
            assert(tree_view(spots@)[k as int] == spots@[k as int]@);
            look_up(spots, spots[k].parent, name)
        },
        None => None,
    }
}

/// The path of a name at the top of the tree.
fn top_path(name: &str, separator: &str) -> (path: String)
    ensures
        path@ == top_place(name@, separator@),
{
    if same_text(name, CLI_PLACE) {
        CLI_PLACE.to_owned()
    } else {
        replace_char(name, '/', separator)
    }
}

/// The path of a place.
pub fn path(spots: &Vec<Spot>, at: usize, separator: &str) -> (path: String)
    requires
        is_tree(tree_view(spots@)),
        at < spots.len(),
    ensures
        path@ == path_of(tree_view(spots@), at as int, separator@),
    decreases at, 1int,
{
    assert(tree_view(spots@)[at as int] == spots@[at as int]@);
    path_below(spots, spots[at].parent, spots[at].name.as_str(), separator)
}

/// The path of a name below the package at `parent`, or at the top.
pub fn path_below(spots: &Vec<Spot>, parent: Option<usize>, name: &str, separator: &str) -> (path:
    String)
    requires
        is_tree(tree_view(spots@)),
        position_of(parent) < spots.len(),
    ensures
        path@ == place_for(tree_view(spots@), position_of(parent), name@, separator@),
    decreases position_of(parent) + 1, 0int,
{
    match parent {
        Some(k) => {
            let below = path(spots, k, separator);
            let place = replace_char(name, '/', separator);
            text3(below.as_str(), "/node_modules/", place.as_str())
        },
        None => top_path(name, separator),
    }
}

/// Whether the place `b` is below the place `a`, at any depth.
fn lies_above(spots: &Vec<Spot>, a: usize, b: usize) -> (above: bool)
    requires
        is_tree(tree_view(spots@)),
        b < spots.len(),
    ensures
        above == is_above(tree_view(spots@), a as int, b as int),
    decreases b,
{
    assert(tree_view(spots@)[b as int] == spots@[b as int]@);
    match spots[b].parent {
        Some(parent) => parent == a || lies_above(spots, a, parent),
        None => false,
    }
}

/// What node finds for a name from around the package at `at`, and whether it is
/// at the top or on the branch.
pub fn look_around(spots: &Vec<Spot>, at: usize, name: &str) -> (result: Option<(u64, bool)>)
    requires
        is_tree(tree_view(spots@)),
        at < spots.len(),
    ensures
        result == outlook(tree_view(spots@), at as int, name@),
{
    assert(tree_view(spots@)[at as int] == spots@[at as int]@);
    match look_up(spots, spots[at].parent, name) {
        Some(i) => {
            assert(tree_view(spots@)[i as int] == spots@[i as int]@);
            let at_top = match spots[i].parent {
                Some(_) => false,
                None => true,
            };
            Some((spots[i].package, at_top || i == at || lies_above(spots, i, at)))
        },
        None => None,
    }
}

/// Whether every name leads to the same from around two places.
fn views_agree(spots: &Vec<Spot>, a: usize, b: usize) -> (same: bool)
    requires
        is_tree(tree_view(spots@)),
        a < spots.len(),
        b < spots.len(),
    ensures
        same == same_view(tree_view(spots@), a as int, b as int),
{
    let ghost tree = tree_view(spots@);
    let mut e: usize = 0;
    while e < spots.len()
        invariant
            tree == tree_view(spots@),
            is_tree(tree),
            a < spots.len(),
            b < spots.len(),
            e <= spots.len(),
            forall|i: int|
                0 <= i < e ==> outlook(tree, a as int, (#[trigger] tree[i]).name) == outlook(
                    tree,
                    b as int,
                    tree[i].name,
                ),
        decreases spots.len() - e,
    {
        assert(tree[e as int] == spots@[e as int]@);
        let same = match (
            look_around(spots, a, spots[e].name.as_str()),
            look_around(spots, b, spots[e].name.as_str()),
        ) {
            (Some(p), Some(q)) => p.0 == q.0 && p.1 == q.1,
            (None, None) => true,
            _ => false,
        };
        if !same {
            return false;
        }
        e = e + 1;
    }
    true
}

/// Whether a place repeats one above it.
pub fn is_repeat(spots: &Vec<Spot>, at: usize) -> (repeat: bool)
    requires
        is_tree(tree_view(spots@)),
        at < spots.len(),
    ensures
        repeat == repeats(tree_view(spots@), at as int),
{
    let ghost tree = tree_view(spots@);
    let mut above: Option<usize> = spots[at].parent;
    assert(tree[at as int] == spots@[at as int]@);
    loop
        invariant
            tree == tree_view(spots@),
            is_tree(tree),
            at < spots.len(),
            position_of(above) < at,
            above is Some ==> is_above(tree, position_of(above), at as int),
            forall|a: int| #[trigger]
                is_above(tree, a, at as int) ==> a == position_of(above) || is_above(
                    tree,
                    a,
                    position_of(above),
                ) || !(tree[a].package == tree[at as int].package && same_view(
                    tree,
                    a,
                    at as int,
                )),
        decreases position_of(above) + 1,
    {
        let k: usize = match above {
            Some(k) => k,
            None => {
                assert forall|a: int| #[trigger] is_above(tree, a, at as int) implies !(
                tree[a].package == tree[at as int].package && same_view(tree, a, at as int)) by {
                    above_is_there(tree, a, at as int);
                }
                return false;
            },
        };
        assert(tree[k as int] == spots@[k as int]@);
        assert(tree[at as int] == spots@[at as int]@);
        if spots[k].package == spots[at].package && views_agree(spots, k, at) {
            return true;
        }
        proof {
            if tree[k as int].parent >= 0 {
                above_goes_on(tree, k as int, at as int);
            }
        }
        above = spots[k].parent;
    }
}

/// A place above another comes before it.
pub proof fn above_is_there(tree: Seq<SpotModel>, a: int, b: int)
    requires
        is_above(tree, a, b),
    ensures
        0 <= a < b < tree.len(),
    decreases b,
{
    if a != tree[b].parent {
        above_is_there(tree, a, tree[b].parent);
    }
}

/// What is above a place that is above another is above that one too.
proof fn above_goes_on(tree: Seq<SpotModel>, k: int, b: int)
    requires
        is_tree(tree),
        is_above(tree, k, b),
        tree[k].parent >= 0,
    ensures
        is_above(tree, tree[k].parent, b),
    decreases b,
{
    above_is_there(tree, k, b);
    if k == tree[b].parent {
        assert(is_above(tree, tree[k].parent, k));
    } else {
        above_goes_on(tree, k, tree[b].parent);
    }
}

/// Whether what is in the `node_modules` directory of the package at `p` can be
/// seen from the package at `at`: that is the package itself, one above it, or the
/// top.
pub open spec fn is_seen_from(tree: Seq<SpotModel>, p: int, at: int) -> bool {
    p == -1 || p == at || is_above(tree, p, at)
}

/// Node finds a name in the nearest directory that has it: in the package's own
/// `node_modules` directory, else in that of the package above it, and so on up to
/// the top. A name is found nowhere only where none of these has it.
pub proof fn nearest_place_is_found(tree: Seq<SpotModel>, at: int, name: Seq<char>, j: int)
    requires
        is_tree(tree),
        -1 <= at < tree.len(),
        0 <= j < tree.len(),
    ensures
        match looked_up(tree, at, name) {
            Some(i) => {
                &&& 0 <= i < tree.len()
                &&& tree[i].name == name
                &&& is_seen_from(tree, tree[i].parent, at)
                &&& tree[j].name == name && is_seen_from(tree, tree[j].parent, at) ==> tree[j].parent
                    <= tree[i].parent
            },
            None => !(tree[j].name == name && is_seen_from(tree, tree[j].parent, at)),
        },
    decreases at + 1,
{
    child_is_there(tree, at, name);
    if 0 <= at {
        if is_above(tree, tree[j].parent, at) {
            above_is_there(tree, tree[j].parent, at);
        }
        nearest_place_is_found(tree, tree[at].parent, name, j);
        if let Some(i) = looked_up(tree, tree[at].parent, name) {
            if tree[i].parent >= 0 {
                assert(is_above(tree, tree[i].parent, at));
            }
        }
    }
}

/// A place at the top has the path of its name, and one below a package has the
/// path of that package, `node_modules` and its name. The parts of a name are
/// parted by the separator of the system.
pub proof fn paths_follow_the_places(tree: Seq<SpotModel>, at: int, separator: Seq<char>)
    requires
        is_tree(tree),
        0 <= at < tree.len(),
    ensures
        tree[at].parent == -1 && tree[at].name != "@deepseek-ai/dsh"@ ==> path_of(
            tree,
            at,
            separator,
        ) == crate::text::replaced(tree[at].name, '/', separator),
        tree[at].parent == -1 && tree[at].name == "@deepseek-ai/dsh"@ ==> path_of(
            tree,
            at,
            separator,
        ) == "@deepseek-ai/dsh"@,
        tree[at].parent >= 0 ==> path_of(tree, at, separator) == path_of(
            tree,
            tree[at].parent,
            separator,
        ) + "/node_modules/"@ + crate::text::replaced(tree[at].name, '/', separator),
        CLI_PLACE@ == "@deepseek-ai/dsh"@,
{
}

/// A name without a scope, that is without `/`, is its own path below a package or
/// at the top on every system.
pub proof fn plain_names_are_paths(
    tree: Seq<SpotModel>,
    parent: int,
    name: Seq<char>,
    separator: Seq<char>,
)
    requires
        !name.contains('/'),
        -1 <= parent < tree.len(),
    ensures
        place_for(tree, parent, name, separator) == if parent < 0 {
            name
        } else {
            path_of(tree, parent, separator) + "/node_modules/"@ + name
        },
{
    crate::text::replaced_without(name, '/', separator);
}

} // verus!
