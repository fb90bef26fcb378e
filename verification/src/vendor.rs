//! The assembly of the vendored dependency tree: from the command line package
//! on, every package that is reached is copied below one `node_modules`
//! directory. The first version of a name goes to the top. A package that needs
//! another version, or that would be led to another one on the way to the top, has
//! its version nested below it. Only a package on its own branch serves it as
//! well, which lets cycles among nested packages come to an end.
//!
//! [`Vendor`] decides what is done next. The program performs the action and
//! hands back what came of it. A package's real directory is known here by a
//! number that the program gives to it.

use crate::package::Manifest;
use crate::text::{decimal, decimal_of, text3};
use crate::tree::{
    child, find_child, is_repeat, is_tree, look_around, outlook, path, path_below, path_of,
    place_for, position_of, repeats, tree_view, Spot, SpotModel, CLI_PLACE,
};
use vstd::prelude::*;

verus! {

/// What the program is to do next.
pub enum VendorAction {
    /// Look whether the place is taken.
    CheckTarget { rel: String },
    /// Copy the package to the place.
    Copy { package: u64, rel: String },
    /// Look up the dependency `name` of a package.
    Resolve { dir: u64, name: String },
    /// Read the manifest of a package.
    ReadManifest { dir: u64 },
    /// The tree is complete.
    Done,
    /// The dependencies of the command line package are not installed.
    Unresolved,
    /// The versions below the place would have to be nested without end.
    Endless { rel: String },
}

/// What came of an action.
pub enum VendorEvent {
    /// Whether the place is taken.
    Target { taken: bool },
    /// The package was copied.
    Copied,
    /// The directory of the dependency, if it is installed.
    Resolved { package: Option<u64> },
    /// The manifest, if it could be read.
    Manifest { manifest: Option<Manifest> },
}

/// Where the assembly stands.
enum Phase {
    PlaceCli,
    CopyCli,
    Guard { name: String },
    Reading,
    Resolving { names: Vec<String>, next: usize },
    Placing { names: Vec<String>, next: usize, package: u64, parent: Option<usize> },
    Copying { names: Vec<String>, next: usize, package: u64, parent: Option<usize> },
    Done,
    Unresolved,
    Endless,
}

/// Where the assembly stands, as a mathematical value. The place at hand is the
/// last one that was taken up.
pub enum PhaseModel {
    /// The place of the command line package is looked at.
    PlaceCli,
    /// The command line package is copied.
    CopyCli,
    /// Its first dependency is looked up, to see whether any are installed.
    Guard { name: Seq<char> },
    /// The manifest of the package at hand is read.
    Reading,
    /// Its dependency `names[next]` is looked up.
    Resolving { names: Seq<Seq<char>>, next: int },
    /// The place for that dependency below `parent` is looked at.
    Placing { names: Seq<Seq<char>>, next: int, package: u64, parent: int },
    /// That dependency is copied.
    Copying { names: Seq<Seq<char>>, next: int, package: u64, parent: int },
    Done,
    Unresolved,
    /// The next place repeats one above it.
    Endless,
}

/// What the program is to do next, as a mathematical value.
pub enum ActionModel {
    CheckTarget { rel: Seq<char> },
    Copy { package: u64, rel: Seq<char> },
    Resolve { dir: u64, name: Seq<char> },
    ReadManifest { dir: u64 },
    Done,
    Unresolved,
    Endless { rel: Seq<char> },
}

/// What came of an action, as a mathematical value.
pub enum EventModel {
    Target { taken: bool },
    Copied,
    Resolved { package: Option<u64> },
    /// The names that the package depends on, if its manifest could be read.
    Manifest { names: Option<Seq<Seq<char>>> },
}

impl View for VendorAction {
    type V = ActionModel;

    open spec fn view(&self) -> ActionModel {
        match self {
            VendorAction::CheckTarget { rel } => ActionModel::CheckTarget { rel: rel@ },
            VendorAction::Copy { package, rel } => ActionModel::Copy { package: *package, rel: rel@ },
            VendorAction::Resolve { dir, name } => ActionModel::Resolve { dir: *dir, name: name@ },
            VendorAction::ReadManifest { dir } => ActionModel::ReadManifest { dir: *dir },
            VendorAction::Done => ActionModel::Done,
            VendorAction::Unresolved => ActionModel::Unresolved,
            VendorAction::Endless { rel } => ActionModel::Endless { rel: rel@ },
        }
    }
}

impl View for VendorEvent {
    type V = EventModel;

    open spec fn view(&self) -> EventModel {
        match self {
            VendorEvent::Target { taken } => EventModel::Target { taken: *taken },
            VendorEvent::Copied => EventModel::Copied,
            VendorEvent::Resolved { package } => EventModel::Resolved { package: *package },
            VendorEvent::Manifest { manifest } => EventModel::Manifest {
                names: match manifest {
                    Some(manifest) => Some(manifest@.dependency_names()),
                    None => None,
                },
            },
        }
    }
}

impl View for Phase {
    type V = PhaseModel;

    closed spec fn view(&self) -> PhaseModel {
        match self {
            Phase::PlaceCli => PhaseModel::PlaceCli,
            Phase::CopyCli => PhaseModel::CopyCli,
            Phase::Guard { name } => PhaseModel::Guard { name: name@ },
            Phase::Reading => PhaseModel::Reading,
            Phase::Resolving { names, next } => PhaseModel::Resolving {
                names: crate::text::views(names@),
                next: *next as int,
            },
            Phase::Placing { names, next, package, parent } => PhaseModel::Placing {
                names: crate::text::views(names@),
                next: *next as int,
                package: *package,
                parent: position_of(*parent),
            },
            Phase::Copying { names, next, package, parent } => PhaseModel::Copying {
                names: crate::text::views(names@),
                next: *next as int,
                package: *package,
                parent: position_of(*parent),
            },
            Phase::Done => PhaseModel::Done,
            Phase::Unresolved => PhaseModel::Unresolved,
            Phase::Endless => PhaseModel::Endless,
        }
    }
}

/// The state of the assembly.
pub struct VendorModel {
    /// The command line package.
    pub cli: u64,
    /// Its first plain dependency.
    pub first: Option<Seq<char>>,
    /// What stands between the directories of a path.
    pub separator: Seq<char>,
    /// The places, in the order in which they were filled.
    pub tree: Seq<SpotModel>,
    /// How many of them were taken up.
    pub head: int,
    pub phase: PhaseModel,
}

impl VendorModel {
    /// The package at hand.
    pub open spec fn dir(self) -> u64 {
        self.tree[self.head - 1].package
    }

    /// Takes up the next place, unless it repeats one above it.
    pub open spec fn next_spot(self) -> VendorModel {
        if self.head < self.tree.len() {
            if repeats(self.tree, self.head) {
                VendorModel { phase: PhaseModel::Endless, ..self }
            } else {
                VendorModel { head: self.head + 1, phase: PhaseModel::Reading, ..self }
            }
        } else {
            VendorModel { phase: PhaseModel::Done, ..self }
        }
    }

    /// Goes on with the dependency `names[next]` of the package at hand, or with
    /// the next place where there is none.
    pub open spec fn next_dependency(self, names: Seq<Seq<char>>, next: int) -> VendorModel {
        if next < names.len() {
            VendorModel { phase: PhaseModel::Resolving { names, next }, ..self }
        } else {
            self.next_spot()
        }
    }

    /// Notes that a place is filled.
    pub open spec fn note(self, spot: SpotModel) -> VendorModel {
        VendorModel { tree: self.tree.push(spot), ..self }
    }

    /// Once the command line package is placed: its first dependency is looked
    /// up, if it has one.
    pub open spec fn cli_placed(self, copied: bool) -> VendorModel {
        let placed = self.note(
            SpotModel { package: self.cli, name: CLI_PLACE@, parent: -1, copied },
        );
        match self.first {
            Some(name) => VendorModel { phase: PhaseModel::Guard { name }, ..placed },
            None => placed.next_spot(),
        }
    }

    /// Once the dependency `names[next]` of the package at hand is known to be
    /// `package`. A name that is in the package's own `node_modules` directory is
    /// in place. Else a name that node finds nowhere goes to the top, and one that
    /// leads to `package` at the top or on the branch is in place. Any other is
    /// nested below the package at hand.
    pub open spec fn dependency(
        self,
        names: Seq<Seq<char>>,
        next: int,
        package: u64,
    ) -> VendorModel {
        let at = self.head - 1;
        if child(self.tree, at, names[next]) is Some {
            self.next_dependency(names, next + 1)
        } else {
            match outlook(self.tree, at, names[next]) {
                None => VendorModel {
                    phase: PhaseModel::Placing { names, next, package, parent: -1 },
                    ..self
                },
                Some((other, on_the_way)) => if other == package && on_the_way {
                    self.next_dependency(names, next + 1)
                } else {
                    VendorModel {
                        phase: PhaseModel::Placing { names, next, package, parent: at },
                        ..self
                    }
                },
            }
        }
    }

    /// Once the place for the dependency `names[next]` is filled.
    pub open spec fn dependency_placed(
        self,
        names: Seq<Seq<char>>,
        next: int,
        package: u64,
        parent: int,
        copied: bool,
    ) -> VendorModel {
        self.note(SpotModel { package, name: names[next], parent, copied }).next_dependency(
            names,
            next + 1,
        )
    }

    /// The state after an event. An event that does not answer the action at
    /// hand changes nothing.
    pub open spec fn after(self, event: EventModel) -> VendorModel {
        match (self.phase, event) {
            (PhaseModel::PlaceCli, EventModel::Target { taken }) => if taken {
                self.cli_placed(false)
            } else {
                VendorModel { phase: PhaseModel::CopyCli, ..self }
            },
            (PhaseModel::CopyCli, EventModel::Copied) => self.cli_placed(true),
            (PhaseModel::Guard { name }, EventModel::Resolved { package }) => if package is Some {
                self.next_spot()
            } else {
                VendorModel { phase: PhaseModel::Unresolved, ..self }
            },
            (PhaseModel::Reading, EventModel::Manifest { names }) => match names {
                Some(names) => self.next_dependency(names, 0),
                None => self.next_spot(),
            },
            (
                PhaseModel::Resolving { names, next },
                EventModel::Resolved { package },
            ) => match package {
                Some(package) => self.dependency(names, next, package),
                None => self.next_dependency(names, next + 1),
            },
            (
                PhaseModel::Placing { names, next, package, parent },
                EventModel::Target { taken },
            ) => if taken {
                self.dependency_placed(names, next, package, parent, false)
            } else {
                VendorModel { phase: PhaseModel::Copying { names, next, package, parent }, ..self }
            },
            (
                PhaseModel::Copying { names, next, package, parent },
                EventModel::Copied,
            ) => self.dependency_placed(names, next, package, parent, true),
            _ => self,
        }
    }

    /// What is to be done next.
    pub open spec fn action(self) -> ActionModel {
        match self.phase {
            PhaseModel::PlaceCli => ActionModel::CheckTarget { rel: CLI_PLACE@ },
            PhaseModel::CopyCli => ActionModel::Copy { package: self.cli, rel: CLI_PLACE@ },
            PhaseModel::Guard { name } => ActionModel::Resolve { dir: self.cli, name },
            PhaseModel::Reading => ActionModel::ReadManifest { dir: self.dir() },
            PhaseModel::Resolving { names, next } => ActionModel::Resolve {
                dir: self.dir(),
                name: names[next],
            },
            PhaseModel::Placing { names, next, package, parent } => ActionModel::CheckTarget {
                rel: place_for(self.tree, parent, names[next], self.separator),
            },
            PhaseModel::Copying { names, next, package, parent } => ActionModel::Copy {
                package,
                rel: place_for(self.tree, parent, names[next], self.separator),
            },
            PhaseModel::Done => ActionModel::Done,
            PhaseModel::Unresolved => ActionModel::Unresolved,
            PhaseModel::Endless => ActionModel::Endless {
                rel: path_of(self.tree, self.head, self.separator),
            },
        }
    }

    /// The state at the start.
    pub open spec fn start(cli: u64, first: Option<Seq<char>>, separator: Seq<char>) -> VendorModel {
        VendorModel {
            cli,
            first,
            separator,
            tree: seq![],
            head: 0,
            phase: PhaseModel::PlaceCli,
        }
    }

    /// How many packages were taken up, each once.
    pub open spec fn count(self) -> nat {
        packages_in(self.tree, self.head)
    }

    /// How many packages were copied.
    pub open spec fn copies(self) -> nat {
        copies_in(self.tree)
    }

    /// What holds of every state that can be reached: the places are a tree, and
    /// there is a place at hand where one is needed.
    pub open spec fn well_formed(self) -> bool {
        &&& is_tree(self.tree)
        &&& 0 <= self.head <= self.tree.len()
        &&& match self.phase {
            PhaseModel::PlaceCli | PhaseModel::CopyCli => self.tree.len() == 0,
            PhaseModel::Guard { name } => {
                &&& self.tree.len() == 1
                &&& self.head == 0
                &&& self.first == Some(name)
            },
            PhaseModel::Reading => 0 < self.head,
            PhaseModel::Resolving { names, next } => 0 < self.head && 0 <= next < names.len(),
            PhaseModel::Placing { names, next, package, parent } => {
                &&& 0 < self.head
                &&& 0 <= next < names.len()
                &&& parent == -1 || parent == self.head - 1
            },
            PhaseModel::Copying { names, next, package, parent } => {
                &&& 0 < self.head
                &&& 0 <= next < names.len()
                &&& parent == -1 || parent == self.head - 1
            },
            PhaseModel::Done => 0 < self.head == self.tree.len(),
            PhaseModel::Unresolved => self.head == 0,
            PhaseModel::Endless => self.head < self.tree.len() && repeats(self.tree, self.head),
        }
    }

    /// A step keeps a state well-formed.
    pub proof fn step_keeps_form(self, event: EventModel)
        requires
            self.well_formed(),
        ensures
            self.after(event).well_formed(),
    {
        if let PhaseModel::CopyCli | PhaseModel::PlaceCli = self.phase {
            assert(!repeats(self.after(event).tree, 0));
        }
        if let PhaseModel::Guard { name } = self.phase {
            assert(!repeats(self.tree, 0));
        }
    }
}

/// Whether a place is the first of its package.
pub open spec fn is_first(tree: Seq<SpotModel>, at: int) -> bool {
    forall|k: int| 0 <= k < at ==> (#[trigger] tree[k]).package != tree[at].package
}

/// How many packages have one of the first `places` places of a tree.
pub open spec fn packages_in(tree: Seq<SpotModel>, places: int) -> nat
    decreases places,
{
    if places <= 0 {
        0
    } else {
        packages_in(tree, places - 1) + if is_first(tree, places - 1) {
            1nat
        } else {
            0nat
        }
    }
}

proof fn packages_of_push(tree: Seq<SpotModel>, spot: SpotModel, places: int)
    requires
        places <= tree.len(),
    ensures
        packages_in(tree.push(spot), places) == packages_in(tree, places),
        packages_in(tree, places) <= if places <= 0 {
            0
        } else {
            places
        },
    decreases places,
{
    if places > 0 {
        packages_of_push(tree, spot, places - 1);
        let later = tree.push(spot);
        assert(forall|k: int| 0 <= k < places ==> #[trigger] later[k] == tree[k]);
        assert(is_first(later, places - 1) == is_first(tree, places - 1)) by {
            if is_first(later, places - 1) {
                assert forall|k: int| 0 <= k < places - 1 implies (#[trigger] tree[k]).package
                    != tree[places - 1].package by {
                    assert(later[k].package != later[places - 1].package);
                }
            }
        }
    }
}

/// How many packages were copied to the places of a tree.
pub open spec fn copies_in(tree: Seq<SpotModel>) -> nat
    decreases tree.len(),
{
    if tree.len() == 0 {
        0
    } else {
        copies_in(tree.drop_last()) + if tree.last().copied {
            1nat
        } else {
            0nat
        }
    }
}

/// The assembly, between two steps of which it is well-formed.
struct State {
    cli: u64,
    first: Option<String>,
    separator: String,
    spots: Vec<Spot>,
    head: usize,
    /// How many packages were taken up, each once.
    count: usize,
    phase: Phase,
}

impl View for State {
    type V = VendorModel;

    closed spec fn view(&self) -> VendorModel {
        VendorModel {
            cli: self.cli,
            first: crate::json::text_view(self.first),
            separator: self.separator@,
            tree: tree_view(self.spots@),
            head: self.head as int,
            phase: self.phase@,
        }
    }
}

/// Whether a place is the first of its package.
fn is_first_place(spots: &Vec<Spot>, at: usize) -> (first: bool)
    requires
        at < spots.len(),
    ensures
        first == is_first(tree_view(spots@), at as int),
{
    let ghost tree = tree_view(spots@);
    assert(tree[at as int] == spots@[at as int]@);
    let mut k: usize = 0;
    while k < at
        invariant
            tree == tree_view(spots@),
            k <= at < spots.len(),
            tree[at as int] == spots@[at as int]@,
            forall|i: int| 0 <= i < k ==> (#[trigger] tree[i]).package != tree[at as int].package,
        decreases at - k,
    {
        assert(tree[k as int] == spots@[k as int]@);
        if spots[k].package == spots[at].package {
            return false;
        }
        k = k + 1;
    }
    true
}

impl State {
    /// Whether the count is right.
    spec fn counts(self) -> bool {
        self.count == self@.count()
    }

    fn action(&self) -> (action: VendorAction)
        requires
            self@.well_formed(),
        ensures
            action@ == self@.action(),
    {
        let ghost tree = tree_view(self.spots@);
        assert(forall|i: int| 0 <= i < tree.len() ==> #[trigger] tree[i] == self.spots@[i]@);
        match &self.phase {
            Phase::PlaceCli => VendorAction::CheckTarget { rel: CLI_PLACE.to_owned() },
            Phase::CopyCli => VendorAction::Copy { package: self.cli, rel: CLI_PLACE.to_owned() },
            Phase::Guard { name } => VendorAction::Resolve { dir: self.cli, name: name.clone() },
            Phase::Reading => VendorAction::ReadManifest { dir: self.spots[self.head - 1].package },
            Phase::Resolving { names, next } => VendorAction::Resolve {
                dir: self.spots[self.head - 1].package,
                name: names[*next].clone(),
            },
            Phase::Placing { names, next, package, parent } => VendorAction::CheckTarget {
                rel: path_below(
                    &self.spots,
                    *parent,
                    names[*next].as_str(),
                    self.separator.as_str(),
                ),
            },
            Phase::Copying { names, next, package, parent } => VendorAction::Copy {
                package: *package,
                rel: path_below(
                    &self.spots,
                    *parent,
                    names[*next].as_str(),
                    self.separator.as_str(),
                ),
            },
            Phase::Done => VendorAction::Done,
            Phase::Unresolved => VendorAction::Unresolved,
            Phase::Endless => VendorAction::Endless {
                rel: path(&self.spots, self.head, self.separator.as_str()),
            },
        }
    }

    fn next_spot(self) -> (state: State)
        requires
            is_tree(self@.tree),
            self.counts(),
        ensures
            state@ == self@.next_spot(),
            state.counts(),
    {
        if self.head < self.spots.len() {
            if is_repeat(&self.spots, self.head) {
                State { phase: Phase::Endless, ..self }
            } else {
                proof {
                    packages_of_push(self@.tree, self@.tree[0], self@.head);
                }
                let count: usize = if is_first_place(&self.spots, self.head) {
                    self.count + 1
                } else {
                    self.count
                };
                State { head: self.head + 1, count, phase: Phase::Reading, ..self }
            }
        } else {
            State { phase: Phase::Done, ..self }
        }
    }

    fn next_dependency(self, names: Vec<String>, next: usize) -> (state: State)
        requires
            is_tree(self@.tree),
            self.counts(),
        ensures
            state.counts(),
            state@ == self@.next_dependency(crate::text::views(names@), next as int),
    {
        if next < names.len() {
            State { phase: Phase::Resolving { names, next }, ..self }
        } else {
            self.next_spot()
        }
    }

    fn note(self, spot: Spot) -> (state: State)
        requires
            self@.head <= self@.tree.len(),
            self.counts(),
        ensures
            state@ == self@.note(spot@),
            state.counts(),
    {
        proof {
            packages_of_push(self@.tree, spot@, self@.head);
        }
        let mut spots = self.spots;
        let ghost before = spots@;
        spots.push(spot);
        assert(tree_view(spots@) == tree_view(before).push(spot@));
        State { spots, ..self }
    }

    fn cli_placed(self, copied: bool) -> (state: State)
        requires
            self@.tree.len() == 0,
            self@.head == 0,
            self.counts(),
        ensures
            state@ == self@.cli_placed(copied),
            state.counts(),
    {
        let spot = Spot { package: self.cli, name: CLI_PLACE.to_owned(), parent: None, copied };
        let placed = self.note(spot);
        match &placed.first {
            Some(name) => {
                let name = name.clone();
                State { phase: Phase::Guard { name }, ..placed }
            },
            None => placed.next_spot(),
        }
    }

    fn dependency(self, names: Vec<String>, next: usize, package: u64) -> (state: State)
        requires
            is_tree(self@.tree),
            0 < self@.head <= self@.tree.len(),
            self.counts(),
            next < names.len(),
        ensures
            state.counts(),
            state@ == self@.dependency(crate::text::views(names@), next as int, package),
    {
        let at: usize = self.head - 1;
        if find_child(&self.spots, Some(at), names[next].as_str()).is_some() {
            return self.next_dependency(names, next + 1);
        }
        match look_around(&self.spots, at, names[next].as_str()) {
            None => State {
                phase: Phase::Placing { names, next, package, parent: None },
                ..self
            },
            Some((other, on_the_way)) => if other == package && on_the_way {
                self.next_dependency(names, next + 1)
            } else {
                State {
                    phase: Phase::Placing { names, next, package, parent: Some(at) },
                    ..self
                }
            },
        }
    }

    fn dependency_placed(
        self,
        names: Vec<String>,
        next: usize,
        package: u64,
        parent: Option<usize>,
        copied: bool,
    ) -> (state: State)
        requires
            is_tree(self@.tree),
            position_of(parent) < self@.tree.len(),
            self@.head <= self@.tree.len(),
            self.counts(),
            next < names.len(),
        ensures
            state.counts(),
            state@ == self@.dependency_placed(
                crate::text::views(names@),
                next as int,
                package,
                position_of(parent),
                copied,
            ),
    {
        let spot = Spot { package, name: names[next].clone(), parent, copied };
        self.note(spot).next_dependency(names, next + 1)
    }

    fn step(self, event: VendorEvent) -> (state: State)
        requires
            self@.well_formed(),
            self.counts(),
        ensures
            state@ == self@.after(event@),
            state.counts(),
    {
        let ghost before = self@;
        let State { cli, first, separator, spots, head, count, phase } = self;
        let rest = State { cli, first, separator, spots, head, count, phase: Phase::Done };
        assert(before.phase == phase@);
        match (phase, event) {
            (Phase::PlaceCli, VendorEvent::Target { taken }) => if taken {
                rest.cli_placed(false)
            } else {
                State { phase: Phase::CopyCli, ..rest }
            },
            (Phase::CopyCli, VendorEvent::Copied) => rest.cli_placed(true),
            (Phase::Guard { name }, VendorEvent::Resolved { package }) => if package.is_some() {
                rest.next_spot()
            } else {
                State { phase: Phase::Unresolved, ..rest }
            },
            (Phase::Reading, VendorEvent::Manifest { manifest }) => match manifest {
                Some(manifest) => rest.next_dependency(manifest.dependency_names(), 0),
                None => rest.next_spot(),
            },
            (Phase::Resolving { names, next }, VendorEvent::Resolved { package }) => {
                assert(next < names.len());
                match package {
                    Some(package) => rest.dependency(names, next, package),
                    None => rest.next_dependency(names, next + 1),
                }
            },
            (Phase::Placing { names, next, package, parent }, VendorEvent::Target { taken }) => {
                assert(next < names.len());
                if taken {
                    rest.dependency_placed(names, next, package, parent, false)
                } else {
                    State { phase: Phase::Copying { names, next, package, parent }, ..rest }
                }
            },
            (Phase::Copying { names, next, package, parent }, VendorEvent::Copied) => {
                assert(next < names.len());
                rest.dependency_placed(names, next, package, parent, true)
            },
            (phase, _) => State { phase, ..rest },
        }
    }
}

/// The assembly of the vendored tree.
pub struct Vendor {
    state: State,
}

impl View for Vendor {
    type V = VendorModel;

    closed spec fn view(&self) -> VendorModel {
        self.state@
    }
}

impl Vendor {
    #[verifier::type_invariant]
    spec fn holds_form(self) -> bool {
        self.state@.well_formed() && self.state.counts()
    }

    /// The start of the assembly, for the command line package `cli` with its
    /// manifest. `separator` stands between the directories of a path.
    pub fn start(cli: u64, manifest: &Manifest, separator: &str) -> (vendor: Vendor)
        ensures
            vendor@ == VendorModel::start(cli, manifest@.first_dependency(), separator@),
    {
        let state = State {
            cli,
            first: manifest.first_dependency(),
            separator: separator.to_owned(),
            spots: Vec::new(),
            head: 0,
            count: 0,
            phase: Phase::PlaceCli,
        };
        assert(tree_view(state.spots@) == Seq::<SpotModel>::empty());
        Vendor { state }
    }

    /// What is to be done next.
    pub fn action(&self) -> (action: VendorAction)
        ensures
            action@ == self@.action(),
    {
        proof {
            use_type_invariant(self);
        }
        self.state.action()
    }

    /// How many packages were taken up, each once.
    pub fn count(&self) -> (count: usize)
        ensures
            count == self@.count(),
    {
        proof {
            use_type_invariant(self);
        }
        self.state.count
    }

    /// What is reported before the manifest at hand is read: a line at each
    /// hundredth package that is taken up.
    pub fn progress(&self) -> (line: Option<String>)
        ensures
            crate::json::text_view(line) == if self@.phase is Reading && is_first(
                self@.tree,
                self@.head - 1,
            ) && self@.count() % 100 == 0 {
                Some(progress_text(self@.count(), self@.copies()))
            } else {
                None
            },
    {
        proof {
            use_type_invariant(self);
        }
        match &self.state.phase {
            Phase::Reading => if is_first_place(&self.state.spots, self.state.head - 1) {
                progress_line(self.state.count, self.spots())
            } else {
                None
            },
            _ => None,
        }
    }

    /// How many copies were made.
    pub fn spots(&self) -> (spots: usize)
        ensures
            spots == self@.copies(),
    {
        let spots = &self.state.spots;
        let ghost tree = tree_view(spots@);
        let mut copies: usize = 0;
        let mut i: usize = 0;
        while i < spots.len()
            invariant
                tree == tree_view(spots@),
                i <= spots.len(),
                copies <= i,
                copies == copies_in(tree.take(i as int)),
            decreases spots.len() - i,
        {
            assert(tree.take(i + 1).drop_last() == tree.take(i as int));
            assert(tree.take(i + 1).last() == spots@[i as int]@);
            if spots[i].copied {
                copies = copies + 1;
            }
            i = i + 1;
        }
        assert(tree.take(tree.len() as int) == tree);
        copies
    }

    /// The assembly after an event. An event that does not answer the action at
    /// hand changes nothing.
    pub fn step(self, event: VendorEvent) -> (vendor: Vendor)
        ensures
            vendor@ == self@.after(event@),
    {
        proof {
            use_type_invariant(&self);
            self@.step_keeps_form(event@);
        }
        Vendor { state: self.state.step(event) }
    }
}

/// The line at a hundredth package.
pub open spec fn progress_text(count: nat, spots: nat) -> Seq<char> {
    "[build-runtime] "@ + decimal_of(count) + " packages processed, "@ + decimal_of(spots)
        + " placed"@
}

/// What is reported while the tree is assembled: a line at each hundredth
/// package.
pub fn progress_line(count: usize, spots: usize) -> (line: Option<String>)
    ensures
        crate::json::text_view(line) == if count % 100 == 0 {
            Some(progress_text(count as nat, spots as nat))
        } else {
            None
        },
{
    if count % 100 != 0 {
        return None;
    }
    let mut line = "[build-runtime] ".to_owned();
    line.append(decimal(count as u64).as_str());
    line.append(" packages processed, ");
    line.append(decimal(spots as u64).as_str());
    line.append(" placed");
    Some(line)
}

/// The command line package has to be built before it can be copied.
pub fn check_cli_built(built: bool, bin: &str) -> (result: Result<(), String>)
    ensures
        match result {
            Ok(_) => built,
            Err(message) => !built && message@ == "主仓库 CLI 未构建（缺 "@ + bin@
                + "）；请先在主仓库执行 `pnpm install && pnpm run build`"@,
        },
{
    if built {
        return Ok(());
    }
    Err(
        text3(
            "主仓库 CLI 未构建（缺 ",
            bin,
            "）；请先在主仓库执行 `pnpm install && pnpm run build`",
        ),
    )
}

/// What is said where the dependencies of the command line package are not
/// installed.
pub fn unresolved_message() -> (message: String)
    ensures
        message@
            == "无法从主仓库 workspace 解析 CLI 依赖；请确认在主仓库执行过 `pnpm install`"@,
{
    "无法从主仓库 workspace 解析 CLI 依赖；请确认在主仓库执行过 `pnpm install`".to_owned()
}

/// What is said where versions would have to be nested without end.
pub fn endless_message(rel: &str) -> (message: String)
    ensures
        message@ == "依赖版本互相嵌套，无法物化成有限的目录树（"@ + rel@ + "）"@,
{
    text3("依赖版本互相嵌套，无法物化成有限的目录树（", rel, "）")
}

/// What is said when the tree is complete.
pub fn summary_line(manifest: &Manifest, spots: usize) -> (line: String)
    ensures
        line@ == "[build-runtime] 物化完成："@ + (match manifest@.name {
            Some(name) => name,
            None => "dsh"@,
        }) + "@"@ + (match manifest@.version {
            Some(version) => version,
            None => "?"@,
        }) + " 依赖闭包 "@ + decimal_of(spots as nat)
            + " 个包 → resources/vendor/dsh"@,
{
    let mut line = "[build-runtime] 物化完成：".to_owned();
    match &manifest.name {
        Some(name) => line.append(name.as_str()),
        None => line.append("dsh"),
    }
    line.append("@");
    match &manifest.version {
        Some(version) => line.append(version.as_str()),
        None => line.append("?"),
    }
    line.append(" 依赖闭包 ");
    line.append(decimal(spots as u64).as_str());
    line.append(" 个包 → resources/vendor/dsh");
    line
}

/// Whether a package is at one of the first `places` places of a tree.
pub open spec fn is_among(tree: Seq<SpotModel>, places: int, package: u64) -> bool {
    exists|k: int| 0 <= k < places && (#[trigger] tree[k]).package == package
}

/// The packages at the first `places` places of a tree.
pub open spec fn packages_at(tree: Seq<SpotModel>, places: int) -> Set<u64>
    decreases places,
{
    if places <= 0 {
        Set::empty()
    } else {
        packages_at(tree, places - 1).insert(tree[places - 1].package)
    }
}

proof fn packages_are_those_at_the_places(tree: Seq<SpotModel>, places: int)
    requires
        0 <= places <= tree.len(),
    ensures
        packages_at(tree, places).finite(),
        packages_in(tree, places) == packages_at(tree, places).len(),
        forall|package: u64| #[trigger]
            packages_at(tree, places).contains(package) <==> is_among(tree, places, package),
    decreases places,
{
    if places > 0 {
        packages_are_those_at_the_places(tree, places - 1);
        let last = tree[places - 1].package;
        assert forall|package: u64| #[trigger]
            packages_at(tree, places).contains(package) <==> is_among(tree, places, package) by {
            assert(packages_at(tree, places - 1).contains(package) <==> is_among(
                tree,
                places - 1,
                package,
            ));
            assert(tree[places - 1].package == last);
            if is_among(tree, places - 1, package) {
                let k = choose|k: int|
                    0 <= k < places - 1 && (#[trigger] tree[k]).package == package;
                assert(tree[k].package == package);
            }
        }
        assert(is_first(tree, places - 1) == !packages_at(tree, places - 1).contains(last));
    } else {
        assert forall|package: u64| #[trigger]
            packages_at(tree, places).contains(package) <==> is_among(tree, places, package) by {}
    }
}

/// The packages that were taken up are counted each once, however many places they
/// have.
pub proof fn packages_are_counted_once(vendor: Vendor, count: usize, packages: Set<u64>)
    requires
        call_ensures(Vendor::count, (&vendor,), count),
        0 <= vendor@.head <= vendor@.tree.len(),
        packages.finite(),
        forall|package: u64| #[trigger]
            packages.contains(package) <==> is_among(vendor@.tree, vendor@.head, package),
    ensures
        count == packages.len(),
{
    packages_are_those_at_the_places(vendor@.tree, vendor@.head);
    assert(packages == packages_at(vendor@.tree, vendor@.head));
}

/// The number of copies is that of the places to which a package was copied: it
/// grows by one with each of them, and with no other.
pub proof fn copies_are_counted(tree: Seq<SpotModel>, spot: SpotModel)
    ensures
        copies_in(tree.push(spot)) == copies_in(tree) + if spot.copied {
            1nat
        } else {
            0nat
        },
        copies_in(Seq::<SpotModel>::empty()) == 0,
        copies_in(tree) <= tree.len(),
        (forall|i: int| 0 <= i < tree.len() ==> (#[trigger] tree[i]).copied) ==> copies_in(tree)
            == tree.len(),
    decreases tree.len(),
{
    assert(tree.push(spot).drop_last() == tree);
    if tree.len() > 0 {
        let before = tree.drop_last();
        copies_are_counted(before, tree.last());
        assert(before.push(tree.last()) == tree);
        if forall|i: int| 0 <= i < tree.len() ==> (#[trigger] tree[i]).copied {
            assert forall|i: int| 0 <= i < before.len() implies (#[trigger] before[i]).copied by {
                assert(tree[i].copied);
            }
            assert(tree[tree.len() - 1].copied);
        }
    }
}

/// A line is reported exactly before the manifest of a package is read that no
/// earlier place has, where that makes a whole hundred of them. It names both
/// numbers.
pub proof fn each_hundredth_package_is_reported(
    vendor: Vendor,
    line: Option<String>,
    count: usize,
    spots: usize,
)
    requires
        call_ensures(Vendor::progress, (&vendor,), line),
        call_ensures(Vendor::count, (&vendor,), count),
        call_ensures(Vendor::spots, (&vendor,), spots),
        0 < vendor@.head <= vendor@.tree.len(),
    ensures
        line is Some <==> {
            &&& vendor@.phase is Reading
            &&& !is_among(vendor@.tree, vendor@.head - 1, vendor@.tree[vendor@.head - 1].package)
            &&& exists|hundreds: int| count == #[trigger] (100 * hundreds)
        },
        line is Some ==> exists|a: Seq<char>, b: Seq<char>|
            {
                &&& crate::text::number_of(a) == count
                &&& crate::text::number_of(b) == spots
                &&& #[trigger] ("[build-runtime] "@ + a + " packages processed, "@ + b
                    + " placed"@) == line->0@
            },
{
    let tree = vendor@.tree;
    let at = vendor@.head - 1;
    crate::text::decimal_stands_for_the_number(count as nat);
    crate::text::decimal_stands_for_the_number(spots as nat);
    assert(is_first(tree, at) == !is_among(tree, at, tree[at].package));
    if count % 100 == 0 {
        assert(count == 100 * (count as int / 100));
    }
}

/// The assembly begins with the place of the command line package, and is guarded
/// by the first of that package's plain dependencies.
pub proof fn assembly_begins_with_the_command_line_package(
    cli: u64,
    manifest: Manifest,
    separator: &str,
    vendor: Vendor,
    first: Option<String>,
)
    requires
        call_ensures(Vendor::start, (cli, &manifest, separator), vendor),
        call_ensures(Manifest::first_dependency, (&manifest,), first),
    ensures
        vendor@.action() == (ActionModel::CheckTarget { rel: "@deepseek-ai/dsh"@ }),
        vendor@.tree.len() == 0,
        vendor@.separator == separator@,
        vendor@.after(EventModel::Target { taken: false }).action() == (ActionModel::Copy {
            package: cli,
            rel: "@deepseek-ai/dsh"@,
        }),
        ({
            let placed = vendor@.after(EventModel::Target { taken: false }).after(
                EventModel::Copied,
            );
            match first {
                Some(name) => placed.action() == (ActionModel::Resolve { dir: cli, name: name@ }),
                None => placed.action() == (ActionModel::ReadManifest { dir: cli }),
            }
        }),
{
    let placed = vendor@.after(EventModel::Target { taken: false }).after(EventModel::Copied);
    assert(!repeats(placed.tree, 0));
}

/// What is copied is noted as it was copied: where the action is to copy a package
/// to a path, that package is then at a new place with that path. The path was
/// looked at just before, and one that is taken is not copied to.
pub proof fn copies_are_noted_where_they_are_made(state: VendorModel, package: u64, rel: Seq<char>)
    requires
        state.well_formed(),
        state.action() == (ActionModel::Copy { package, rel }),
    ensures
        ({
            let later = state.after(EventModel::Copied);
            let at = state.tree.len() as int;
            &&& later.tree.len() == at + 1
            &&& later.tree.take(at) == state.tree
            &&& later.tree[at].package == package
            &&& later.tree[at].copied
            &&& path_of(later.tree, at, state.separator) == rel
        }),
{
    let later = state.after(EventModel::Copied);
    let at = state.tree.len() as int;
    assert(later.tree == state.tree.push(later.tree[at]));
    if let PhaseModel::Copying { names, next, package: copied, parent } = state.phase {
        if parent >= 0 {
            path_before_push(state.tree, later.tree[at], parent, state.separator);
        }
    }
}

proof fn path_before_push(tree: Seq<SpotModel>, spot: SpotModel, at: int, separator: Seq<char>)
    requires
        0 <= at < tree.len(),
    ensures
        path_of(tree.push(spot), at, separator) == path_of(tree, at, separator),
    decreases at,
{
    assert(tree.push(spot)[at] == tree[at]);
    if 0 <= tree[at].parent < at {
        path_before_push(tree, spot, tree[at].parent, separator);
    }
}

/// A place is looked at before it is filled: where it is free the next action is to
/// copy to that very path, and where it is taken it is noted without a copy.
pub proof fn free_places_are_filled(state: VendorModel, rel: Seq<char>)
    requires
        state.well_formed(),
        state.action() == (ActionModel::CheckTarget { rel }),
    ensures
        ({
            let free = state.after(EventModel::Target { taken: false });
            &&& free.action() is Copy
            &&& free.action()->Copy_rel == rel
            &&& free.tree == state.tree
        }),
        ({
            let taken = state.after(EventModel::Target { taken: true });
            let at = state.tree.len() as int;
            &&& taken.tree.len() == at + 1
            &&& !taken.tree[at].copied
            &&& path_of(taken.tree, at, state.separator) == rel
        }),
{
    let taken = state.after(EventModel::Target { taken: true });
    let at = state.tree.len() as int;
    assert(taken.tree == state.tree.push(taken.tree[at]));
    if let PhaseModel::Placing { names, next, package, parent } = state.phase {
        if parent >= 0 {
            path_before_push(state.tree, taken.tree[at], parent, state.separator);
        }
    }
}

/// The command line package has to be built; the message that it is not names the
/// missing file.
pub proof fn unbuilt_package_is_refused(built: bool, bin: &str, result: Result<(), String>)
    requires
        call_ensures(check_cli_built, (built, bin), result),
    ensures
        result is Ok <==> built,
        result is Err ==> result->Err_0@ == "主仓库 CLI 未构建（缺 "@ + bin@
            + "）；请先在主仓库执行 `pnpm install && pnpm run build`"@,
{
}

/// The summary names the package and its version, as far as the manifest does, and
/// how many copies were made.
pub proof fn summary_names_the_package(manifest: Manifest, spots: usize, line: String)
    requires
        call_ensures(summary_line, (&manifest, spots), line),
    ensures
        exists|name: Seq<char>, version: Seq<char>, digits: Seq<char>|
            {
                &&& manifest.name is Some ==> name == manifest.name->0@
                &&& manifest.name is None ==> name == "dsh"@
                &&& manifest.version is Some ==> version == manifest.version->0@
                &&& manifest.version is None ==> version == "?"@
                &&& crate::text::number_of(digits) == spots
                &&& #[trigger] ("[build-runtime] 物化完成："@ + name + "@"@ + version
                    + " 依赖闭包 "@ + digits + " 个包 → resources/vendor/dsh"@) == line@
            },
{
    crate::text::decimal_stands_for_the_number(spots as nat);
    let name = match manifest.name {
        Some(name) => name@,
        None => "dsh"@,
    };
    let version = match manifest.version {
        Some(version) => version@,
        None => "?"@,
    };
    assert(("[build-runtime] 物化完成："@ + name + "@"@ + version + " 依赖闭包 "@ + decimal_of(
        spots as nat,
    ) + " 个包 → resources/vendor/dsh"@) == line@);
}

/// What is said where the assembly is given up: what to do where dependencies are
/// not installed, and the place where versions would be nested without end.
pub proof fn refusals_are_explained(unresolved: String, rel: &str, endless: String)
    requires
        call_ensures(unresolved_message, (), unresolved),
        call_ensures(endless_message, (rel,), endless),
    ensures
        unresolved@
            == "无法从主仓库 workspace 解析 CLI 依赖；请确认在主仓库执行过 `pnpm install`"@,
        endless@ == "依赖版本互相嵌套，无法物化成有限的目录树（"@ + rel@ + "）"@,
{
}

/// Whether an event is of the kind that an action asks for.
pub open spec fn is_answer(action: ActionModel, event: EventModel) -> bool {
    match action {
        ActionModel::CheckTarget { .. } => event is Target,
        ActionModel::Copy { .. } => event is Copied,
        ActionModel::Resolve { .. } => event is Resolved,
        ActionModel::ReadManifest { .. } => event is Manifest,
        _ => false,
    }
}

/// An event that was not asked for changes nothing, and none changes what the
/// assembly began with or what was placed before.
pub proof fn only_answers_move_the_assembly(vendor: Vendor, event: VendorEvent, next: Vendor)
    requires
        call_ensures(Vendor::step, (vendor, event), next),
    ensures
        !is_answer(vendor@.action(), event@) ==> next@ == vendor@,
        next@.cli == vendor@.cli,
        next@.first == vendor@.first,
        next@.separator == vendor@.separator,
        next@.head == vendor@.head || next@.head == vendor@.head + 1,
        next@.tree.len() >= vendor@.tree.len(),
        next@.tree.take(vendor@.tree.len() as int) == vendor@.tree,
{
    assert(vendor@.tree.take(vendor@.tree.len() as int) == vendor@.tree);
    assert(next@.tree == vendor@.tree || next@.tree == vendor@.tree.push(next@.tree.last()));
}

} // verus!
