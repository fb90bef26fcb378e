//! A search through numbered candidates, from the first one on.

use vstd::prelude::*;

verus! {

/// Where a search stands.
#[derive(Clone, Copy, Debug, PartialEq, Eq, Structural)]
pub enum Search {
    /// The candidate `index` is to be looked at; there are `count` in all.
    Trying { index: usize, count: usize },
    /// The candidate `index` is the one.
    Found { index: usize },
    /// There is none.
    Exhausted,
}

impl Search {
    /// The search at the start.
    pub open spec fn started(count: int) -> Search {
        if count <= 0 {
            Search::Exhausted
        } else {
            Search::Trying { index: 0, count: count as usize }
        }
    }

    /// The search once it is known whether the candidate at hand is good.
    pub open spec fn after(self, good: bool) -> Search {
        match self {
            Search::Trying { index, count } => if good {
                Search::Found { index }
            } else if index + 1 < count {
                Search::Trying { index: (index + 1) as usize, count }
            } else {
                Search::Exhausted
            },
            _ => self,
        }
    }

    /// The search once it is known of each candidate whether it is good.
    pub open spec fn after_all(self, good: Seq<bool>) -> Search
        decreases good.len(),
    {
        if good.len() == 0 {
            self
        } else {
            self.after_all(good.drop_last()).after(good.last())
        }
    }

    /// Starts with the first of so many candidates.
    pub fn start(count: usize) -> (search: Search)
        ensures
            search == Search::started(count as int),
    {
        if count == 0 {
            Search::Exhausted
        } else {
            Search::Trying { index: 0, count }
        }
    }

    /// Goes on once it is known whether the candidate at hand is good. A search
    /// that is over stays as it is.
    pub fn step(self, good: bool) -> (search: Search)
        ensures
            search == self.after(good),
    {
        match self {
            Search::Trying { index, count } => if good {
                Search::Found { index }
            } else if index < count && index + 1 < count {
                Search::Trying { index: index + 1, count }
            } else {
                Search::Exhausted
            },
            other => other,
        }
    }
}

proof fn search_so_far(good: Seq<bool>, count: int)
    requires
        0 < count <= usize::MAX,
    ensures
        match Search::started(count).after_all(good) {
            Search::Trying { index, count: all } => {
                &&& all == count
                &&& index == good.len()
                &&& index < count
                &&& forall|i: int| 0 <= i < index ==> !good[i]
            },
            Search::Found { index } => {
                &&& index < count
                &&& index < good.len()
                &&& good[index as int]
                &&& forall|i: int| 0 <= i < index ==> !good[i]
            },
            Search::Exhausted => {
                &&& count <= good.len()
                &&& forall|i: int| 0 <= i < count ==> !good[i]
            },
        },
    decreases good.len(),
{
    if good.len() > 0 {
        let before = good.drop_last();
        search_so_far(before, count);
        assert(forall|i: int| 0 <= i < before.len() ==> before[i] == good[i]);
    }
}

/// A search finds the first of the `count` candidates that is good, and finds
/// nothing only where none is. `good` tells it of each, and may tell it of more.
pub proof fn first_good_is_found(good: Seq<bool>, count: int)
    requires
        0 <= count <= usize::MAX,
        count <= good.len(),
    ensures
        match Search::started(count).after_all(good) {
            Search::Trying { .. } => false,
            Search::Found { index } => {
                &&& index < count
                &&& good[index as int]
                &&& forall|i: int| 0 <= i < index ==> !good[i]
            },
            Search::Exhausted => forall|i: int| 0 <= i < count ==> !good[i],
        },
    decreases good.len(),
{
    if count > 0 {
        search_so_far(good, count);
    } else if good.len() > 0 {
        first_good_is_found(good.drop_last(), count);
    }
}

} // verus!
