//! The state of an in-progress search and the match-cycling arithmetic:
//! stepping forward or backward through the matches wraps around, and taking
//! as many steps as there are matches returns to the starting match.
use vstd::prelude::*;

verus! {

/// An in-progress search: the query, the matching line indices in ascending
/// order, and which match is current.
#[derive(Debug, Clone)]
pub struct SearchState {
    pub query: String,
    pub matches: Vec<usize>,
    pub current: Option<usize>,
}

impl SearchState {
    /// `current` indexes into `matches` exactly when there are matches.
    pub open spec fn wf(&self) -> bool {
        match self.current {
            Some(i) => (i as int) < self.matches@.len(),
            None => self.matches@.len() == 0,
        }
    }
}

impl Default for SearchState {
    fn default() -> (r: SearchState)
        ensures
            r.wf(),
            r.query@ == Seq::<char>::empty(),
            r.matches@ == Seq::<usize>::empty(),
            r.current is None,
    {
        let r = SearchState { query: String::new(), matches: Vec::new(), current: None };
        proof {
            assert(r.matches@ =~= Seq::<usize>::empty());
        }
        r
    }
}

/// One step forward through `n` matches, wrapping to the first.
pub open spec fn step_forward(i: int, n: int) -> int {
    if i + 1 >= n {
        0
    } else {
        i + 1
    }
}

/// One step backward through `n` matches, wrapping to the last.
pub open spec fn step_backward(i: int, n: int) -> int {
    if i == 0 {
        n - 1
    } else {
        i - 1
    }
}

/// `k` repeated steps in one direction.
pub open spec fn cycled(i: int, n: int, k: nat, forward: bool) -> int
    decreases k,
{
    if k == 0 {
        i
    } else if forward {
        cycled(step_forward(i, n), n, (k - 1) as nat, forward)
    } else {
        cycled(step_backward(i, n), n, (k - 1) as nat, forward)
    }
}

proof fn lemma_cycled_closed(i: int, n: int, k: nat, forward: bool)
    requires
        0 <= i < n,
        k <= n,
    ensures
        forward ==> cycled(i, n, k, forward) == (if i + k < n {
            i + k
        } else {
            i + k - n
        }),
        !forward ==> cycled(i, n, k, forward) == (if i - k >= 0 {
            i - k
        } else {
            i - k + n
        }),
    decreases k,
{
    if k > 0 {
        if forward {
            lemma_cycled_closed(step_forward(i, n), n, (k - 1) as nat, forward);
        } else {
            lemma_cycled_closed(step_backward(i, n), n, (k - 1) as nat, forward);
        }
    }
}

/// Cycling through the matches as many times as there are matches returns
/// to the original match, in either direction.
pub proof fn lemma_cycle_round_trip(i: int, n: int, forward: bool)
    requires
        0 <= i < n,
    ensures
        cycled(i, n, n as nat, forward) == i,
{
    lemma_cycled_closed(i, n, n as nat, forward);
}

/// The index of the next match: the one after (or, going backward, before)
/// `curr`, with wraparound at both ends.
pub fn next_match_index(curr: usize, n: usize, backward: bool) -> (r: usize)
    requires
        n > 0,
        curr < n,
    ensures
        r < n,
        !backward ==> r as int == step_forward(curr as int, n as int),
        backward ==> r as int == step_backward(curr as int, n as int),
{
    if backward {
        if curr == 0 {
            n - 1
        } else {
            curr - 1
        }
    } else {
        if curr + 1 >= n {
            0
        } else {
            curr + 1
        }
    }
}

} // verus!
