use vstd::prelude::*;

use crate::ledger::{apply_event, CounterEvent};
use crate::pool::BackendPool;

verus! {

/// Some backend passed its probe.
pub open spec fn any_reachable(reachable: Seq<bool>) -> bool {
    exists|j: int| 0 <= j < reachable.len() && #[trigger] reachable[j]
}

/// Backend `i` is the least-connections choice: it passed its probe, no
/// reachable backend has fewer connections, and every reachable backend
/// listed before it has strictly more (earliest-listed wins a tie).
pub open spec fn is_least_loaded(counts: Seq<int>, reachable: Seq<bool>, i: int) -> bool {
    &&& 0 <= i < counts.len()
    &&& i < reachable.len()
    &&& reachable[i]
    &&& forall|j: int| 0 <= j < counts.len() && j < reachable.len() && #[trigger] reachable[j] ==> counts[i] <= counts[j]
    &&& forall|j: int| 0 <= j < i && #[trigger] reachable[j] ==> counts[i] < counts[j]
}

/// The least-connections choice is unique: with a tie on the lowest count
/// only the earliest-listed reachable backend qualifies, so selection is
/// determined by the counters and the probe results alone.
pub proof fn lemma_least_loaded_unique(counts: Seq<int>, reachable: Seq<bool>, i: int, j: int)
    requires
        is_least_loaded(counts, reachable, i),
        is_least_loaded(counts, reachable, j),
    ensures
        i == j,
{
    if i < j {
        assert(reachable[i]);
    } else if j < i {
        assert(reachable[j]);
    }
}

/// Picks, among the backends whose probe succeeded (`reachable[i]`), the one
/// with the fewest active connections (`counts[i]`), the earliest-listed on a
/// tie. `None` when no backend is reachable.
pub fn select_least_loaded(counts: &Vec<usize>, reachable: &Vec<bool>) -> (r: Option<usize>)
    requires
        counts@.len() == reachable@.len(),
    ensures
        r is None <==> !any_reachable(reachable@),
        r matches Some(i) ==> is_least_loaded(counts@.map_values(|c: usize| c as int), reachable@, i as int),
{
    let ghost cs = counts@.map_values(|c: usize| c as int);
    let n = counts.len();
    let mut best: Option<usize> = None;
    let mut k: usize = 0;
    while k < n
        invariant
            n == counts@.len(),
            n == reachable@.len(),
            cs == counts@.map_values(|c: usize| c as int),
            k <= n,
            best is None <==> forall|j: int| 0 <= j < k ==> !#[trigger] reachable@[j],
            best matches Some(b) ==> {
                &&& b < k
                &&& reachable@[b as int]
                &&& forall|j: int| 0 <= j < k && #[trigger] reachable@[j] ==> cs[b as int] <= cs[j]
                &&& forall|j: int| 0 <= j < b && #[trigger] reachable@[j] ==> cs[b as int] < cs[j]
            },
        decreases n - k,
    {
        if reachable[k] {
            match best {
                None => {
                    best = Some(k);
                },
                Some(b) => {
                    if counts[k] < counts[b] {
                        best = Some(k);
                    }
                },
            }
        }
        k = k + 1;
    }
    proof {
        if best is None {
            assert forall|j: int| 0 <= j < reachable@.len() implies !#[trigger] reachable@[j] by {}
        } else {
            let b = best->Some_0;
            assert(reachable@[b as int]);
        }
    }
    best
}

impl BackendPool {
    /// Least-connections choice over this pool's counters, given one probe
    /// result per backend in pool order.
    pub fn select(&self, reachable: &Vec<bool>) -> (r: Option<usize>)
        requires
            self.wf(),
            reachable@.len() == self.counts().len(),
        ensures
            r is None <==> !any_reachable(reachable@),
            r matches Some(i) ==> is_least_loaded(self.counts(), reachable@, i as int),
    {
        let counts = self.snapshot();
        proof {
            assert(counts@.map_values(|c: usize| c as int) =~= self.counts());
        }
        select_least_loaded(&counts, reachable)
    }

    /// Chooses a backend for a new connection and counts the connection
    /// against it. When no backend is reachable nothing is chosen and no
    /// counter moves.
    pub fn dispatch(&mut self, reachable: &Vec<bool>) -> (r: Option<usize>)
        requires
            old(self).wf(),
            reachable@.len() == old(self).counts().len(),
            forall|i: int| 0 <= i < old(self).counts().len() ==> #[trigger] old(self).counts()[i] < usize::MAX,
        ensures
            final(self).wf(),
            final(self).addresses_view() == old(self).addresses_view(),
            r is None <==> !any_reachable(reachable@),
            r is None ==> final(self).counts() == old(self).counts(),
            r matches Some(i) ==> {
                &&& is_least_loaded(old(self).counts(), reachable@, i as int)
                &&& final(self).counts() == apply_event(old(self).counts(), CounterEvent::Acquire(i))
            },
    {
        let choice = self.select(reachable);
        match choice {
            Some(i) => {
                self.acquire(i);
                Some(i)
            },
            None => None,
        }
    }
}

} // verus!
