use vstd::prelude::*;

use crate::ledger::{apply_event, CounterEvent};

verus! {

/// Why a pool could not be built.
#[derive(Debug, Clone, Copy, PartialEq, Eq, Structural)]
pub enum PoolError {
    /// No backend endpoint was given: there would be nowhere to send traffic.
    Empty,
}

/// The fixed, ordered set of backends and the number of connections
/// currently relayed to each.
///
/// The list of endpoints never changes after construction; only the
/// counters move, one step at a time, through `acquire` and `release`.
pub struct BackendPool {
    addresses: Vec<String>,
    active: Vec<usize>,
}

impl BackendPool {
    /// Endpoint identifiers, in pool order.
    pub closed spec fn addresses_view(&self) -> Seq<Seq<char>> {
        self.addresses@.map_values(|a: String| a@)
    }

    /// Active-connection counters, in pool order.
    pub closed spec fn counts(&self) -> Seq<int> {
        self.active@.map_values(|c: usize| c as int)
    }

    /// One counter per endpoint, and at least one endpoint.
    pub open spec fn wf(&self) -> bool {
        &&& self.counts().len() == self.addresses_view().len()
        &&& self.counts().len() > 0
        &&& forall|i: int| 0 <= i < self.counts().len() ==> 0 <= #[trigger] self.counts()[i] <= usize::MAX
    }

    proof fn lemma_views(&self)
        ensures
            self.counts().len() == self.active@.len(),
            self.addresses_view().len() == self.addresses@.len(),
            forall|i: int| 0 <= i < self.active@.len() ==> #[trigger] self.counts()[i] == self.active@[i] as int,
            forall|i: int| 0 <= i < self.addresses@.len() ==> #[trigger] self.addresses_view()[i] == self.addresses@[i]@,
    {
    }

    /// Builds a pool over `addresses`, in the given order, every counter at zero.
    /// An empty list is refused.
    pub fn new(addresses: Vec<String>) -> (r: Result<BackendPool, PoolError>)
        ensures
            addresses@.len() == 0 <==> r is Err,
            r is Err ==> r == Err::<BackendPool, PoolError>(PoolError::Empty),
            r matches Ok(p) ==> {
                &&& p.wf()
                &&& p.addresses_view() == addresses@.map_values(|a: String| a@)
                &&& p.counts() == Seq::new(addresses@.len(), |i: int| 0int)
            },
    {
        if addresses.len() == 0 {
            return Err(PoolError::Empty);
        }
        let n = addresses.len();
        let mut active: Vec<usize> = Vec::new();
        let mut k: usize = 0;
        while k < n
            invariant
                k <= n,
                active@.len() == k,
                forall|i: int| 0 <= i < k ==> active@[i] == 0,
            decreases n - k,
        {
            active.push(0);
            k = k + 1;
        }
        let p = BackendPool { addresses, active };
        proof {
            p.lemma_views();
            assert(p.counts() =~= Seq::new(n as nat, |i: int| 0int));
        }
        Ok(p)
    }

    /// Number of backends.
    pub fn len(&self) -> (r: usize)
        requires
            self.wf(),
        ensures
            r as int == self.counts().len(),
    {
        proof { self.lemma_views(); }
        self.active.len()
    }

    /// Endpoint of backend `i`.
    pub fn address(&self, i: usize) -> (r: &String)
        requires
            self.wf(),
            i < self.counts().len(),
        ensures
            r@ == self.addresses_view()[i as int],
    {
        proof { self.lemma_views(); }
        &self.addresses[i]
    }

    /// Current number of connections relayed to backend `i`.
    pub fn active_connections(&self, i: usize) -> (r: usize)
        requires
            self.wf(),
            i < self.counts().len(),
        ensures
            r as int == self.counts()[i as int],
    {
        proof { self.lemma_views(); }
        self.active[i]
    }

    /// Records a connection assigned to backend `i`: its counter goes up by one.
    pub fn acquire(&mut self, i: usize)
        requires
            old(self).wf(),
            i < old(self).counts().len(),
            old(self).counts()[i as int] < usize::MAX,
        ensures
            final(self).wf(),
            final(self).addresses_view() == old(self).addresses_view(),
            final(self).counts() == apply_event(old(self).counts(), CounterEvent::Acquire(i)),
    {
        proof { self.lemma_views(); }
        let c = self.active[i];
        self.active.set(i, c + 1);
        proof {
            self.lemma_views();
            assert(self.counts() =~= apply_event(old(self).counts(), CounterEvent::Acquire(i)));
            assert(self.addresses_view() =~= old(self).addresses_view());
        }
    }

    /// Records the end of a connection to backend `i`: its counter goes down
    /// by one. Only a connection that was acquired can end, so the counter is
    /// positive.
    pub fn release(&mut self, i: usize)
        requires
            old(self).wf(),
            i < old(self).counts().len(),
            old(self).counts()[i as int] > 0,
        ensures
            final(self).wf(),
            final(self).addresses_view() == old(self).addresses_view(),
            final(self).counts() == apply_event(old(self).counts(), CounterEvent::Release(i)),
    {
        proof { self.lemma_views(); }
        let c = self.active[i];
        self.active.set(i, c - 1);
        proof {
            self.lemma_views();
            assert(self.counts() =~= apply_event(old(self).counts(), CounterEvent::Release(i)));
            assert(self.addresses_view() =~= old(self).addresses_view());
        }
    }

    /// Every counter, in pool order.
    pub fn snapshot(&self) -> (r: Vec<usize>)
        requires
            self.wf(),
        ensures
            r@.len() == self.counts().len(),
            forall|i: int| 0 <= i < r@.len() ==> r@[i] as int == #[trigger] self.counts()[i],
    {
        proof { self.lemma_views(); }
        self.active.clone()
    }
}

} // verus!
