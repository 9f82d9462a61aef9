//! Assignment of pooled workers to the voice channels of one guild.

use vstd::prelude::*;
use crate::models::{Channel, Id};

verus! {

/// The state of one worker of a guild's pool.
#[derive(Clone, Copy, Debug, PartialEq, Eq, Structural)]
pub enum Slot {
    /// In the guild and unbound.
    Free,
    /// Bound to a voice channel.
    Bound(u64),
    /// Withdrawn from the guild: never assigned there again.
    Gone,
}

/// Whether some worker of `w` is bound to destination `d`.
pub open spec fn bound_to(w: Seq<Slot>, d: u64) -> bool {
    exists|i: int| 0 <= i < w.len() && w[i] == Slot::Bound(d)
}

/// No two workers of `w` are bound to the same destination.
pub open spec fn injective(w: Seq<Slot>) -> bool {
    forall|i: int, j: int|
        0 <= i < w.len() && 0 <= j < w.len() && (#[trigger] w[i]) is Bound && w[i] == #[trigger] w[j]
            ==> i == j
}

/// No worker of `w` is free.
pub open spec fn all_busy(w: Seq<Slot>) -> bool {
    forall|i: int| 0 <= i < w.len() ==> !((#[trigger] w[i]) is Free)
}

/// `i` is the first free worker of `w`, in pool order.
pub open spec fn is_first_free(w: Seq<Slot>, i: int) -> bool {
    &&& 0 <= i < w.len()
    &&& w[i] is Free
    &&& forall|j: int| 0 <= j < i ==> !((#[trigger] w[j]) is Free)
}

/// The bindings of a guild's worker pool, indexed by pool position, and
/// the lease rows that claim the bound destinations.
pub struct Assignment {
    workers: Vec<Slot>,
    leases: Vec<Channel>,
}

impl View for Assignment {
    type V = Seq<Slot>;

    closed spec fn view(&self) -> Seq<Slot> {
        self.workers@
    }
}

impl Assignment {
    /// The destinations that hold a lease row.
    pub closed spec fn leased(&self) -> Seq<u64> {
        self.leases@.map_values(|c: Channel| c.discord_id.0)
    }

    /// Bindings are injective, lease rows are unique, and a destination
    /// has a lease row exactly when some worker is bound to it.
    pub open spec fn wf(&self) -> bool {
        &&& injective(self@)
        &&& self.leased().no_duplicates()
        &&& forall|d: u64| self.leased().contains(d) <==> bound_to(self@, d)
    }

    /// A pool of `n` workers, none bound.
    pub fn new(n: usize) -> (r: Assignment)
        ensures
            r.wf(),
            r@.len() == n,
            forall|i: int| 0 <= i < n ==> (#[trigger] r@[i]) is Free,
    {
        let mut workers: Vec<Slot> = Vec::new();
        let mut k: usize = 0;
        while k < n
            invariant
                0 <= k <= n,
                workers@.len() == k,
                forall|i: int| 0 <= i < k ==> (#[trigger] workers@[i]) is Free,
            decreases n - k,
        {
            workers.push(Slot::Free);
            k = k + 1;
        }
        let r = Assignment { workers, leases: Vec::new() };
        assert(r.leased() =~= Seq::<u64>::empty());
        r
    }

    /// Number of workers in the pool.
    pub fn len(&self) -> (r: usize)
        ensures
            r == self@.len(),
    {
        self.workers.len()
    }

    /// The state of worker `i`.
    pub fn destination(&self, i: usize) -> (r: Slot)
        requires
            i < self@.len(),
        ensures
            r == self@[i as int],
    {
        self.workers[i]
    }

    /// Whether `d` holds a lease row.
    pub fn is_leased(&self, d: u64) -> (r: bool)
        requires
            self.wf(),
        ensures
            r == bound_to(self@, d),
    {
        let mut k: usize = 0;
        while k < self.leases.len()
            invariant
                self.wf(),
                0 <= k <= self.leases@.len(),
                self.leased().len() == self.leases@.len(),
                forall|j: int| 0 <= j < k ==> self.leased()[j] != d,
            decreases self.leases@.len() - k,
        {
            if self.leases[k].discord_id.0 == d {
                assert(self.leased()[k as int] == d);
                assert(self.leased().contains(d));
                return true;
            }
            k = k + 1;
        }
        false
    }

    /// The worker bound to `d`, if any; changes nothing.
    pub fn lookup(&self, d: u64) -> (r: Option<usize>)
        ensures
            r is Some <==> bound_to(self@, d),
            r is Some ==> r->0 < self@.len() && self@[r->0 as int] == Slot::Bound(d),
    {
        let mut i: usize = 0;
        while i < self.workers.len()
            invariant
                0 <= i <= self@.len(),
                self@ == self.workers@,
                forall|j: int| 0 <= j < i ==> self@[j] != Slot::Bound(d),
            decreases self@.len() - i,
        {
            if self.workers[i] == Slot::Bound(d) {
                return Some(i);
            }
            i = i + 1;
        }
        None
    }

    fn first_free(&self) -> (r: Option<usize>)
        ensures
            r is Some ==> is_first_free(self@, r->0 as int),
            r is None ==> all_busy(self@),
    {
        let mut i: usize = 0;
        while i < self.workers.len()
            invariant
                0 <= i <= self@.len(),
                self@ == self.workers@,
                forall|j: int| 0 <= j < i ==> !((#[trigger] self@[j]) is Free),
            decreases self@.len() - i,
        {
            if self.workers[i] == Slot::Free {
                return Some(i);
            }
            i = i + 1;
        }
        None
    }

    /// Whether some worker is unbound.
    pub fn has_free(&self) -> (r: bool)
        ensures
            r == !all_busy(self@),
    {
        self.first_free().is_some()
    }

    /// Binds the first unbound worker to `d` and records the lease.
    /// Nothing changes when `d` is already leased or every worker is bound.
    pub fn acquire(&mut self, d: u64) -> (r: Option<usize>)
        requires
            old(self).wf(),
        ensures
            final(self).wf(),
            bound_to(old(self)@, d) ==> r is None && *final(self) == *old(self),
            all_busy(old(self)@) ==> r is None && *final(self) == *old(self),
            !bound_to(old(self)@, d) && !all_busy(old(self)@) ==> {
                &&& r is Some
                &&& is_first_free(old(self)@, r->0 as int)
                &&& final(self)@ == old(self)@.update(r->0 as int, Slot::Bound(d))
            },
    {
        if self.is_leased(d) {
            return None;
        }
        let free = self.first_free();
        match free {
            None => None,
            Some(i) => {
                let ghost w0 = self@;
                let ghost l0 = self.leased();
                self.leases.push(Channel { discord_id: Id(d) });
                self.workers.set(i, Slot::Bound(d));
                proof {
                    assert(self.leased() =~= l0.push(d));
                    assert(self@ =~= w0.update(i as int, Slot::Bound(d)));
                    assert forall|e: u64| self.leased().contains(e) <==> bound_to(self@, e) by {
                        if e == d {
                            assert(self@[i as int] == Slot::Bound(d));
                            assert(self.leased()[l0.len() as int] == d);
                        } else {
                            if self.leased().contains(e) {
                                let k = choose|k: int| 0 <= k < self.leased().len() && self.leased()[k] == e;
                                assert(l0[k] == e);
                                assert(l0.contains(e));
                                assert(bound_to(w0, e));
                                let j = choose|j: int| 0 <= j < w0.len() && w0[j] == Slot::Bound(e);
                                assert(self@[j] == Slot::Bound(e));
                            }
                            if bound_to(self@, e) {
                                let j = choose|j: int| 0 <= j < self@.len() && self@[j] == Slot::Bound(e);
                                assert(w0[j] == Slot::Bound(e));
                                assert(l0.contains(e));
                                let k = choose|k: int| 0 <= k < l0.len() && l0[k] == e;
                                assert(self.leased()[k] == e);
                            }
                        }
                    }
                    assert forall|a: int, b: int|
                        0 <= a < self@.len() && 0 <= b < self@.len() && (#[trigger] self@[a]) is Bound
                            && self@[a] == #[trigger] self@[b] implies a == b by {
                        if a != i && b != i {
                            assert(w0[a] == self@[a] && w0[b] == self@[b]);
                        } else if a == i && b != i {
                            assert(w0[b] == Slot::Bound(d));
                        } else if a != i && b == i {
                            assert(w0[a] == Slot::Bound(d));
                        }
                    }
                }
                Some(i)
            },
        }
    }

    /// Unbinds the worker bound to `d` and deletes the lease row.
    /// Nothing changes when no worker is bound to `d`.
    pub fn release(&mut self, d: u64) -> (r: Option<usize>)
        requires
            old(self).wf(),
        ensures
            final(self).wf(),
            !bound_to(old(self)@, d) ==> r is None && *final(self) == *old(self),
            bound_to(old(self)@, d) ==> {
                &&& r is Some
                &&& r->0 < old(self)@.len()
                &&& old(self)@[r->0 as int] == Slot::Bound(d)
                &&& final(self)@ == old(self)@.update(r->0 as int, Slot::Free)
            },
    {
        let found = self.lookup(d);
        match found {
            None => None,
            Some(i) => {
                let ghost w0 = self@;
                let ghost l0 = self.leased();
                assert(l0.contains(d));
                let mut k: usize = 0;
                while k < self.leases.len() && self.leases[k].discord_id.0 != d
                    invariant
                        0 <= k <= self.leases@.len(),
                        self.leased() == l0,
                        l0.len() == self.leases@.len(),
                        l0.contains(d),
                        forall|j: int| 0 <= j < k ==> l0[j] != d,
                    decreases self.leases@.len() - k,
                {
                    assert(l0[k as int] != d);
                    k = k + 1;
                }
                if k == self.leases.len() {
                    proof {
                        let kk = choose|kk: int| 0 <= kk < l0.len() && l0[kk] == d;
                        assert(false);
                    }
                }
                assert(l0[k as int] == d);
                self.leases.remove(k);
                self.workers.set(i, Slot::Free);
                proof {
                    assert(self.leased() =~= l0.remove(k as int));
                    assert(self@ =~= w0.update(i as int, Slot::Free));
                    assert forall|e: u64| self.leased().contains(e) <==> bound_to(self@, e) by {
                        if e == d {
                            if self.leased().contains(e) {
                                let m = choose|m: int| 0 <= m < self.leased().len() && self.leased()[m] == e;
                                if m < k {
                                    assert(l0[m] == d);
                                } else {
                                    assert(l0[m + 1] == d);
                                }
                            }
                            if bound_to(self@, e) {
                                let j = choose|j: int| 0 <= j < self@.len() && self@[j] == Slot::Bound(e);
                                assert(w0[j] == Slot::Bound(d));
                                assert(w0[i as int] == Slot::Bound(d));
                            }
                        } else {
                            if self.leased().contains(e) {
                                let m = choose|m: int| 0 <= m < self.leased().len() && self.leased()[m] == e;
                                if m < k {
                                    assert(l0[m] == e);
                                } else {
                                    assert(l0[m + 1] == e);
                                }
                                assert(l0.contains(e));
                                let j = choose|j: int| 0 <= j < w0.len() && w0[j] == Slot::Bound(e);
                                assert(self@[j] == Slot::Bound(e));
                            }
                            if bound_to(self@, e) {
                                let j = choose|j: int| 0 <= j < self@.len() && self@[j] == Slot::Bound(e);
                                assert(w0[j] == Slot::Bound(e));
                                assert(l0.contains(e));
                                let m = choose|m: int| 0 <= m < l0.len() && l0[m] == e;
                                assert(m != k);
                                if m < k {
                                    assert(self.leased()[m] == e);
                                } else {
                                    assert(self.leased()[m - 1] == e);
                                }
                            }
                        }
                    }
                    assert forall|a: int, b: int|
                        0 <= a < self@.len() && 0 <= b < self@.len() && (#[trigger] self@[a]) is Bound
                            && self@[a] == #[trigger] self@[b] implies a == b by {
                        assert(w0[a] == self@[a] && w0[b] == self@[b]);
                    }
                    assert forall|x: int, y: int|
                        0 <= x < self.leased().len() && 0 <= y < self.leased().len() && x != y
                            implies self.leased()[x] != self.leased()[y] by {
                        let xx = if x < k { x } else { x + 1 };
                        let yy = if y < k { y } else { y + 1 };
                        assert(self.leased()[x] == l0[xx]);
                        assert(self.leased()[y] == l0[yy]);
                    }
                }
                Some(i)
            },
        }
    }

    /// Withdraws worker `i` from the guild: it is never assigned here
    /// again, and a lease it held is deleted. Returns the destination it was
    /// bound to, if any.
    pub fn withdraw(&mut self, i: usize) -> (r: Option<u64>)
        requires
            old(self).wf(),
            i < old(self)@.len(),
        ensures
            final(self).wf(),
            final(self)@ == old(self)@.update(i as int, Slot::Gone),
            old(self)@[i as int] matches Slot::Bound(d) ==> r == Some(d),
            !(old(self)@[i as int] is Bound) ==> r is None,
    {
        let ghost w_in = self@;
        let r = match self.workers[i] {
            Slot::Bound(d) => {
                assert(bound_to(self@, d));
                let j = self.release(d);
                assert(j == Some(i)) by {
                    assert(w_in[j->0 as int] == Slot::Bound(d));
                }
                Some(d)
            },
            _ => None,
        };
        let ghost w0 = self@;
        let ghost l0 = self.leased();
        assert(w0[i as int] is Free || w0[i as int] is Gone);
        self.workers.set(i, Slot::Gone);
        proof {
            assert(self@ =~= w0.update(i as int, Slot::Gone));
            assert(self@ =~= w_in.update(i as int, Slot::Gone));
            assert(self.leased() == l0);
            assert forall|e: u64| self.leased().contains(e) <==> bound_to(self@, e) by {
                if bound_to(self@, e) {
                    let j = choose|j: int| 0 <= j < self@.len() && self@[j] == Slot::Bound(e);
                    assert(w0[j] == Slot::Bound(e));
                }
                if bound_to(w0, e) {
                    let j = choose|j: int| 0 <= j < w0.len() && w0[j] == Slot::Bound(e);
                    assert(self@[j] == Slot::Bound(e));
                }
            }
            assert forall|a: int, b: int|
                0 <= a < self@.len() && 0 <= b < self@.len() && (#[trigger] self@[a]) is Bound
                    && self@[a] == #[trigger] self@[b] implies a == b by {
                assert(w0[a] == self@[a] && w0[b] == self@[b]);
            }
        }
        r
    }
}

/// No destination is ever held by two workers of a well-formed pool.
pub proof fn lemma_no_double_lease(a: Assignment, d: u64, i: int, j: int)
    requires
        a.wf(),
        0 <= i < a@.len(),
        0 <= j < a@.len(),
        a@[i] == Slot::Bound(d),
        a@[j] == Slot::Bound(d),
    ensures
        i == j,
{
}

} // verus!
