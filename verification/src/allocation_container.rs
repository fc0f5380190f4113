use vstd::prelude::*;
use crate::errors::{ErrorKind, FlowError};

verus! {

/// One live allocation: its handle, requested size and alignment.
#[derive(Clone, Copy, Debug, PartialEq, Eq, Structural)]
pub struct Allocation {
    pub id: u64,
    pub size: usize,
    pub alignment: usize,
}

pub open spec fn spec_is_power_of_two(n: nat) -> bool
    decreases n,
{
    if n == 0 {
        false
    } else if n == 1 {
        true
    } else {
        n % 2 == 0 && spec_is_power_of_two(n / 2)
    }
}

/// Runtime test matching `spec_is_power_of_two`.
pub fn is_power_of_two(n: usize) -> (r: bool)
    ensures
        r == spec_is_power_of_two(n as nat),
{
    if n == 0 {
        return false;
    }
    let mut m: usize = n;
    while m > 1
        invariant
            m >= 1,
            spec_is_power_of_two(n as nat) == spec_is_power_of_two(m as nat),
        decreases m,
    {
        if m % 2 != 0 {
            return false;
        }
        m = m / 2;
    }
    true
}

/// Tracks the raw allocations of one job, keyed by an opaque handle, so that
/// everything still live can be counted and released in bulk at teardown.
#[derive(Debug)]
pub struct AllocationContainer {
    allocations: Vec<Allocation>,
    next_id: u64,
}

impl AllocationContainer {
    pub closed spec fn view(&self) -> Seq<Allocation> {
        self.allocations@
    }

    pub closed spec fn next_id_spec(&self) -> u64 {
        self.next_id
    }

    /// Handles are minted from a strictly increasing counter, so they are
    /// unique and never reused within one container.
    pub closed spec fn wf(&self) -> bool {
        &&& forall|i: int| 0 <= i < self.allocations@.len() ==>
            (#[trigger] self.allocations@[i].id) < self.next_id
        &&& forall|i: int, j: int|
            0 <= i < j < self.allocations@.len() ==>
                #[trigger] self.allocations@[i].id != #[trigger] self.allocations@[j].id
    }

    /// Whether a handle is currently live in the container.
    pub open spec fn contains_id(&self, id: u64) -> bool {
        exists|i: int| 0 <= i < self@.len() && (#[trigger] self@[i]).id == id
    }

    pub fn new() -> (c: AllocationContainer)
        ensures
            c.wf(),
            c@.len() == 0,
    {
        AllocationContainer { allocations: Vec::new(), next_id: 1 }
    }

    /// Records a new allocation of `bytes` with the given alignment and hands
    /// back its handle. A zero size or an alignment that is not a power of two
    /// is refused with `InvalidArgument`; an exhausted handle counter with
    /// `AllocationFailed`.
    pub fn allocate(&mut self, bytes: usize, alignment: usize) -> (r: Result<u64, FlowError>)
        requires
            old(self).wf(),
        ensures
            final(self).wf(),
            r is Ok <==> bytes != 0 && spec_is_power_of_two(alignment as nat)
                && old(self).next_id_spec() < u64::MAX,
            r is Ok ==> {
                &&& r->Ok_0 == old(self).next_id_spec()
                &&& final(self)@ == old(self)@.push(
                    Allocation { id: old(self).next_id_spec(), size: bytes, alignment },
                )
                &&& !old(self).contains_id(r->Ok_0)
            },
            r is Err ==> *final(self) == *old(self),
            r is Err ==> (r->Err_0.kind == ErrorKind::InvalidArgument
                <==> (bytes == 0 || !spec_is_power_of_two(alignment as nat))),
            r is Err ==> (r->Err_0.kind == ErrorKind::InvalidArgument
                || r->Err_0.kind == ErrorKind::AllocationFailed),
    {
        if bytes == 0 || !is_power_of_two(alignment) {
            return Err(FlowError::new(ErrorKind::InvalidArgument, String::new()));
        }
        if self.next_id == u64::MAX {
            return Err(FlowError::new(ErrorKind::AllocationFailed, String::new()));
        }
        let id = self.next_id;
        self.allocations.push(Allocation { id, size: bytes, alignment });
        self.next_id = self.next_id + 1;
        Ok(id)
    }

    /// Releases the allocation with the given handle. Returns false when the
    /// handle is unknown, so a duplicate free is harmless.
    pub fn free(&mut self, id: u64) -> (freed: bool)
        requires
            old(self).wf(),
        ensures
            final(self).wf(),
            freed == old(self).contains_id(id),
            freed ==> final(self)@.len() + 1 == old(self)@.len(),
            !freed ==> *final(self) == *old(self),
            !final(self).contains_id(id),
            final(self).next_id_spec() == old(self).next_id_spec(),
    {
        let ghost orig = self.allocations@;
        let mut i: usize = 0;
        while i < self.allocations.len()
            invariant
                *self == *old(self),
                old(self).wf(),
                orig == old(self)@,
                i <= orig.len(),
                forall|k: int| 0 <= k < i ==> (#[trigger] orig[k]).id != id,
            decreases orig.len() - i,
        {
            if self.allocations[i].id == id {
                self.allocations.remove(i);
                proof {
                    assert forall|k: int| 0 <= k < self.allocations@.len() implies
                        (#[trigger] self.allocations@[k]).id != id by {
                        if k < i {
                            assert(self.allocations@[k] == orig[k]);
                        } else {
                            assert(self.allocations@[k] == orig[k + 1]);
                            assert(orig[i as int].id == id);
                        }
                    }
                    assert forall|k: int| 0 <= k < self.allocations@.len() implies
                        (#[trigger] self.allocations@[k]).id < self.next_id by {
                        if k < i {
                            assert(self.allocations@[k] == orig[k]);
                        } else {
                            assert(self.allocations@[k] == orig[k + 1]);
                        }
                    }
                    assert forall|k: int, m: int| 0 <= k < m < self.allocations@.len() implies
                        #[trigger] self.allocations@[k].id != #[trigger] self.allocations@[m].id by {
                        let k0 = if k < i { k } else { k + 1 };
                        let m0 = if m < i { m } else { m + 1 };
                        assert(self.allocations@[k] == orig[k0]);
                        assert(self.allocations@[m] == orig[m0]);
                    }
                }
                return true;
            }
            i = i + 1;
        }
        false
    }

    /// How many allocations are still live; zero after a clean teardown.
    pub fn live_count(&self) -> (n: usize)
        ensures
            n == self@.len(),
    {
        self.allocations.len()
    }

    /// Releases everything still live.
    pub fn clear(&mut self)
        ensures
            final(self).wf(),
            final(self)@.len() == 0,
    {
        self.allocations.clear();
    }
}

} // verus!
