use vstd::prelude::*;
use crate::model::{distinct_points, has_point, point_index, remove_point};

verus! {

/// The physical instrumentation unit bound to exactly one address. The saved
/// original code it replaces is owned by the external engine; here the point
/// is identified by its break address alone.
#[derive(Clone, Copy, PartialEq, Eq, Structural, Debug)]
pub struct PatchPoint {
    /// The address this point instruments.
    pub address: usize,
}

/// Mapping from address to its installed patch point: the single source of
/// truth for whether an address is physically patched. Mutated only by the
/// registration protocol; the physical patch and restore are performed by the
/// engine, not by this registry.
pub struct PatchPointRegistry {
    points: Vec<PatchPoint>,
}

impl View for PatchPointRegistry {
    type V = Seq<int>;

    /// The addresses that currently carry a patch point.
    closed spec fn view(&self) -> Seq<int> {
        Seq::new(self.points@.len(), |i: int| self.points@[i].address as int)
    }
}

impl PatchPointRegistry {
    /// At most one patch point per address.
    pub open spec fn wf(self) -> bool {
        distinct_points(self@)
    }

    /// A registry with no patch points.
    pub fn new() -> (r: PatchPointRegistry)
        ensures
            r@ == Seq::<int>::empty(),
            r.wf(),
    {
        let r = PatchPointRegistry { points: Vec::new() };
        proof {
            assert(r@ =~= Seq::<int>::empty());
        }
        r
    }

    /// Shared lookup; no side effects.
    pub fn get(&self, address: usize) -> (r: Option<PatchPoint>)
        ensures
            r is Some <==> has_point(self@, address as int),
            (match r {
                Option::Some(p) => p.address == address,
                Option::None => true,
            }),
    {
        let n = self.points.len();
        let mut i: usize = 0;
        while i < n
            invariant
                n == self.points@.len(),
                0 <= i <= n,
                forall|j: int| 0 <= j < i ==> self@[j] != address as int,
            decreases n - i,
        {
            if self.points[i].address == address {
                proof {
                    assert(self@[i as int] == address as int);
                }
                return Some(self.points[i]);
            }
            i += 1;
        }
        None
    }

    /// Whether `address` carries a patch point.
    pub fn contains(&self, address: usize) -> (r: bool)
        ensures
            r == has_point(self@, address as int),
    {
        self.get(address).is_some()
    }

    /// How many addresses carry a patch point.
    pub fn len(&self) -> (r: usize)
        ensures
            r == self@.len(),
    {
        self.points.len()
    }

    /// Records a newly installed point. Callers must have checked `get`
    /// first: recording a second point for an address already present would
    /// be a logic error, and is ruled out here rather than reported.
    pub fn insert(&mut self, point: PatchPoint)
        requires
            old(self).wf(),
            !has_point(old(self)@, point.address as int),
        ensures
            final(self)@ == old(self)@.push(point.address as int),
            final(self).wf(),
    {
        self.points.push(point);
        proof {
            assert(self@ =~= old(self)@.push(point.address as int));
            assert forall|i: int, j: int| 0 <= i < j < self@.len() implies self@[i]
                != self@[j] by {
                if j == self@.len() - 1 {
                    if self@[i] == point.address as int {
                        assert(old(self)@[i] == point.address as int);
                        assert(has_point(old(self)@, point.address as int));
                    }
                }
            }
        }
    }

    /// Deletes the entry at `address`, if any; reports whether one was there.
    /// Only the registration protocol may call this, and only once the
    /// reference count at `address` is known to be zero.
    pub fn remove(&mut self, address: usize) -> (r: bool)
        requires
            old(self).wf(),
        ensures
            final(self)@ == remove_point(old(self)@, address as int),
            r == has_point(old(self)@, address as int),
            final(self).wf(),
    {
        let n = self.points.len();
        let mut i: usize = 0;
        while i < n
            invariant
                *self == *old(self),
                self.wf(),
                n == self.points@.len(),
                0 <= i <= n,
                forall|j: int| 0 <= j < i ==> self@[j] != address as int,
            decreases n - i,
        {
            if self.points[i].address == address {
                proof {
                    assert(self@[i as int] == address as int);
                    assert(has_point(self@, address as int));
                    let pi = point_index(self@, address as int);
                    assert(0 <= pi < self@.len() && self@[pi] == address as int);
                    if pi != i as int {
                        assert(self@[pi] != self@[i as int]);
                    }
                    crate::model::lemma_contains_remove(self@, i as int);
                }
                self.points.remove(i);
                proof {
                    assert(self@ =~= old(self)@.remove(i as int));
                }
                return true;
            }
            i += 1;
        }
        proof {
            assert(!has_point(self@, address as int));
        }
        false
    }
}

} // verus!
