use vstd::prelude::*;
use crate::model::{
    count_at, distinct_ids, has_probe, probe_index, ProbeModel,
};

verus! {

/// A logical registration: the identity issued at attach time, the address it
/// targets, and the caller-supplied handler-set token the engine dispatches
/// through when the address traps. Handles are plain values; the one returned
/// by `register_kprobe` is what `unregister_kprobe` later consumes.
#[derive(Clone, Copy, PartialEq, Eq, Structural, Debug)]
pub struct Probe {
    /// Identity, unique among all probes ever issued by one registry.
    pub id: u64,
    /// The address this probe targets, copied from its patch point.
    pub address: usize,
    /// Opaque token for the handler set supplied by the caller.
    pub handler: u64,
}

impl View for Probe {
    type V = ProbeModel;

    open spec fn view(&self) -> ProbeModel {
        ProbeModel { id: self.id as int, addr: self.address as int, handler: self.handler as int }
    }
}

/// The ghost image of a sequence of probe handles.
pub open spec fn seq_view(s: Seq<Probe>) -> Seq<ProbeModel> {
    Seq::new(s.len(), |i: int| s[i]@)
}

/// The probes among `probes` that target `addr`, in registration order.
pub open spec fn probes_at_spec(probes: Seq<ProbeModel>, addr: int) -> Seq<ProbeModel>
    decreases probes.len(),
{
    if probes.len() == 0 {
        Seq::empty()
    } else {
        let rest = probes_at_spec(probes.drop_last(), addr);
        if probes.last().addr == addr {
            rest.push(probes.last())
        } else {
            rest
        }
    }
}

/// Collection of active logical probes, with a derived count-by-address view:
/// the sole authority for deciding when a patch point becomes unreferenced.
pub struct ProbeRegistry {
    probes: Vec<Probe>,
}

impl View for ProbeRegistry {
    type V = Seq<ProbeModel>;

    /// The active probes, in registration order.
    closed spec fn view(&self) -> Seq<ProbeModel> {
        Seq::new(self.probes@.len(), |i: int| self.probes@[i]@)
    }
}

impl ProbeRegistry {
    /// No two registered probes share an identity.
    pub open spec fn wf(self) -> bool {
        distinct_ids(self@)
    }

    /// A registry with no probes.
    pub fn new() -> (r: ProbeRegistry)
        ensures
            r@ == Seq::<ProbeModel>::empty(),
            r.wf(),
    {
        let r = ProbeRegistry { probes: Vec::new() };
        proof {
            assert(r@ =~= Seq::<ProbeModel>::empty());
        }
        r
    }

    /// How many probes are registered in all.
    pub fn len(&self) -> (r: usize)
        ensures
            r == self@.len(),
    {
        self.probes.len()
    }

    /// Adds a logical probe. It always succeeds; the identity must be fresh,
    /// which the registration protocol guarantees by issuing identities from
    /// a counter.
    pub fn insert(&mut self, probe: Probe)
        requires
            old(self).wf(),
            !has_probe(old(self)@, probe@.id),
        ensures
            final(self)@ == old(self)@.push(probe@),
            final(self).wf(),
    {
        self.probes.push(probe);
        proof {
            assert(self@ =~= old(self)@.push(probe@));
            assert forall|i: int, j: int| 0 <= i < j < self@.len() implies self@[i].id
                != self@[j].id by {
                if j == self@.len() - 1 {
                    if self@[i].id == probe@.id {
                        assert(old(self)@[i].id == probe@.id);
                        assert(has_probe(old(self)@, probe@.id));
                    }
                }
            }
        }
    }

    /// Removes by identity; a handle whose probe is no longer registered is a
    /// harmless no-op. Returns the removed probe, if one was there.
    pub fn remove(&mut self, probe: &Probe) -> (r: Option<Probe>)
        requires
            old(self).wf(),
        ensures
            final(self).wf(),
            has_probe(old(self)@, probe@.id) ==> {
                let i = probe_index(old(self)@, probe@.id);
                r is Some && (match r {
                    Option::Some(p) => p@ == old(self)@[i],
                    Option::None => false,
                }) && final(self)@ == old(self)@.remove(i)
            },
            !has_probe(old(self)@, probe@.id) ==> r is None && final(self)@ == old(self)@,
    {
        let n = self.probes.len();
        let mut i: usize = 0;
        while i < n
            invariant
                *self == *old(self),
                self.wf(),
                n == self.probes@.len(),
                0 <= i <= n,
                forall|j: int| 0 <= j < i ==> self@[j].id != probe@.id,
            decreases n - i,
        {
            if self.probes[i].id == probe.id {
                let removed = self.probes[i];
                proof {
                    assert(self@[i as int].id == probe@.id);
                    assert(has_probe(self@, probe@.id));
                    let pi = probe_index(self@, probe@.id);
                    assert(0 <= pi < self@.len() && self@[pi].id == probe@.id);
                    if pi != i as int {
                        assert(self@[pi].id != self@[i as int].id);
                    }
                    self@.remove_ensures(i as int);
                    assert forall|a: int, b: int|
                        0 <= a < b < self@.remove(i as int).len() implies self@.remove(
                        i as int,
                    )[a].id != self@.remove(i as int)[b].id by {
                        let a0 = if a < i as int {
                            a
                        } else {
                            a + 1
                        };
                        let b0 = if b < i as int {
                            b
                        } else {
                            b + 1
                        };
                        assert(self@.remove(i as int)[a] == self@[a0]);
                        assert(self@.remove(i as int)[b] == self@[b0]);
                    }
                }
                self.probes.remove(i);
                proof {
                    assert(self@ =~= old(self)@.remove(i as int));
                }
                return Some(removed);
            }
            i += 1;
        }
        proof {
            assert(!has_probe(self@, probe@.id));
        }
        None
    }

    /// Number of currently registered probes whose target is `address`.
    pub fn count_at(&self, address: usize) -> (r: usize)
        ensures
            r == count_at(self@, address as int),
    {
        let n = self.probes.len();
        let mut i: usize = 0;
        let mut c: usize = 0;
        while i < n
            invariant
                n == self.probes@.len(),
                0 <= i <= n,
                c <= i,
                c == count_at(self@.take(i as int), address as int),
            decreases n - i,
        {
            proof {
                assert(self@.take(i as int + 1).drop_last() =~= self@.take(i as int));
                assert(self@.take(i as int + 1).last() == self@[i as int]);
            }
            if self.probes[i].address == address {
                c += 1;
            }
            i += 1;
        }
        proof {
            assert(self@.take(n as int) =~= self@);
        }
        c
    }

    /// The probes registered at `address`, in registration order: the lookup
    /// the engine's trap dispatch uses to find every handler set to invoke.
    pub fn probes_at(&self, address: usize) -> (r: Vec<Probe>)
        ensures
            seq_view(r@) == probes_at_spec(self@, address as int),
    {
        let n = self.probes.len();
        let mut i: usize = 0;
        let mut out: Vec<Probe> = Vec::new();
        proof {
            assert(seq_view(out@) =~= probes_at_spec(self@.take(0), address as int));
        }
        while i < n
            invariant
                n == self.probes@.len(),
                0 <= i <= n,
                seq_view(out@) == probes_at_spec(self@.take(i as int), address as int),
            decreases n - i,
        {
            proof {
                assert(self@.take(i as int + 1).drop_last() =~= self@.take(i as int));
                assert(self@.take(i as int + 1).last() == self@[i as int]);
            }
            if self.probes[i].address == address {
                let ghost before = out@;
                out.push(self.probes[i]);
                proof {
                    assert(seq_view(out@) =~= seq_view(before).push(self@[i as int]));
                }
            }
            i += 1;
        }
        proof {
            assert(self@.take(n as int) =~= self@);
        }
        out
    }
}

} // verus!
