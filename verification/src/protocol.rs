use vstd::prelude::*;
use crate::model::{
    attach_step, count_at, detach_step, has_point, has_probe, probe_index, RegistryModel,
};
use crate::laws::{lemma_attach_preserves_wf, lemma_detach_preserves_wf};
use crate::point_registry::{PatchPoint, PatchPointRegistry};
use crate::probe_registry::{Probe, ProbeRegistry};

verus! {

/// One instrumentation request, as handed over by the external
/// builder/resolver: the break address it resolved the target to — `None`
/// when resolution failed — and the opaque token for the handler set the
/// caller supplied.
#[derive(Clone, Copy, Debug)]
pub struct ProbeSpec {
    /// The resolved break address, or `None` when the external resolver could
    /// not map the target to a patchable address.
    pub address: Option<usize>,
    /// Opaque token for the caller's handler set.
    pub handler: u64,
}

/// Why an attach was refused. Every refusal leaves both registries untouched.
#[derive(Clone, Copy, PartialEq, Eq, Structural, Debug)]
pub enum AttachError {
    /// The target could not be mapped to a patchable address.
    ResolutionFailed,
}

/// Outcome of a successful attach: the handle for the new logical probe, and
/// whether a new patch point was created — when `installed` is true the
/// engine must now physically patch `probe.address`; otherwise the probe
/// shares a point that is already in place.
#[derive(Clone, Copy, Debug)]
pub struct Attached {
    pub probe: Probe,
    pub installed: bool,
}

/// Outcome of a detach: whether the handle still named a registered probe
/// (`removed` is false on the harmless no-op), and whether its patch point
/// went away with it — when `restored` is true the engine must now restore
/// the original code at the probe's address.
#[derive(Clone, Copy, PartialEq, Eq, Structural, Debug)]
pub struct Detached {
    pub removed: bool,
    pub restored: bool,
}

/// The two registries plus the probe id source, orchestrated by
/// `register_kprobe` and `unregister_kprobe`. Each operation takes the whole
/// state through `&mut`, so its check-then-act sequence is one atomic step;
/// an embedding that shares the registry across execution contexts guards it
/// with one lock and so keeps that atomicity.
pub struct KprobeRegistry {
    points: PatchPointRegistry,
    probes: ProbeRegistry,
    next_id: u64,
}

impl View for KprobeRegistry {
    type V = RegistryModel;

    closed spec fn view(&self) -> RegistryModel {
        RegistryModel {
            points: self.points@,
            probes: self.probes@,
            next_id: self.next_id as int,
        }
    }
}

impl KprobeRegistry {
    /// Well-formedness: no duplicate patch points, unique probe identities,
    /// and an address patched exactly when some probe references it.
    pub open spec fn wf(self) -> bool {
        crate::model::wf(self@)
    }

    /// A registry with no patch points and no probes.
    pub fn new() -> (r: KprobeRegistry)
        ensures
            r@ == (RegistryModel {
                points: Seq::<int>::empty(),
                probes: Seq::empty(),
                next_id: 0,
            }),
            r.wf(),
    {
        let r = KprobeRegistry {
            points: PatchPointRegistry::new(),
            probes: ProbeRegistry::new(),
            next_id: 0,
        };
        proof {
            assert(r.wf()) by {
                assert(count_at(r@.probes, 0) == 0);
            }
        }
        r
    }

    /// The next probe identity this registry will issue.
    pub fn next_probe_id(&self) -> (r: u64)
        ensures
            r as int == self@.next_id,
    {
        self.next_id
    }

    /// Whether `address` currently carries a patch point.
    pub fn has_patch_point(&self, address: usize) -> (r: bool)
        ensures
            r == has_point(self@.points, address as int),
    {
        self.points.contains(address)
    }

    /// How many addresses currently carry a patch point.
    pub fn patch_point_count(&self) -> (r: usize)
        ensures
            r == self@.points.len(),
    {
        self.points.len()
    }

    /// Number of registered probes whose target is `address`.
    pub fn count_at(&self, address: usize) -> (r: usize)
        ensures
            r == count_at(self@.probes, address as int),
    {
        self.probes.count_at(address)
    }

    /// How many probes are registered in all.
    pub fn probe_count(&self) -> (r: usize)
        ensures
            r == self@.probes.len(),
    {
        self.probes.len()
    }

    /// The probes registered at `address`, for the engine's trap dispatch.
    pub fn probes_at(&self, address: usize) -> (r: Vec<Probe>)
        ensures
            crate::probe_registry::seq_view(r@) == crate::probe_registry::probes_at_spec(
                self@.probes,
                address as int,
            ),
    {
        self.probes.probes_at(address)
    }
}

/// Registers a logical probe for a resolved request. If the address already
/// carries a patch point the new probe shares it; otherwise a point is
/// recorded and the outcome tells the engine to install it. A request whose
/// resolution failed is refused with both registries untouched.
pub fn register_kprobe(registry: &mut KprobeRegistry, request: ProbeSpec) -> (r: Result<
    Attached,
    AttachError,
>)
    requires
        old(registry).wf(),
        old(registry)@.next_id < u64::MAX,
    ensures
        final(registry).wf(),
        (match request.address {
            Option::None => {
                &&& r is Err
                &&& final(registry)@ == old(registry)@
            },
            Option::Some(address) => {
                let step = attach_step(old(registry)@, address as int, request.handler as int);
                match r {
                    Result::Ok(a) => {
                        &&& a.probe@ == step.1
                        &&& a.installed == step.2
                        &&& final(registry)@ == step.0
                        &&& has_probe(final(registry)@.probes, a.probe@.id)
                    },
                    Result::Err(_) => false,
                }
            },
        }),
{
    let address = match request.address {
        Some(address) => address,
        None => {
            return Err(AttachError::ResolutionFailed);
        },
    };
    let ghost m = registry@;
    let existing = registry.points.get(address);
    let installed = existing.is_none();
    if installed {
        registry.points.insert(PatchPoint { address });
    }
    let probe = Probe { id: registry.next_id, address, handler: request.handler };
    proof {
        assert(!has_probe(registry.probes@, probe@.id)) by {
            if has_probe(registry.probes@, probe@.id) {
                let i = choose|i: int|
                    0 <= i < registry.probes@.len() && registry.probes@[i].id == probe@.id;
                assert(m.probes[i].id < m.next_id);
            }
        }
    }
    registry.probes.insert(probe);
    registry.next_id = registry.next_id + 1;
    proof {
        lemma_attach_preserves_wf(m, address as int, request.handler as int);
        assert(registry@ == attach_step(m, address as int, request.handler as int).0);
        assert(has_probe(registry@.probes, probe@.id)) by {
            assert(registry@.probes[m.probes.len() as int].id == probe@.id);
        }
    }
    Ok(Attached { probe, installed })
}

/// Unregisters a probe by its handle. Removing a handle that is no longer
/// registered is a harmless no-op. When the last probe at an address leaves,
/// the patch point there is deleted and the outcome tells the engine to
/// restore the original code.
pub fn unregister_kprobe(registry: &mut KprobeRegistry, probe: Probe) -> (r: Detached)
    requires
        old(registry).wf(),
    ensures
        final(registry).wf(),
        ({
            let step = detach_step(old(registry)@, probe@.id);
            final(registry)@ == step.0 && r.removed == step.1 && r.restored == step.2
        }),
{
    let ghost m = registry@;
    let removed = registry.probes.remove(&probe);
    let stored = match removed {
        Some(stored) => stored,
        None => {
            return Detached { removed: false, restored: false };
        },
    };
    proof {
        lemma_detach_preserves_wf(m, probe@.id);
        assert(0 <= probe_index(m.probes, probe@.id) < m.probes.len());
    }
    let count = registry.probes.count_at(stored.address);
    if count == 0 {
        registry.points.remove(stored.address);
        proof {
            assert(registry@ == detach_step(m, probe@.id).0);
        }
        Detached { removed: true, restored: true }
    } else {
        proof {
            assert(registry@ == detach_step(m, probe@.id).0);
        }
        Detached { removed: true, restored: false }
    }
}

} // verus!
