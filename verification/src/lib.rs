//! A dynamic instrumentation registry: independent logical probes attach
//! runtime handlers to code addresses, while each address is physically
//! patched at most once, shared by every probe registered there, and
//! un-patched exactly when the last referencing probe detaches. The physical
//! patching itself is the job of an external engine; this crate keeps the
//! bookkeeping consistent and tells the engine, through the outcomes of
//! `register_kprobe` and `unregister_kprobe`, when to install and when to
//! restore.

use vstd::prelude::*;

pub mod laws;
pub mod model;
pub mod point_registry;
pub mod probe_registry;
pub mod protocol;

pub use point_registry::{PatchPoint, PatchPointRegistry};
pub use probe_registry::{Probe, ProbeRegistry};
pub use protocol::{
    register_kprobe, unregister_kprobe, AttachError, Attached, Detached, KprobeRegistry,
    ProbeSpec,
};

use crate::model::RegistryModel;

verus! {

/// Sets up kprobe support: yields the fresh, empty registry state that
/// `register_kprobe` and `unregister_kprobe` operate on.
pub fn kprobe_init() -> (r: KprobeRegistry)
    ensures
        r@ == (RegistryModel { points: Seq::<int>::empty(), probes: Seq::empty(), next_id: 0 }),
        r.wf(),
{
    KprobeRegistry::new()
}

/// Self-check: drives one attach/detach round trip on a fresh registry and
/// proves the expected outcomes — the first attach at an address installs,
/// and detaching its handle removes the probe and restores the address.
pub fn kprobe_test() {
    let mut registry = kprobe_init();
    let ghost m = registry@;
    let request = ProbeSpec { address: Some(0x1000), handler: 1 };
    proof {
        crate::laws::lemma_attach_detach_round_trip(m, 0x1000, 1);
    }
    let outcome = register_kprobe(&mut registry, request);
    match outcome {
        Ok(attached) => {
            assert(attached.installed);
            let detached = unregister_kprobe(&mut registry, attached.probe);
            assert(detached.removed);
            assert(detached.restored);
            assert(registry@.points == m.points && registry@.probes == m.probes);
        },
        Err(_) => {
            assert(false);
        },
    }
}

} // verus!
