use kprobe_registry::{
    kprobe_init, register_kprobe, unregister_kprobe, AttachError, ProbeSpec,
};

fn resolved(address: usize, handler: u64) -> ProbeSpec {
    ProbeSpec { address: Some(address), handler }
}

#[test]
fn attach_fresh_address_installs() {
    let mut registry = kprobe_init();
    let attached = register_kprobe(&mut registry, resolved(0x1000, 1)).unwrap();
    assert!(attached.installed);
    assert_eq!(attached.probe.address, 0x1000);
    assert_eq!(attached.probe.handler, 1);
    assert!(registry.has_patch_point(0x1000));
    assert_eq!(registry.patch_point_count(), 1);
    assert_eq!(registry.count_at(0x1000), 1);
}

#[test]
fn attach_same_address_shares_point() {
    let mut registry = kprobe_init();
    let first = register_kprobe(&mut registry, resolved(0x1000, 1)).unwrap();
    let second = register_kprobe(&mut registry, resolved(0x1000, 2)).unwrap();
    assert!(first.installed);
    assert!(!second.installed);
    assert_eq!(registry.patch_point_count(), 1);
    assert!(registry.has_patch_point(0x1000));
    assert_eq!(registry.count_at(0x1000), 2);
    assert_ne!(first.probe.id, second.probe.id);
}

#[test]
fn detach_first_probe_keeps_point() {
    let mut registry = kprobe_init();
    let first = register_kprobe(&mut registry, resolved(0x1000, 1)).unwrap();
    let _second = register_kprobe(&mut registry, resolved(0x1000, 2)).unwrap();
    let detached = unregister_kprobe(&mut registry, first.probe);
    assert!(detached.removed);
    assert!(!detached.restored);
    assert_eq!(registry.count_at(0x1000), 1);
    assert!(registry.has_patch_point(0x1000));
    assert_eq!(registry.patch_point_count(), 1);
}

#[test]
fn detach_last_probe_restores_point() {
    let mut registry = kprobe_init();
    let first = register_kprobe(&mut registry, resolved(0x1000, 1)).unwrap();
    let second = register_kprobe(&mut registry, resolved(0x1000, 2)).unwrap();
    let _ = unregister_kprobe(&mut registry, first.probe);
    let detached = unregister_kprobe(&mut registry, second.probe);
    assert!(detached.removed);
    assert!(detached.restored);
    assert_eq!(registry.count_at(0x1000), 0);
    assert!(!registry.has_patch_point(0x1000));
    assert_eq!(registry.patch_point_count(), 0);
}

#[test]
fn detach_twice_is_a_noop() {
    let mut registry = kprobe_init();
    let first = register_kprobe(&mut registry, resolved(0x1000, 1)).unwrap();
    let _second = register_kprobe(&mut registry, resolved(0x1000, 2)).unwrap();
    let once = unregister_kprobe(&mut registry, first.probe);
    assert!(once.removed);
    let twice = unregister_kprobe(&mut registry, first.probe);
    assert!(!twice.removed);
    assert!(!twice.restored);
    assert_eq!(registry.count_at(0x1000), 1);
    assert!(registry.has_patch_point(0x1000));
    assert_eq!(registry.probe_count(), 1);
}

#[test]
fn attach_detach_round_trip_restores_registries() {
    let mut registry = kprobe_init();
    let attached = register_kprobe(&mut registry, resolved(0x2000, 9)).unwrap();
    let detached = unregister_kprobe(&mut registry, attached.probe);
    assert!(detached.removed);
    assert_eq!(detached.restored, attached.installed);
    assert_eq!(registry.patch_point_count(), 0);
    assert_eq!(registry.probe_count(), 0);
    assert_eq!(registry.count_at(0x2000), 0);
}

#[test]
fn round_trip_on_shared_address_changes_nothing() {
    let mut registry = kprobe_init();
    let _keeper = register_kprobe(&mut registry, resolved(0x2000, 1)).unwrap();
    let attached = register_kprobe(&mut registry, resolved(0x2000, 2)).unwrap();
    assert!(!attached.installed);
    let detached = unregister_kprobe(&mut registry, attached.probe);
    assert!(detached.removed);
    assert!(!detached.restored);
    assert_eq!(registry.patch_point_count(), 1);
    assert_eq!(registry.count_at(0x2000), 1);
}

#[test]
fn resolution_failure_leaves_registries_unchanged() {
    let mut registry = kprobe_init();
    let refused = register_kprobe(&mut registry, ProbeSpec { address: None, handler: 3 });
    assert_eq!(refused.unwrap_err(), AttachError::ResolutionFailed);
    assert_eq!(registry.patch_point_count(), 0);
    assert_eq!(registry.probe_count(), 0);
}

#[test]
fn repeated_attach_installs_exactly_once() {
    let mut registry = kprobe_init();
    let mut installs: usize = 0;
    let mut probes = Vec::new();
    for handler in 0..5u64 {
        let attached = register_kprobe(&mut registry, resolved(0x3000, handler)).unwrap();
        if attached.installed {
            installs += 1;
        }
        probes.push(attached.probe);
    }
    assert_eq!(installs, 1);
    assert_eq!(registry.patch_point_count(), 1);
    assert_eq!(registry.count_at(0x3000), 5);
    let mut restores: usize = 0;
    for probe in probes {
        let detached = unregister_kprobe(&mut registry, probe);
        assert!(detached.removed);
        if detached.restored {
            restores += 1;
        }
    }
    assert_eq!(restores, 1);
    assert_eq!(registry.count_at(0x3000), 0);
    assert!(!registry.has_patch_point(0x3000));
}

#[test]
fn independent_addresses_do_not_interfere() {
    let mut registry = kprobe_init();
    let a = register_kprobe(&mut registry, resolved(0x1000, 1)).unwrap();
    let b = register_kprobe(&mut registry, resolved(0x2000, 2)).unwrap();
    assert!(a.installed);
    assert!(b.installed);
    assert_eq!(registry.patch_point_count(), 2);
    let detached = unregister_kprobe(&mut registry, a.probe);
    assert!(detached.restored);
    assert!(!registry.has_patch_point(0x1000));
    assert!(registry.has_patch_point(0x2000));
    assert_eq!(registry.count_at(0x2000), 1);
}

#[test]
fn probes_at_enumerates_by_address() {
    let mut registry = kprobe_init();
    let a1 = register_kprobe(&mut registry, resolved(0x1000, 10)).unwrap();
    let b1 = register_kprobe(&mut registry, resolved(0x2000, 20)).unwrap();
    let a2 = register_kprobe(&mut registry, resolved(0x1000, 11)).unwrap();
    let at_a = registry.probes_at(0x1000);
    assert_eq!(at_a.len(), 2);
    assert_eq!(at_a[0].id, a1.probe.id);
    assert_eq!(at_a[0].handler, 10);
    assert_eq!(at_a[1].id, a2.probe.id);
    assert_eq!(at_a[1].handler, 11);
    let at_b = registry.probes_at(0x2000);
    assert_eq!(at_b.len(), 1);
    assert_eq!(at_b[0].id, b1.probe.id);
    let at_c = registry.probes_at(0x3000);
    assert!(at_c.is_empty());
}

#[test]
fn probe_ids_are_issued_in_order() {
    let mut registry = kprobe_init();
    assert_eq!(registry.next_probe_id(), 0);
    let a = register_kprobe(&mut registry, resolved(0x1000, 1)).unwrap();
    let b = register_kprobe(&mut registry, resolved(0x2000, 2)).unwrap();
    assert_eq!(a.probe.id, 0);
    assert_eq!(b.probe.id, 1);
    assert_eq!(registry.next_probe_id(), 2);
    let _ = unregister_kprobe(&mut registry, a.probe);
    let c = register_kprobe(&mut registry, resolved(0x1000, 3)).unwrap();
    assert_eq!(c.probe.id, 2);
}
