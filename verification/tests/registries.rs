use kprobe_registry::{
    kprobe_init, kprobe_test, register_kprobe, unregister_kprobe, PatchPoint,
    PatchPointRegistry, ProbeRegistry, ProbeSpec,
};

#[test]
fn init_yields_empty_registries() {
    let registry = kprobe_init();
    assert_eq!(registry.patch_point_count(), 0);
    assert_eq!(registry.probe_count(), 0);
    assert_eq!(registry.next_probe_id(), 0);
    assert!(!registry.has_patch_point(0x1000));
    assert_eq!(registry.count_at(0x1000), 0);
}

#[test]
fn self_check_runs() {
    kprobe_test();
}

#[test]
fn patch_point_registry_get_insert_remove() {
    let mut points = PatchPointRegistry::new();
    assert_eq!(points.len(), 0);
    assert!(points.get(0x1000).is_none());
    points.insert(PatchPoint { address: 0x1000 });
    points.insert(PatchPoint { address: 0x2000 });
    assert_eq!(points.len(), 2);
    assert!(points.contains(0x1000));
    let found = points.get(0x2000).unwrap();
    assert_eq!(found.address, 0x2000);
    assert!(points.remove(0x1000));
    assert!(!points.contains(0x1000));
    assert!(points.contains(0x2000));
    assert!(!points.remove(0x1000));
    assert_eq!(points.len(), 1);
}

#[test]
fn probe_registry_insert_remove_count() {
    let mut source = kprobe_init();
    let a = register_kprobe(&mut source, ProbeSpec { address: Some(0x40), handler: 1 })
        .unwrap()
        .probe;
    let b = register_kprobe(&mut source, ProbeSpec { address: Some(0x40), handler: 2 })
        .unwrap()
        .probe;
    let c = register_kprobe(&mut source, ProbeSpec { address: Some(0x80), handler: 3 })
        .unwrap()
        .probe;

    let mut probes = ProbeRegistry::new();
    assert_eq!(probes.len(), 0);
    probes.insert(a);
    probes.insert(b);
    probes.insert(c);
    assert_eq!(probes.len(), 3);
    assert_eq!(probes.count_at(0x40), 2);
    assert_eq!(probes.count_at(0x80), 1);
    assert_eq!(probes.count_at(0xc0), 0);

    let removed = probes.remove(&a).unwrap();
    assert_eq!(removed.id, a.id);
    assert_eq!(removed.address, 0x40);
    assert_eq!(probes.count_at(0x40), 1);
    assert!(probes.remove(&a).is_none());

    let at_forty = probes.probes_at(0x40);
    assert_eq!(at_forty.len(), 1);
    assert_eq!(at_forty[0].id, b.id);
    assert_eq!(at_forty[0].handler, 2);
}

#[test]
fn detach_on_empty_registry_is_a_noop() {
    let mut registry = kprobe_init();
    let mut other = kprobe_init();
    let foreign = register_kprobe(&mut other, ProbeSpec { address: Some(0x10), handler: 1 })
        .unwrap();
    let detached = unregister_kprobe(&mut registry, foreign.probe);
    assert!(!detached.removed);
    assert!(!detached.restored);
    assert_eq!(registry.probe_count(), 0);
    assert_eq!(other.probe_count(), 1);
}
