use vstd::prelude::*;
use crate::probe_registry::probes_at_spec;
use crate::model::{
    attach_many, attach_step, count_at, detach_step, distinct_points, has_point, has_probe,
    lemma_contains_push, lemma_contains_remove, lemma_count_push, lemma_count_remove,
    patched_iff_referenced, point_index, probe_index, remove_point, wf, ProbeModel, RegistryModel,
};

verus! {

/// In a well-formed state the patched addresses are exactly the referenced
/// ones: an address carries a patch point if and only if at least one active
/// probe targets it.
pub proof fn lemma_patched_iff_referenced(m: RegistryModel)
    requires
        wf(m),
    ensures
        forall|a: int| has_point(m.points, a) <==> #[trigger] count_at(m.probes, a) > 0,
{
}

/// Attaching preserves well-formedness, so the correspondence between patched
/// and referenced addresses survives every attach.
pub proof fn lemma_attach_preserves_wf(m: RegistryModel, addr: int, handler: int)
    requires
        wf(m),
    ensures
        wf(attach_step(m, addr, handler).0),
{
    let step = attach_step(m, addr, handler);
    let m2 = step.0;
    let p = step.1;
    lemma_count_push(m.probes, p);
    if step.2 {
        lemma_contains_push(m.points, addr);
        assert forall|i: int, j: int| 0 <= i < j < m2.points.len() implies m2.points[i]
            != m2.points[j] by {
            if j == m2.points.len() - 1 {
                if m2.points[i] == addr {
                    assert(m.points[i] == addr);
                    assert(has_point(m.points, addr));
                }
            }
        }
    }
    assert forall|i: int, j: int| 0 <= i < j < m2.probes.len() implies m2.probes[i].id
        != m2.probes[j].id by {
        if j == m2.probes.len() - 1 {
            assert(m2.probes[i] == m.probes[i]);
        }
    }
    assert forall|i: int| 0 <= i < m2.probes.len() implies m2.probes[i].id < m2.next_id by {
        if i < m2.probes.len() - 1 {
            assert(m2.probes[i] == m.probes[i]);
        }
    }
    assert forall|a: int| has_point(m2.points, a) <==> #[trigger] count_at(m2.probes, a) > 0 by {
        assert(count_at(m2.probes, a) == count_at(m.probes, a) + (if p.addr == a {
            1nat
        } else {
            0nat
        }));
        if step.2 {
            assert(has_point(m2.points, a) <==> (has_point(m.points, a) || a == addr));
        }
    }
}

/// Detaching preserves well-formedness as well.
pub proof fn lemma_detach_preserves_wf(m: RegistryModel, id: int)
    requires
        wf(m),
    ensures
        wf(detach_step(m, id).0),
{
    if has_probe(m.probes, id) {
        let i = probe_index(m.probes, id);
        assert(0 <= i < m.probes.len() && m.probes[i].id == id);
        let addr = m.probes[i].addr;
        let probes2 = m.probes.remove(i);
        let m2 = detach_step(m, id).0;
        m.probes.remove_ensures(i);
        lemma_count_remove(m.probes, i);
        assert forall|a: int, b: int| 0 <= a < b < probes2.len() implies probes2[a].id
            != probes2[b].id by {
            let a0 = if a < i {
                a
            } else {
                a + 1
            };
            let b0 = if b < i {
                b
            } else {
                b + 1
            };
            assert(probes2[a] == m.probes[a0]);
            assert(probes2[b] == m.probes[b0]);
        }
        assert forall|a: int| 0 <= a < probes2.len() implies probes2[a].id < m2.next_id by {
            let a0 = if a < i {
                a
            } else {
                a + 1
            };
            assert(probes2[a] == m.probes[a0]);
        }
        assert(count_at(m.probes, addr) > 0) by {
            assert(count_at(probes2, addr) + 1nat == count_at(m.probes, addr));
        }
        assert(has_point(m.points, addr));
        let pi = point_index(m.points, addr);
        assert(0 <= pi < m.points.len() && m.points[pi] == addr);
        if count_at(probes2, addr) == 0 {
            lemma_contains_remove(m.points, pi);
            assert(m2.points == m.points.remove(pi));
            assert forall|a: int| has_point(m2.points, a) <==> #[trigger] count_at(m2.probes, a)
                > 0 by {
                assert(count_at(probes2, a) + (if addr == a {
                    1nat
                } else {
                    0nat
                }) == count_at(m.probes, a));
                if a != addr {
                    assert(has_point(m2.points, a) <==> has_point(m.points, a));
                } else {
                    assert(!has_point(m2.points, a));
                }
            }
        } else {
            assert forall|a: int| has_point(m2.points, a) <==> #[trigger] count_at(m2.probes, a)
                > 0 by {
                assert(count_at(probes2, a) + (if addr == a {
                    1nat
                } else {
                    0nat
                }) == count_at(m.probes, a));
            }
        }
    }
}

/// Attaching at an address that already carries a patch point installs
/// nothing new: the probe is bound to the existing point and the patched
/// addresses are unchanged. Together with `lemma_attach_preserves_wf` this
/// says two attaches at one address never yield two installed points.
pub proof fn lemma_attach_shares_existing_point(m: RegistryModel, addr: int, handler: int)
    requires
        has_point(m.points, addr),
    ensures
        !attach_step(m, addr, handler).2,
        attach_step(m, addr, handler).0.points == m.points,
{
}

/// Of two consecutive attaches at the same address, the second never
/// installs: whatever the first found or created, the second shares it, and
/// the set of patched addresses does not change again.
pub proof fn lemma_second_attach_never_installs(
    m: RegistryModel,
    addr: int,
    handler1: int,
    handler2: int,
)
    requires
        wf(m),
    ensures
        ({
            let first = attach_step(m, addr, handler1);
            let second = attach_step(first.0, addr, handler2);
            !second.2 && second.0.points == first.0.points
        }),
{
    let first = attach_step(m, addr, handler1);
    if first.2 {
        lemma_contains_push(m.points, addr);
        assert(has_point(first.0.points, addr));
    }
    lemma_attach_shares_existing_point(first.0, addr, handler2);
}

/// Detach is idempotent: once a handle has been detached, detaching it again
/// changes nothing and reports a no-op.
pub proof fn lemma_detach_idempotent(m: RegistryModel, id: int)
    requires
        wf(m),
    ensures
        ({
            let first = detach_step(m, id);
            let second = detach_step(first.0, id);
            second.0 == first.0 && !second.1 && !second.2
        }),
{
    let first = detach_step(m, id);
    if has_probe(m.probes, id) {
        let i = probe_index(m.probes, id);
        assert(0 <= i < m.probes.len() && m.probes[i].id == id);
        let probes2 = m.probes.remove(i);
        m.probes.remove_ensures(i);
        assert forall|j: int| 0 <= j < probes2.len() implies probes2[j].id != id by {
            let j0 = if j < i {
                j
            } else {
                j + 1
            };
            assert(probes2[j] == m.probes[j0]);
            if j0 < i {
                assert(m.probes[j0].id != m.probes[i].id);
            } else {
                assert(m.probes[i].id != m.probes[j0].id);
            }
        }
        assert(!has_probe(first.0.probes, id));
    } else {
        assert(first.0 == m);
    }
}

/// Round trip: an attach followed immediately by a detach of the returned
/// handle leaves both registries as they were, and physically restores the
/// address exactly when the attach physically installed it.
pub proof fn lemma_attach_detach_round_trip(m: RegistryModel, addr: int, handler: int)
    requires
        wf(m),
    ensures
        ({
            let attached = attach_step(m, addr, handler);
            let detached = detach_step(attached.0, attached.1.id);
            detached.1 && detached.0.points == m.points && detached.0.probes == m.probes
                && detached.2 == attached.2
        }),
{
    let attached = attach_step(m, addr, handler);
    let m1 = attached.0;
    let p = attached.1;
    let last = m.probes.len() as int;
    assert(m1.probes[last].id == p.id);
    assert(has_probe(m1.probes, p.id));
    let i = probe_index(m1.probes, p.id);
    assert(0 <= i < m1.probes.len() && m1.probes[i].id == p.id);
    assert(i == last) by {
        if i < last {
            assert(m1.probes[i] == m.probes[i]);
            assert(m.probes[i].id < m.next_id);
        }
    }
    assert(m1.probes.remove(last) =~= m.probes);
    assert(m1.probes[i].addr == addr);
    let detached = detach_step(m1, p.id);
    lemma_count_push(m.probes, p);
    assert(count_at(m.probes, addr) == 0 <==> detached.2);
    if attached.2 {
        assert(count_at(m.probes, addr) == 0) by {
            if count_at(m.probes, addr) > 0 {
                assert(has_point(m.points, addr));
            }
        }
        assert(detached.2);
        assert(has_point(m1.points, addr)) by {
            assert(m1.points[m.points.len() as int] == addr);
        }
        let pi = point_index(m1.points, addr);
        assert(0 <= pi < m1.points.len() && m1.points[pi] == addr);
        assert(pi == m.points.len() as int) by {
            if pi < m.points.len() {
                assert(m.points[pi] == addr);
                assert(has_point(m.points, addr));
            }
        }
        assert(detached.0.points =~= m.points);
    } else {
        assert(has_point(m.points, addr));
        assert(count_at(m.probes, addr) > 0);
        assert(!detached.2);
        assert(detached.0.points == m.points);
    }
}

/// Trap dispatch sees exactly the reference count: enumerating the probes at
/// an address yields as many probes as `count_at` reports, and every one of
/// them targets that address.
pub proof fn lemma_enumeration_agrees_with_count(probes: Seq<ProbeModel>, addr: int)
    ensures
        probes_at_spec(probes, addr).len() == count_at(probes, addr),
        forall|i: int|
            0 <= i < probes_at_spec(probes, addr).len() ==> #[trigger] probes_at_spec(
                probes,
                addr,
            )[i].addr == addr,
    decreases probes.len(),
{
    if probes.len() > 0 {
        lemma_enumeration_agrees_with_count(probes.drop_last(), addr);
    }
}

/// Any number of consecutive attaches at one fresh address installs exactly
/// once: the first call patches the address, every later call shares the one
/// resulting point, and afterwards the address is referenced by all `n`
/// probes. This is the sequential content of serialised concurrent attaches:
/// however many contexts race to a fresh address, one install happens and
/// all of them end up bound to the same patch point.
pub proof fn lemma_repeated_attach_installs_once(
    m: RegistryModel,
    addr: int,
    handler: int,
    n: nat,
)
    requires
        wf(m),
        !has_point(m.points, addr),
        n >= 1,
    ensures
        ({
            let run = attach_many(m, addr, handler, n);
            run.1 == 1 && run.0.points == m.points.push(addr) && count_at(run.0.probes, addr)
                == n && wf(run.0)
        }),
    decreases n,
{
    if n == 1 {
        let step = attach_step(m, addr, handler);
        lemma_attach_preserves_wf(m, addr, handler);
        lemma_count_push(m.probes, step.1);
        assert(count_at(m.probes, addr) == 0) by {
            if count_at(m.probes, addr) > 0 {
                assert(has_point(m.points, addr));
            }
        }
        assert(attach_many(m, addr, handler, 0) == (m, 0nat));
        assert(attach_many(m, addr, handler, 1).0 == step.0);
    } else {
        lemma_repeated_attach_installs_once(m, addr, handler, (n - 1) as nat);
        let prev = attach_many(m, addr, handler, (n - 1) as nat);
        let step = attach_step(prev.0, addr, handler);
        lemma_attach_preserves_wf(prev.0, addr, handler);
        lemma_count_push(prev.0.probes, step.1);
        assert(has_point(prev.0.points, addr)) by {
            assert(prev.0.points[m.points.len() as int] == addr);
        }
        assert(!step.2);
        assert(step.0.points == prev.0.points);
        assert(count_at(step.0.probes, addr) == n);
    }
}

} // verus!
