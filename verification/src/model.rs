use vstd::prelude::*;

verus! {

/// Ghost image of one registered logical probe: its identity, the address it
/// targets, and the caller-supplied handler-set token it carries.
pub struct ProbeModel {
    pub id: int,
    pub addr: int,
    pub handler: int,
}

/// Ghost image of the whole registry state: the addresses that currently carry
/// an installed patch point, the active logical probes in registration order,
/// and the next free probe id.
pub struct RegistryModel {
    pub points: Seq<int>,
    pub probes: Seq<ProbeModel>,
    pub next_id: int,
}

/// How many active probes target `addr`.
pub open spec fn count_at(probes: Seq<ProbeModel>, addr: int) -> nat
    decreases probes.len(),
{
    if probes.len() == 0 {
        0
    } else {
        count_at(probes.drop_last(), addr) + (if probes.last().addr == addr {
            1nat
        } else {
            0nat
        })
    }
}

/// Whether `addr` carries an installed patch point.
pub open spec fn has_point(points: Seq<int>, addr: int) -> bool {
    points.contains(addr)
}

/// Whether a probe with identity `id` is registered.
pub open spec fn has_probe(probes: Seq<ProbeModel>, id: int) -> bool {
    exists|i: int| 0 <= i < probes.len() && probes[i].id == id
}

/// Position of the probe with identity `id`; meaningful only under `has_probe`.
pub open spec fn probe_index(probes: Seq<ProbeModel>, id: int) -> int {
    choose|i: int| 0 <= i < probes.len() && probes[i].id == id
}

/// Position of `addr` among the patched addresses; meaningful only under
/// `has_point`.
pub open spec fn point_index(points: Seq<int>, addr: int) -> int {
    choose|i: int| 0 <= i < points.len() && points[i] == addr
}

/// The patched addresses with the entry for `addr` deleted, if there was one.
pub open spec fn remove_point(points: Seq<int>, addr: int) -> Seq<int> {
    if has_point(points, addr) {
        points.remove(point_index(points, addr))
    } else {
        points
    }
}

/// No address carries two patch points.
pub open spec fn distinct_points(points: Seq<int>) -> bool {
    forall|i: int, j: int| 0 <= i < j < points.len() ==> points[i] != points[j]
}

/// No two probes share an identity.
pub open spec fn distinct_ids(probes: Seq<ProbeModel>) -> bool {
    forall|i: int, j: int| 0 <= i < j < probes.len() ==> probes[i].id != probes[j].id
}

/// Every issued probe identity lies below the next free one.
pub open spec fn ids_below(probes: Seq<ProbeModel>, bound: int) -> bool {
    forall|i: int| 0 <= i < probes.len() ==> probes[i].id < bound
}

/// An address is physically patched exactly when at least one active probe
/// references it: no stale patch survives its probes, and no probe dangles
/// without its patch point.
pub open spec fn patched_iff_referenced(m: RegistryModel) -> bool {
    forall|a: int|
        #![trigger has_point(m.points, a)]
        #![trigger count_at(m.probes, a)]
        has_point(m.points, a) <==> count_at(m.probes, a) > 0
}

/// Well-formedness of the registry state.
pub open spec fn wf(m: RegistryModel) -> bool {
    &&& distinct_points(m.points)
    &&& distinct_ids(m.probes)
    &&& ids_below(m.probes, m.next_id)
    &&& patched_iff_referenced(m)
}

/// One attach of a resolved request: a fresh address gets a new patch point
/// (`installed` is true), an already patched address shares the existing one;
/// a new probe with the next free identity is recorded either way.
pub open spec fn attach_step(m: RegistryModel, addr: int, handler: int) -> (
    RegistryModel,
    ProbeModel,
    bool,
) {
    let probe = ProbeModel { id: m.next_id, addr: addr, handler: handler };
    let installed = !has_point(m.points, addr);
    let points = if installed {
        m.points.push(addr)
    } else {
        m.points
    };
    (
        RegistryModel { points: points, probes: m.probes.push(probe), next_id: m.next_id + 1 },
        probe,
        installed,
    )
}

/// One detach of a previously returned handle: an unknown identity is a
/// harmless no-op; a known identity removes its probe, and the patch point at
/// its address goes away (`restored` is true) exactly when the last probe
/// there has left.
pub open spec fn detach_step(m: RegistryModel, id: int) -> (RegistryModel, bool, bool) {
    if !has_probe(m.probes, id) {
        (m, false, false)
    } else {
        let i = probe_index(m.probes, id);
        let addr = m.probes[i].addr;
        let probes = m.probes.remove(i);
        let restored = count_at(probes, addr) == 0;
        let points = if restored {
            remove_point(m.points, addr)
        } else {
            m.points
        };
        (RegistryModel { points: points, probes: probes, next_id: m.next_id }, true, restored)
    }
}

/// `n` consecutive attaches of the same resolved request, together with how
/// many of them installed a new patch point.
pub open spec fn attach_many(m: RegistryModel, addr: int, handler: int, n: nat) -> (
    RegistryModel,
    nat,
)
    decreases n,
{
    if n == 0 {
        (m, 0)
    } else {
        let prev = attach_many(m, addr, handler, (n - 1) as nat);
        let step = attach_step(prev.0, addr, handler);
        (step.0, prev.1 + (if step.2 {
            1nat
        } else {
            0nat
        }))
    }
}

pub(crate) proof fn lemma_count_push(probes: Seq<ProbeModel>, p: ProbeModel)
    ensures
        forall|a: int|
            #[trigger] count_at(probes.push(p), a) == count_at(probes, a) + (if p.addr == a {
                1nat
            } else {
                0nat
            }),
{
    assert(probes.push(p).drop_last() =~= probes);
    assert forall|a: int|
        #[trigger] count_at(probes.push(p), a) == count_at(probes, a) + (if p.addr == a {
            1nat
        } else {
            0nat
        }) by {
        assert(probes.push(p).last() == p);
    }
}

pub(crate) proof fn lemma_count_remove(probes: Seq<ProbeModel>, i: int)
    requires
        0 <= i < probes.len(),
    ensures
        forall|a: int|
            #[trigger] count_at(probes.remove(i), a) + (if probes[i].addr == a {
                1nat
            } else {
                0nat
            }) == count_at(probes, a),
    decreases probes.len(),
{
    if i == probes.len() - 1 {
        assert(probes.remove(i) =~= probes.drop_last());
    } else {
        let q = probes.drop_last();
        assert(probes.remove(i).drop_last() =~= q.remove(i));
        assert(probes.remove(i).last() == probes.last());
        lemma_count_remove(q, i);
        assert forall|a: int|
            #[trigger] count_at(probes.remove(i), a) + (if probes[i].addr == a {
                1nat
            } else {
                0nat
            }) == count_at(probes, a) by {
            assert(count_at(q.remove(i), a) + (if q[i].addr == a {
                1nat
            } else {
                0nat
            }) == count_at(q, a));
            assert(q[i] == probes[i]);
        }
    }
}

pub(crate) proof fn lemma_contains_push(points: Seq<int>, x: int)
    ensures
        forall|a: int| #[trigger] points.push(x).contains(a) <==> (points.contains(a) || a == x),
{
    assert forall|a: int| #[trigger] points.push(x).contains(a) implies (points.contains(a) || a
        == x) by {
        let i = choose|i: int| 0 <= i < points.push(x).len() && points.push(x)[i] == a;
        if i < points.len() {
            assert(points[i] == a);
        }
    }
    assert forall|a: int| (points.contains(a) || a == x) implies #[trigger] points.push(
        x,
    ).contains(a) by {
        if points.contains(a) {
            let i = choose|i: int| 0 <= i < points.len() && points[i] == a;
            assert(points.push(x)[i] == a);
        } else {
            assert(points.push(x)[points.len() as int] == a);
        }
    }
}

pub(crate) proof fn lemma_contains_remove(points: Seq<int>, i: int)
    requires
        0 <= i < points.len(),
        distinct_points(points),
    ensures
        forall|a: int|
            a != points[i] ==> (#[trigger] points.remove(i).contains(a) <==> points.contains(a)),
        !points.remove(i).contains(points[i]),
        distinct_points(points.remove(i)),
{
    points.remove_ensures(i);
    assert forall|a: int| a != points[i] implies (#[trigger] points.remove(i).contains(a)
        <==> points.contains(a)) by {
        if points.remove(i).contains(a) {
            let j = choose|j: int| 0 <= j < points.remove(i).len() && points.remove(i)[j] == a;
            if j < i {
                assert(points[j] == a);
            } else {
                assert(points[j + 1] == a);
            }
        }
        if points.contains(a) {
            let j = choose|j: int| 0 <= j < points.len() && points[j] == a;
            if j < i {
                assert(points.remove(i)[j] == a);
            } else if j > i {
                assert(points.remove(i)[j - 1] == a);
            }
        }
    }
    assert forall|j: int| 0 <= j < points.remove(i).len() implies points.remove(i)[j]
        != points[i] by {
        if j < i {
            assert(points.remove(i)[j] == points[j]);
        } else {
            assert(points.remove(i)[j] == points[j + 1]);
        }
    }
}

} // verus!
