//! The frame updater: the per-frame refresh of the top-level acceleration
//! structure's instance slots.
//!
//! Each frame writes one slot per transform instance — a group with N
//! transforms fills N slots, all pointing at that group's single bottom-level
//! substructure — then the backend rebuilds the top-level structure from the
//! slots, dispatches the ray-tracing pass and presents. The slot layout is
//! computed here; the top-level structure holds a fixed number of slots
//! decided at compile time, and outgrowing it is a fatal misconfiguration.

use vstd::prelude::*;

use crate::mat::{transform_rows, transform_rows_of};
use crate::scene::GpuScene;
use crate::transform::Transform;

verus! {

/// One top-level instance slot.
#[derive(Debug, Clone)]
pub struct TlasSlot {
    /// Which bottom-level substructure the slot references: the group index.
    pub blas_index: u32,
    /// The group-identifying index shading code reads back.
    pub custom_index: u32,
    /// The visibility mask, all bits set.
    pub mask: u8,
    /// The affine transform, row-major 3x4, translation in the last column.
    pub transform_rows: Vec<u32>,
}

/// How many instance slots the groups need: one per transform.
pub open spec fn total_slots_of(tls: Seq<Vec<Transform>>) -> int
    decreases tls.len(),
{
    if tls.len() == 0 {
        0
    } else {
        total_slots_of(tls.drop_last()) + tls.last()@.len()
    }
}

/// The slots in order: group after group, each group's transforms in order,
/// each slot as the pair of its group index and its transform.
pub open spec fn slot_pairs_of(tls: Seq<Vec<Transform>>) -> Seq<(int, Transform)>
    decreases tls.len(),
{
    if tls.len() == 0 {
        Seq::empty()
    } else {
        slot_pairs_of(tls.drop_last()) + tls.last()@.map_values(|t| ((tls.len() - 1) as int, t))
    }
}

/// What one written slot holds for its (group index, transform) pair.
pub open spec fn slot_matches(s: TlasSlot, p: (int, Transform)) -> bool {
    &&& s.blas_index as int == p.0
    &&& s.custom_index as int == p.0
    &&& s.mask == 0xffu8
    &&& s.transform_rows@ == transform_rows_of(p.1)
    &&& s.transform_rows@.len() == 12
}

/// There are as many slot pairs as slots are needed.
pub proof fn lemma_slot_pairs_len(tls: Seq<Vec<Transform>>)
    ensures
        slot_pairs_of(tls).len() == total_slots_of(tls),
    decreases tls.len(),
{
    if tls.len() > 0 {
        lemma_slot_pairs_len(tls.drop_last());
    }
}

/// A prefix of the groups never needs more slots than all of them.
pub proof fn lemma_total_slots_take_le(tls: Seq<Vec<Transform>>, n: int)
    requires
        0 <= n <= tls.len(),
    ensures
        total_slots_of(tls.take(n)) <= total_slots_of(tls),
    decreases tls.len(),
{
    if n == tls.len() {
        assert(tls.take(n) =~= tls);
    } else {
        assert(tls.take(n) =~= tls.drop_last().take(n));
        lemma_total_slots_take_le(tls.drop_last(), n);
    }
}

/// Computes the top-level instance slots of a compiled scene: for each group
/// and each of its transforms, one slot carrying the group's index, a
/// full-bits visibility mask and the transform's row-major matrix. Fails
/// exactly when the slots would not fit the top-level structure's fixed
/// capacity (a fatal misconfiguration) or the group count would outgrow the
/// 32-bit slot fields.
pub fn build_tlas_slots(g: &GpuScene, max_instances: u32) -> (r: Option<Vec<TlasSlot>>)
    ensures
        r is Some <==> (g.instance_transforms@.len() <= u32::MAX && total_slots_of(
            g.instance_transforms@,
        ) <= max_instances),
        r is Some ==> {
            let slots = r->0;
            &&& slots@.len() == total_slots_of(g.instance_transforms@)
            &&& forall|s: int|
                0 <= s < slots@.len() ==> slot_matches(
                    #[trigger] slots@[s],
                    slot_pairs_of(g.instance_transforms@)[s],
                )
        },
{
    let ghost tls = g.instance_transforms@;
    if g.instance_transforms.len() > u32::MAX as usize {
        return None;
    }
    let mut slots: Vec<TlasSlot> = Vec::new();
    let mut gi: usize = 0;
    while gi < g.instance_transforms.len()
        invariant
            gi <= tls.len(),
            tls == g.instance_transforms@,
            tls.len() <= u32::MAX,
            slots@.len() == total_slots_of(tls.take(gi as int)),
            slots@.len() == slot_pairs_of(tls.take(gi as int)).len(),
            slots@.len() <= max_instances,
            forall|s: int|
                0 <= s < slots@.len() ==> slot_matches(
                    #[trigger] slots@[s],
                    slot_pairs_of(tls.take(gi as int))[s],
                ),
        decreases tls.len() - gi,
    {
        let ts = &g.instance_transforms[gi];
        proof {
            assert(tls.take(gi + 1 as int).drop_last() =~= tls.take(gi as int));
            assert(tls.take(gi + 1 as int).last() == tls[gi as int]);
            lemma_slot_pairs_len(tls.take(gi as int));
        }
        let ghost pairs_here = ts@.map_values(|t| (gi as int, t));
        let mut k: usize = 0;
        while k < ts.len()
            invariant
                k <= ts@.len(),
                gi < tls.len(),
                tls == g.instance_transforms@,
                tls.len() <= u32::MAX,
                ts@ == tls[gi as int]@,
                pairs_here == ts@.map_values(|t| (gi as int, t)),
                slots@.len() == total_slots_of(tls.take(gi as int)) + k,
                slots@.len() == slot_pairs_of(tls.take(gi as int)).len() + k,
                slots@.len() <= max_instances,
                forall|s: int|
                    0 <= s < slots@.len() ==> slot_matches(
                        #[trigger] slots@[s],
                        (slot_pairs_of(tls.take(gi as int)) + pairs_here.take(k as int))[s],
                    ),
            decreases ts@.len() - k,
        {
            if slots.len() >= max_instances as usize {
                proof {
                    assert(tls.take(gi + 1 as int).drop_last() =~= tls.take(gi as int));
                    assert(tls.take(gi + 1 as int).last() == tls[gi as int]);
                    assert(total_slots_of(tls.take(gi + 1 as int)) == total_slots_of(
                        tls.take(gi as int),
                    ) + ts@.len());
                    assert(total_slots_of(tls.take(gi + 1 as int)) > max_instances);
                    lemma_total_slots_take_le(tls, gi + 1 as int);
                }
                return None;
            }
            let rows = transform_rows(&ts[k]);
            let ghost prev_slots = slots@;
            slots.push(
                TlasSlot {
                    blas_index: gi as u32,
                    custom_index: gi as u32,
                    mask: 0xff,
                    transform_rows: rows,
                },
            );
            proof {
                assert(pairs_here.take(k + 1 as int) =~= pairs_here.take(k as int).push(
                    (gi as int, ts@[k as int]),
                ));
                let all_prev = slot_pairs_of(tls.take(gi as int)) + pairs_here.take(k as int);
                let all_now = slot_pairs_of(tls.take(gi as int)) + pairs_here.take(k + 1 as int);
                assert(all_now =~= all_prev.push((gi as int, ts@[k as int])));
                assert forall|s: int| 0 <= s < slots@.len() implies slot_matches(
                    #[trigger] slots@[s],
                    all_now[s],
                ) by {
                    if s < prev_slots.len() {
                        assert(slots@[s] == prev_slots[s]);
                        assert(all_now[s] == all_prev[s]);
                    }
                }
            }
            k = k + 1;
        }
        proof {
            assert(pairs_here.take(ts@.len() as int) =~= pairs_here);
            assert(slot_pairs_of(tls.take(gi + 1 as int)) =~= slot_pairs_of(tls.take(gi as int))
                + pairs_here);
        }
        gi = gi + 1;
    }
    proof {
        assert(tls.take(tls.len() as int) =~= tls);
    }
    Some(slots)
}

} // verus!
