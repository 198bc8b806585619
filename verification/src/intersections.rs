//! Where a ray meets an object, and which meeting is seen.

use vstd::prelude::*;
use uuid::Uuid;
use crate::scalar::Scalar;

verus! {

/// `uuid::Uuid`, the identifier of an object. Its value is not looked into:
/// an identifier is handed on and compared, nothing else.
#[verifier::external_type_specification]
#[verifier::external_body]
pub struct ExUuid(Uuid);

/// A ray meets the object `object_id` at the distance `t` along the ray.
#[derive(Debug, Clone, Copy)]
pub struct Intersection {
    pub object_id: Uuid,
    pub t: Scalar,
}

/// Whether an intersection lies at or ahead of the ray's start: `t >= 0.0`.
/// False when `t` is a NaN.
pub open spec fn ahead(i: Intersection) -> bool {
    (Scalar { bits: 0 }).le_spec(i.t)
}

/// Whether entry `k` is the one that is seen: it lies ahead, nothing ahead is
/// nearer, and of the entries ahead that are as near it comes first.
pub open spec fn is_hit(ints: Seq<Intersection>, k: int) -> bool {
    &&& 0 <= k < ints.len()
    &&& ahead(ints[k])
    &&& forall|j: int| 0 <= j < ints.len() && ahead(#[trigger] ints[j]) ==> ints[k].t.le_spec(ints[j].t)
    &&& forall|j: int| 0 <= j < k && ahead(#[trigger] ints[j]) ==> ints[k].t.lt_spec(ints[j].t)
}

/// The intersection that is seen: of those with `t >= 0.0` the one with the
/// least `t`, and of several with the least `t` the first. `None` when no
/// intersection lies ahead.
pub fn hit(ints: Vec<Intersection>) -> (r: Option<Intersection>)
    ensures
        match r {
            None => forall|j: int| 0 <= j < ints@.len() ==> !ahead(#[trigger] ints@[j]),
            Some(i) => exists|k: int| is_hit(ints@, k) && i == ints@[k],
        },
{
    hit_among(&ints)
}

/// `hit`, of intersections that the caller keeps.
pub fn hit_among(ints: &Vec<Intersection>) -> (r: Option<Intersection>)
    ensures
        match r {
            None => forall|j: int| 0 <= j < ints@.len() ==> !ahead(#[trigger] ints@[j]),
            Some(i) => exists|k: int| is_hit(ints@, k) && i == ints@[k],
        },
{
    let zero = Scalar::zero();
    let mut best: Option<usize> = None;
    let mut i: usize = 0;
    while i < ints.len()
        invariant
            0 <= i <= ints@.len(),
            zero.bits == 0,
            match best {
                None => forall|j: int| 0 <= j < i ==> !ahead(#[trigger] ints@[j]),
                Some(b) => {
                    &&& b < i
                    &&& ahead(ints@[b as int])
                    &&& forall|j: int|
                        0 <= j < i && ahead(#[trigger] ints@[j]) ==> ints@[b as int].t.le_spec(
                            ints@[j].t,
                        )
                    &&& forall|j: int|
                        0 <= j < b && ahead(#[trigger] ints@[j]) ==> ints@[b as int].t.lt_spec(
                            ints@[j].t,
                        )
                },
            },
        decreases ints@.len() - i,
    {
        let t = ints[i].t;
        if zero.le(t) {
            match best {
                None => {
                    best = Some(i);
                },
                Some(b) => {
                    if t.lt(ints[b].t) {
                        best = Some(i);
                    }
                },
            }
        }
        i += 1;
    }
    match best {
        None => None,
        Some(b) => {
            assert(is_hit(ints@, b as int));
            Some(ints[b])
        },
    }
}

/// Whatever the entries, at most one of them is the one that is seen.
pub proof fn lemma_hit_unique(ints: Seq<Intersection>, k: int, l: int)
    requires
        is_hit(ints, k),
        is_hit(ints, l),
    ensures
        k == l,
{
    if k < l {
        assert(ahead(ints[k]));
        assert(ints[l].t.lt_spec(ints[k].t));
        assert(ints[k].t.le_spec(ints[l].t));
    } else if l < k {
        assert(ahead(ints[l]));
        assert(ints[k].t.lt_spec(ints[l].t));
        assert(ints[l].t.le_spec(ints[k].t));
    }
}

/// The one that is seen has the lowest `t` that is not negative: no entry
/// with `0.0 <= t` lies below it, and entries behind the start do not count.
pub proof fn lemma_hit_is_lowest_ahead(ints: Seq<Intersection>, k: int, j: int)
    requires
        is_hit(ints, k),
        0 <= j < ints.len(),
    ensures
        !ints[k].t.is_nan_spec(),
        ints[k].t.order_key() >= 0,
        ahead(ints[j]) ==> ints[k].t.order_key() <= ints[j].t.order_key(),
        !ahead(ints[j]) ==> ints[j].t.is_nan_spec() || ints[j].t.order_key() < 0,
{
    assert(ahead(ints[k]));
}

} // verus!
