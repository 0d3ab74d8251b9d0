//! Whether a body stands on walkable ground, from the hits of a downward
//! shape cast.
use vstd::prelude::*;
use crate::fixed::{Vector3, unit_bounded};
use crate::slope::{MaxSlopeAngle, walkable, is_walkable};
use crate::body::LocomotionBody;

verus! {

/// Some hit's surface normal (pointing out of the surface, in the world
/// frame, unit length in thousandths) is walkable under `limit`.
pub open spec fn grounded_by(hits: Seq<Vector3>, limit: Option<MaxSlopeAngle>) -> bool {
    exists|i: int| 0 <= i < hits.len() && walkable(#[trigger] hits[i], limit)
}

pub open spec fn hits_ok(hits: Seq<Vector3>) -> bool {
    forall|i: int| 0 <= i < hits.len() ==> unit_bounded(#[trigger] hits[i])
}

/// Whether any of the shape-cast hits is walkable ground under `limit`.
pub fn is_grounded(hits: &Vec<Vector3>, limit: Option<MaxSlopeAngle>) -> (r: bool)
    requires
        hits_ok(hits@),
        limit matches Some(l) ==> l.wf(),
    ensures
        r == grounded_by(hits@, limit),
{
    let mut i: usize = 0;
    while i < hits.len()
        invariant
            i <= hits@.len(),
            hits_ok(hits@),
            limit matches Some(l) ==> l.wf(),
            forall|k: int| 0 <= k < i ==> !walkable(#[trigger] hits@[k], limit),
        decreases hits@.len() - i,
    {
        if is_walkable(&hits[i], limit) {
            return true;
        }
        i += 1;
    }
    false
}

/// Classifies the body for this frame: it is grounded exactly when one of
/// the hits is walkable under its own slope limit.
pub fn update_grounded(body: &mut LocomotionBody, hits: &Vec<Vector3>)
    requires
        old(body).wf(),
        hits_ok(hits@),
    ensures
        *final(body) == (LocomotionBody {
            grounded: grounded_by(hits@, old(body).movement.max_slope_angle),
            ..*old(body)
        }),
        final(body).wf(),
{
    body.grounded = is_grounded(hits, body.movement.max_slope_angle);
}

/// A pass with no hits leaves the body airborne, whatever it was before.
pub proof fn lemma_no_hits_not_grounded(limit: Option<MaxSlopeAngle>)
    ensures
        !grounded_by(Seq::<Vector3>::empty(), limit),
{
}

} // verus!
