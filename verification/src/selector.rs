//! Target selector.
//!
//! Given the character's position and a chosen side, pick the nearest
//! qualifying pillar anchor. A pillar qualifies when it lies on the chosen
//! side of the character and exposes a rectangular collider; its anchor is
//! the bottom-center of that collider. The candidate at minimum squared
//! distance wins, ties going to the earliest in the pillar list, matching a
//! strict-improvement scan. Over exact integer coordinates no degenerate
//! (not-a-number) distances can arise, so no separate guard is needed.

use vstd::prelude::*;

use crate::geom::{dist_sq, dist_sq_spec, vec_in_bounds, Vec2, EXTENT_LIMIT, POS_LIMIT};

verus! {

/// A collider's shape as the physics engine reports it: a rectangle with
/// half-extents in milliunits, or something this core cannot attach to.
#[derive(Clone, Copy, PartialEq, Eq, Structural, Debug)]
pub enum ColliderShape {
    Rectangle { half_width: i64, half_height: i64 },
    Other,
}

/// A static pillar: a stable handle, a world position and a collider shape.
#[derive(Clone, Copy, PartialEq, Eq, Structural, Debug)]
pub struct Piller {
    pub id: u64,
    pub position: Vec2,
    pub shape: ColliderShape,
}

/// The outcome of a successful selection: the pillar's handle, the
/// world-space anchor point, and the anchor's offset local to the pillar.
#[derive(Clone, Copy, PartialEq, Eq, Structural, Debug)]
pub struct AttachmentTarget {
    pub piller_id: u64,
    pub anchor: Vec2,
    pub local_offset: Vec2,
}

/// A pillar's position and extents are small enough for exact arithmetic.
pub open spec fn piller_in_bounds(p: Piller) -> bool {
    &&& vec_in_bounds(p.position, POS_LIMIT as int)
    &&& (p.shape matches ColliderShape::Rectangle { half_width, half_height }
        ==> 0 <= half_width <= EXTENT_LIMIT && 0 <= half_height <= EXTENT_LIMIT)
}

/// The pillar lies on the chosen side of the character: at or left of it
/// for `Left`, at or right of it for `Right`.
pub open spec fn on_side(start: Vec2, p: Piller, side: crate::input::Side) -> bool {
    match side {
        crate::input::Side::Left => p.position.x <= start.x,
        crate::input::Side::Right => p.position.x >= start.x,
    }
}

/// The pillar is a candidate: on the chosen side, with a rectangular collider.
pub open spec fn qualifies(start: Vec2, p: Piller, side: crate::input::Side) -> bool {
    on_side(start, p, side) && p.shape is Rectangle
}

/// The anchor's offset in the pillar's local frame: straight down to the
/// bottom-center of its rectangular collider.
pub open spec fn local_offset_of(p: Piller) -> Vec2
    recommends
        p.shape is Rectangle,
{
    Vec2 { x: 0, y: (-p.shape->half_height) as i64 }
}

/// The world-space anchor of a qualifying pillar.
pub open spec fn anchor_of(p: Piller) -> Vec2
    recommends
        p.shape is Rectangle,
{
    Vec2 { x: p.position.x, y: (p.position.y - p.shape->half_height) as i64 }
}

/// The attachment target a qualifying pillar yields.
pub open spec fn target_of(p: Piller) -> AttachmentTarget
    recommends
        p.shape is Rectangle,
{
    AttachmentTarget { piller_id: p.id, anchor: anchor_of(p), local_offset: local_offset_of(p) }
}

/// Squared distance from the character to a qualifying pillar's anchor.
pub open spec fn candidate_dist_sq(start: Vec2, p: Piller) -> int
    recommends
        p.shape is Rectangle,
{
    dist_sq_spec(start, anchor_of(p))
}

/// Index `i` is the pillar a strict-improvement scan settles on: it
/// qualifies, nothing beats it, and everything before it is strictly worse.
pub open spec fn is_selected(start: Vec2, pillers: Seq<Piller>, side: crate::input::Side,
    i: int) -> bool {
    &&& 0 <= i < pillers.len()
    &&& qualifies(start, pillers[i], side)
    &&& forall|j: int|
        0 <= j < pillers.len() && qualifies(start, #[trigger] pillers[j], side)
            ==> candidate_dist_sq(start, pillers[i]) <= candidate_dist_sq(start, pillers[j])
    &&& forall|j: int|
        0 <= j < i && qualifies(start, #[trigger] pillers[j], side)
            ==> candidate_dist_sq(start, pillers[i]) < candidate_dist_sq(start, pillers[j])
}

/// A selected pillar never lies on the wrong side: selecting toward the
/// left only yields pillars at or left of the character's abscissa, and
/// selecting toward the right only pillars at or right of it.
pub proof fn lemma_selected_on_side(start: Vec2, pillers: Seq<Piller>,
    side: crate::input::Side, i: int)
    requires
        is_selected(start, pillers, side, i),
    ensures
        side is Left ==> pillers[i].position.x <= start.x,
        side is Right ==> pillers[i].position.x >= start.x,
{
}

/// Pick the nearest qualifying pillar anchor on the chosen side, or `None`
/// when no pillar qualifies — in particular when the pillar list is empty
/// or the side filter rejects every pillar.
pub fn select_target(start: Vec2, side: crate::input::Side, pillers: &Vec<Piller>) -> (r:
    Option<AttachmentTarget>)
    requires
        vec_in_bounds(start, POS_LIMIT as int),
        forall|i: int| 0 <= i < pillers@.len() ==> piller_in_bounds(#[trigger] pillers@[i]),
    ensures
        r is Some <==> exists|i: int|
            0 <= i < pillers@.len() && qualifies(start, #[trigger] pillers@[i], side),
        r matches Option::Some(t) ==> exists|i: int|
            is_selected(start, pillers@, side, i) && t == target_of(#[trigger] pillers@[i]),
{
    let mut best: Option<AttachmentTarget> = Option::None;
    let mut best_d2: i64 = i64::MAX;
    let ghost mut best_i: int = 0;
    let mut idx: usize = 0;
    while idx < pillers.len()
        invariant
            0 <= idx <= pillers@.len(),
            vec_in_bounds(start, POS_LIMIT as int),
            forall|i: int| 0 <= i < pillers@.len() ==> piller_in_bounds(#[trigger] pillers@[i]),
            best is None ==> best_d2 == i64::MAX,
            best is Some <==> exists|i: int|
                0 <= i < idx && qualifies(start, #[trigger] pillers@[i], side),
            best matches Option::Some(t) ==> {
                &&& 0 <= best_i < idx
                &&& qualifies(start, pillers@[best_i], side)
                &&& t == target_of(pillers@[best_i])
                &&& best_d2 == candidate_dist_sq(start, pillers@[best_i])
                &&& forall|j: int|
                    0 <= j < idx && qualifies(start, #[trigger] pillers@[j], side)
                        ==> best_d2 <= candidate_dist_sq(start, pillers@[j])
                &&& forall|j: int|
                    0 <= j < best_i && qualifies(start, #[trigger] pillers@[j], side)
                        ==> best_d2 < candidate_dist_sq(start, pillers@[j])
            },
        decreases pillers@.len() - idx,
    {
        let p: Piller = pillers[idx];
        let keep: bool = match side {
            crate::input::Side::Left => p.position.x <= start.x,
            crate::input::Side::Right => p.position.x >= start.x,
        };
        if keep {
            match p.shape {
                ColliderShape::Rectangle { half_width: _, half_height } => {
                    let anchor: Vec2 = Vec2 { x: p.position.x, y: p.position.y - half_height };
                    let d2: i64 = dist_sq(start, anchor);
                    if d2 < best_d2 {
                        best = Option::Some(AttachmentTarget {
                            piller_id: p.id,
                            anchor,
                            local_offset: Vec2 { x: 0, y: -half_height },
                        });
                        best_d2 = d2;
                        proof {
                            best_i = idx as int;
                        }
                    }
                },
                ColliderShape::Other => {},
            }
        }
        idx = idx + 1;
    }
    best
}

} // verus!
