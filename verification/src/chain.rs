//! Chain synthesizer.
//!
//! Converts an attachment distance into a chain of rope segments linked by
//! joints. The distance, measured in milliunits, is cut into one segment
//! per whole world unit; for more than two segments a trim of half the
//! square root of the raw count is taken off, and the trimmed-off amount is
//! folded back in as a uniform per-segment offset, so fewer, slightly
//! farther-spaced segments still tile the distance. The final chain carries
//! `parts` segments and `parts + 1` joints: character to first segment,
//! segment to segment, and last segment to the target pillar.

use vstd::prelude::*;

use crate::geom::{dist_sq, dist_sq_spec, div_nn, div_toward_zero, div_trunc, is_isqrt, isqrt,
    vec_in_bounds, Vec2, ANCHOR_LIMIT, POS_LIMIT};
use crate::selector::AttachmentTarget;
use vstd::arithmetic::div_mod::{lemma_div_is_ordered, lemma_div_is_ordered_by_denominator,
    lemma_fundamental_div_mod, lemma_div_multiples_vanish, lemma_mod_bound};
use vstd::arithmetic::mul::lemma_mul_inequality;

verus! {

/// Width of a rope segment's collider, in milliunits (a tenth of a unit).
pub const SEGMENT_WIDTH: i64 = 100;

/// Density of a rope segment, in thousandths, kept small so rope mass does
/// not dominate the character.
pub const SEGMENT_DENSITY_MILLI: i64 = 1;

/// Compliance, in thousandths, of the joint at the character and of the
/// joint at the pillar: soft, absorbing swing impact at both ends.
pub const END_COMPLIANCE_MILLI: i64 = 10;

/// Compliance, in thousandths, of the stiffer segment-to-segment joints.
pub const LINK_COMPLIANCE_MILLI: i64 = 1;

/// Largest attachment distance, in milliunits, the synthesizer accepts;
/// anything two in-bounds points yield lies far below it.
pub const DISTANCE_LIMIT: i64 = 600_000_000;

/// The numeric partition of an attachment distance: how many segments, how
/// long each one is, and how much was trimmed off the raw count.
#[derive(Clone, Copy, PartialEq, Eq, Structural, Debug)]
pub struct Partition {
    /// The attachment distance, in milliunits.
    pub distance: i64,
    /// One raw segment per whole world unit of distance.
    pub raw_parts: i64,
    /// Uniform segment length under the untrimmed count, in milliunits.
    pub size: i64,
    /// The trimmed-off segment count, in thousandths of a segment.
    pub trim: i64,
    /// The segment count actually used.
    pub parts: i64,
}

/// The defining relations of a partition. `raw_parts` is the distance in
/// whole units, rounded down; `size` divides the distance evenly over the
/// raw count; `trim`, in thousandths, is half the square root of the raw
/// count whenever that count exceeds two; and `parts` is the raw count less
/// the trim, rounded down — pinned by the two squared inequalities, since
/// `4 * (raw - parts)^2 >= raw` says the gap already covers the trim and
/// the same bound fails one segment further.
pub open spec fn partition_wf(pt: Partition) -> bool {
    &&& 1000 <= pt.distance <= DISTANCE_LIMIT
    &&& pt.raw_parts == pt.distance / 1000
    &&& 1 <= pt.raw_parts <= 600_000
    &&& pt.size == pt.distance / pt.raw_parts
    &&& 1000 <= pt.size < 2000
    &&& 1 <= pt.parts <= pt.raw_parts
    &&& 0 <= pt.trim < 500_000
    &&& if pt.raw_parts > 2 {
        &&& 4 * pt.trim * pt.trim <= pt.raw_parts * 1_000_000
        &&& pt.raw_parts * 1_000_000 < (2 * pt.trim + 2) * (2 * pt.trim + 2)
        &&& 4 * (pt.raw_parts - pt.parts) * (pt.raw_parts - pt.parts) >= pt.raw_parts
        &&& 4 * (pt.raw_parts - pt.parts - 1) * (pt.raw_parts - pt.parts - 1) < pt.raw_parts
    } else {
        pt.trim == 0 && pt.parts == pt.raw_parts
    }
}

/// Cut a distance of at least one world unit into segments: one per whole
/// unit, then trimmed as the partition relations state.
pub fn partition(distance: i64) -> (pt: Partition)
    requires
        1000 <= distance <= DISTANCE_LIMIT,
    ensures
        partition_wf(pt),
        pt.distance == distance,
{
    let raw: i64 = div_nn(distance, 1000);
    proof {
        lemma_div_is_ordered(distance as int, DISTANCE_LIMIT as int, 1000);
        lemma_div_is_ordered(1000, distance as int, 1000);
        lemma_fundamental_div_mod(distance as int, 1000);
        lemma_mod_bound(distance as int, 1000);
    }
    let size: i64 = div_nn(distance, raw);
    proof {
        // 1000 * raw <= distance, so size >= 1000.
        lemma_div_is_ordered(1000 * raw, distance as int, raw as int);
        lemma_div_multiples_vanish(1000, raw as int);
        // distance < 2000 * raw would fail only for raw == 0.
        lemma_fundamental_div_mod(distance as int, raw as int);
        lemma_mod_bound(distance as int, raw as int);
        if size >= 2000 {
            lemma_mul_inequality(2000, size as int, raw as int);
            assert(2000 * raw <= size * raw);
            assert(size * raw <= distance) by {
                assert(distance as int == raw as int * (distance as int / raw as int)
                    + distance as int % raw as int);
                assert(raw as int * size as int == size as int * raw as int)
                    by (nonlinear_arith);
            }
            assert(distance < 1000 * raw + 1000);
            assert(2000 * raw < 1000 * raw + 1000);
            assert(false);
        }
    }
    if raw > 2 {
        let q: i64 = isqrt(raw * 1_000_000);
        proof {
            assert(q < 1_000_000) by (nonlinear_arith)
                requires
                    q >= 0,
                    q * q <= raw * 1_000_000,
                    raw <= 600_000,
            ;
        }
        let trim: i64 = div_nn(q, 2);
        proof {
            lemma_fundamental_div_mod(q as int, 2);
            lemma_mod_bound(q as int, 2);
            assert(2 * trim <= q <= 2 * trim + 1);
            assert(4 * trim * trim <= q * q) by (nonlinear_arith)
                requires 0 <= trim, 2 * trim <= q;
            assert((q + 1) * (q + 1) <= (2 * trim + 2) * (2 * trim + 2)) by (nonlinear_arith)
                requires 0 <= q, q <= 2 * trim + 1;
        }
        let mut gap: i64 = 1;
        let mut gap_sq4: i64 = 4;
        while gap_sq4 < raw
            invariant
                1 <= gap <= raw,
                raw <= 600_000,
                gap_sq4 == 4 * gap * gap,
                4 * (gap - 1) * (gap - 1) < raw,
            decreases raw - gap,
        {
            proof {
                assert(gap < raw) by (nonlinear_arith)
                    requires 1 <= gap, 4 * gap * gap < raw;
            }
            gap = gap + 1;
            proof {
                assert(0 <= 4 * gap * gap <= 4 * 600_000i64 * 600_000i64)
                    by (nonlinear_arith)
                    requires 1 <= gap <= 600_000;
            }
            gap_sq4 = 4 * gap * gap;
        }
        proof {
            assert(4 * (raw - 1) * (raw - 1) >= raw) by (nonlinear_arith)
                requires raw >= 3;
            assert(gap <= raw - 1) by (nonlinear_arith)
                requires
                    1 <= gap,
                    4 * (gap - 1) * (gap - 1) < raw,
                    4 * (raw - 1) * (raw - 1) >= raw,
            ;
        }
        Partition { distance, raw_parts: raw, size, trim, parts: raw - gap }
    } else {
        Partition { distance, raw_parts: raw, size, trim: 0, parts: raw }
    }
}

/// How much of the distance the chain covers, in milliunits: the summed
/// segment lengths plus the trim folded back in as length.
pub open spec fn covered_milli(pt: Partition) -> int {
    pt.parts * pt.size + pt.trim * pt.size / 1000
}

/// The chain tiles the attachment distance: the summed segment lengths
/// plus the trim adjustment fall short of the distance by less than one
/// segment's length, beyond a fixed-point allowance of one milliunit per
/// raw segment (a thousandth of the distance), and never overshoot.
pub proof fn lemma_partition_covers(pt: Partition)
    requires
        partition_wf(pt),
    ensures
        0 <= pt.distance - covered_milli(pt),
        pt.distance - covered_milli(pt) < pt.size + pt.raw_parts,
{
    let d = pt.distance as int;
    let n = pt.raw_parts as int;
    let s = pt.size as int;
    let t = pt.trim as int;
    let k = pt.parts as int;
    let u = n - k;
    lemma_fundamental_div_mod(d, n);
    lemma_mod_bound(d, n);
    assert(n * s <= d < n * s + n);
    if n > 2 {
        assert(1 <= u) by (nonlinear_arith)
            requires
                0 <= u,
                4 * u * u >= n,
                n >= 3,
        ;
        // The trim never overshoots the gap between raw and kept count.
        assert(t <= 1000 * u) by (nonlinear_arith)
            requires
                0 <= t,
                1 <= u,
                4 * t * t <= n * 1_000_000,
                n <= 4 * u * u,
        ;
        lemma_mul_inequality(t, 1000 * u, s);
        assert((1000 * u) * s == 1000 * (u * s)) by (nonlinear_arith);
        lemma_div_is_ordered(t * s, 1000 * (u * s), 1000);
        lemma_div_multiples_vanish(u * s, 1000);
        assert(t * s / 1000 <= u * s);
        assert(k * s + u * s == n * s) by (nonlinear_arith)
            requires u == n - k;
        assert(covered_milli(pt) <= n * s);
        // The trim retains at least the gap less one whole segment.
        assert(2000 * (u - 1) < 2 * t + 2) by (nonlinear_arith)
            requires
                0 <= u - 1,
                0 <= 2 * t + 2,
                4 * (u - 1) * (u - 1) < n,
                n * 1_000_000 < (2 * t + 2) * (2 * t + 2),
        ;
        assert(1000 * (u - 1) <= t);
        lemma_mul_inequality(1000 * (u - 1), t, s);
        assert((1000 * (u - 1)) * s == 1000 * ((u - 1) * s)) by (nonlinear_arith);
        lemma_div_is_ordered(1000 * ((u - 1) * s), t * s, 1000);
        lemma_div_multiples_vanish((u - 1) * s, 1000);
        assert((u - 1) * s <= t * s / 1000);
        assert(k * s + (u - 1) * s == (n - 1) * s) by (nonlinear_arith)
            requires u == n - k;
        assert((n - 1) * s == n * s - s) by (nonlinear_arith);
        assert(n * s - s <= covered_milli(pt));
    } else {
        assert(covered_milli(pt) == k * s + 0 * s / 1000);
        assert(0 * s == 0) by (nonlinear_arith);
    }
}

/// A collision-filter tag: which layer a body belongs to, and which
/// layers it may touch.
#[derive(Clone, Copy, PartialEq, Eq, Structural, Debug)]
pub enum CollisionLayer {
    Rope,
    Player,
    Piller,
    Ground,
}

/// The pair of layers a rope segment may touch.
#[derive(Clone, Copy, PartialEq, Eq, Structural, Debug)]
pub struct CollisionMask {
    pub first: CollisionLayer,
    pub second: CollisionLayer,
}

/// One rope segment of the tongue: a dynamic body with a thin rectangular
/// collider, aligned to the chain's direction.
#[derive(Clone, Copy, PartialEq, Eq, Structural, Debug)]
pub struct TonguePart {
    /// World-space center, in milliunits.
    pub position: Vec2,
    /// Collider width, in milliunits.
    pub width: i64,
    /// Collider length, in milliunits: the segment size of the partition.
    pub length: i64,
    /// Body density, in thousandths.
    pub density: i64,
    /// The layer the segment lives on.
    pub layer: CollisionLayer,
    /// The layers the segment collides with.
    pub collides_with: CollisionMask,
}

/// A body a joint can grip: the character, a rope segment by its index in
/// the chain, or the target pillar by its handle.
#[derive(Clone, Copy, PartialEq, Eq, Structural, Debug)]
pub enum JointBody {
    Character,
    Part(usize),
    Piller(u64),
}

/// A two-body constraint with local anchor points and a compliance, in
/// thousandths (higher is softer).
#[derive(Clone, Copy, PartialEq, Eq, Structural, Debug)]
pub struct TongueJoint {
    pub body_a: JointBody,
    pub body_b: JointBody,
    pub anchor_a: Vec2,
    pub anchor_b: Vec2,
    pub compliance: i64,
}

/// One generation of tongue entities: the partition it was cut from, the
/// chain's direction, and the segments and joints to hand the engine.
pub struct TongueChain {
    pub partition: Partition,
    /// Unit direction from character to anchor, in thousandths.
    pub direction: Vec2,
    pub parts: Vec<TonguePart>,
    pub joints: Vec<TongueJoint>,
}

/// The trim folded back in as a uniform per-segment offset, in millionths
/// of a segment: the trim is itself in thousandths.
pub open spec fn trim_ratio_micro(pt: Partition) -> int {
    pt.trim * 1000 / (pt.parts as int)
}

/// How far along the chain segment `i`'s center sits, in milliunits.
pub open spec fn offset_milli(pt: Partition, i: int) -> int {
    ((i + 1) * 1_000_000 + trim_ratio_micro(pt)) * pt.size / 1_000_000
}

/// The chain's direction from `start` to `anchor`, scaled to thousandths
/// of its length: a fixed-point unit vector.
pub open spec fn dir_spec(start: Vec2, anchor: Vec2, pt: Partition) -> Vec2 {
    Vec2 {
        x: div_trunc((anchor.x - start.x) * 1000, pt.distance as int) as i64,
        y: div_trunc((anchor.y - start.y) * 1000, pt.distance as int) as i64,
    }
}

/// World-space center of segment `i`: the start pushed along the chain by
/// the segment's offset.
pub open spec fn seg_center(start: Vec2, anchor: Vec2, pt: Partition, i: int) -> Vec2 {
    Vec2 {
        x: (start.x + div_trunc((anchor.x - start.x) * offset_milli(pt, i),
            pt.distance as int)) as i64,
        y: (start.y + div_trunc((anchor.y - start.y) * offset_milli(pt, i),
            pt.distance as int)) as i64,
    }
}

/// The full specification of segment `i`.
pub open spec fn part_spec(start: Vec2, anchor: Vec2, pt: Partition, i: int) -> TonguePart {
    TonguePart {
        position: seg_center(start, anchor, pt, i),
        width: SEGMENT_WIDTH,
        length: pt.size,
        density: SEGMENT_DENSITY_MILLI,
        layer: CollisionLayer::Rope,
        collides_with: CollisionMask {
            first: CollisionLayer::Ground,
            second: CollisionLayer::Piller,
        },
    }
}

/// The full specification of joint `i`. Joints `0 .. parts` run from the
/// previous body (the character for the first) to segment `i`, gripping the
/// previous body's top and the new segment's bottom; joint `parts` ties the
/// last segment's top to the target pillar's local anchor. The end joints
/// are soft, the inner links stiff.
pub open spec fn joint_spec(target: AttachmentTarget, pt: Partition, i: int) -> TongueJoint {
    let half: i64 = (pt.size / 2) as i64;
    if i < pt.parts {
        TongueJoint {
            body_a: if i == 0 {
                JointBody::Character
            } else {
                JointBody::Part((i - 1) as usize)
            },
            body_b: JointBody::Part(i as usize),
            anchor_a: if i == 0 {
                Vec2 { x: 0, y: 0 }
            } else {
                Vec2 { x: 0, y: half }
            },
            anchor_b: Vec2 { x: 0, y: (-half) as i64 },
            compliance: if i == 0 {
                END_COMPLIANCE_MILLI
            } else {
                LINK_COMPLIANCE_MILLI
            },
        }
    } else {
        TongueJoint {
            body_a: JointBody::Part((pt.parts - 1) as usize),
            body_b: JointBody::Piller(target.piller_id),
            anchor_a: Vec2 { x: 0, y: half },
            anchor_b: target.local_offset,
            compliance: END_COMPLIANCE_MILLI,
        }
    }
}

/// Every structural fact a consumer needs of a synthesized chain: a valid
/// partition of the attachment distance, one more joint than segments, and
/// each segment and joint equal to its specification.
pub open spec fn chain_wf(c: TongueChain, start: Vec2, target: AttachmentTarget) -> bool {
    &&& partition_wf(c.partition)
    &&& is_isqrt(dist_sq_spec(start, target.anchor), c.partition.distance as int)
    &&& c.parts@.len() == c.partition.parts
    &&& c.joints@.len() == c.parts@.len() + 1
    &&& c.direction == dir_spec(start, target.anchor, c.partition)
    &&& forall|i: int|
        0 <= i < c.parts@.len() ==> c.parts@[i] == part_spec(start, target.anchor,
            c.partition, i)
    &&& forall|i: int|
        0 <= i < c.joints@.len() ==> c.joints@[i] == joint_spec(target, c.partition, i)
}

/// Synthesize the chain for an attachment from `start` to the selected
/// target. Fails exactly when the target lies under one world unit away —
/// the degenerate partition the raw count cannot cut — and that failure
/// aborts the attach.
pub fn synthesize(start: Vec2, target: &AttachmentTarget) -> (r: Option<TongueChain>)
    requires
        vec_in_bounds(start, POS_LIMIT as int),
        vec_in_bounds(target.anchor, ANCHOR_LIMIT as int),
    ensures
        r is None <==> dist_sq_spec(start, target.anchor) < 1_000_000,
        r matches Option::Some(c) ==> chain_wf(c, start, *target),
{
    let d2: i64 = dist_sq(start, target.anchor);
    let dist: i64 = isqrt(d2);
    proof {
        assert(dist < 1000 ==> d2 < 1_000_000) by (nonlinear_arith)
            requires 0 <= dist, d2 < (dist + 1) * (dist + 1);
        assert(dist >= 1000 ==> d2 >= 1_000_000) by (nonlinear_arith)
            requires dist * dist <= d2;
        assert(dist <= 600_000_000) by (nonlinear_arith)
            requires
                0 <= dist,
                dist * dist <= d2,
                d2 <= 320_000_000_000_000_000i64,
        ;
    }
    if dist < 1000 {
        return Option::None;
    }
    let pt: Partition = partition(dist);
    let dx: i64 = target.anchor.x - start.x;
    let dy: i64 = target.anchor.y - start.y;
    let direction: Vec2 = Vec2 {
        x: div_toward_zero(dx * 1000, dist),
        y: div_toward_zero(dy * 1000, dist),
    };
    let ratio: i64 = div_nn(pt.trim * 1000, pt.parts);
    proof {
        lemma_div_is_ordered(pt.trim * 1000, 500_000_000, pt.parts as int);
        lemma_div_is_ordered_by_denominator(pt.trim * 1000, 1, pt.parts as int);
        vstd::arithmetic::div_mod::lemma_div_basics(pt.trim * 1000);
    }
    let half: i64 = div_nn(pt.size, 2);
    let parts_n: usize = pt.parts as usize;
    let mut parts: Vec<TonguePart> = Vec::new();
    let mut joints: Vec<TongueJoint> = Vec::new();
    let mut i: usize = 0;
    while i < parts_n
        invariant
            vec_in_bounds(start, POS_LIMIT as int),
            vec_in_bounds(target.anchor, ANCHOR_LIMIT as int),
            partition_wf(pt),
            dx == target.anchor.x - start.x,
            dy == target.anchor.y - start.y,
            dist == pt.distance,
            ratio == trim_ratio_micro(pt),
            0 <= ratio <= pt.trim * 1000 <= 500_000_000,
            half == pt.size / 2,
            parts_n == pt.parts,
            0 <= i <= parts_n,
            parts@.len() == i,
            joints@.len() == i,
            forall|j: int|
                0 <= j < i ==> parts@[j] == part_spec(start, target.anchor, pt, j),
            forall|j: int| 0 <= j < i ==> joints@[j] == joint_spec(*target, pt, j),
        decreases parts_n - i,
    {
        let idx: i64 = i as i64;
        let offset_units: i64 = (idx + 1) * 1_000_000 + ratio;
        proof {
            assert(0 <= offset_units * pt.size <= 700_000_000_000i64 * 2000i64)
                by (nonlinear_arith)
                requires
                    0 <= offset_units <= 700_000_000_000,
                    1000 <= pt.size < 2000,
            ;
        }
        let offset: i64 = div_nn(offset_units * pt.size, 1_000_000);
        proof {
            lemma_div_is_ordered(offset_units * pt.size, 1_400_000_000_000_000,
                1_000_000);
            assert(offset == offset_milli(pt, i as int));
            assert(-700_000_000_000_000_000i64 <= dx * offset
                <= 700_000_000_000_000_000i64) by (nonlinear_arith)
                requires
                    -300_000_000 <= dx <= 300_000_000,
                    0 <= offset <= 1_400_000_000,
            ;
            assert(-700_000_000_000_000_000i64 <= dy * offset
                <= 700_000_000_000_000_000i64) by (nonlinear_arith)
                requires
                    -300_000_000 <= dy <= 300_000_000,
                    0 <= offset <= 1_400_000_000,
            ;
        }
        let cx: i64 = start.x + div_toward_zero(dx * offset, dist);
        let cy: i64 = start.y + div_toward_zero(dy * offset, dist);
        parts.push(TonguePart {
            position: Vec2 { x: cx, y: cy },
            width: SEGMENT_WIDTH,
            length: pt.size,
            density: SEGMENT_DENSITY_MILLI,
            layer: CollisionLayer::Rope,
            collides_with: CollisionMask {
                first: CollisionLayer::Ground,
                second: CollisionLayer::Piller,
            },
        });
        joints.push(TongueJoint {
            body_a: if i == 0 {
                JointBody::Character
            } else {
                JointBody::Part(i - 1)
            },
            body_b: JointBody::Part(i),
            anchor_a: if i == 0 {
                Vec2 { x: 0, y: 0 }
            } else {
                Vec2 { x: 0, y: half }
            },
            anchor_b: Vec2 { x: 0, y: -half },
            compliance: if i == 0 {
                END_COMPLIANCE_MILLI
            } else {
                LINK_COMPLIANCE_MILLI
            },
        });
        i = i + 1;
    }
    joints.push(TongueJoint {
        body_a: JointBody::Part(parts_n - 1),
        body_b: JointBody::Piller(target.piller_id),
        anchor_a: Vec2 { x: 0, y: half },
        anchor_b: target.local_offset,
        compliance: END_COMPLIANCE_MILLI,
    });
    Option::Some(TongueChain { partition: pt, direction, parts, joints })
}

} // verus!
