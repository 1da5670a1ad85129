//! Camera tracker.
//!
//! The camera chases the character horizontally: each frame it moves by
//! the remaining gap to the character (plus a fixed viewing offset),
//! scaled directly by the elapsed frame time. This is a deliberate
//! first-order proportional step, not a damped filter, and a frame of
//! exactly zero gap writes nothing at all. The offset itself is kept in
//! step with the window: a quarter of the viewport width in world units,
//! and the world is 32 units tall, so the offset is the width over 128.

use vstd::prelude::*;

use crate::geom::{div_toward_zero, div_trunc, Vec2};

verus! {

/// The world's vertical extent in whole units; the window width maps onto
/// it when converting screen lengths to world lengths.
pub const WORLD_SIZE: i64 = 32;

/// Horizontal camera offset ahead of the character, in milliunits.
#[derive(Clone, Copy, PartialEq, Eq, Structural, Debug)]
pub struct PlayerCameraOffset(pub Vec2);

/// Keep the camera offset in step with the viewport: a quarter of the
/// window width in world units, which is the width over `4 * WORLD_SIZE`.
pub fn sync_player_camera_offset(offset: &mut PlayerCameraOffset, window_width: i64)
    requires
        0 <= window_width,
    ensures
        final(offset).0.x == window_width as int / 128,
        final(offset).0.y == old(offset).0.y,
{
    let w: i64 = crate::geom::div_nn(window_width, 4 * WORLD_SIZE);
    offset.0.x = w;
}

/// One proportional camera step: the new camera abscissa, in milliunits.
///
/// The gap is the character's position plus the viewing offset, less the
/// camera; a zero gap leaves the camera exactly where it was, and any
/// other gap moves the camera by the gap times the frame time in seconds
/// (`delta_milli` thousandths), rounded toward zero.
pub fn camera_follow_player(camera_x: i64, player_x: i64, offset_x: i64,
    delta_milli: i64) -> (r: i64)
    requires
        -200_000_000 <= camera_x <= 200_000_000,
        -200_000_000 <= player_x <= 200_000_000,
        0 <= offset_x <= 200_000_000,
        0 <= delta_milli <= 60_000,
    ensures
        player_x + offset_x - camera_x == 0 ==> r == camera_x,
        player_x + offset_x - camera_x != 0 ==> r == camera_x + div_trunc(
            (player_x + offset_x - camera_x) * delta_milli, 1000),
{
    let diff: i64 = player_x + offset_x - camera_x;
    if diff == 0 {
        return camera_x;
    }
    proof {
        assert(-60_000_000_000_000i64 <= diff * delta_milli <= 60_000_000_000_000i64)
            by (nonlinear_arith)
            requires
                -600_000_000 <= diff <= 600_000_000,
                0 <= delta_milli <= 60_000,
        ;
    }
    let change: i64 = div_toward_zero(diff * delta_milli, 1000);
    camera_x + change
}

} // verus!
