//! Input normalizer.
//!
//! Each frame the raw pointer state — active touch points plus the primary
//! button — is folded into at most one intent: `Pressed(side)` or `Released`.
//! The side is `Left` when the pointer's horizontal screen coordinate lies
//! left of half the viewport width, else `Right`. The first touch that just
//! began decides a press; failing that, the first touch that just ended
//! decides a release. A primary-button press or release this frame yields
//! the same outcomes and overwrites the touch-derived result, taking the
//! side from the last known cursor position when one is known. A release
//! outweighs a simultaneous press. With no pointer event at all the frame
//! contributes no intent.

use vstd::prelude::*;

verus! {

/// Which half of the viewport the pointer fell in.
#[derive(Clone, Copy, PartialEq, Eq, Structural, Debug)]
pub enum Side {
    Left,
    Right,
}

/// The single logical pointer intent of one frame.
#[derive(Clone, Copy, PartialEq, Eq, Structural, Debug)]
pub enum Intent {
    Pressed(Side),
    Released,
}

/// One active touch point, with its horizontal screen coordinate in
/// milliunits and its per-frame transition flags.
#[derive(Clone, Copy, PartialEq, Eq, Structural, Debug)]
pub struct Touch {
    pub x: i64,
    pub just_pressed: bool,
    pub just_released: bool,
}

/// The raw pointer state of one frame.
pub struct FrameInput {
    pub touches: Vec<Touch>,
    pub button_just_pressed: bool,
    pub button_just_released: bool,
    /// Last known cursor position's horizontal coordinate, in milliunits,
    /// when the window reports one.
    pub cursor_x: Option<i64>,
    /// Viewport width in milliunits.
    pub window_width: i64,
}

/// The side of a horizontal screen coordinate: left of half the viewport
/// width is `Left`. Doubling avoids the lost half-milliunit of `width / 2`.
pub open spec fn side_of_spec(x: int, width: int) -> Side {
    if 2 * x < width {
        Side::Left
    } else {
        Side::Right
    }
}

/// Horizontal coordinate of the first touch that just began, if any.
pub open spec fn first_press_x(s: Seq<Touch>) -> Option<int>
    decreases s.len(),
{
    if s.len() == 0 {
        Option::None
    } else if s[0].just_pressed {
        Option::Some(s[0].x as int)
    } else {
        first_press_x(s.drop_first())
    }
}

/// Some touch just ended this frame.
pub open spec fn any_release(s: Seq<Touch>) -> bool {
    exists|i: int| 0 <= i < s.len() && s[i].just_released
}

/// The frame carries a press: a touch just began or the button just went down.
pub open spec fn pressed_this_frame(inp: FrameInput) -> bool {
    first_press_x(inp.touches@) is Some || inp.button_just_pressed
}

/// The frame carries a release. A touch release only counts when no touch
/// press preceded it in the scan; a button release only counts when the
/// button did not also just go down (the two are exclusive transitions).
pub open spec fn released_this_frame(inp: FrameInput) -> bool {
    ||| (first_press_x(inp.touches@) is None && any_release(inp.touches@))
    ||| (!inp.button_just_pressed && inp.button_just_released)
}

/// The side a press is attributed to: the cursor position when the button
/// pressed and the cursor is known, else the pressing touch's position,
/// else the right half by default.
pub open spec fn pressed_side(inp: FrameInput) -> Side {
    if inp.button_just_pressed && inp.cursor_x is Some {
        side_of_spec(inp.cursor_x->0 as int, inp.window_width as int)
    } else if first_press_x(inp.touches@) is Some {
        side_of_spec(first_press_x(inp.touches@)->0, inp.window_width as int)
    } else {
        Side::Right
    }
}

/// The whole normalizer, as one mathematical function of the frame's input.
pub open spec fn normalize_spec(inp: FrameInput) -> Option<Intent> {
    if released_this_frame(inp) {
        Option::Some(Intent::Released)
    } else if pressed_this_frame(inp) {
        Option::Some(Intent::Pressed(pressed_side(inp)))
    } else {
        Option::None
    }
}

/// Which half of the viewport a coordinate falls in.
pub fn side_of(x: i64, width: i64) -> (s: Side)
    requires
        -0x2000_0000_0000_0000 < x < 0x2000_0000_0000_0000,
    ensures
        s == side_of_spec(x as int, width as int),
{
    if 2 * x < width {
        Side::Left
    } else {
        Side::Right
    }
}

/// Fold one frame's raw pointer state into at most one intent.
pub fn normalize(inp: &FrameInput) -> (r: Option<Intent>)
    requires
        forall|i: int|
            0 <= i < inp.touches@.len() ==> -0x2000_0000_0000_0000
                < (#[trigger] inp.touches@[i]).x < 0x2000_0000_0000_0000,
        inp.cursor_x is Some ==> -0x2000_0000_0000_0000 < inp.cursor_x->0
            < 0x2000_0000_0000_0000,
    ensures
        r == normalize_spec(*inp),
        r is None <==> !pressed_this_frame(*inp) && !released_this_frame(*inp),
{
    let mut touch_press_x: Option<i64> = Option::None;
    let mut touch_release: bool = false;
    let mut idx: usize = 0;
    proof {
        assert(inp.touches@.skip(0) =~= inp.touches@);
    }
    while idx < inp.touches.len()
        invariant
            0 <= idx <= inp.touches@.len(),
            touch_press_x matches Option::Some(x) ==> first_press_x(inp.touches@)
                == Option::Some(x as int) && -0x2000_0000_0000_0000 < x
                < 0x2000_0000_0000_0000,
            forall|i: int|
                0 <= i < inp.touches@.len() ==> -0x2000_0000_0000_0000
                    < (#[trigger] inp.touches@[i]).x < 0x2000_0000_0000_0000,
            touch_press_x is None ==> first_press_x(inp.touches@)
                == first_press_x(inp.touches@.skip(idx as int)),
            touch_press_x is None ==> (touch_release <==> exists|i: int|
                0 <= i < idx && inp.touches@[i].just_released),
            touch_press_x is Some ==> idx == inp.touches@.len(),
        decreases inp.touches@.len() - idx,
    {
        let t: Touch = inp.touches[idx];
        proof {
            assert(inp.touches@.skip(idx as int)[0] == inp.touches@[idx as int]);
            assert(inp.touches@.skip(idx as int).drop_first()
                =~= inp.touches@.skip(idx as int + 1));
        }
        if t.just_pressed {
            touch_press_x = Option::Some(t.x);
            idx = inp.touches.len();
        } else {
            if t.just_released {
                touch_release = true;
            }
            idx = idx + 1;
        }
    }
    proof {
        if touch_press_x is None {
            assert(inp.touches@.skip(inp.touches@.len() as int) =~= Seq::<Touch>::empty());
        }
    }

    let released: bool = if touch_press_x.is_none() && touch_release {
        true
    } else {
        !inp.button_just_pressed && inp.button_just_released
    };
    let pressed: bool = touch_press_x.is_some() || inp.button_just_pressed;

    if released {
        Option::Some(Intent::Released)
    } else if pressed {
        let side: Side = if inp.button_just_pressed {
            match inp.cursor_x {
                Option::Some(cx) => side_of(cx, inp.window_width),
                Option::None => match touch_press_x {
                    Option::Some(tx) => side_of(tx, inp.window_width),
                    Option::None => Side::Right,
                },
            }
        } else {
            match touch_press_x {
                Option::Some(tx) => side_of(tx, inp.window_width),
                Option::None => Side::Right,
            }
        };
        Option::Some(Intent::Pressed(side))
    } else {
        Option::None
    }
}

} // verus!
