//! Chain lifecycle.
//!
//! The per-frame state machine driving attach and detach. Idle, a press
//! runs target selection and chain synthesis and, on success, attaches;
//! attached, a release tears the whole generation down. A press while
//! already attached is treated as an implicit release followed by a fresh
//! attempt, and a release while idle does nothing at all. A frame without
//! intent mutates nothing. The state owns the one current generation of
//! rope segments and joints; the effect it returns tells the engine what
//! to destroy and whether the freshly attached generation is to be
//! spawned.

use vstd::prelude::*;

use crate::chain::{chain_wf, synthesize, TongueChain};
use crate::geom::{dist_sq_spec, vec_in_bounds, Vec2, POS_LIMIT};
use crate::input::{normalize, normalize_spec, FrameInput, Intent};
use crate::selector::{is_selected, piller_in_bounds, qualifies, select_target, target_of,
    Piller};

verus! {

/// The character's attachment intent state.
#[derive(Clone, Copy, PartialEq, Eq, Structural, Debug)]
pub struct Player {
    pub tongue_out: bool,
}

/// The lifecycle's whole state: the character flag and the one current
/// generation of tongue entities, if any.
pub struct TongueState {
    pub player: Player,
    pub chain: Option<TongueChain>,
}

/// A complete generation: at least one segment, and exactly one more
/// joint than segments.
pub open spec fn generation_wf(c: TongueChain) -> bool {
    c.parts@.len() >= 1 && c.joints@.len() == c.parts@.len() + 1
}

/// The lifecycle invariant: the tongue is out exactly while a complete
/// generation exists, and whatever generation exists is complete.
pub open spec fn state_wf(s: TongueState) -> bool {
    &&& s.player.tongue_out <==> s.chain is Some
    &&& s.chain matches Option::Some(c) ==> generation_wf(c)
}

/// What the engine must do after a frame: tear down the previous
/// generation, and spawn the state's fresh one.
#[derive(Clone, Copy, PartialEq, Eq, Structural, Debug)]
pub struct FrameEffect {
    pub despawn: bool,
    pub spawn: bool,
}

/// On any successful attach the joint count exceeds the segment count by
/// exactly one, and at least one segment exists: every well-formed state
/// that holds a generation holds a complete one.
pub proof fn lemma_attached_generation_complete(s: TongueState)
    requires
        state_wf(s),
        s.chain is Some,
    ensures
        s.chain->0.joints@.len() == s.chain->0.parts@.len() + 1,
        s.chain->0.parts@.len() >= 1,
{
}

/// Two indices a strict-improvement scan settles on are the same index.
pub proof fn lemma_selected_unique(start: Vec2, pillers: Seq<Piller>,
    side: crate::input::Side, i: int, j: int)
    requires
        is_selected(start, pillers, side, i),
        is_selected(start, pillers, side, j),
    ensures
        i == j,
{
    if i < j {
        assert(qualifies(start, pillers[i], side));
    } else if j < i {
        assert(qualifies(start, pillers[j], side));
    }
}

/// Drive one frame of the tongue state machine.
///
/// With no pointer intent, nothing changes. On a release, any generation
/// is torn down and the machine returns to idle; released while already
/// idle, nothing is created or destroyed. On a press, any generation is
/// first torn down (the implicit release), then the nearest qualifying
/// pillar on the pressed side is selected and a chain synthesized; on
/// success the machine attaches to that chain, and on a failed selection
/// or a degenerate distance the attempt aborts back to idle with the
/// tongue in.
pub fn player_controller(state: &mut TongueState, inp: &FrameInput, position: Vec2,
    pillers: &Vec<Piller>) -> (eff: FrameEffect)
    requires
        state_wf(*old(state)),
        vec_in_bounds(position, POS_LIMIT as int),
        forall|i: int| 0 <= i < pillers@.len() ==> piller_in_bounds(#[trigger] pillers@[i]),
        forall|i: int|
            0 <= i < inp.touches@.len() ==> -0x2000_0000_0000_0000
                < (#[trigger] inp.touches@[i]).x < 0x2000_0000_0000_0000,
        inp.cursor_x is Some ==> -0x2000_0000_0000_0000 < inp.cursor_x->0
            < 0x2000_0000_0000_0000,
    ensures
        state_wf(*final(state)),
        eff.spawn <==> final(state).chain is Some && final(state).player.tongue_out
            && normalize_spec(*inp) matches Option::Some(Intent::Pressed(_)),
        normalize_spec(*inp) is None ==> final(state).player == old(state).player
            && final(state).chain == old(state).chain && !eff.despawn && !eff.spawn,
        normalize_spec(*inp) == Option::Some(Intent::Released) ==> {
            &&& final(state).chain is None
            &&& !final(state).player.tongue_out
            &&& eff.despawn == (old(state).chain is Some)
            &&& !eff.spawn
        },
        normalize_spec(*inp) matches Option::Some(Intent::Pressed(side)) ==> {
            &&& eff.despawn == (old(state).chain is Some)
            &&& (!(exists|i: int|
                0 <= i < pillers@.len() && qualifies(position, #[trigger] pillers@[i],
                    side)) ==> final(state).chain is None)
            &&& forall|i: int|
                is_selected(position, pillers@, side, i) ==> {
                    let t = target_of(#[trigger] pillers@[i]);
                    if dist_sq_spec(position, t.anchor) < 1_000_000 {
                        final(state).chain is None
                    } else {
                        final(state).chain matches Option::Some(c) && chain_wf(c,
                            position, t)
                    }
                }
        },
{
    let intent: Option<Intent> = normalize(inp);
    match intent {
        Option::None => FrameEffect { despawn: false, spawn: false },
        Option::Some(Intent::Released) => {
            let had: bool = state.chain.is_some();
            state.chain = Option::None;
            state.player.tongue_out = false;
            FrameEffect { despawn: had, spawn: false }
        },
        Option::Some(Intent::Pressed(side)) => {
            let had: bool = state.chain.is_some();
            state.chain = Option::None;
            state.player.tongue_out = false;
            match select_target(position, side, pillers) {
                Option::None => FrameEffect { despawn: had, spawn: false },
                Option::Some(t) => {
                    proof {
                        let wi = choose|i: int|
                            is_selected(position, pillers@, side, i) && t == target_of(
                                pillers@[i]);
                        assert(piller_in_bounds(pillers@[wi]));
                        assert(vec_in_bounds(t.anchor, crate::geom::ANCHOR_LIMIT as int));
                        assert forall|j: int|
                            is_selected(position, pillers@, side, j) implies j == wi by {
                            lemma_selected_unique(position, pillers@, side, j, wi);
                        }
                    }
                    match synthesize(position, &t) {
                        Option::None => FrameEffect { despawn: had, spawn: false },
                        Option::Some(c) => {
                            state.chain = Option::Some(c);
                            state.player.tongue_out = true;
                            FrameEffect { despawn: had, spawn: true }
                        },
                    }
                },
            }
        },
    }
}

} // verus!
