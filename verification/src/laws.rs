//! Laws of the simulation, stated over the spec mirror and proved once and
//! for all: determinism, the speed range and floor, the rotation wrap and
//! the monotone score.

use vstd::prelude::*;

verus! {

use crate::fixed::BOUND;
use crate::model::Command;
use crate::model::GameView;
use crate::model::spec_new;
use crate::model::spec_update;
use crate::model::lemma_update_wf;
use crate::trig::PI_MILLI;

/// The state after feeding the commands `cs`, one tick each, to a game in
/// state `s`.
pub open spec fn spec_run(s: GameView, cs: Seq<Command>) -> GameView
    decreases cs.len(),
{
    if cs.len() == 0 {
        s
    } else {
        spec_run(spec_update(s, cs[0]), cs.drop_first())
    }
}

/// Every command of a sequence is a held-key record.
pub open spec fn all_valid(cs: Seq<Command>) -> bool {
    forall|i: int| 0 <= i < cs.len() ==> #[trigger] cs[i].valid()
}

/// Well-formedness is an invariant of whole runs: however many ticks a
/// well-formed game is fed, the state stays well-formed.
pub proof fn lemma_run_wf(s: GameView, cs: Seq<Command>)
    requires
        s.wf(),
        all_valid(cs),
    ensures
        spec_run(s, cs).wf(),
    decreases cs.len(),
{
    if cs.len() > 0 {
        lemma_update_wf(s, cs[0]);
        assert(all_valid(cs.drop_first()));
        lemma_run_wf(spec_update(s, cs[0]), cs.drop_first());
    }
}

/// Determinism: two games built from the same seed and fed the same command
/// sequence are in exactly the same state afterwards. Each tick is a pure
/// function of the previous state and the command (`Game::update` ensures
/// its result equals `spec_update` exactly, and `Game::new` pins the whole
/// start state, terrain included, to the seed), so equal inputs give equal
/// whole trajectories.
pub proof fn lemma_run_deterministic(seed1: u64, seed2: u64, cs1: Seq<Command>, cs2: Seq<Command>)
    requires
        seed1 == seed2,
        cs1 == cs2,
    ensures
        spec_run(spec_new(seed1), cs1) == spec_run(spec_new(seed2), cs2),
{
}

/// The scroll speed never goes negative: after any run of ticks from a
/// well-formed state, `speed` is at least zero (and still at most one, in
/// milli-units).
pub proof fn lemma_speed_never_negative(s: GameView, cs: Seq<Command>)
    requires
        s.wf(),
        all_valid(cs),
    ensures
        0 <= spec_run(s, cs).speed <= 1000,
{
    lemma_run_wf(s, cs);
}

/// The speed floor: a tick whose command is not braking never drops an
/// up-to-speed rider below `min_speed`.
pub proof fn lemma_speed_floor(s: GameView, c: Command)
    requires
        s.wf(),
        c.valid(),
        c.down == 0,
        s.speed >= s.params.min_speed,
    ensures
        spec_update(s, c).speed >= s.params.min_speed,
{
    if !s.is_over {
        let f2 = if s.frame < 0x7fff_ffff {
            s.frame + 1
        } else {
            s.frame
        };
        let s0 = GameView { frame: f2, ..s };
        let s1 = if c.up == 1 && !s0.music_started {
            GameView { music_started: true, musics: s0.musics.push("play"@), ..s0 }
        } else {
            s0
        };
        crate::model::lemma_scroll_wf(s1, c);
        crate::model::lemma_move_wf(crate::model::spec_scroll(s1, c), c);
    }
}

/// The rotation stays wrapped: as long as the rider is still in play, the
/// rotation after any run of ticks lies within a half turn of upright.
pub proof fn lemma_rotation_wrapped(s: GameView, cs: Seq<Command>)
    requires
        s.wf(),
        all_valid(cs),
    ensures
        spec_run(s, cs).is_playing ==> -PI_MILLI <= spec_run(s, cs).player.rot <= PI_MILLI,
{
    lemma_run_wf(s, cs);
}

/// The world offset never moves backward and the derived score never
/// decreases across a tick.
pub proof fn lemma_score_monotone(s: GameView, c: Command)
    requires
        s.wf(),
        c.valid(),
        s.score_ok(),
    ensures
        spec_update(s, c).t >= s.t,
        spec_update(s, c).score >= s.score,
        spec_update(s, c).score_ok(),
{
    lemma_update_wf(s, c);
    if !s.is_over {
        let f2 = if s.frame < 0x7fff_ffff {
            s.frame + 1
        } else {
            s.frame
        };
        let s0 = GameView { frame: f2, ..s };
        let s1 = if c.up == 1 && !s0.music_started {
            GameView { music_started: true, musics: s0.musics.push("play"@), ..s0 }
        } else {
            s0
        };
        crate::model::lemma_scroll_wf(s1, c);
        let s2 = crate::model::spec_scroll(s1, c);
        crate::model::lemma_move_wf(s2, c);
        let s3 = crate::model::spec_move_player(s2, c);
        vstd::arithmetic::div_mod::lemma_div_is_ordered(s.t, s3.t, 30000);
    }
}

/// The score never decreases across a whole run either.
pub proof fn lemma_score_monotone_run(s: GameView, cs: Seq<Command>)
    requires
        s.wf(),
        all_valid(cs),
        s.score_ok(),
    ensures
        spec_run(s, cs).t >= s.t,
        spec_run(s, cs).score >= s.score,
        spec_run(s, cs).score_ok(),
    decreases cs.len(),
{
    if cs.len() > 0 {
        lemma_score_monotone(s, cs[0]);
        lemma_update_wf(s, cs[0]);
        assert(all_valid(cs.drop_first()));
        lemma_score_monotone_run(spec_update(s, cs[0]), cs.drop_first());
    }
}

} // verus!
