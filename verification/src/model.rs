//! The simulation core: terrain, rider, scroll/score model and the per-tick
//! state machine.
//!
//! Every quantity is an `i64` in milli-units (see `fixed`). The whole tick is
//! mirrored by spec functions (`spec_scroll`, `spec_move_player`,
//! `spec_update`) over a ghost `GameView`, and each executable step is proved
//! to equal its mirror exactly, so a game's trajectory is pinned down as a
//! mathematical function of the seed and the commands fed in.

use vstd::prelude::*;

verus! {

use crate::fixed::BOUND;
use crate::fixed::clamp;
use crate::fixed::div_fl;
use crate::fixed::euc_mod;
use crate::fixed::spec_clamp;
use crate::trig::HALF_PI_MILLI;
use crate::trig::PI_MILLI;
use crate::trig::slope_angle;
use crate::trig::spec_cos_lerp;
use crate::trig::spec_slope_angle;
use crate::trig::spec_wrap_pi;
use crate::trig::cos_lerp;
use crate::trig::wrap_pi;

/// Screen width in pixels.
pub const SCREEN_WIDTH: i32 = 600;

/// Screen height in pixels.
pub const SCREEN_HEIGHT: i32 = 400;

/// Target ticks per second for the external driver.
pub const FPS: i32 = 60;

/// Number of entries in the terrain height table.
pub const GROUND_LENGTH: usize = 256;

/// Rider sprite width in milli-pixels.
pub const PLAYER_WIDTH: i64 = 30 * 1000;

/// Rider sprite height in milli-pixels.
pub const PLAYER_HEIGHT: i64 = 30 * 1000;

/// Screen height in milli-pixels.
pub const SCREEN_HEIGHT_MILLI: i64 = 400 * 1000;

/// Rider start abscissa: mid-screen, `(SCREEN_WIDTH - 30) / 2` pixels, in
/// milli-pixels.
pub const PLAYER_START_X: i64 = 285 * 1000;

/// Per-tick intent sampled from held keys: four independent intensities,
/// each 0 or 1. Opposing directions are subtracted by the physics, so
/// pressing both sides of a pair cancels out.
#[derive(Debug, Default, Clone, Copy, PartialEq, Eq, Structural)]
pub struct Command {
    pub left: i8,
    pub right: i8,
    pub up: i8,
    pub down: i8,
}

impl Command {
    /// Each field is a held-key intensity: 0 or 1.
    pub open spec fn valid(self) -> bool {
        &&& 0 <= self.left <= 1
        &&& 0 <= self.right <= 1
        &&& 0 <= self.up <= 1
        &&& 0 <= self.down <= 1
    }
}

/// The rider: position, rotation and their velocities, in milli-units
/// (milli-pixels, milli-radians).
pub struct Player {
    pub x: i64,
    pub y: i64,
    pub rot: i64,
    pub y_speed: i64,
    pub r_speed: i64,
}

/// Tunable constants, fixed for the lifetime of a game. All in milli-units:
/// `gravity` 0.1 pixel per tick squared, `control_rotate_scale` 0.05,
/// `min_speed` 0.5, `speed_scale` 7 pixels of scroll per speed unit.
pub struct Params {
    pub speed_scale: i64,
    pub gravity: i64,
    pub control_rotate_scale: i64,
    pub min_speed: i64,
}

/// The whole simulation state: rider, terrain table, scroll/score model,
/// lifecycle flags and the outbound sound/music queues.
pub struct Game {
    pub seed: u64,
    pub frame: i32,
    pub is_over: bool,
    pub is_playing: bool,
    pub score: i32,
    pub requested_sounds: Vec<&'static str>,
    pub requested_musics: Vec<&'static str>,
    pub player: Player,
    pub ground: Vec<u8>,
    pub t: i64,
    pub speed: i64,
    pub params: Params,
    pub music_started: bool,
}

/// Ghost image of `Player`, over unbounded integers.
#[verifier::ext_equal]
pub ghost struct PlayerView {
    pub x: int,
    pub y: int,
    pub rot: int,
    pub y_speed: int,
    pub r_speed: int,
}

/// Ghost image of `Params`.
#[verifier::ext_equal]
pub ghost struct ParamsView {
    pub speed_scale: int,
    pub gravity: int,
    pub control_rotate_scale: int,
    pub min_speed: int,
}

/// Ghost image of `Game`: the queues become sequences of character
/// sequences, the terrain a byte sequence, every number an `int`.
#[verifier::ext_equal]
pub ghost struct GameView {
    pub seed: u64,
    pub frame: int,
    pub is_over: bool,
    pub is_playing: bool,
    pub score: int,
    pub sounds: Seq<Seq<char>>,
    pub musics: Seq<Seq<char>>,
    pub player: PlayerView,
    pub ground: Seq<u8>,
    pub t: int,
    pub speed: int,
    pub params: ParamsView,
    pub music_started: bool,
}

impl View for Player {
    type V = PlayerView;

    open spec fn view(&self) -> PlayerView {
        PlayerView {
            x: self.x as int,
            y: self.y as int,
            rot: self.rot as int,
            y_speed: self.y_speed as int,
            r_speed: self.r_speed as int,
        }
    }
}

impl View for Params {
    type V = ParamsView;

    open spec fn view(&self) -> ParamsView {
        ParamsView {
            speed_scale: self.speed_scale as int,
            gravity: self.gravity as int,
            control_rotate_scale: self.control_rotate_scale as int,
            min_speed: self.min_speed as int,
        }
    }
}

impl View for Game {
    type V = GameView;

    open spec fn view(&self) -> GameView {
        GameView {
            seed: self.seed,
            frame: self.frame as int,
            is_over: self.is_over,
            is_playing: self.is_playing,
            score: self.score as int,
            sounds: self.requested_sounds@.map_values(|s: &'static str| s@),
            musics: self.requested_musics@.map_values(|s: &'static str| s@),
            player: self.player@,
            ground: self.ground@,
            t: self.t as int,
            speed: self.speed as int,
            params: self.params@,
            music_started: self.music_started,
        }
    }
}

impl ParamsView {
    /// Sanity bounds on the tunables; the standard values sit far inside
    /// them. `min_speed` stays within the speed range.
    pub open spec fn wf(self) -> bool {
        &&& 0 <= self.speed_scale <= 1000000
        &&& 0 <= self.gravity <= 1000000
        &&& 0 <= self.control_rotate_scale <= 1000000
        &&& 0 <= self.min_speed <= 1000
    }
}

impl GameView {
    /// Well-formed state: the terrain table is full-length, the scroll speed
    /// sits in `[0, 1]` (milli-units), the world offset is a bounded
    /// non-negative number, every rider field is within the global magnitude
    /// cap, the rotation is wrapped while the rider is still in play, and the
    /// terminal flags are consistent. Every constructor establishes this and
    /// every tick preserves it.
    pub open spec fn wf(self) -> bool {
        &&& self.ground.len() == 256
        &&& 0 <= self.speed <= 1000
        &&& 0 <= self.t <= BOUND
        &&& -BOUND <= self.player.x <= BOUND
        &&& -BOUND <= self.player.y <= BOUND
        &&& -BOUND <= self.player.rot <= BOUND
        &&& -BOUND <= self.player.y_speed <= BOUND
        &&& -BOUND <= self.player.r_speed <= BOUND
        &&& (self.is_playing ==> -PI_MILLI <= self.player.rot <= PI_MILLI)
        &&& (self.is_over ==> !self.is_playing)
        &&& self.params.wf()
        &&& -1 <= self.frame <= 0x7fff_ffff
    }

    /// The score is exactly the derived quotient of the world offset. Holds
    /// of every game built by `Game::new` and is preserved by every tick.
    pub open spec fn score_ok(self) -> bool {
        self.score == self.t / 30000
    }
}

impl Game {
    /// Executable-side well-formedness: the view is well-formed.
    pub open spec fn wf(&self) -> bool {
        self@.wf()
    }
}

/// The smoothed terrain height (milli-units, `[0, 255000]`) sampled at world
/// coordinate `wx` milli-pixels: `wx` is scaled by 0.01 and wrapped onto the
/// 256-entry table, then the two neighbouring entries are cosine-interpolated
/// by the fractional part. The neighbour of the last entry wraps to entry 0.
pub open spec fn spec_noise(ground: Seq<u8>, wx: int) -> int
    recommends
        ground.len() == 256,
{
    let u = (wx / 100) % 256000;
    let lo = u / 1000;
    let hi = (lo + 1) % 256;
    let f = u % 1000;
    spec_cos_lerp(ground[lo] * 1000, ground[hi] * 1000, f)
}

/// Screen-space ground height at screen abscissa `x` (milli-pixels): the
/// noise at world coordinate `t + x`, scaled by 0.25 and hung from the
/// bottom of the screen.
pub open spec fn spec_ground_y(s: GameView, x: int) -> int {
    SCREEN_HEIGHT_MILLI - spec_noise(s.ground, s.t + x) / 4
}

/// The terrain height is always within the table's range.
pub proof fn lemma_noise_range(ground: Seq<u8>, wx: int)
    requires
        ground.len() == 256,
    ensures
        0 <= spec_noise(ground, wx) <= 255000,
{
    let u = (wx / 100) % 256000;
    vstd::arithmetic::div_mod::lemma_mod_division_less_than_divisor(wx / 100, 256000);
    let lo = u / 1000;
    let hi = (lo + 1) % 256;
    let f = u % 1000;
    vstd::arithmetic::div_mod::lemma_mod_division_less_than_divisor(lo + 1, 256);
    vstd::arithmetic::div_mod::lemma_mod_division_less_than_divisor(u, 1000);
    assert(0 <= lo <= 255);
    let a = ground[lo] * 1000;
    let b = ground[hi] * 1000;
    assert(0 <= a <= 255000);
    assert(0 <= b <= 255000);
    crate::trig::lemma_cos_lerp_range(a, b, f);
}

/// The ground line always sits in the lower quarter of the screen band:
/// between 336.25 and 400 pixels from the top, in milli-pixels.
pub proof fn lemma_ground_y_range(s: GameView, x: int)
    requires
        s.ground.len() == 256,
    ensures
        336250 <= spec_ground_y(s, x) <= 400000,
{
    lemma_noise_range(s.ground, s.t + x);
}

impl Game {
    /// Smoothed terrain height at world coordinate `x` milli-pixels; the
    /// executable form of `spec_noise`.
    pub fn noise(&self, x: i64) -> (r: i64)
        requires
            self.wf(),
            -0x300_0000_0000 <= x <= 0x300_0000_0000,
        ensures
            r == spec_noise(self@.ground, x as int),
            0 <= r <= 255000,
    {
        proof {
            lemma_noise_range(self@.ground, x as int);
        }
        let u = euc_mod(div_fl(x, 100), 256000);
        let lo = div_fl(u, 1000);
        proof {
            vstd::arithmetic::div_mod::lemma_mod_division_less_than_divisor(lo + 1, 256);
        }
        let loi = lo as usize;
        let hii = (loi + 1) % 256;
        let f = euc_mod(u, 1000);
        let a = (self.ground[loi] as i64) * 1000;
        let b = (self.ground[hii] as i64) * 1000;
        cos_lerp(a, b, f)
    }

    /// Screen-space ground height under screen abscissa `x` (milli-pixels);
    /// the executable form of `spec_ground_y`. The shell draws the terrain
    /// silhouette with it, the physics reads the ground under the rider.
    pub fn ground_y(&self, x: i64) -> (r: i64)
        requires
            self.wf(),
            -0x200_0000_0000 <= x <= 0x200_0000_0000,
        ensures
            r == spec_ground_y(self@, x as int),
            336250 <= r <= 400000,
    {
        let n = self.noise(self.t + x);
        SCREEN_HEIGHT_MILLI - div_fl(n, 4)
    }
}

/// The standard tunables: scroll scale 7, gravity 0.1, steering scale 0.05,
/// speed floor 0.5 (milli-units).
pub open spec fn spec_params_new() -> ParamsView {
    ParamsView { speed_scale: 7000, gravity: 100, control_rotate_scale: 50, min_speed: 500 }
}

impl Params {
    /// Build the standard tunables.
    pub fn new() -> (p: Params)
        ensures
            p@ == spec_params_new(),
            p@.wf(),
    {
        Params { speed_scale: 7000, gravity: 100, control_rotate_scale: 50, min_speed: 500 }
    }
}

/// One tick of the scroll/progress model. The speed decays exponentially
/// toward the throttle target `up - down` (never below zero); if the rider
/// is not braking and friction alone would drop an up-to-speed rider under
/// the floor, the speed snaps to the floor instead. The world offset then
/// advances by `speed_scale * speed`, capped at the state bound.
pub open spec fn spec_scroll(s: GameView, c: Command) -> GameView {
    let target = (c.up - c.down) * 1000;
    let sp1 = s.speed - (s.speed - target) / 10;
    let sp2 = if sp1 < 0 { 0int } else { sp1 };
    let sp3 = if c.down == 0 && s.speed >= s.params.min_speed && sp2 < s.params.min_speed {
        s.params.min_speed
    } else {
        sp2
    };
    let t2 = spec_clamp(s.t + s.params.speed_scale * sp3 / 1000, 0, BOUND as int);
    GameView { speed: sp3, t: t2, ..s }
}

/// A scroll tick keeps the state well-formed, never makes the speed
/// negative, honours the speed floor when not braking, and never moves the
/// world offset backward.
pub proof fn lemma_scroll_wf(s: GameView, c: Command)
    requires
        s.wf(),
        c.valid(),
    ensures
        spec_scroll(s, c).wf(),
        spec_scroll(s, c).speed >= 0,
        c.down == 0 && s.speed >= s.params.min_speed ==> spec_scroll(s, c).speed
            >= s.params.min_speed,
        spec_scroll(s, c).t >= s.t,
        (spec_scroll(s, c) == GameView { speed: spec_scroll(s, c).speed, t: spec_scroll(s, c).t, ..s }),
{
    let target = (c.up - c.down) * 1000;
    let d = s.speed - target;
    assert(-1000 <= target <= 1000);
    let sp1 = s.speed - d / 10;
    assert(sp1 <= 1000) by {
        if d >= 0 {
            assert(d / 10 >= 0);
        } else {
            assert(d / 10 >= d);
            assert(sp1 <= s.speed - d);
        }
    }
    let sp3 = spec_scroll(s, c).speed;
    assert(0 <= sp3 <= 1000);
    let step = s.params.speed_scale * sp3 / 1000;
    assert(0 <= s.params.speed_scale * sp3 <= 1000000 * 1000) by (nonlinear_arith)
        requires 0 <= s.params.speed_scale <= 1000000 && 0 <= sp3 <= 1000;
    assert(step >= 0);
}

impl Game {
    /// One executable scroll tick; equals `spec_scroll` exactly.
    pub fn scroll(&mut self, command: Command)
        requires
            old(self).wf(),
            command.valid(),
        ensures
            final(self)@ == spec_scroll(old(self)@, command),
            final(self).wf(),
    {
        proof {
            lemma_scroll_wf(old(self)@, command);
        }
        let prev_speed = self.speed;
        let target = ((command.up as i64) - (command.down as i64)) * 1000;
        self.speed = self.speed - div_fl(self.speed - target, 10);
        if self.speed < 0 {
            self.speed = 0;
        }
        if command.down == 0 && prev_speed >= self.params.min_speed && self.speed
            < self.params.min_speed {
            self.speed = self.params.min_speed;
        }
        proof {
            assert(0 <= self.params.speed_scale * self.speed <= 1000000 * 1000)
                by (nonlinear_arith)
                requires 0 <= self.params.speed_scale <= 1000000 && 0 <= self.speed <= 1000;
        }
        self.t = clamp(self.t + div_fl(self.params.speed_scale * self.speed, 1000), 0, BOUND);
        proof {
            assert(self@ =~= spec_scroll(old(self)@, command));
        }
    }
}

/// One tick of the rider physics, mirroring the executable step exactly.
///
/// The ground under the rider (`p1`) and five pixels ahead (`p2`) is
/// sampled first. Above the ground the rider falls; otherwise it lands:
/// the penetration depth is turned into an upward landing impulse, the
/// rider snaps onto the surface, and landing more than a quarter turn from
/// upright starts the tumble (queueing the music fadeout once, guarded by
/// the playing flag). While in play, the rotation eases toward the slope
/// ahead, a rotational spring and the steering update the rotational
/// velocity, and the rotation is wrapped into a half turn. While tumbling,
/// the rider slides left with a fixed fast spin until it leaves the screen,
/// which ends the game and queues the crash sound.
pub open spec fn spec_move_player(s: GameView, c: Command) -> GameView {
    let p1 = spec_ground_y(s, s.player.x);
    let p2 = spec_ground_y(s, s.player.x + 5000);
    let airborne = s.player.y + PLAYER_HEIGHT < p1;
    let ys1 = if airborne {
        spec_clamp(s.player.y_speed + s.params.gravity, -(BOUND as int), BOUND as int)
    } else {
        spec_clamp(
            s.player.y_speed - (s.player.y - (p1 - PLAYER_HEIGHT)),
            -(BOUND as int),
            BOUND as int,
        )
    };
    let y1 = if airborne {
        s.player.y
    } else {
        p1 - PLAYER_HEIGHT
    };
    let crash_now = !airborne && s.is_playing && (s.player.rot > HALF_PI_MILLI || s.player.rot
        < -HALF_PI_MILLI);
    let playing1 = if crash_now {
        false
    } else {
        s.is_playing
    };
    let musics1 = if crash_now {
        s.musics.push("fadeout"@)
    } else {
        s.musics
    };
    if playing1 {
        let angle = spec_slope_angle(p2 - PLAYER_HEIGHT - y1);
        let y2 = spec_clamp(y1 + ys1, -(BOUND as int), BOUND as int);
        let rot1 = if !airborne {
            s.player.rot - (s.player.rot - angle) / 2
        } else {
            s.player.rot
        };
        let rs1 = if !airborne {
            spec_clamp(s.player.r_speed - (angle - rot1), -(BOUND as int), BOUND as int)
        } else {
            s.player.r_speed
        };
        let rs2 = spec_clamp(rs1 + (c.left - c.right) * 50, -(BOUND as int), BOUND as int);
        let rot2 = spec_wrap_pi(rot1 - rs2 * s.params.control_rotate_scale / 1000);
        GameView {
            player: PlayerView { x: s.player.x, y: y2, rot: rot2, y_speed: ys1, r_speed: rs2 },
            is_playing: playing1,
            musics: musics1,
            ..s
        }
    } else {
        let x1 = spec_clamp(s.player.x - 5000, -(BOUND as int), BOUND as int);
        let rot1 = spec_clamp(s.player.rot - 150, -(BOUND as int), BOUND as int);
        let over_now = x1 + PLAYER_WIDTH < 0;
        GameView {
            player: PlayerView { x: x1, y: y1, rot: rot1, y_speed: ys1, r_speed: 150 },
            is_playing: playing1,
            musics: musics1,
            is_over: s.is_over || over_now,
            sounds: if over_now {
                s.sounds.push("crash.wav"@)
            } else {
                s.sounds
            },
            ..s
        }
    }
}

/// A physics tick keeps the state well-formed and touches neither the
/// scroll model nor the score: the world offset, speed, score, frame,
/// terrain and music flag come through unchanged.
pub proof fn lemma_move_wf(s: GameView, c: Command)
    requires
        s.wf(),
        c.valid(),
    ensures
        spec_move_player(s, c).wf(),
        spec_move_player(s, c).t == s.t,
        spec_move_player(s, c).speed == s.speed,
        spec_move_player(s, c).score == s.score,
        spec_move_player(s, c).frame == s.frame,
        spec_move_player(s, c).ground == s.ground,
        spec_move_player(s, c).music_started == s.music_started,
        s.is_over ==> spec_move_player(s, c).is_over,
{
    lemma_ground_y_range(s, s.player.x);
    lemma_ground_y_range(s, s.player.x + 5000);
    let p1 = spec_ground_y(s, s.player.x);
    let p2 = spec_ground_y(s, s.player.x + 5000);
    let airborne = s.player.y + PLAYER_HEIGHT < p1;
    let y1 = if airborne {
        s.player.y
    } else {
        p1 - PLAYER_HEIGHT
    };
    assert(-(BOUND as int) <= y1 <= BOUND as int);
    let crash_now = !airborne && s.is_playing && (s.player.rot > HALF_PI_MILLI || s.player.rot
        < -HALF_PI_MILLI);
    let playing1 = if crash_now {
        false
    } else {
        s.is_playing
    };
    if playing1 {
        let angle = spec_slope_angle(p2 - PLAYER_HEIGHT - y1);
        crate::trig::lemma_slope_angle_range(p2 - PLAYER_HEIGHT - y1);
        assert(-HALF_PI_MILLI <= angle <= HALF_PI_MILLI);
        let rot1 = if !airborne {
            s.player.rot - (s.player.rot - angle) / 2
        } else {
            s.player.rot
        };
        assert(-2 * PI_MILLI <= rot1 <= 2 * PI_MILLI) by {
            assert(-PI_MILLI <= s.player.rot <= PI_MILLI);
            if !airborne {
                let e = s.player.rot - angle;
                assert(-2 * PI_MILLI <= e <= 2 * PI_MILLI);
                assert(e >= 0 ==> 0 <= e / 2 <= e);
                assert(e < 0 ==> e <= e / 2 <= 0);
            }
        }
        let rs1 = if !airborne {
            spec_clamp(s.player.r_speed - (angle - rot1), -(BOUND as int), BOUND as int)
        } else {
            s.player.r_speed
        };
        let rs2 = spec_clamp(rs1 + (c.left - c.right) * 50, -(BOUND as int), BOUND as int);
        let crs = s.params.control_rotate_scale;
        assert(-0x1000_0000_0000_0000 <= rs2 * crs <= 0x1000_0000_0000_0000) by (nonlinear_arith)
            requires -(BOUND as int) <= rs2 <= BOUND as int && 0 <= crs <= 1000000;
        let q = rs2 * crs / 1000;
        let rot2 = spec_wrap_pi(rot1 - q);
        crate::trig::lemma_wrap_pi_range(rot1 - q);
        assert(-PI_MILLI <= rot2 <= PI_MILLI);
    }
}

impl Game {
    /// One executable physics tick; equals `spec_move_player` exactly.
    pub fn move_player(&mut self, command: Command)
        requires
            old(self).wf(),
            command.valid(),
        ensures
            final(self)@ == spec_move_player(old(self)@, command),
            final(self).wf(),
    {
        proof {
            lemma_move_wf(old(self)@, command);
            lemma_ground_y_range(old(self)@, old(self)@.player.x);
            lemma_ground_y_range(old(self)@, old(self)@.player.x + 5000);
        }
        let p1 = self.ground_y(self.player.x);
        let p2 = self.ground_y(self.player.x + 5000);
        let grounded: bool;
        if self.player.y + PLAYER_HEIGHT < p1 {
            grounded = false;
            self.player.y_speed = clamp(self.player.y_speed + self.params.gravity, -BOUND, BOUND);
        } else {
            grounded = true;
            self.player.y_speed = clamp(
                self.player.y_speed - (self.player.y - (p1 - PLAYER_HEIGHT)),
                -BOUND,
                BOUND,
            );
            self.player.y = p1 - PLAYER_HEIGHT;
            if (self.player.rot > HALF_PI_MILLI || self.player.rot < -HALF_PI_MILLI)
                && self.is_playing {
                self.is_playing = false;
                self.requested_musics.push("fadeout");
                proof {
                    lemma_push_str_view(
                        old(self).requested_musics@,
                        "fadeout",
                    );
                }
            }
        }
        if self.is_playing {
            let angle = slope_angle(p2 - PLAYER_HEIGHT - self.player.y);
            self.player.y = clamp(self.player.y + self.player.y_speed, -BOUND, BOUND);
            if grounded {
                self.player.rot = self.player.rot - div_fl(self.player.rot - angle, 2);
                self.player.r_speed = clamp(
                    self.player.r_speed - (angle - self.player.rot),
                    -BOUND,
                    BOUND,
                );
            }
            self.player.r_speed = clamp(
                self.player.r_speed + ((command.left as i64) - (command.right as i64)) * 50,
                -BOUND,
                BOUND,
            );
            proof {
                assert(-0x1000_0000_0000_0000 <= self.player.r_speed
                    * self.params.control_rotate_scale <= 0x1000_0000_0000_0000)
                    by (nonlinear_arith)
                    requires
                        -(BOUND as int) <= self.player.r_speed <= BOUND as int
                            && 0 <= self.params.control_rotate_scale <= 1000000;
            }
            self.player.rot = wrap_pi(
                self.player.rot - div_fl(
                    self.player.r_speed * self.params.control_rotate_scale,
                    1000,
                ),
            );
        } else {
            self.player.x = clamp(self.player.x - 5000, -BOUND, BOUND);
            self.player.r_speed = 150;
            self.player.rot = clamp(self.player.rot - 150, -BOUND, BOUND);
            if self.player.x + PLAYER_WIDTH < 0 {
                self.is_over = true;
                self.requested_sounds.push("crash.wav");
                proof {
                    lemma_push_str_view(
                        old(self).requested_sounds@,
                        "crash.wav",
                    );
                }
            }
        }
        proof {
            assert(self@ =~= spec_move_player(old(self)@, command));
        }
    }
}

/// Pushing onto a string queue appends the string's view to the queue's
/// view.
pub proof fn lemma_push_str_view(v: Seq<&'static str>, a: &'static str)
    ensures
        v.push(a).map_values(|s: &'static str| s@) =~= v.map_values(|s: &'static str| s@).push(
            a@,
        ),
{
    let f = |s: &'static str| s@;
    assert forall|i: int| 0 <= i < v.len() + 1 implies v.push(a).map_values(f)[i] == v.map_values(
        f,
    ).push(a@)[i] by {
        if i < v.len() {
            assert(v.push(a)[i] == v[i]);
        } else {
            assert(v.push(a)[i] == a);
        }
    }
}

/// The identity height table: entry `i` holds height `i`.
pub open spec fn spec_base_ground() -> Seq<u8> {
    Seq::new(256, |i: int| i as u8)
}

/// The byte sequence that rand's shuffle, driven by a generator freshly
/// seeded with `seed`, leaves in place of `s` (see `shuffle_seeded`).
pub uninterp spec fn shuffled(s: Seq<u8>, seed: u64) -> Seq<u8>;

/// The terrain table generated for `seed`: the identity table, shuffled.
pub open spec fn spec_stage(seed: u64) -> Seq<u8> {
    shuffled(spec_base_ground(), seed)
}

/// A full terrain table: 256 entries in which every height `0..=255`
/// appears exactly once.
pub open spec fn spec_is_permutation(s: Seq<u8>) -> bool {
    s.len() == 256 && forall|b: u8| #[trigger] s.to_multiset().count(b) == 1
}

/// The first `n` entries of the identity table.
pub open spec fn spec_base_prefix(n: int) -> Seq<u8>
    recommends
        0 <= n <= 256,
{
    Seq::new(n as nat, |i: int| i as u8)
}

proof fn lemma_base_prefix_counts(n: int)
    requires
        0 <= n <= 256,
    ensures
        forall|b: u8| #[trigger] spec_base_prefix(n).to_multiset().count(b) == (if (b as int) < n {
            1int
        } else {
            0int
        }),
    decreases n,
{
    broadcast use vstd::seq_lib::group_to_multiset_ensures;

    if n == 0 {
        let s = spec_base_prefix(0);
        assert forall|b: u8| #[trigger] s.to_multiset().count(b) == 0 by {
            assert(!s.contains(b));
        }
    } else {
        lemma_base_prefix_counts(n - 1);
        let prev = spec_base_prefix(n - 1);
        let s = spec_base_prefix(n);
        let last = (n - 1) as u8;
        assert(s =~= prev.push(last));
        assert(s.to_multiset() =~= prev.to_multiset().insert(last));
        assert forall|b: u8| #[trigger] s.to_multiset().count(b) == (if (b as int) < n {
            1int
        } else {
            0int
        }) by {
            if b == last {
                assert(prev.to_multiset().count(b) == 0);
            }
        }
    }
}

/// The identity table holds every height exactly once.
pub proof fn lemma_base_ground_is_permutation()
    ensures
        spec_is_permutation(spec_base_ground()),
{
    lemma_base_prefix_counts(256);
    assert(spec_base_prefix(256) =~= spec_base_ground());
}

/// Relies on rand 0.8: `StdRng::seed_from_u64` expands the seed into the
/// generator state by a fixed arithmetic recipe, and `SliceRandom::shuffle`
/// then permutes the slice with a Fisher-Yates pass of swaps driven only by
/// that generator. The resulting order is therefore a function of the slice
/// contents and the seed alone, and the multiset of elements is unchanged.
#[verifier::external_body]
fn shuffle_seeded(v: &mut Vec<u8>, seed: u64)
    ensures
        final(v)@ == shuffled(old(v)@, seed),
        final(v)@.to_multiset() == old(v)@.to_multiset(),
        final(v)@.len() == old(v)@.len(),
{
    let mut rng = <rand::rngs::StdRng as rand::SeedableRng>::seed_from_u64(seed);
    rand::seq::SliceRandom::shuffle(v.as_mut_slice(), &mut rng);
}

/// The state a fresh game starts from: rider at mid-screen top, zeroed
/// counters, `frame` at -1 so the first tick lands on 0, empty queues, and
/// the terrain generated for `seed`.
pub open spec fn spec_new(seed: u64) -> GameView {
    GameView {
        seed,
        frame: -1,
        is_over: false,
        is_playing: true,
        score: 0,
        sounds: Seq::empty(),
        musics: Seq::empty(),
        player: PlayerView { x: PLAYER_START_X as int, y: 0, rot: 0, y_speed: 0, r_speed: 0 },
        ground: spec_stage(seed),
        t: 0,
        speed: 0,
        params: spec_params_new(),
        music_started: false,
    }
}

/// One whole tick: the frame counter advances (it sticks at its maximum
/// rather than wrap); a finished game changes nothing else. Otherwise the
/// first tick ever to see the throttle pressed queues the music `"play"`
/// cue once, then the scroll model, the rider physics and the derived
/// score run in that fixed order.
pub open spec fn spec_update(s: GameView, c: Command) -> GameView {
    let f2 = if s.frame < 0x7fff_ffff {
        s.frame + 1
    } else {
        s.frame
    };
    if s.is_over {
        GameView { frame: f2, ..s }
    } else {
        let s0 = GameView { frame: f2, ..s };
        let s1 = if c.up == 1 && !s0.music_started {
            GameView { music_started: true, musics: s0.musics.push("play"@), ..s0 }
        } else {
            s0
        };
        let s3 = spec_move_player(spec_scroll(s1, c), c);
        GameView { score: s3.t / 30000, ..s3 }
    }
}

/// A tick keeps the state well-formed and the score tied to the world
/// offset.
pub proof fn lemma_update_wf(s: GameView, c: Command)
    requires
        s.wf(),
        c.valid(),
    ensures
        spec_update(s, c).wf(),
        s.score_ok() ==> spec_update(s, c).score_ok(),
{
    if !s.is_over {
        let f2 = if s.frame < 0x7fff_ffff {
            s.frame + 1
        } else {
            s.frame
        };
        let s0 = GameView { frame: f2, ..s };
        let s1 = if c.up == 1 && !s0.music_started {
            GameView { music_started: true, musics: s0.musics.push("play"@), ..s0 }
        } else {
            s0
        };
        lemma_scroll_wf(s1, c);
        lemma_move_wf(spec_scroll(s1, c), c);
        let s3 = spec_move_player(spec_scroll(s1, c), c);
        vstd::arithmetic::div_mod::lemma_div_pos_is_pos(s3.t, 30000);
        vstd::arithmetic::div_mod::lemma_div_is_ordered(s3.t, BOUND as int, 30000);
    }
}

impl Game {
    /// Build a fresh game for `seed`: standard tunables, rider at
    /// mid-screen top, zeroed counters and a newly generated terrain table,
    /// which holds every height `0..=255` exactly once.
    pub fn new(seed: u64) -> (g: Game)
        ensures
            g@ == spec_new(seed),
            g.wf(),
            g@.score_ok(),
            spec_is_permutation(g@.ground),
    {
        let mut game = Game {
            seed,
            frame: -1,
            is_over: false,
            is_playing: true,
            score: 0,
            requested_sounds: Vec::new(),
            requested_musics: Vec::new(),
            player: Player { x: PLAYER_START_X, y: 0, rot: 0, y_speed: 0, r_speed: 0 },
            ground: Vec::new(),
            t: 0,
            speed: 0,
            params: Params::new(),
            music_started: false,
        };
        game.create_stage();
        proof {
            assert(game@ =~= spec_new(seed));
        }
        game
    }

    /// Regenerate the terrain table from the game's seed: fill the table
    /// with the identity heights, then shuffle. Everything else is left
    /// alone. The result holds every height `0..=255` exactly once.
    pub fn create_stage(&mut self)
        ensures
            (final(self)@ == GameView { ground: spec_stage(old(self)@.seed), ..old(self)@ }),
            spec_is_permutation(final(self)@.ground),
    {
        let mut g: Vec<u8> = Vec::new();
        let mut i: usize = 0;
        while i < 256
            invariant
                i <= 256,
                g@.len() == i,
                forall|j: int| 0 <= j < i ==> g@[j] == j as u8,
            decreases 256 - i,
        {
            g.push(i as u8);
            i = i + 1;
        }
        proof {
            assert(g@ =~= spec_base_ground());
        }
        shuffle_seeded(&mut g, self.seed);
        self.ground = g;
        proof {
            lemma_base_ground_is_permutation();
            assert(self@ =~= GameView { ground: spec_stage(old(self)@.seed), ..old(self)@ });
        }
    }

    /// One whole executable tick; equals `spec_update` exactly and keeps
    /// the state well-formed and the score tied to the world offset.
    pub fn update(&mut self, command: Command)
        requires
            old(self).wf(),
            command.valid(),
        ensures
            final(self)@ == spec_update(old(self)@, command),
            final(self).wf(),
            old(self)@.score_ok() ==> final(self)@.score_ok(),
    {
        proof {
            lemma_update_wf(old(self)@, command);
        }
        if self.frame < 0x7fff_ffff {
            self.frame = self.frame + 1;
        }
        if self.is_over {
            proof {
                assert(self@ =~= spec_update(old(self)@, command));
            }
            return;
        }
        if command.up == 1 && !self.music_started {
            self.music_started = true;
            self.requested_musics.push("play");
            proof {
                lemma_push_str_view(old(self).requested_musics@, "play");
            }
        }
        self.scroll(command);
        self.move_player(command);
        proof {
            vstd::arithmetic::div_mod::lemma_div_pos_is_pos(self@.t, 30000);
            vstd::arithmetic::div_mod::lemma_div_is_ordered(self@.t, BOUND as int, 30000);
        }
        self.score = div_fl(self.t, 30000) as i32;
        proof {
            assert(self@ =~= spec_update(old(self)@, command));
        }
    }

    /// Hand the queued sound-effect keys to the shell and clear the queue:
    /// the produce-then-drain discipline. Draining again without an
    /// intervening tick yields the empty sequence.
    pub fn take_requested_sounds(&mut self) -> (r: Vec<&'static str>)
        ensures
            r@ == old(self).requested_sounds@,
            r@.map_values(|s: &'static str| s@) == old(self)@.sounds,
            (final(self)@ == GameView { sounds: Seq::empty(), ..old(self)@ }),
            old(self).wf() ==> final(self).wf(),
    {
        let mut r: Vec<&'static str> = Vec::new();
        core::mem::swap(&mut r, &mut self.requested_sounds);
        proof {
            assert(self@ =~= (GameView { sounds: Seq::empty(), ..old(self)@ }));
        }
        r
    }

    /// Hand the queued music transport keys (`"play"`, `"fadeout"`) to the
    /// shell and clear the queue; as with the sounds, a second drain in a
    /// row yields the empty sequence.
    pub fn take_requested_musics(&mut self) -> (r: Vec<&'static str>)
        ensures
            r@ == old(self).requested_musics@,
            r@.map_values(|s: &'static str| s@) == old(self)@.musics,
            (final(self)@ == GameView { musics: Seq::empty(), ..old(self)@ }),
            old(self).wf() ==> final(self).wf(),
    {
        let mut r: Vec<&'static str> = Vec::new();
        core::mem::swap(&mut r, &mut self.requested_musics);
        proof {
            assert(self@ =~= (GameView { musics: Seq::empty(), ..old(self)@ }));
        }
        r
    }
}

} // verus!
