//! Whole-simulation scenarios: determinism, speed range and floor, rotation
//! wrap, monotone score, the settle / music / crash stories and the drain
//! discipline.

use motorcycle::model::{Command, Game, PLAYER_HEIGHT, PLAYER_WIDTH};

fn cmd(left: i8, right: i8, up: i8, down: i8) -> Command {
    Command { left, right, up, down }
}

/// A deterministic but varied command pattern.
fn pattern(i: usize) -> Command {
    cmd(
        if i % 7 < 2 { 1 } else { 0 },
        if i % 5 < 2 { 1 } else { 0 },
        if i % 3 < 2 { 1 } else { 0 },
        if i % 11 == 0 { 1 } else { 0 },
    )
}

#[test]
fn determinism_same_seed_same_trajectory() {
    let mut a = Game::new(424242);
    let mut b = Game::new(424242);
    for i in 0..600 {
        let c = pattern(i);
        a.update(c);
        b.update(c);
        assert_eq!(a.player.x, b.player.x);
        assert_eq!(a.player.y, b.player.y);
        assert_eq!(a.player.rot, b.player.rot);
        assert_eq!(a.score, b.score);
        assert_eq!(a.is_over, b.is_over);
        assert_eq!(a.t, b.t);
        assert_eq!(a.speed, b.speed);
    }
}

#[test]
fn speed_never_negative_and_bounded() {
    let mut game = Game::new(17);
    for i in 0..800 {
        // Lean on the brake a lot.
        let c = cmd(0, 0, if i % 4 == 0 { 1 } else { 0 }, if i % 2 == 0 { 1 } else { 0 });
        game.update(c);
        assert!(game.speed >= 0, "negative speed at tick {}", i);
        assert!(game.speed <= 1000, "speed above one at tick {}", i);
    }
}

#[test]
fn speed_floor_holds_without_braking() {
    let mut game = Game::new(23);
    // Throttle up; the speed approaches 1 exponentially and passes the
    // floor of 0.5 within a few ticks.
    let mut reached = false;
    for _ in 0..40 {
        game.update(cmd(0, 0, 1, 0));
        if game.speed >= game.params.min_speed {
            reached = true;
        }
    }
    assert!(reached, "speed never reached the floor");
    assert!(game.speed >= game.params.min_speed);
    // Release the throttle (no brake): friction may not drop the speed
    // below the floor. (This holds whether or not the rider eventually
    // crashes: a finished game freezes its speed.)
    for i in 0..300 {
        game.update(cmd(0, 0, 0, 0));
        assert!(game.speed >= game.params.min_speed, "floor broken at tick {}", i);
    }

    // Braking, by contrast, is allowed to go below the floor. Use a fresh
    // game: the rider starts high in the air, so no crash can end the game
    // this early and freeze the speed.
    let mut game = Game::new(23);
    for _ in 0..10 {
        game.update(cmd(0, 0, 1, 0));
    }
    assert!(game.speed >= game.params.min_speed);
    for _ in 0..20 {
        game.update(cmd(0, 0, 0, 1));
    }
    assert!(!game.is_over);
    assert!(game.speed < game.params.min_speed);
    assert!(game.speed >= 0);
}

#[test]
fn rotation_stays_wrapped_while_playing() {
    // Steer hard to one side the whole time.
    let mut game = Game::new(31);
    for i in 0..1500 {
        game.update(cmd(1, 0, 1, 0));
        if !game.is_playing {
            break;
        }
        assert!(
            -3142 <= game.player.rot && game.player.rot <= 3142,
            "rotation out of range at tick {}: {}",
            i,
            game.player.rot
        );
    }
}

#[test]
fn score_is_monotone_and_derived_from_offset() {
    let mut game = Game::new(47);
    let mut last_score = game.score;
    let mut last_t = game.t;
    for i in 0..1000 {
        game.update(pattern(i));
        assert!(game.t >= last_t, "world offset moved backward at tick {}", i);
        assert!(game.score >= last_score, "score dropped at tick {}", i);
        assert_eq!(game.score as i64, game.t / 30000);
        last_score = game.score;
        last_t = game.t;
    }
    assert!(game.score > 0, "throttled game never scored");
}

#[test]
fn settles_into_grounded_oscillation_without_input() {
    let mut game = Game::new(123);
    for _ in 0..1000 {
        game.update(Command::default());
        assert!(!game.is_over);
    }
    assert!(game.is_playing);
    // With no throttle there is no forward drift.
    assert_eq!(game.t, 0);
    assert_eq!(game.speed, 0);
    // The rider has settled onto the ground: its feet sit on the ground
    // line and it no longer moves vertically.
    let ground = game.ground_y(game.player.x);
    assert_eq!(game.player.y, ground - PLAYER_HEIGHT);
    let y_before = game.player.y;
    game.update(Command::default());
    assert_eq!(game.player.y, y_before);
}

#[test]
fn music_starts_once_on_first_throttle() {
    let mut game = Game::new(9);
    assert!(!game.music_started);
    game.update(cmd(0, 0, 1, 0));
    assert!(game.music_started);
    assert_eq!(game.requested_musics, vec!["play"]);
    for _ in 0..4 {
        game.update(cmd(0, 0, 1, 0));
    }
    // Only the very first throttle tick queued the cue.
    assert_eq!(game.requested_musics, vec!["play"]);
    let drained = game.take_requested_musics();
    assert_eq!(drained, vec!["play"]);
    assert!(game.requested_musics.is_empty());
    for _ in 0..10 {
        game.update(Command::default());
    }
    assert!(game.music_started);
    assert!(game.requested_musics.is_empty());
}

#[test]
fn crash_tumble_and_game_over() {
    let mut game = Game::new(321);
    // Let the rider settle onto the ground.
    for _ in 0..300 {
        game.update(Command::default());
    }
    assert!(game.is_playing);
    let ground = game.ground_y(game.player.x);
    assert_eq!(game.player.y, ground - PLAYER_HEIGHT);
    // Force the rider past a quarter turn while grounded.
    game.player.rot = 2000;
    game.update(Command::default());
    // The tumble has begun: playing is off and the fadeout cue is queued.
    assert!(!game.is_playing);
    assert!(!game.is_over);
    assert_eq!(game.requested_musics, vec!["fadeout"]);
    // The tumble slides the rider left, ignoring input, until it leaves the
    // screen; then the game is over and the crash sound is queued.
    let mut ticks = 0;
    while !game.is_over {
        // Steering and braking are ignored during the tumble. (The throttle
        // is left alone here: its first press would still queue the music
        // "play" cue, which fires on the first throttle of the session
        // whether or not the rider is tumbling.)
        game.update(cmd(1, 1, 0, 1));
        ticks += 1;
        assert!(ticks < 200, "tumble never ended");
    }
    assert!(game.player.x + PLAYER_WIDTH < 0);
    assert_eq!(game.requested_sounds, vec!["crash.wav"]);
    // Exactly one fadeout across the whole crash sequence.
    assert_eq!(game.requested_musics, vec!["fadeout"]);

    // Once over, ticks change nothing but the frame counter.
    let frame = game.frame;
    let (x, y, rot) = (game.player.x, game.player.y, game.player.rot);
    let (t, speed, score) = (game.t, game.speed, game.score);
    game.update(cmd(1, 0, 1, 0));
    assert_eq!(game.frame, frame + 1);
    assert!(game.is_over);
    assert_eq!((game.player.x, game.player.y, game.player.rot), (x, y, rot));
    assert_eq!((game.t, game.speed, game.score), (t, speed, score));
    assert_eq!(game.requested_sounds, vec!["crash.wav"]);
}

#[test]
fn rotation_wraps_at_the_boundary_not_clamped() {
    let mut game = Game::new(55);
    // Airborne at the start; inject a spin that pushes the rotation past
    // pi: it must come back in on the minus side (wrap, not clamp).
    game.player.rot = 3100;
    game.player.r_speed = -2000;
    game.update(Command::default());
    assert_eq!(game.player.rot, 3200 - 6284);
}

#[test]
fn drain_twice_yields_empty() {
    let mut game = Game::new(2);
    game.update(cmd(0, 0, 1, 0));
    let first = game.take_requested_musics();
    assert_eq!(first, vec!["play"]);
    let second = game.take_requested_musics();
    assert!(second.is_empty());
    let sounds_first = game.take_requested_sounds();
    assert!(sounds_first.is_empty());
    let sounds_second = game.take_requested_sounds();
    assert!(sounds_second.is_empty());
}

#[test]
fn frame_counts_ticks_from_zero() {
    let mut game = Game::new(3);
    assert_eq!(game.frame, -1);
    game.update(Command::default());
    assert_eq!(game.frame, 0);
    game.update(Command::default());
    assert_eq!(game.frame, 1);
}

#[test]
fn opposing_presses_cancel() {
    let mut plain = Game::new(64);
    let mut both = Game::new(64);
    for _ in 0..200 {
        plain.update(cmd(0, 0, 0, 0));
        both.update(cmd(1, 1, 0, 0));
        assert_eq!(plain.player.rot, both.player.rot);
        assert_eq!(plain.speed, both.speed);
    }
}
