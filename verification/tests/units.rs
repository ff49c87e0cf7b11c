use rusted_asteroids::angle::{cos_milli, sin_milli, snap_sector, step_angle};
use rusted_asteroids::client::{
    build_input, handle_chat_key, handle_game_key, truncate_name, ClientState, InputState, Key,
    KeyKind, Mode,
};
use rusted_asteroids::entities::{PlayerEffects, PlayerRuntime, PlayerState};
use rusted_asteroids::math::{isqrt, sat_add, sat_add32};
use rusted_asteroids::physics::{clamp_speed, rotate_vec, step_position, step_velocity};
use rusted_asteroids::torus::{
    distance_squared_wrapped, shortest_delta, wrap_position, Vec2,
};
use rusted_asteroids::view::{heading_glyph, leaderboard_order, render_grid, row_spans, Cell, Color};

fn mk_state(id: u64, score: u32) -> PlayerState {
    PlayerState {
        id,
        name: format!("p{}", id),
        pos: Vec2 { x: 1_000, y: 1_000 },
        vel: Vec2 { x: 0, y: 0 },
        angle: 0,
        alive: true,
        score,
        combo: 0,
        kill_streak: 0,
        respawn_timer: None,
        effects: PlayerEffects::none(),
    }
}

#[test]
fn wrap_brings_coordinates_into_range_and_is_idempotent() {
    let cases = [
        Vec2 { x: -1, y: -1 },
        Vec2 { x: 240_000, y: 80_000 },
        Vec2 { x: 250_000, y: 90_000 },
        Vec2 { x: 0, y: 0 },
        Vec2 { x: 239_999, y: 79_999 },
    ];
    for p in cases {
        let w = wrap_position(p);
        assert!(w.x >= 0 && w.x < 240_000);
        assert!(w.y >= 0 && w.y < 80_000);
        let again = wrap_position(w);
        assert_eq!(w, again);
    }
    assert_eq!(wrap_position(Vec2 { x: -1, y: 80_000 }), Vec2 { x: 239_999, y: 0 });
}

#[test]
fn shortest_delta_picks_the_shorter_way_round() {
    // direct path
    assert_eq!(shortest_delta(10, 5, 240_000), 5);
    // wrapped path: from 239,990 to 10 the short way is 20 forward
    assert_eq!(shortest_delta(10, 239_990, 240_000), 20);
    assert_eq!(shortest_delta(239_990, 10, 240_000), -20);
    // magnitude never exceeds half the extent
    for (a, b) in [(0i64, 120_000i64), (200_000, 10_000), (119_999, 0)] {
        let d = shortest_delta(a, b, 240_000);
        assert!(d.abs() <= 120_000);
        // a - d is congruent to b modulo the extent
        assert_eq!((a - d - b).rem_euclid(240_000), 0);
    }
}

#[test]
fn wrapped_distance_crosses_the_seam() {
    let a = Vec2 { x: 239_900, y: 100 };
    let b = Vec2 { x: 100, y: 79_900 };
    // 200 apart on each axis across the seams
    assert_eq!(distance_squared_wrapped(a, b), 200 * 200 + 200 * 200);
}

#[test]
fn isqrt_is_exact() {
    for n in [0u64, 1, 2, 3, 4, 15, 16, 17, 1_000_000, 4_000_000_000] {
        let r = isqrt(n);
        assert!(r * r <= n);
        assert!((r + 1) * (r + 1) > n);
    }
}

#[test]
fn saturating_adds_saturate() {
    assert_eq!(sat_add(1, 2), 3);
    assert_eq!(sat_add(u64::MAX - 1, 5), u64::MAX);
    assert_eq!(sat_add32(u32::MAX, 1), u32::MAX);
}

#[test]
fn trig_table_and_sector_snap() {
    assert_eq!(sin_milli(0), 0);
    assert_eq!(sin_milli(6), 1000);
    assert_eq!(sin_milli(18), -1000);
    assert_eq!(cos_milli(0), 1000);
    assert_eq!(cos_milli(12), -1000);
    // nearest sector: one step left of a sector snaps up to it
    assert_eq!(snap_sector(0), 0);
    assert_eq!(snap_sector(1), 0);
    assert_eq!(snap_sector(2), 3);
    assert_eq!(snap_sector(22), 21);
    assert_eq!(snap_sector(23), 0);
    // rotation wraps
    assert_eq!(step_angle(0, -1), 23);
    assert_eq!(step_angle(23, 1), 0);
    assert_eq!(step_angle(5, 0), 5);
}

#[test]
fn speed_clamp_rescales_to_the_cap() {
    // below the cap: unchanged
    let v = Vec2 { x: 300, y: 400 };
    assert_eq!(clamp_speed(v, 1_250), v);
    // above the cap: rescaled, never component-clamped
    let fast = Vec2 { x: 2_000, y: 0 };
    let r = clamp_speed(fast, 1_250);
    assert_eq!(r.y, 0);
    assert!(r.x <= 1_250 && r.x >= 1_200);
    let diag = Vec2 { x: 2_000, y: 2_000 };
    let r = clamp_speed(diag, 1_250);
    assert_eq!(r.x, r.y);
    assert!(r.x * r.x + r.y * r.y <= 1_250 * 1_250);
}

#[test]
fn drag_decays_velocity_without_thrust() {
    let v = step_velocity(Vec2 { x: 800, y: -600 }, 0, false, false);
    assert_eq!(v, Vec2 { x: 788, y: -591 });
}

#[test]
fn thrust_accelerates_along_the_heading() {
    // heading 0 points along positive x; thrust adds 30 milli-units per tick
    let v = step_velocity(Vec2 { x: 0, y: 0 }, 0, true, false);
    assert_eq!(v, Vec2 { x: 29, y: 0 }); // 30 then drag: 30 * 985 / 1000
    // boosted thrust is half again as strong
    let v = step_velocity(Vec2 { x: 0, y: 0 }, 0, true, true);
    assert_eq!(v, Vec2 { x: 44, y: 0 });
}

#[test]
fn positions_wrap_on_integration() {
    let p = step_position(Vec2 { x: 239_900, y: 100 }, Vec2 { x: 200, y: -200 });
    assert_eq!(p, Vec2 { x: 100, y: 79_900 });
}

#[test]
fn rotate_vec_quarter_turn() {
    let r = rotate_vec(Vec2 { x: 1000, y: 0 }, 6);
    assert_eq!(r, Vec2 { x: 0, y: 1000 });
    let r = rotate_vec(Vec2 { x: 1000, y: 0 }, 12);
    assert_eq!(r, Vec2 { x: -1000, y: 0 });
}

#[test]
fn input_state_timeout_releases_stale_presses() {
    let mut input = InputState::default();
    input.thrust = true;
    input.thrust_at = Some(0);
    input.fire = true;
    input.fire_at = Some(100);
    input.check_timeout(150);
    assert!(!input.thrust); // 150 ms since press, beyond the 120 ms timeout
    assert!(input.fire); // 50 ms since press, still held
    input.clear();
    assert!(!input.fire);
    assert_eq!(input.fire_at, None);
}

#[test]
fn build_input_cancels_opposite_rotations() {
    let mut input = InputState::default();
    input.rotate_left = true;
    input.rotate_left_at = Some(0);
    input.rotate_right = true;
    input.rotate_right_at = Some(0);
    let msg = build_input(&mut input, 10);
    assert_eq!(msg.rotate, 0);
    input.rotate_right = false;
    let msg = build_input(&mut input, 10);
    assert_eq!(msg.rotate, -1);
}

#[test]
fn game_keys_drive_the_input_state() {
    let mut state = ClientState::new("me".to_string());
    handle_game_key(&mut state, Key::Char('w'), KeyKind::Press, 42);
    assert!(state.input.thrust);
    assert_eq!(state.input.thrust_at, Some(42));
    handle_game_key(&mut state, Key::Char('w'), KeyKind::Release, 50);
    assert!(!state.input.thrust);
    handle_game_key(&mut state, Key::Char(' '), KeyKind::Press, 60);
    assert!(state.input.fire);
    handle_game_key(&mut state, Key::Char('c'), KeyKind::Press, 70);
    assert!(matches!(state.mode, Mode::Chat));
    handle_game_key(&mut state, Key::Char('q'), KeyKind::Press, 80);
    assert!(state.should_quit);
}

#[test]
fn chat_keys_edit_and_submit() {
    let mut state = ClientState::new("me".to_string());
    state.mode = Mode::Chat;
    assert_eq!(handle_chat_key(&mut state, Key::Char(' '), false), None);
    assert_eq!(handle_chat_key(&mut state, Key::Char('h'), false), None);
    assert_eq!(handle_chat_key(&mut state, Key::Char('i'), false), None);
    assert_eq!(handle_chat_key(&mut state, Key::Char('!'), false), None);
    assert_eq!(handle_chat_key(&mut state, Key::Backspace, false), None);
    assert_eq!(state.chat_input, " hi");
    // submission trims surrounding whitespace
    let sent = handle_chat_key(&mut state, Key::Enter, false);
    assert_eq!(sent.as_deref(), Some("hi"));
    assert!(matches!(state.mode, Mode::Game));
    // a blank line is not sent
    state.mode = Mode::Chat;
    assert_eq!(handle_chat_key(&mut state, Key::Char(' '), false), None);
    assert_eq!(handle_chat_key(&mut state, Key::Enter, false), None);
}

#[test]
fn chat_scrollback_is_bounded() {
    let mut state = ClientState::new("me".to_string());
    for k in 0..250 {
        state.push_chat(format!("line {}", k));
    }
    assert_eq!(state.chat.len(), 200);
    assert_eq!(state.chat.last().map(|s| s.as_str()), Some("line 249"));
}

#[test]
fn death_flash_triggers_on_local_death() {
    let mut state = ClientState::new("me".to_string());
    state.apply_welcome(7);
    let mut me = mk_state(7, 0);
    me.alive = true;
    state.apply_state(vec![me.clone()], vec![], vec![], vec![], None, 1_000);
    assert_eq!(state.death_flash_until, None);
    me.alive = false;
    state.apply_state(vec![me], vec![], vec![], vec![], None, 2_000);
    assert_eq!(state.death_flash_until, Some(2_500));
}

#[test]
fn truncate_name_adds_ellipsis() {
    assert_eq!(truncate_name("ab", 8), "ab");
    assert_eq!(truncate_name("abcdefgh", 8), "abcdefgh");
    assert_eq!(truncate_name("abcdefghij", 8), "abcdefg\u{2026}");
}

#[test]
fn heading_glyphs_cover_the_eight_sectors() {
    assert_eq!(heading_glyph(0), '\u{2192}');
    assert_eq!(heading_glyph(6), '\u{2193}');
    assert_eq!(heading_glyph(12), '\u{2190}');
    assert_eq!(heading_glyph(18), '\u{2191}');
    assert_eq!(heading_glyph(23), '\u{2192}');
}

#[test]
fn leaderboard_sorts_scores_descending() {
    let players = vec![mk_state(1, 5), mk_state(2, 10), mk_state(3, 7)];
    let order = leaderboard_order(&players);
    assert_eq!(order, vec![1usize, 2, 0]);
}

#[test]
fn render_grid_has_the_requested_dimensions() {
    let mut state = ClientState::new("me".to_string());
    state.apply_welcome(1);
    state.players = vec![mk_state(1, 0)];
    let grid = render_grid(&state, 40, 12, true);
    assert_eq!(grid.len(), 12);
    for row in &grid {
        assert_eq!(row.len(), 40);
    }
    // the local ship is drawn somewhere as a heading arrow
    let arrows = ['\u{2192}', '\u{2198}', '\u{2193}', '\u{2199}', '\u{2190}', '\u{2196}',
        '\u{2191}', '\u{2197}'];
    assert!(grid.iter().any(|row| row.iter().any(|c| arrows.contains(&c.ch))));
}

#[test]
fn row_spans_preserve_every_character() {
    let row = vec![
        Cell { ch: 'a', color: Color::Plain },
        Cell { ch: 'b', color: Color::Plain },
        Cell { ch: 'c', color: Color::Red },
        Cell { ch: 'd', color: Color::Plain },
    ];
    let spans = row_spans(&row);
    assert_eq!(spans.len(), 3);
    assert_eq!(spans[0], ("ab".to_string(), Color::Plain));
    assert_eq!(spans[1], ("c".to_string(), Color::Red));
    assert_eq!(spans[2], ("d".to_string(), Color::Plain));
}

#[test]
fn effects_projection_round_trip() {
    let mut rt = PlayerRuntime::new(0);
    rt.shield_until = Some(9_000);
    rt.speed_boost_until = Some(100);
    let eff = rt.get_effects(1_000);
    assert_eq!(eff.shield_remaining, Some(8_000));
    assert_eq!(eff.speed_boost_remaining, None);
    assert!(rt.is_invincible(1_000));
    assert!(!rt.is_invincible(9_000));
}
