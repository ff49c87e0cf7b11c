use rusted_asteroids::entities::{
    AsteroidState, BulletRuntime, BulletState, PlayerEffects, PlayerInput, PlayerRuntime,
    PlayerState, PowerUpKind, PowerUpRuntime, PowerUpState,
};
use rusted_asteroids::protocol::{join_notice, welcome_msg, ServerMsg};
use rusted_asteroids::scoring::{apply_death, register_kill_combo};
use rusted_asteroids::torus::Vec2;
use rusted_asteroids::physics::step_velocity;
use rusted_asteroids::tick::split_children;
use rusted_asteroids::world::{spawn_asteroids, PlayerEntry, World};

fn mk_player(id: u64, name: &str, pos: Vec2) -> PlayerEntry {
    PlayerEntry {
        state: PlayerState {
            id,
            name: name.to_string(),
            pos,
            vel: Vec2 { x: 0, y: 0 },
            angle: 0,
            alive: true,
            score: 0,
            combo: 0,
            kill_streak: 0,
            respawn_timer: None,
            effects: PlayerEffects::none(),
        },
        rt: PlayerRuntime::new(0),
    }
}

fn empty_world() -> World {
    let mut w = World::new();
    w.asteroids = Vec::new();
    w
}

#[test]
fn combo_progression_within_window() {
    let mut rt = PlayerRuntime::new(0);
    register_kill_combo(&mut rt, 1000);
    assert_eq!(rt.combo, 1);
    register_kill_combo(&mut rt, 2000);
    assert_eq!(rt.combo, 2);
    register_kill_combo(&mut rt, 3500);
    assert_eq!(rt.combo, 3);
    // the window is 3000 ms; a kill after it elapses resets the combo
    register_kill_combo(&mut rt, 6500);
    assert_eq!(rt.combo, 1);
}

#[test]
fn combo_caps_at_ten() {
    let mut rt = PlayerRuntime::new(0);
    for k in 0..15 {
        register_kill_combo(&mut rt, 100 * (k + 1));
    }
    assert_eq!(rt.combo, 10);
}

#[test]
fn death_penalty_is_exact_and_never_negative() {
    let mut entry = mk_player(1, "A", Vec2 { x: 1000, y: 1000 });
    entry.state.score = 1000;
    apply_death(&mut entry.state, &mut entry.rt, 0);
    assert_eq!(entry.state.score, 850);
    assert!(!entry.state.alive);
    assert_eq!(entry.state.respawn_timer, Some(1500));
    entry.state.score = 1;
    for _ in 0..100 {
        apply_death(&mut entry.state, &mut entry.rt, 0);
    }
    assert_eq!(entry.state.score, 0);
}

#[test]
fn death_clears_combo_streak_and_effects() {
    let mut entry = mk_player(1, "A", Vec2 { x: 1000, y: 1000 });
    entry.rt.combo = 5;
    entry.rt.kill_streak = 7;
    entry.rt.shield_until = Some(99_999);
    entry.rt.rapid_fire_until = Some(99_999);
    apply_death(&mut entry.state, &mut entry.rt, 100);
    assert_eq!(entry.rt.combo, 0);
    assert_eq!(entry.rt.kill_streak, 0);
    assert_eq!(entry.rt.shield_until, None);
    assert_eq!(entry.rt.rapid_fire_until, None);
    assert_eq!(entry.rt.respawn_at, Some(1600));
}

#[test]
fn shielded_player_survives_asteroid_overlap() {
    let mut w = empty_world();
    let mut p = mk_player(1, "A", Vec2 { x: 10_000, y: 10_000 });
    p.rt.shield_until = Some(1_000_000);
    w.players.push(p);
    w.asteroids.push(AsteroidState {
        id: 99,
        pos: Vec2 { x: 10_000, y: 10_000 },
        vel: Vec2 { x: 0, y: 0 },
        size: 3,
    });
    w.tick();
    assert!(w.players[0].state.alive);
    assert_eq!(w.players[0].state.respawn_timer, None);
}

#[test]
fn spawn_invincible_player_survives_pvp_bullet() {
    let mut w = empty_world();
    let shooter = mk_player(1, "A", Vec2 { x: 50_000, y: 50_000 });
    let mut target = mk_player(2, "B", Vec2 { x: 10_000, y: 10_000 });
    target.rt.invincible_until = Some(1_000_000);
    w.players.push(shooter);
    w.players.push(target);
    w.bullets.push(BulletRuntime {
        state: BulletState {
            id: 7,
            owner_id: 1,
            pos: Vec2 { x: 10_000, y: 10_000 },
            vel: Vec2 { x: 0, y: 0 },
        },
        ttl_ms: 1000,
    });
    w.tick();
    assert!(w.players[1].state.alive);
}

#[test]
fn unshielded_player_dies_to_asteroid_with_penalty() {
    let mut w = empty_world();
    let mut p = mk_player(1, "A", Vec2 { x: 10_000, y: 10_000 });
    p.state.score = 400;
    w.players.push(p);
    w.asteroids.push(AsteroidState {
        id: 99,
        pos: Vec2 { x: 10_000, y: 10_000 },
        vel: Vec2 { x: 0, y: 0 },
        size: 1,
    });
    w.tick();
    assert!(!w.players[0].state.alive);
    assert_eq!(w.players[0].state.score, 340);
    assert!(w.players[0].rt.respawn_at.is_some());
}

#[test]
fn splitting_size_three_gives_two_size_two_children() {
    let parent = AsteroidState {
        id: 1,
        pos: Vec2 { x: 5_000, y: 5_000 },
        vel: Vec2 { x: 100, y: 50 },
        size: 3,
    };
    let mut next_id = 10;
    let children = split_children(&parent, &mut next_id).expect("children");
    assert_eq!(children.0.size, 2);
    assert_eq!(children.1.size, 2);

    let smallest = AsteroidState { size: 1, ..parent };
    let mut next_id = 10;
    assert!(split_children(&smallest, &mut next_id).is_none());
}

#[test]
fn asteroid_count_from_one_wave_stays_bounded() {
    // destroy everything repeatedly; the live count never exceeds four times
    // the per-wave spawn cap
    let mut w = World::new();
    w.players.push(mk_player(1, "A", Vec2 { x: 1_000, y: 1_000 }));
    for _ in 0..200 {
        assert!(w.asteroids.len() <= 400);
        // hit every asteroid with a synthetic bullet directly on top of it
        let bullets: Vec<BulletRuntime> = w
            .asteroids
            .iter()
            .enumerate()
            .map(|(k, a)| BulletRuntime {
                state: BulletState {
                    id: 100_000 + k as u64,
                    owner_id: 1,
                    pos: a.pos,
                    vel: Vec2 { x: 0, y: 0 },
                },
                ttl_ms: 1000,
            })
            .collect();
        w.bullets = bullets;
        w.resolve_bullet_asteroid();
        if w.asteroids.is_empty() {
            break;
        }
    }
    assert!(w.asteroids.len() <= 400);
}

#[test]
fn wave_countdown_then_larger_wave() {
    let mut w = empty_world();
    w.now_ms = 10_000;
    assert_eq!(w.current_wave, 1);
    w.update_wave();
    assert_eq!(w.wave_countdown, Some(13_000));
    assert!(w.asteroids.is_empty());
    // before the delay elapses nothing happens
    w.now_ms = 12_999;
    w.update_wave();
    assert_eq!(w.wave_countdown, Some(13_000));
    assert!(w.asteroids.is_empty());
    // once it elapses the next wave appears, larger by the increment
    w.now_ms = 13_000;
    w.update_wave();
    assert_eq!(w.current_wave, 2);
    assert_eq!(w.asteroids.len(), 55);
    assert_eq!(w.wave_countdown, None);
}

#[test]
fn wave_count_is_capped() {
    let mut w = empty_world();
    w.current_wave = 30;
    w.wave_countdown = Some(0);
    w.now_ms = 5;
    w.update_wave();
    assert_eq!(w.current_wave, 31);
    assert_eq!(w.asteroids.len(), 100);
}

#[test]
fn join_handshake_and_first_snapshot() {
    let mut w = World::new();
    let id = w.register_client();
    assert_eq!(id, 1);
    match welcome_msg(id) {
        ServerMsg::Welcome { id: wid, tick_hz } => {
            assert_eq!(wid, id);
            assert_eq!(tick_hz, 20);
        }
        _ => panic!("expected a welcome"),
    }
    assert_eq!(join_notice("A"), "A joined the room");
    w.handle_join(id, "A".to_string());
    w.tick();
    let snap = w.snapshot();
    let me = snap.players.iter().find(|p| p.id == id).expect("joined player");
    assert!(me.alive);
    assert_eq!(me.score, 0);
    assert!(me.pos.x >= 0 && me.pos.x < 240_000);
    assert!(me.pos.y >= 0 && me.pos.y < 80_000);
    assert_eq!(snap.wave.wave_number, 1);
}

#[test]
fn pvp_kill_updates_target_shooter_and_bullet() {
    let mut w = empty_world();
    let shooter = mk_player(1, "A", Vec2 { x: 50_000, y: 50_000 });
    let mut target = mk_player(2, "B", Vec2 { x: 10_000, y: 10_000 });
    target.state.score = 100;
    w.players.push(shooter);
    w.players.push(target);
    w.bullets.push(BulletRuntime {
        state: BulletState {
            id: 7,
            owner_id: 1,
            pos: Vec2 { x: 10_000, y: 10_000 },
            vel: Vec2 { x: 0, y: 0 },
        },
        ttl_ms: 1000,
    });
    w.tick();
    let snap = w.snapshot();
    let target = snap.players.iter().find(|p| p.id == 2).unwrap();
    assert!(!target.alive);
    assert!(target.respawn_timer.unwrap() > 0);
    assert_eq!(target.score, 85);
    let shooter = snap.players.iter().find(|p| p.id == 1).unwrap();
    assert_eq!(shooter.score, 200);
    assert_eq!(shooter.kill_streak, 1);
    // the consumed bullet is gone
    assert!(snap.bullets.is_empty());
}

#[test]
fn bullet_leaving_the_rectangle_is_absent_from_next_snapshot() {
    let mut w = empty_world();
    w.players.push(mk_player(1, "A", Vec2 { x: 50_000, y: 50_000 }));
    w.bullets.push(BulletRuntime {
        state: BulletState {
            id: 5,
            owner_id: 1,
            pos: Vec2 { x: 239_500, y: 40_000 },
            vel: Vec2 { x: 1_500, y: 0 },
        },
        ttl_ms: 2_000,
    });
    w.bullets.push(BulletRuntime {
        state: BulletState {
            id: 6,
            owner_id: 1,
            pos: Vec2 { x: 100_000, y: 40_000 },
            vel: Vec2 { x: 1_500, y: 0 },
        },
        ttl_ms: 2_000,
    });
    w.tick();
    let snap = w.snapshot();
    assert!(snap.bullets.iter().all(|b| b.id != 5));
    assert!(snap.bullets.iter().any(|b| b.id == 6));
}

#[test]
fn bullet_ttl_expiry_removes_it() {
    let mut w = empty_world();
    w.bullets.push(BulletRuntime {
        state: BulletState {
            id: 5,
            owner_id: 1,
            pos: Vec2 { x: 100_000, y: 40_000 },
            vel: Vec2 { x: 0, y: 0 },
        },
        ttl_ms: 50,
    });
    w.tick();
    assert!(w.bullets.is_empty());
}

#[test]
fn asteroid_kill_scores_with_combo_multiplier() {
    let mut w = empty_world();
    w.players.push(mk_player(1, "A", Vec2 { x: 50_000, y: 50_000 }));
    w.asteroids.push(AsteroidState {
        id: 900,
        pos: Vec2 { x: 10_000, y: 10_000 },
        vel: Vec2 { x: 0, y: 0 },
        size: 1,
    });
    w.bullets.push(BulletRuntime {
        state: BulletState {
            id: 7,
            owner_id: 1,
            pos: Vec2 { x: 10_000, y: 10_000 },
            vel: Vec2 { x: 0, y: 0 },
        },
        ttl_ms: 1000,
    });
    w.resolve_bullet_asteroid();
    assert_eq!(w.players[0].state.score, 100); // smallest class, combo 1
    assert_eq!(w.players[0].rt.combo, 1);
    assert!(w.asteroids.is_empty());
    assert!(w.bullets.is_empty());
}

#[test]
fn power_up_pickup_grants_effect_and_removes_power_up() {
    let mut w = empty_world();
    w.now_ms = 1_000;
    w.players.push(mk_player(1, "A", Vec2 { x: 10_000, y: 10_000 }));
    w.power_ups.push(PowerUpRuntime {
        state: PowerUpState {
            id: 77,
            pos: Vec2 { x: 10_500, y: 10_000 },
            kind: PowerUpKind::Shield,
        },
        expires_at: 100_000,
    });
    w.resolve_power_up_pickup();
    assert_eq!(w.players[0].rt.shield_until, Some(9_000));
    assert!(w.power_ups.is_empty());
}

#[test]
fn two_players_both_claim_one_power_up() {
    let mut w = empty_world();
    w.now_ms = 1_000;
    w.players.push(mk_player(1, "A", Vec2 { x: 10_000, y: 10_000 }));
    w.players.push(mk_player(2, "B", Vec2 { x: 11_000, y: 10_000 }));
    w.power_ups.push(PowerUpRuntime {
        state: PowerUpState {
            id: 77,
            pos: Vec2 { x: 10_500, y: 10_000 },
            kind: PowerUpKind::RapidFire,
        },
        expires_at: 100_000,
    });
    w.resolve_power_up_pickup();
    assert_eq!(w.players[0].rt.rapid_fire_until, Some(9_000));
    assert_eq!(w.players[1].rt.rapid_fire_until, Some(9_000));
    assert!(w.power_ups.is_empty());
}

#[test]
fn expired_power_up_disappears() {
    let mut w = empty_world();
    w.now_ms = 20_000;
    w.power_ups.push(PowerUpRuntime {
        state: PowerUpState {
            id: 77,
            pos: Vec2 { x: 10_500, y: 10_000 },
            kind: PowerUpKind::SpeedBoost,
        },
        expires_at: 19_000,
    });
    w.expire_power_ups();
    assert!(w.power_ups.is_empty());
}

#[test]
fn respawn_after_countdown_grants_fresh_invincibility() {
    let mut w = empty_world();
    let mut p = mk_player(1, "A", Vec2 { x: 10_000, y: 10_000 });
    p.state.alive = false;
    p.rt.respawn_at = Some(100);
    w.players.push(p);
    w.now_ms = 150;
    w.process_respawns();
    let p = &w.players[0];
    assert!(p.state.alive);
    assert_eq!(p.state.vel, Vec2 { x: 0, y: 0 });
    assert_eq!(p.rt.respawn_at, None);
    assert_eq!(p.rt.invincible_until, Some(150 + 2_500));
}

#[test]
fn effects_are_projected_as_remaining_durations() {
    let mut w = empty_world();
    let mut p = mk_player(1, "A", Vec2 { x: 10_000, y: 10_000 });
    p.rt.shield_until = Some(10_000);
    w.players.push(p);
    w.now_ms = 4_000;
    w.project_effects();
    assert_eq!(w.players[0].state.effects.shield_remaining, Some(6_000));
    assert_eq!(w.players[0].state.effects.rapid_fire_remaining, None);
}

#[test]
fn firing_respects_cooldown_and_spawns_a_bullet() {
    let mut w = empty_world();
    let mut p = mk_player(1, "A", Vec2 { x: 50_000, y: 50_000 });
    p.rt.input = PlayerInput { thrust: false, rotate: 0, fire: true };
    p.rt.last_fire_ms = 0;
    w.players.push(p);
    // three ticks in: 150 ms since the last shot, below the 200 ms cooldown
    w.tick();
    w.tick();
    w.tick();
    assert!(w.bullets.is_empty());
    // the fourth tick reaches 200 ms and fires exactly one bullet
    w.tick();
    assert_eq!(w.bullets.len(), 1);
    assert_eq!(w.bullets[0].state.owner_id, 1);
}

#[test]
fn triple_shot_fires_three_bullets() {
    let mut w = empty_world();
    let mut p = mk_player(1, "A", Vec2 { x: 50_000, y: 50_000 });
    p.rt.input = PlayerInput { thrust: false, rotate: 0, fire: true };
    p.rt.triple_shot_until = Some(1_000_000);
    w.players.push(p);
    w.now_ms = 10_000;
    w.integrate_players();
    assert_eq!(w.bullets.len(), 3);
}

#[test]
fn disconnect_removes_the_player() {
    let mut w = World::new();
    w.handle_join(1, "A".to_string());
    assert_eq!(w.players.len(), 1);
    let name = w.remove_player(1);
    assert_eq!(name.as_deref(), Some("A"));
    assert!(w.players.is_empty());
    assert_eq!(w.remove_player(1), None);
}

#[test]
fn input_is_buffered_and_normalized() {
    let mut w = World::new();
    w.handle_join(9, "A".to_string());
    w.handle_input(9, PlayerInput { thrust: true, rotate: 100, fire: false });
    assert!(w.players[0].rt.input.thrust);
    assert_eq!(w.players[0].rt.input.rotate, 1);
    // input for an unknown id is a no-op, not an error
    w.handle_input(42, PlayerInput { thrust: true, rotate: 0, fire: true });
    assert_eq!(w.players.len(), 1);
}

#[test]
fn spawned_asteroids_are_well_formed() {
    let mut next_id = 1;
    let asts = spawn_asteroids(40, &mut next_id);
    assert_eq!(asts.len(), 40);
    for a in &asts {
        assert!(a.pos.x >= 0 && a.pos.x < 240_000);
        assert!(a.pos.y >= 0 && a.pos.y < 80_000);
        assert!(a.size >= 1 && a.size <= 3);
    }
}

#[test]
fn full_respawn_cycle_through_ticks() {
    let mut w = empty_world();
    let mut p = mk_player(1, "A", Vec2 { x: 10_000, y: 10_000 });
    p.rt.invincible_until = None;
    w.players.push(p);
    w.asteroids.push(AsteroidState {
        id: 99,
        pos: Vec2 { x: 10_000, y: 10_000 },
        vel: Vec2 { x: 0, y: 0 },
        size: 2,
    });
    w.tick();
    assert!(!w.players[0].state.alive);
    // the respawn delay is 1500 ms = 30 ticks; ride them out
    for _ in 0..30 {
        w.tick();
    }
    assert!(w.players[0].state.alive);
    assert_eq!(w.players[0].state.vel, Vec2 { x: 0, y: 0 });
    // and the fresh spawn-invincibility window is active
    assert!(w.players[0].rt.is_invincible(w.now_ms));
    assert!(w.players[0].state.effects.invincible_remaining.is_some());
}

#[test]
fn rapid_fire_shortens_the_cooldown() {
    let mut w = empty_world();
    let mut p = mk_player(1, "A", Vec2 { x: 50_000, y: 50_000 });
    p.rt.input = PlayerInput { thrust: false, rotate: 0, fire: true };
    p.rt.rapid_fire_until = Some(1_000_000);
    w.players.push(p);
    // with rapid fire the cooldown is 80 ms, reached on the second tick
    w.tick();
    assert!(w.bullets.is_empty());
    w.tick();
    assert_eq!(w.bullets.len(), 1);
}

#[test]
fn kill_streak_bonus_arrives_every_third_kill() {
    let mut w = empty_world();
    w.players.push(mk_player(1, "A", Vec2 { x: 50_000, y: 50_000 }));
    for k in 0..3u64 {
        let mut victim = mk_player(10 + k, "V", Vec2 { x: 10_000, y: 10_000 });
        victim.rt.invincible_until = None;
        w.players.push(victim);
        w.bullets.push(BulletRuntime {
            state: BulletState {
                id: 500 + k,
                owner_id: 1,
                pos: Vec2 { x: 10_000, y: 10_000 },
                vel: Vec2 { x: 0, y: 0 },
            },
            ttl_ms: 1000,
        });
        w.resolve_pvp();
        let _ = w.remove_player(10 + k);
    }
    // 200 + 200 + (200 + 100): the third consecutive kill earns the bonus
    assert_eq!(w.players[0].state.score, 700);
    assert_eq!(w.players[0].state.kill_streak, 3);
}

#[test]
fn speed_boost_raises_the_cap() {
    // at the unboosted cap, a boosted ship may go faster
    let v = Vec2 { x: 1_250, y: 0 };
    let plain = step_velocity(v, 0, true, false);
    let boosted = step_velocity(v, 0, true, true);
    assert!(plain.x <= 1_250);
    assert!(boosted.x > plain.x);
}
