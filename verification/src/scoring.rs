//! Scoring rules: combo progression on asteroid kills, the kill-streak bonus
//! on player-versus-player kills, and the death penalty.

use vstd::prelude::*;
use crate::entities::{PlayerState, PlayerRuntime, COMBO_TIMEOUT_MS, MAX_COMBO,
    KILL_STREAK_BONUS_INTERVAL, KILL_STREAK_BONUS_POINTS, PVP_KILL_POINTS, DEATH_PENALTY_PCT,
    RESPAWN_DELAY_MS};
use crate::math::{sat_add, sat_add32, spec_sat_add, spec_sat_add32};

verus! {

/// Whether a kill at `now` falls within the combo window of the previous
/// kill.
pub open spec fn combo_window_active(last_kill: Option<u64>, now: u64) -> bool {
    match last_kill {
        Some(t) => now < t + COMBO_TIMEOUT_MS,
        None => false,
    }
}

/// The combo value after a kill at `now`: one more (capped) if the previous
/// kill was within the timeout window, else back to 1.
pub open spec fn spec_next_combo(combo: u32, last_kill: Option<u64>, now: u64) -> u32 {
    if combo_window_active(last_kill, now) {
        if combo + 1 <= MAX_COMBO {
            (combo + 1) as u32
        } else {
            MAX_COMBO
        }
    } else {
        1
    }
}

/// Record an asteroid kill on the shooter's runtime: advance the combo and
/// stamp the kill time.
pub fn register_kill_combo(rt: &mut PlayerRuntime, now: u64)
    ensures
        final(rt).combo == spec_next_combo(old(rt).combo, old(rt).last_kill_ms, now),
        final(rt).last_kill_ms == Some(now),
        final(rt).combo <= MAX_COMBO,
        1 <= final(rt).combo,
        final(rt).input == old(rt).input,
        final(rt).last_fire_ms == old(rt).last_fire_ms,
        final(rt).invincible_until == old(rt).invincible_until,
        final(rt).respawn_at == old(rt).respawn_at,
        final(rt).kill_streak == old(rt).kill_streak,
        final(rt).shield_until == old(rt).shield_until,
        final(rt).rapid_fire_until == old(rt).rapid_fire_until,
        final(rt).triple_shot_until == old(rt).triple_shot_until,
        final(rt).speed_boost_until == old(rt).speed_boost_until,
{
    let active = match rt.last_kill_ms {
        Some(t) => t > now || now - t < COMBO_TIMEOUT_MS,
        None => false,
    };
    if active {
        if rt.combo < MAX_COMBO {
            rt.combo = rt.combo + 1;
        } else {
            rt.combo = MAX_COMBO;
        }
    } else {
        rt.combo = 1;
    }
    rt.last_kill_ms = Some(now);
}

/// Three kills by the same player, each within the timeout window of the one
/// before, carry the combo through 1, 2, 3; a fourth kill after the window
/// has elapsed resets it to 1.
pub proof fn lemma_combo_progression(t1: u64, t2: u64, t3: u64, t4: u64)
    requires
        t2 < t1 + COMBO_TIMEOUT_MS,
        t3 < t2 + COMBO_TIMEOUT_MS,
        t4 >= t3 + COMBO_TIMEOUT_MS,
    ensures
        spec_next_combo(0, None, t1) == 1,
        spec_next_combo(1, Some(t1), t2) == 2,
        spec_next_combo(2, Some(t2), t3) == 3,
        spec_next_combo(3, Some(t3), t4) == 1,
{
}

/// The combo never exceeds its cap.
pub proof fn lemma_combo_capped(combo: u32, last_kill: Option<u64>, now: u64)
    ensures
        1 <= spec_next_combo(combo, last_kill, now),
        spec_next_combo(combo, last_kill, now) <= MAX_COMBO,
{
}

/// The score after a death: reduced by the death-penalty percentage with
/// integer truncation.
pub open spec fn spec_death_penalty(score: u32) -> u32 {
    (score * (100 - DEATH_PENALTY_PCT) / 100) as u32
}

/// The death penalty takes exactly the configured percentage (truncated) and
/// the score never falls below zero, however many deaths are applied.
pub proof fn lemma_death_penalty_bounds(score: u32)
    ensures
        spec_death_penalty(score) == score * (100 - DEATH_PENALTY_PCT) / 100,
        0 <= spec_death_penalty(score) <= score,
{
    assert(score * 85 >= 0) by (nonlinear_arith);
    assert(score * 85 / 100 <= score) by (nonlinear_arith);
    assert(score * 85 <= u32::MAX * 85) by (nonlinear_arith)
        requires score <= u32::MAX;
}

/// Apply a death to the victim: mark them dead, take the score penalty, set
/// the respawn countdown, and clear the combo, the kill streak, and every
/// timed power-up effect.
pub fn apply_death(state: &mut PlayerState, rt: &mut PlayerRuntime, now: u64)
    ensures
        !final(state).alive,
        final(state).score == spec_death_penalty(old(state).score),
        final(state).score <= old(state).score,
        final(state).respawn_timer == Some(RESPAWN_DELAY_MS),
        final(state).id == old(state).id,
        final(state).name == old(state).name,
        final(state).pos == old(state).pos,
        final(state).vel == old(state).vel,
        final(state).angle == old(state).angle,
        final(state).combo == old(state).combo,
        final(state).kill_streak == old(state).kill_streak,
        final(state).effects == old(state).effects,
        final(rt).respawn_at == Some(spec_sat_add(now, RESPAWN_DELAY_MS)),
        final(rt).combo == 0,
        final(rt).kill_streak == 0,
        final(rt).shield_until is None,
        final(rt).rapid_fire_until is None,
        final(rt).triple_shot_until is None,
        final(rt).speed_boost_until is None,
        final(rt).input == old(rt).input,
        final(rt).last_fire_ms == old(rt).last_fire_ms,
        final(rt).invincible_until == old(rt).invincible_until,
        final(rt).last_kill_ms == old(rt).last_kill_ms,
{
    proof {
        lemma_death_penalty_bounds(state.score);
    }
    let scaled: u64 = (state.score as u64) * ((100 - DEATH_PENALTY_PCT) as u64) / 100;
    proof {
        assert(scaled <= u32::MAX) by (nonlinear_arith)
            requires scaled == (state.score as u64) * 85u64 / 100 && state.score <= u32::MAX;
    }
    state.alive = false;
    state.score = scaled as u32;
    state.respawn_timer = Some(RESPAWN_DELAY_MS);
    rt.respawn_at = Some(sat_add(now, RESPAWN_DELAY_MS));
    rt.combo = 0;
    rt.kill_streak = 0;
    rt.shield_until = None;
    rt.rapid_fire_until = None;
    rt.triple_shot_until = None;
    rt.speed_boost_until = None;
}

/// The bonus a shooter earns on top of the flat points for a
/// player-versus-player kill, periodic in the kill streak.
pub open spec fn spec_streak_bonus(streak: u32) -> u32 {
    if streak % KILL_STREAK_BONUS_INTERVAL == 0 {
        KILL_STREAK_BONUS_POINTS
    } else {
        0
    }
}

/// Credit a player-versus-player kill to the shooter: increment the kill
/// streak and award the flat points plus the periodic streak bonus.
pub fn credit_pvp_kill(state: &mut PlayerState, rt: &mut PlayerRuntime)
    ensures
        final(rt).kill_streak == spec_sat_add32(old(rt).kill_streak, 1),
        final(state).kill_streak == final(rt).kill_streak,
        final(state).score == spec_sat_add32(
            old(state).score,
            spec_sat_add32(PVP_KILL_POINTS, spec_streak_bonus(final(rt).kill_streak)),
        ),
        final(state).id == old(state).id,
        final(state).name == old(state).name,
        final(state).pos == old(state).pos,
        final(state).vel == old(state).vel,
        final(state).angle == old(state).angle,
        final(state).alive == old(state).alive,
        final(state).combo == old(state).combo,
        final(state).respawn_timer == old(state).respawn_timer,
        final(state).effects == old(state).effects,
        final(rt).input == old(rt).input,
        final(rt).last_fire_ms == old(rt).last_fire_ms,
        final(rt).invincible_until == old(rt).invincible_until,
        final(rt).respawn_at == old(rt).respawn_at,
        final(rt).last_kill_ms == old(rt).last_kill_ms,
        final(rt).combo == old(rt).combo,
        final(rt).shield_until == old(rt).shield_until,
        final(rt).rapid_fire_until == old(rt).rapid_fire_until,
        final(rt).triple_shot_until == old(rt).triple_shot_until,
        final(rt).speed_boost_until == old(rt).speed_boost_until,
{
    rt.kill_streak = sat_add32(rt.kill_streak, 1);
    let bonus = if rt.kill_streak % KILL_STREAK_BONUS_INTERVAL == 0 {
        KILL_STREAK_BONUS_POINTS
    } else {
        0
    };
    state.score = sat_add32(state.score, sat_add32(PVP_KILL_POINTS, bonus));
    state.kill_streak = rt.kill_streak;
}

} // verus!
