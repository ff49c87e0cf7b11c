//! The entity model: players, asteroids, bullets, power-ups, and the
//! per-player runtime record, together with the gameplay constants and the
//! well-formedness predicates that the engine maintains.
//!
//! Distances are milli-units, velocities milli-units per tick, durations and
//! instants milliseconds of simulation clock, headings twenty-fourths of a
//! turn.

use vstd::prelude::*;
use crate::torus::{Vec2, in_world, WORLD_WIDTH, WORLD_HEIGHT};

verus! {

/// Simulation ticks per second.
pub const TICK_HZ: u32 = 20;

/// Length of one tick in milliseconds.
pub const TICK_MS: u64 = 50;

/// Velocity gained per tick of thrust, milli-units per tick.
pub const THRUST_DV: i64 = 30;

/// Multiplicative damping applied to player velocity every tick, in
/// thousandths.
pub const DRAG_MILLI: i64 = 985;

/// Player speed cap, milli-units per tick.
pub const MAX_SPEED: i64 = 1250;

/// Bullet speed, milli-units per tick.
pub const BULLET_SPEED: i64 = 1500;

/// Cooldown between shots, milliseconds.
pub const FIRE_COOLDOWN_MS: u64 = 200;

/// Cooldown between shots while rapid fire is active, milliseconds.
pub const RAPID_FIRE_COOLDOWN_MS: u64 = 80;

/// Bullet time to live, milliseconds.
pub const BULLET_TTL_MS: i64 = 2500;

/// Asteroids spawned at server start and the base of each wave.
pub const ASTEROID_COUNT: u64 = 50;

/// Extra asteroids per wave beyond the first.
pub const ASTEROIDS_PER_WAVE: u64 = 5;

/// Cap on asteroids spawned for one wave.
pub const WAVE_SPAWN_CAP: u64 = 100;

/// Delay between an emptied asteroid field and the next wave, milliseconds.
pub const WAVE_COUNTDOWN_MS: u64 = 3000;

/// Invincibility granted on spawn and respawn, milliseconds.
pub const SPAWN_INVINCIBILITY_MS: u64 = 2500;

/// Delay before a dead player respawns, milliseconds.
pub const RESPAWN_DELAY_MS: u64 = 1500;

/// Minimum separation from every asteroid for a safe spawn, milli-units.
pub const SAFE_SPAWN_RADIUS: i64 = 8000;

/// Percent chance that a destroyed asteroid drops a power-up.
pub const POWERUP_SPAWN_PCT: u64 = 30;

/// Duration of a picked-up effect, milliseconds.
pub const POWERUP_DURATION_MS: u64 = 8000;

/// Time to live of a dropped power-up, milliseconds.
pub const POWERUP_TTL_MS: u64 = 15000;

/// Power-up pickup radius, milli-units.
pub const POWERUP_RADIUS: i64 = 1500;

/// Kills within this window of the previous kill extend the combo,
/// milliseconds.
pub const COMBO_TIMEOUT_MS: u64 = 3000;

/// Cap on the combo counter.
pub const MAX_COMBO: u32 = 10;

/// Every this many consecutive kills earns the streak bonus.
pub const KILL_STREAK_BONUS_INTERVAL: u32 = 3;

/// Points of the periodic kill-streak bonus.
pub const KILL_STREAK_BONUS_POINTS: u32 = 100;

/// Flat points for a player-versus-player kill.
pub const PVP_KILL_POINTS: u32 = 200;

/// Percent of score lost on death.
pub const DEATH_PENALTY_PCT: u32 = 15;

/// Thrust and speed-cap multiplier while speed boost is active, in
/// thousandths.
pub const SPEED_BOOST_MILLI: i64 = 1500;

/// Player collision radius, milli-units.
pub const PLAYER_RADIUS: i64 = 1500;

/// Bullet collision radius, milli-units.
pub const BULLET_RADIUS: i64 = 500;

/// Angular offset of the outer bullets of a triple shot, in heading steps.
pub const TRIPLE_SHOT_SPREAD: u64 = 1;

/// Bound on the magnitude of each player velocity component.
pub const PLAYER_VEL_BOUND: i64 = 2000;

/// Bound on the magnitude of each asteroid velocity component.
pub const ASTEROID_VEL_BOUND: i64 = 2000;

/// Cap on the speed of an asteroid split child, milli-units per tick.
pub const SPLIT_SPEED_CAP: i64 = 1000;

/// The kinds of power-up an asteroid can drop.
#[derive(Clone, Copy, Debug, PartialEq, Eq, Structural)]
pub enum PowerUpKind {
    Shield,
    RapidFire,
    TripleShot,
    SpeedBoost,
}

/// A power-up floating in the world, as broadcast to clients.
#[derive(Clone, Copy, Debug)]
pub struct PowerUpState {
    pub id: u64,
    pub pos: Vec2,
    pub kind: PowerUpKind,
}

/// Remaining duration of each effect in milliseconds, projected for the
/// snapshot; `None` where the effect is inactive.
#[derive(Clone, Copy, Debug)]
pub struct PlayerEffects {
    pub shield_remaining: Option<u64>,
    pub rapid_fire_remaining: Option<u64>,
    pub triple_shot_remaining: Option<u64>,
    pub speed_boost_remaining: Option<u64>,
    pub invincible_remaining: Option<u64>,
}

impl PlayerEffects {
    /// All effects inactive.
    pub fn none() -> (r: PlayerEffects)
        ensures
            r.shield_remaining is None,
            r.rapid_fire_remaining is None,
            r.triple_shot_remaining is None,
            r.speed_boost_remaining is None,
            r.invincible_remaining is None,
    {
        PlayerEffects {
            shield_remaining: None,
            rapid_fire_remaining: None,
            triple_shot_remaining: None,
            speed_boost_remaining: None,
            invincible_remaining: None,
        }
    }
}

/// Wave progress, as broadcast to clients. `countdown` is the remaining
/// milliseconds before the next wave, present only while the field is empty.
#[derive(Clone, Copy, Debug)]
pub struct WaveInfo {
    pub wave_number: u32,
    pub asteroids_remaining: u32,
    pub countdown: Option<u64>,
}

/// The latest input a client submitted: absolute, latest wins.
#[derive(Clone, Copy, Debug)]
pub struct PlayerInput {
    pub thrust: bool,
    pub rotate: i8,
    pub fire: bool,
}

impl PlayerInput {
    /// Neutral input: no thrust, no rotation, no fire.
    pub fn neutral() -> (r: PlayerInput)
        ensures
            !r.thrust,
            r.rotate == 0,
            !r.fire,
    {
        PlayerInput { thrust: false, rotate: 0, fire: false }
    }
}

/// A player, as broadcast to clients. `respawn_timer` is the remaining
/// milliseconds before respawn, present only while dead.
#[derive(Clone, Debug)]
pub struct PlayerState {
    pub id: u64,
    pub name: String,
    pub pos: Vec2,
    pub vel: Vec2,
    pub angle: u64,
    pub alive: bool,
    pub score: u32,
    pub combo: u32,
    pub kill_streak: u32,
    pub respawn_timer: Option<u64>,
    pub effects: PlayerEffects,
}

impl PlayerState {
    /// A field-by-field copy for the snapshot.
    pub fn duplicate(&self) -> (r: PlayerState)
        ensures
            r.id == self.id,
            r.name@ == self.name@,
            r.pos == self.pos,
            r.vel == self.vel,
            r.angle == self.angle,
            r.alive == self.alive,
            r.score == self.score,
            r.combo == self.combo,
            r.kill_streak == self.kill_streak,
            r.respawn_timer == self.respawn_timer,
            r.effects == self.effects,
    {
        PlayerState {
            id: self.id,
            name: self.name.clone(),
            pos: self.pos,
            vel: self.vel,
            angle: self.angle,
            alive: self.alive,
            score: self.score,
            combo: self.combo,
            kill_streak: self.kill_streak,
            respawn_timer: self.respawn_timer,
            effects: self.effects,
        }
    }
}

/// An asteroid. `size` is the size class: 3 largest, 1 smallest.
#[derive(Clone, Copy, Debug)]
pub struct AsteroidState {
    pub id: u64,
    pub pos: Vec2,
    pub vel: Vec2,
    pub size: u8,
}

/// A bullet in flight.
#[derive(Clone, Copy, Debug)]
pub struct BulletState {
    pub id: u64,
    pub owner_id: u64,
    pub pos: Vec2,
    pub vel: Vec2,
}

/// Per-player runtime record: buffered input, cooldown and combo gating, and
/// the absolute expiry instant of each timed effect.
#[derive(Clone, Copy, Debug)]
pub struct PlayerRuntime {
    pub input: PlayerInput,
    pub last_fire_ms: u64,
    pub invincible_until: Option<u64>,
    pub respawn_at: Option<u64>,
    pub last_kill_ms: Option<u64>,
    pub combo: u32,
    pub kill_streak: u32,
    pub shield_until: Option<u64>,
    pub rapid_fire_until: Option<u64>,
    pub triple_shot_until: Option<u64>,
    pub speed_boost_until: Option<u64>,
}

/// A bullet with its remaining time to live in milliseconds.
#[derive(Clone, Copy, Debug)]
pub struct BulletRuntime {
    pub state: BulletState,
    pub ttl_ms: i64,
}

/// A power-up with its absolute expiry instant.
#[derive(Clone, Copy, Debug)]
pub struct PowerUpRuntime {
    pub state: PowerUpState,
    pub expires_at: u64,
}

/// An absolute expiry instant that has not yet passed.
pub open spec fn active_at(until: Option<u64>, now: u64) -> bool {
    match until {
        Some(t) => now < t,
        None => false,
    }
}

impl PlayerRuntime {
    /// A fresh runtime record with neutral input and no effects.
    pub fn new(now: u64) -> (r: PlayerRuntime)
        ensures
            !r.input.thrust && r.input.rotate == 0 && !r.input.fire,
            r.last_fire_ms == now,
            r.invincible_until is None,
            r.respawn_at is None,
            r.last_kill_ms is None,
            r.combo == 0,
            r.kill_streak == 0,
            r.shield_until is None,
            r.rapid_fire_until is None,
            r.triple_shot_until is None,
            r.speed_boost_until is None,
    {
        PlayerRuntime {
            input: PlayerInput::neutral(),
            last_fire_ms: now,
            invincible_until: None,
            respawn_at: None,
            last_kill_ms: None,
            combo: 0,
            kill_streak: 0,
            shield_until: None,
            rapid_fire_until: None,
            triple_shot_until: None,
            speed_boost_until: None,
        }
    }

    /// Whether any invincibility-class window (spawn invincibility or
    /// shield) is active at `now`.
    pub open spec fn spec_is_invincible(&self, now: u64) -> bool {
        active_at(self.invincible_until, now) || active_at(self.shield_until, now)
    }

    /// A player within an active shield or spawn-invincibility window cannot
    /// be hit by anything.
    pub fn is_invincible(&self, now: u64) -> (r: bool)
        ensures
            r == self.spec_is_invincible(now),
    {
        let inv = match self.invincible_until {
            Some(t) => now < t,
            None => false,
        };
        let sh = match self.shield_until {
            Some(t) => now < t,
            None => false,
        };
        inv || sh
    }

    pub fn has_rapid_fire(&self, now: u64) -> (r: bool)
        ensures
            r == active_at(self.rapid_fire_until, now),
    {
        match self.rapid_fire_until {
            Some(t) => now < t,
            None => false,
        }
    }

    pub fn has_triple_shot(&self, now: u64) -> (r: bool)
        ensures
            r == active_at(self.triple_shot_until, now),
    {
        match self.triple_shot_until {
            Some(t) => now < t,
            None => false,
        }
    }

    pub fn has_speed_boost(&self, now: u64) -> (r: bool)
        ensures
            r == active_at(self.speed_boost_until, now),
    {
        match self.speed_boost_until {
            Some(t) => now < t,
            None => false,
        }
    }

    /// The remaining-duration projection of one expiry instant.
    pub open spec fn spec_remaining(until: Option<u64>, now: u64) -> Option<u64> {
        match until {
            Some(t) => if now < t { Some((t - now) as u64) } else { None },
            None => None,
        }
    }

    /// Project every active effect to its remaining duration at `now`.
    pub fn get_effects(&self, now: u64) -> (r: PlayerEffects)
        ensures
            r.shield_remaining == Self::spec_remaining(self.shield_until, now),
            r.rapid_fire_remaining == Self::spec_remaining(self.rapid_fire_until, now),
            r.triple_shot_remaining == Self::spec_remaining(self.triple_shot_until, now),
            r.speed_boost_remaining == Self::spec_remaining(self.speed_boost_until, now),
            r.invincible_remaining == Self::spec_remaining(self.invincible_until, now),
    {
        PlayerEffects {
            shield_remaining: Self::remaining(self.shield_until, now),
            rapid_fire_remaining: Self::remaining(self.rapid_fire_until, now),
            triple_shot_remaining: Self::remaining(self.triple_shot_until, now),
            speed_boost_remaining: Self::remaining(self.speed_boost_until, now),
            invincible_remaining: Self::remaining(self.invincible_until, now),
        }
    }

    fn remaining(until: Option<u64>, now: u64) -> (r: Option<u64>)
        ensures
            r == Self::spec_remaining(until, now),
    {
        match until {
            Some(t) => if now < t { Some(t - now) } else { None },
            None => None,
        }
    }
}

/// Collision radius of an asteroid by size class, milli-units.
pub open spec fn spec_asteroid_radius(size: u8) -> i64 {
    if size == 1 { 2000 } else if size == 2 { 3000 } else { 4000 }
}

/// Collision radius of an asteroid by size class.
pub fn asteroid_radius(size: u8) -> (r: i64)
    ensures
        r == spec_asteroid_radius(size),
        2000 <= r <= 4000,
{
    match size {
        1 => 2000,
        2 => 3000,
        _ => 4000,
    }
}

/// Base points for destroying an asteroid: highest for the smallest class.
pub open spec fn spec_base_points(size: u8) -> u32 {
    if size == 1 { 100 } else if size == 2 { 50 } else { 20 }
}

/// Base points for destroying an asteroid of the given size class.
pub fn base_points(size: u8) -> (r: u32)
    ensures
        r == spec_base_points(size),
{
    match size {
        1 => 100,
        2 => 50,
        _ => 20,
    }
}

/// Well-formed broadcast state of a player.
pub open spec fn wf_player(p: PlayerState) -> bool {
    &&& in_world(p.pos)
    &&& -PLAYER_VEL_BOUND <= p.vel.x <= PLAYER_VEL_BOUND
    &&& -PLAYER_VEL_BOUND <= p.vel.y <= PLAYER_VEL_BOUND
    &&& p.angle < 24
    &&& p.combo <= MAX_COMBO
}

/// Well-formed runtime record of a player.
pub open spec fn wf_runtime(rt: PlayerRuntime) -> bool {
    &&& -1 <= rt.input.rotate <= 1
    &&& rt.combo <= MAX_COMBO
}

/// Well-formed asteroid.
pub open spec fn wf_asteroid(a: AsteroidState) -> bool {
    &&& in_world(a.pos)
    &&& -ASTEROID_VEL_BOUND <= a.vel.x <= ASTEROID_VEL_BOUND
    &&& -ASTEROID_VEL_BOUND <= a.vel.y <= ASTEROID_VEL_BOUND
    &&& 1 <= a.size <= 3
}

/// Well-formed bullet: inside the closed world rectangle (bullets do not
/// wrap; one that leaves is removed) with bounded velocity and time to live.
pub open spec fn wf_bullet(b: BulletRuntime) -> bool {
    &&& 0 <= b.state.pos.x <= WORLD_WIDTH
    &&& 0 <= b.state.pos.y <= WORLD_HEIGHT
    &&& -BULLET_SPEED <= b.state.vel.x <= BULLET_SPEED
    &&& -BULLET_SPEED <= b.state.vel.y <= BULLET_SPEED
    &&& 0 < b.ttl_ms <= BULLET_TTL_MS
}

/// Well-formed power-up.
pub open spec fn wf_power_up(p: PowerUpRuntime) -> bool {
    in_world(p.state.pos)
}

} // verus!
