//! The fixed-rate tick: respawn processing, effect projection, physics
//! integration, firing, collision resolution, and wave progression, in the
//! order the snapshot contract requires. Every phase collects its intended
//! effects before mutating the containers it scanned.

use vstd::prelude::*;
use crate::torus::{Vec2, in_world, spec_wrap, wrap_position, spec_distance_squared,
    distance_squared_wrapped, WORLD_WIDTH, WORLD_HEIGHT};
use crate::entities::{PlayerState, PlayerRuntime, AsteroidState, BulletState, BulletRuntime,
    PowerUpRuntime, PowerUpState, PowerUpKind, wf_asteroid, wf_bullet, wf_power_up, active_at,
    asteroid_radius, spec_asteroid_radius, base_points, TICK_MS, SPAWN_INVINCIBILITY_MS,
    BULLET_TTL_MS, BULLET_SPEED, FIRE_COOLDOWN_MS, RAPID_FIRE_COOLDOWN_MS, PLAYER_RADIUS,
    BULLET_RADIUS, POWERUP_RADIUS, POWERUP_SPAWN_PCT, POWERUP_DURATION_MS, POWERUP_TTL_MS,
    ASTEROID_COUNT, ASTEROIDS_PER_WAVE, WAVE_SPAWN_CAP, WAVE_COUNTDOWN_MS, SPLIT_SPEED_CAP,
    RESPAWN_DELAY_MS};
use crate::world::{World, PlayerEntry, wf_world, total_weight, ast_weight,
    lemma_total_weight_push, lemma_total_weight_same_sizes, spawn_asteroids,
    find_safe_spawn_position};
use crate::math::{sat_add, sat_add32, spec_sat_add, spec_sat_add32};
use crate::scoring::{register_kill_combo, credit_pvp_kill, apply_death, spec_death_penalty};
use crate::physics::{step_velocity, step_position, stepped_velocity};
use crate::angle::{spec_step_angle, step_angle, spec_snap_sector, snap_sector, spec_dir_vec,
    dir_vec};
use crate::rng::{random_u64, random_i64};

verus! {

/// The two sequences hold the same players, by position: same ids and names.
pub open spec fn same_identity(a: Seq<PlayerEntry>, b: Seq<PlayerEntry>) -> bool {
    &&& a.len() == b.len()
    &&& forall|i: int| 0 <= i < a.len()
        ==> (#[trigger] b[i]).state.id == a[i].state.id && b[i].state.name@ == a[i].state.name@
}

/// Every player alive and inside an invincibility-class window at `now` in
/// `a` is still alive and inside one in `b`.
pub open spec fn protected(a: Seq<PlayerEntry>, b: Seq<PlayerEntry>, now: u64) -> bool {
    &&& a.len() == b.len()
    &&& forall|i: int| 0 <= i < a.len()
        && (#[trigger] a[i]).state.alive && a[i].rt.spec_is_invincible(now)
        ==> b[i].state.alive && b[i].rt.spec_is_invincible(now)
}

/// A respawn countdown that has run out at `now`.
pub open spec fn respawn_due(rt: PlayerRuntime, now: u64) -> bool {
    match rt.respawn_at {
        Some(t) => t <= now,
        None => false,
    }
}

/// A player overlapping an asteroid: squared toroidal distance below the
/// squared radius sum.
pub open spec fn player_overlaps_asteroid(p: PlayerState, a: AsteroidState) -> bool {
    spec_distance_squared(p.pos, a.pos)
        < (PLAYER_RADIUS + spec_asteroid_radius(a.size))
            * (PLAYER_RADIUS + spec_asteroid_radius(a.size))
}

/// The player overlaps at least one asteroid of the set.
pub open spec fn hits_some_asteroid(p: PlayerState, asts: Seq<AsteroidState>) -> bool {
    exists|j: int| 0 <= j < asts.len() && player_overlaps_asteroid(p, #[trigger] asts[j])
}

/// The effect of one death on a player entry: dead, penalized, respawn
/// countdown pending, combo, streak and timed effects cleared.
pub open spec fn death_applied(q: PlayerEntry, now: u64, p: PlayerEntry) -> bool {
    &&& !p.state.alive
    &&& p.state.score == spec_death_penalty(q.state.score)
    &&& p.state.respawn_timer == Some(RESPAWN_DELAY_MS)
    &&& p.state.id == q.state.id
    &&& p.state.name@ == q.state.name@
    &&& p.state.pos == q.state.pos
    &&& p.state.vel == q.state.vel
    &&& p.state.angle == q.state.angle
    &&& p.state.combo == q.state.combo
    &&& p.state.kill_streak == q.state.kill_streak
    &&& p.state.effects == q.state.effects
    &&& p.rt == (PlayerRuntime {
        respawn_at: Some(spec_sat_add(now, RESPAWN_DELAY_MS)),
        combo: 0,
        kill_streak: 0,
        shield_until: None,
        rapid_fire_until: None,
        triple_shot_until: None,
        speed_boost_until: None,
        ..q.rt
    })
}

/// A bullet overlapping a player's hitbox.
pub open spec fn bullet_overlaps_player(b: BulletState, p: PlayerState) -> bool {
    spec_distance_squared(b.pos, p.pos)
        < (BULLET_RADIUS + PLAYER_RADIUS) * (BULLET_RADIUS + PLAYER_RADIUS)
}

/// A player a bullet may kill: alive, not the bullet's owner, and not inside
/// any invincibility-class window.
pub open spec fn pvp_eligible(q: PlayerEntry, owner: u64, now: u64) -> bool {
    q.state.alive && q.state.id != owner && !q.rt.spec_is_invincible(now)
}

/// The bullet overlaps at least one player it may kill.
pub open spec fn bullet_threatens(b: BulletRuntime, players: Seq<PlayerEntry>, now: u64) -> bool {
    exists|i: int| 0 <= i < players.len()
        && pvp_eligible(#[trigger] players[i], b.state.owner_id, now)
        && bullet_overlaps_player(b.state, players[i].state)
}

/// Player `i` is the only player the bullet overlaps and may kill.
pub open spec fn sole_target(b: BulletRuntime, players: Seq<PlayerEntry>, i: int, now: u64) -> bool {
    &&& 0 <= i < players.len()
    &&& pvp_eligible(players[i], b.state.owner_id, now)
    &&& bullet_overlaps_player(b.state, players[i].state)
    &&& forall|k: int| 0 <= k < players.len() && k != i
        ==> !(pvp_eligible(#[trigger] players[k], b.state.owner_id, now)
            && bullet_overlaps_player(b.state, players[k].state))
}

/// Every bullet of `new_bs` is one of the old bullets, and one that
/// threatened nobody: nothing else survives the exchange.
pub open spec fn pvp_survivors(
    old_bs: Seq<BulletRuntime>,
    players: Seq<PlayerEntry>,
    now: u64,
    new_bs: Seq<BulletRuntime>,
) -> bool {
    forall|k: int| #![trigger new_bs[k]] 0 <= k < new_bs.len()
        ==> exists|j: int| 0 <= j < old_bs.len()
            && new_bs[k] == spec_same_bullet(#[trigger] old_bs[j])
            && !bullet_threatens(old_bs[j], players, now)
}

/// The identity on bullets, used to anchor quantifier instantiation.
pub open spec fn spec_same_bullet(b: BulletRuntime) -> BulletRuntime {
    b
}

/// A bullet overlapping an asteroid's hitbox.
pub open spec fn bullet_overlaps_asteroid(b: BulletState, a: AsteroidState) -> bool {
    spec_distance_squared(b.pos, a.pos)
        < (BULLET_RADIUS + spec_asteroid_radius(a.size))
            * (BULLET_RADIUS + spec_asteroid_radius(a.size))
}

/// The bullet overlaps at least one asteroid of the set.
pub open spec fn bullet_hits_some_asteroid(b: BulletRuntime, asts: Seq<AsteroidState>) -> bool {
    exists|j: int| 0 <= j < asts.len()
        && bullet_overlaps_asteroid(b.state, #[trigger] asts[j])
}

/// Every bullet of `new_bs` is one of the old bullets: bullets are only ever
/// removed by a resolution pass.
pub open spec fn bullets_subset_of(old_bs: Seq<BulletRuntime>, new_bs: Seq<BulletRuntime>) -> bool {
    forall|k: int| #![trigger new_bs[k]] 0 <= k < new_bs.len()
        ==> exists|j: int| 0 <= j < old_bs.len()
            && new_bs[k] == spec_same_bullet(#[trigger] old_bs[j])
}

/// How many entries of a mask are set.
pub open spec fn count_true(s: Seq<bool>) -> int
    decreases s.len(),
{
    if s.len() == 0 {
        0
    } else {
        (if s.first() { 1int } else { 0int }) + count_true(s.drop_first())
    }
}

proof fn lemma_count_true_push(s: Seq<bool>, b: bool)
    ensures
        count_true(s.push(b)) == count_true(s) + (if b { 1int } else { 0int }),
    decreases s.len(),
{
    if s.len() == 0 {
        assert(s.push(b).drop_first() =~= s);
    } else {
        assert(s.push(b).drop_first() =~= s.drop_first().push(b));
        lemma_count_true_push(s.drop_first(), b);
    }
}

proof fn lemma_count_true_set_true(s: Seq<bool>, i: int)
    requires
        0 <= i < s.len(),
        !s[i],
    ensures
        count_true(s.update(i, true)) == count_true(s) + 1,
    decreases s.len(),
{
    if i == 0 {
        assert(s.update(0, true).drop_first() =~= s.drop_first());
    } else {
        assert(s.update(i, true).drop_first() =~= s.drop_first().update(i - 1, true));
        lemma_count_true_set_true(s.drop_first(), i - 1);
    }
}

proof fn lemma_count_true_zero(s: Seq<bool>)
    requires
        forall|i: int| 0 <= i < s.len() ==> !(#[trigger] s[i]),
    ensures
        count_true(s) == 0,
    decreases s.len(),
{
    if s.len() > 0 {
        assert(forall|i: int| 0 <= i < s.drop_first().len()
            ==> #[trigger] s.drop_first()[i] == s[i + 1]);
        lemma_count_true_zero(s.drop_first());
    }
}

proof fn lemma_count_true_take_step(s: Seq<bool>, i: int)
    requires
        0 <= i < s.len(),
    ensures
        count_true(s.take(i + 1)) == count_true(s.take(i)) + (if s[i] { 1int } else { 0int }),
{
    assert(s.take(i + 1) =~= s.take(i).push(s[i]));
    lemma_count_true_push(s.take(i), s[i]);
}

/// The piece a destroyed asteroid leaves in the rebuilt list, read off the
/// segment boundaries: an unhit asteroid passes through unchanged; a hit one
/// above the smallest class leaves exactly two well-formed children one
/// class smaller; a hit smallest-class asteroid leaves nothing.
pub open spec fn rebuilt_segments(
    a_asts: Seq<AsteroidState>,
    hit: Seq<bool>,
    b_asts: Seq<AsteroidState>,
    starts: Seq<int>,
    upto: int,
) -> bool {
    forall|i: int| #![trigger starts[i]] 0 <= i < upto ==> {
        let s = starts[i];
        &&& 0 <= s
        &&& (if !hit[i] {
            starts[i + 1] == s + 1 && s < b_asts.len() && b_asts[s] == a_asts[i]
        } else if a_asts[i].size > 1 {
            &&& starts[i + 1] == s + 2
            &&& s + 1 < b_asts.len()
            &&& b_asts[s].size == a_asts[i].size - 1
            &&& b_asts[s + 1].size == a_asts[i].size - 1
            &&& wf_asteroid(b_asts[s])
            &&& wf_asteroid(b_asts[s + 1])
        } else {
            starts[i + 1] == s
        })
    }
}

pub open spec fn asteroids_rebuilt(
    a_asts: Seq<AsteroidState>,
    hit: Seq<bool>,
    b_asts: Seq<AsteroidState>,
    starts: Seq<int>,
) -> bool {
    &&& hit.len() == a_asts.len()
    &&& starts.len() == a_asts.len() + 1
    &&& starts[0] == 0
    &&& starts[a_asts.len() as int] == b_asts.len()
    &&& rebuilt_segments(a_asts, hit, b_asts, starts, a_asts.len() as int)
}

/// The first registry index bound to `id`, or a negative value when none is.
pub open spec fn spec_find_player(ps: Seq<PlayerEntry>, id: u64) -> int
    decreases ps.len(),
{
    if ps.len() == 0 {
        -1
    } else if ps.first().state.id == id {
        0
    } else {
        let r = spec_find_player(ps.drop_first(), id);
        if r < 0 {
            -1
        } else {
            r + 1
        }
    }
}

proof fn lemma_find_player_unique(ps: Seq<PlayerEntry>, id: u64, i: int)
    requires
        0 <= i < ps.len(),
        ps[i].state.id == id,
        forall|a: int, b: int| 0 <= a < b < ps.len()
            ==> (#[trigger] ps[a]).state.id != (#[trigger] ps[b]).state.id,
    ensures
        spec_find_player(ps, id) == i,
    decreases ps.len(),
{
    if ps.first().state.id == id {
        if i != 0 {
            assert(ps[0].state.id != ps[i].state.id);
        }
    } else {
        assert(ps.drop_first()[i - 1] == ps[i]);
        assert(forall|a: int, b: int| 0 <= a < b < ps.drop_first().len()
            ==> (#[trigger] ps.drop_first()[a]).state.id
                != (#[trigger] ps.drop_first()[b]).state.id) by {
            assert(forall|a: int| 0 <= a < ps.drop_first().len()
                ==> #[trigger] ps.drop_first()[a] == ps[a + 1]);
        }
        lemma_find_player_unique(ps.drop_first(), id, i - 1);
    }
}

proof fn lemma_find_player_none(ps: Seq<PlayerEntry>, id: u64)
    requires
        forall|k: int| 0 <= k < ps.len() ==> (#[trigger] ps[k]).state.id != id,
    ensures
        spec_find_player(ps, id) < 0,
    decreases ps.len(),
{
    if ps.len() > 0 {
        assert(forall|k: int| 0 <= k < ps.drop_first().len()
            ==> #[trigger] ps.drop_first()[k] == ps[k + 1]);
        lemma_find_player_none(ps.drop_first(), id);
    }
}

/// A player entry after one asteroid kill is credited to it: the combo
/// advances through the timeout window, the kill is stamped, and the score
/// grows by the base points of the destroyed size class times the new combo.
pub open spec fn killed_entry(q: PlayerEntry, size: u8, now: u64) -> PlayerEntry {
    let combo2 = crate::scoring::spec_next_combo(q.rt.combo, q.rt.last_kill_ms, now);
    let pts = crate::entities::spec_base_points(size) * combo2;
    PlayerEntry {
        state: PlayerState {
            score: spec_sat_add32(q.state.score, pts as u32),
            combo: combo2,
            ..q.state
        },
        rt: PlayerRuntime { combo: combo2, last_kill_ms: Some(now), ..q.rt },
    }
}

/// Apply one asteroid kill by the bullet's owner: credited to the owner's
/// entry when one is registered, a no-op when the owner has disconnected.
pub open spec fn apply_kill(ps: Seq<PlayerEntry>, owner: u64, size: u8, now: u64)
    -> Seq<PlayerEntry> {
    let i = spec_find_player(ps, owner);
    if i < 0 {
        ps
    } else {
        ps.update(i, killed_entry(ps[i], size, now))
    }
}

/// Apply a sequence of asteroid kills, oldest first.
pub open spec fn apply_kills(ps: Seq<PlayerEntry>, kills: Seq<(u64, u8)>, now: u64)
    -> Seq<PlayerEntry>
    decreases kills.len(),
{
    if kills.len() == 0 {
        ps
    } else {
        apply_kill(apply_kills(ps, kills.drop_last(), now), kills.last().0, kills.last().1, now)
    }
}

/// A player entry after its death is applied: dead, penalized, respawn
/// countdown pending, combo, streak and timed effects cleared.
pub open spec fn dead_entry(q: PlayerEntry, now: u64) -> PlayerEntry {
    PlayerEntry {
        state: PlayerState {
            alive: false,
            score: spec_death_penalty(q.state.score),
            respawn_timer: Some(RESPAWN_DELAY_MS),
            ..q.state
        },
        rt: PlayerRuntime {
            respawn_at: Some(spec_sat_add(now, RESPAWN_DELAY_MS)),
            combo: 0,
            kill_streak: 0,
            shield_until: None,
            rapid_fire_until: None,
            triple_shot_until: None,
            speed_boost_until: None,
            ..q.rt
        },
    }
}

/// A player entry after one player-versus-player kill is credited to it: the
/// streak advances and the flat points plus the periodic streak bonus are
/// awarded.
pub open spec fn credited_entry(q: PlayerEntry) -> PlayerEntry {
    let streak2 = spec_sat_add32(q.rt.kill_streak, 1);
    let bonus = crate::scoring::spec_streak_bonus(streak2);
    PlayerEntry {
        state: PlayerState {
            score: spec_sat_add32(q.state.score,
                spec_sat_add32(crate::entities::PVP_KILL_POINTS, bonus)),
            kill_streak: streak2,
            ..q.state
        },
        rt: PlayerRuntime { kill_streak: streak2, ..q.rt },
    }
}

/// Apply one player-versus-player kill: the victim at index `v` dies, then
/// the shooter, if still registered, is credited.
pub open spec fn pvp_step(ps: Seq<PlayerEntry>, v: int, shooter: u64, now: u64)
    -> Seq<PlayerEntry> {
    let ps2 = ps.update(v, dead_entry(ps[v], now));
    let s = spec_find_player(ps2, shooter);
    if s < 0 {
        ps2
    } else {
        ps2.update(s, credited_entry(ps2[s]))
    }
}

/// Apply a sequence of player-versus-player kills, in victim order.
pub open spec fn apply_pvp_kills(ps: Seq<PlayerEntry>, pairs: Seq<(int, u64)>, now: u64)
    -> Seq<PlayerEntry>
    decreases pairs.len(),
{
    if pairs.len() == 0 {
        ps
    } else {
        pvp_step(apply_pvp_kills(ps, pairs.drop_last(), now), pairs.last().0, pairs.last().1,
            now)
    }
}

/// A kill only scores: everything about the player is untouched except the
/// score, which never drops, and the combo bookkeeping.
pub open spec fn scored_only(q: PlayerEntry, p: PlayerEntry) -> bool {
    &&& p.state.id == q.state.id
    &&& p.state.name@ == q.state.name@
    &&& p.state.pos == q.state.pos
    &&& p.state.vel == q.state.vel
    &&& p.state.angle == q.state.angle
    &&& p.state.alive == q.state.alive
    &&& p.state.score >= q.state.score
    &&& p.state.kill_streak == q.state.kill_streak
    &&& p.state.respawn_timer == q.state.respawn_timer
    &&& p.state.effects == q.state.effects
    &&& p.rt.input == q.rt.input
    &&& p.rt.last_fire_ms == q.rt.last_fire_ms
    &&& p.rt.invincible_until == q.rt.invincible_until
    &&& p.rt.respawn_at == q.rt.respawn_at
    &&& p.rt.kill_streak == q.rt.kill_streak
    &&& p.rt.shield_until == q.rt.shield_until
    &&& p.rt.rapid_fire_until == q.rt.rapid_fire_until
    &&& p.rt.triple_shot_until == q.rt.triple_shot_until
    &&& p.rt.speed_boost_until == q.rt.speed_boost_until
}

/// One child of a destroyed asteroid: one class smaller, placed one world
/// unit from the parent along its launch direction, with the parent's speed
/// jittered, floored, and capped.
fn make_child(
    parent: &AsteroidState,
    new_size: u8,
    speed: i64,
    denom: i64,
    base_steps: u64,
    next_id: &mut u64,
) -> (r: AsteroidState)
    requires
        crate::torus::in_world(parent.pos),
        1 <= new_size <= 2,
        0 <= speed <= 4_000,
        1 <= denom <= 4_000,
        -denom <= parent.vel.x <= denom,
        -denom <= parent.vel.y <= denom,
        base_steps == 3 || base_steps == 21,
    ensures
        wf_asteroid(r),
        r.size == new_size,
{
    let spread = random_i64(-2, 3);
    let steps_u: u64 = ((base_steps as i64 + spread + 24) % 24) as u64;
    let rotated = crate::physics::rotate_vec(parent.vel, steps_u);
    proof {
        let c = crate::angle::spec_cos_milli(steps_u as int);
        let s = crate::angle::spec_sin_milli(steps_u as int);
        assert(-2 * denom * 1000 <= parent.vel.x * c - parent.vel.y * s <= 2 * denom * 1000)
            by (nonlinear_arith)
            requires
                -denom <= parent.vel.x <= denom,
                -denom <= parent.vel.y <= denom,
                -1000 <= c <= 1000,
                -1000 <= s <= 1000,
                denom >= 1;
        assert(-2 * denom * 1000 <= parent.vel.x * s + parent.vel.y * c <= 2 * denom * 1000)
            by (nonlinear_arith)
            requires
                -denom <= parent.vel.x <= denom,
                -denom <= parent.vel.y <= denom,
                -1000 <= c <= 1000,
                -1000 <= s <= 1000,
                denom >= 1;
        lemma_trunc_div_range(parent.vel.x * c - parent.vel.y * s, 2 * denom);
        lemma_trunc_div_range(parent.vel.x * s + parent.vel.y * c, 2 * denom);
    }
    let jitter = random_u64(800, 1300) as i64;
    proof {
        assert(speed * jitter <= 4_000 * 1_300i64) by (nonlinear_arith)
            requires 0 <= speed <= 4_000 && 0 <= jitter <= 1_300;
        assert(speed * jitter >= 0) by (nonlinear_arith)
            requires speed >= 0 && jitter >= 0;
    }
    let raw_speed: i64 = speed * jitter / 1000 + 50;
    let new_speed: i64 = if raw_speed > SPLIT_SPEED_CAP {
        SPLIT_SPEED_CAP
    } else {
        raw_speed
    };
    proof {
        assert(speed * jitter / 1000 >= 0) by (nonlinear_arith)
            requires speed * jitter >= 0;
        crate::physics::lemma_mul_div_scale_bound(rotated.x as int, new_speed as int,
            denom as int);
        crate::physics::lemma_mul_div_scale_bound(rotated.y as int, new_speed as int,
            denom as int);
        crate::physics::lemma_mul_div_scale_bound(rotated.x as int, 1000, denom as int);
        crate::physics::lemma_mul_div_scale_bound(rotated.y as int, 1000, denom as int);
    }
    let cvx = crate::physics::mul_div(rotated.x, new_speed, denom);
    let cvy = crate::physics::mul_div(rotated.y, new_speed, denom);
    let offx = crate::physics::mul_div(rotated.x, 1000, denom);
    let offy = crate::physics::mul_div(rotated.y, 1000, denom);
    let pos = wrap_position(Vec2 { x: parent.pos.x + offx, y: parent.pos.y + offy });
    let id = *next_id;
    *next_id = sat_add(*next_id, 1);
    AsteroidState { id, pos, vel: Vec2 { x: cvx, y: cvy }, size: new_size }
}

/// Truncating division by 1000 of a value within `m` thousand stays within
/// `m`.
proof fn lemma_trunc_div_range(t: int, m: int)
    requires
        0 <= m,
        -m * 1000 <= t <= m * 1000,
    ensures
        -m <= crate::physics::spec_mul_div(t, 1, 1000) <= m,
{
    if t >= 0 {
        assert(t * 1 == t);
        assert(t / 1000 <= m) by (nonlinear_arith)
            requires 0 <= t <= m * 1000;
        assert(t / 1000 >= 0) by (nonlinear_arith)
            requires t >= 0;
    } else {
        let u = -t;
        assert(u * 1 == u);
        assert(u / 1000 <= m) by (nonlinear_arith)
            requires 0 <= u <= m * 1000;
        assert(u / 1000 >= 0) by (nonlinear_arith)
            requires u >= 0;
    }
}

/// The children of a destroyed asteroid: a smallest-class asteroid leaves
/// nothing; any larger one leaves exactly two children one class smaller,
/// launched at plus and minus an eighth of a turn (with random spread) from
/// the parent's velocity heading, whose weights sum to no more than the
/// parent's.
pub fn split_children(
    parent: &AsteroidState,
    next_id: &mut u64,
) -> (r: Option<(AsteroidState, AsteroidState)>)
    requires
        wf_asteroid(*parent),
    ensures
        parent.size <= 1 ==> r is None && *final(next_id) == *old(next_id),
        parent.size > 1 ==> match r {
            Some(pair) => {
                &&& wf_asteroid(pair.0)
                &&& wf_asteroid(pair.1)
                &&& pair.0.size == parent.size - 1
                &&& pair.1.size == parent.size - 1
                &&& ast_weight(pair.0.size) + ast_weight(pair.1.size)
                    <= ast_weight(parent.size)
            }
            None => false,
        },
{
    if parent.size <= 1 {
        return None;
    }
    let new_size = parent.size - 1;
    let vx = parent.vel.x;
    let vy = parent.vel.y;
    proof {
        assert(vx * vx + vy * vy <= 2 * 2_000 * 2_000i64) by (nonlinear_arith)
            requires -2_000 <= vx <= 2_000 && -2_000 <= vy <= 2_000;
        assert(vx * vx >= 0 && vy * vy >= 0) by (nonlinear_arith);
    }
    let ssq: i64 = vx * vx + vy * vy;
    let speed_u: u64 = crate::math::isqrt(ssq as u64);
    proof {
        assert(crate::math::is_isqrt(ssq as int, speed_u as int));
        assert(speed_u <= 4_000) by {
            if speed_u > 4_000 {
                assert(speed_u * speed_u > 4_000 * 4_000u64) by (nonlinear_arith)
                    requires speed_u > 4_000;
            }
        }
    }
    let speed: i64 = speed_u as i64;
    proof {
        assert(crate::math::is_isqrt(ssq as int, speed as int));
        let mx = if vx >= 0 { vx as int } else { -vx as int };
        let my = if vy >= 0 { vy as int } else { -vy as int };
        assert(mx * mx + my * my == ssq) by (nonlinear_arith)
            requires
                (mx == vx || mx == -vx) && (my == vy || my == -vy)
                && ssq == vx * vx + vy * vy;
        assert(mx <= speed && my <= speed) by (nonlinear_arith)
            requires
                crate::math::is_isqrt(mx * mx + my * my, speed as int),
                mx >= 0,
                my >= 0;
    }
    let denom: i64 = if speed == 0 { 1 } else { speed };
    let c1 = make_child(parent, new_size, speed, denom, 3, next_id);
    let c2 = make_child(parent, new_size, speed, denom, 21, next_id);
    Some((c1, c2))
}

/// A player overlapping a power-up's pickup radius.
pub open spec fn player_overlaps_power_up(p: PlayerState, u: PowerUpState) -> bool {
    spec_distance_squared(p.pos, u.pos)
        < (PLAYER_RADIUS + POWERUP_RADIUS) * (PLAYER_RADIUS + POWERUP_RADIUS)
}

/// Some player among the first `upto` is alive and overlaps the power-up.
pub open spec fn claimed_upto(u: PowerUpRuntime, players: Seq<PlayerEntry>, upto: int) -> bool {
    exists|i: int| 0 <= i < upto
        && (#[trigger] players[i]).state.alive
        && player_overlaps_power_up(players[i].state, u.state)
}

/// The player is alive and overlaps, among the first `upto` power-ups, one
/// of the given kind. Every player that does so receives the effect: a
/// power-up overlapped by two players in the same tick grants it to both.
pub open spec fn picks_kind_upto(
    q: PlayerEntry,
    pus: Seq<PowerUpRuntime>,
    kind: PowerUpKind,
    upto: int,
) -> bool {
    q.state.alive && exists|j: int| 0 <= j < upto
        && (#[trigger] pus[j]).state.kind == kind
        && player_overlaps_power_up(q.state, pus[j].state)
}

/// The effect of the pickup pass on one player: each effect expiry is
/// refreshed to a full duration from `now` exactly when the player picked up
/// a power-up of that kind; nothing else changes.
pub open spec fn picked_up(
    q: PlayerEntry,
    pus: Seq<PowerUpRuntime>,
    now: u64,
    p: PlayerEntry,
) -> bool {
    let upto = pus.len() as int;
    &&& p.state == q.state
    &&& p.rt.input == q.rt.input
    &&& p.rt.last_fire_ms == q.rt.last_fire_ms
    &&& p.rt.invincible_until == q.rt.invincible_until
    &&& p.rt.respawn_at == q.rt.respawn_at
    &&& p.rt.last_kill_ms == q.rt.last_kill_ms
    &&& p.rt.combo == q.rt.combo
    &&& p.rt.kill_streak == q.rt.kill_streak
    &&& p.rt.shield_until == (if picks_kind_upto(q, pus, PowerUpKind::Shield, upto) {
        Some(spec_sat_add(now, POWERUP_DURATION_MS))
    } else {
        q.rt.shield_until
    })
    &&& p.rt.rapid_fire_until == (if picks_kind_upto(q, pus, PowerUpKind::RapidFire, upto) {
        Some(spec_sat_add(now, POWERUP_DURATION_MS))
    } else {
        q.rt.rapid_fire_until
    })
    &&& p.rt.triple_shot_until == (if picks_kind_upto(q, pus, PowerUpKind::TripleShot, upto) {
        Some(spec_sat_add(now, POWERUP_DURATION_MS))
    } else {
        q.rt.triple_shot_until
    })
    &&& p.rt.speed_boost_until == (if picks_kind_upto(q, pus, PowerUpKind::SpeedBoost, upto) {
        Some(spec_sat_add(now, POWERUP_DURATION_MS))
    } else {
        q.rt.speed_boost_until
    })
}

/// Every power-up of `new_ps` is one of the old ones, and one that nobody
/// claimed: claimed power-ups are gone.
pub open spec fn power_ups_kept_unclaimed(
    old_ps: Seq<PowerUpRuntime>,
    players: Seq<PlayerEntry>,
    new_ps: Seq<PowerUpRuntime>,
) -> bool {
    forall|k: int| #![trigger new_ps[k]] 0 <= k < new_ps.len()
        ==> exists|j: int| 0 <= j < old_ps.len()
            && new_ps[k] == spec_same_power_up(#[trigger] old_ps[j])
            && !claimed_upto(old_ps[j], players, players.len() as int)
}

/// The identity on power-ups, used to anchor quantifier instantiation.
pub open spec fn spec_same_power_up(u: PowerUpRuntime) -> PowerUpRuntime {
    u
}

/// The firing cooldown that applies at `now`: shortened while rapid fire is
/// active.
pub open spec fn spec_cooldown(rt: PlayerRuntime, now: u64) -> u64 {
    if active_at(rt.rapid_fire_until, now) {
        RAPID_FIRE_COOLDOWN_MS
    } else {
        FIRE_COOLDOWN_MS
    }
}

/// Fire is held and the cooldown since the last shot has elapsed.
pub open spec fn fire_ready(rt: PlayerRuntime, now: u64) -> bool {
    rt.input.fire && rt.last_fire_ms + spec_cooldown(rt, now) <= now
}

/// One tick of motion applied to a player's broadcast state: heading stepped
/// by the buffered rotation, velocity through thrust, drag and the speed
/// cap, position wrapped; everything else untouched.
pub open spec fn moved_state(q: PlayerState, rt: PlayerRuntime, now: u64, p: PlayerState) -> bool {
    let boost = active_at(rt.speed_boost_until, now);
    let a2 = spec_step_angle(q.angle as int, rt.input.rotate as int);
    &&& p.angle == a2
    &&& stepped_velocity(q.vel, a2, rt.input.thrust, boost, p.vel)
    &&& p.pos == spec_wrap(Vec2 { x: (q.pos.x + p.vel.x) as i64, y: (q.pos.y + p.vel.y) as i64 })
    &&& p.id == q.id
    &&& p.name@ == q.name@
    &&& p.alive == q.alive
    &&& p.score == q.score
    &&& p.combo == q.combo
    &&& p.kill_streak == q.kill_streak
    &&& p.respawn_timer == q.respawn_timer
    &&& p.effects == q.effects
}

/// The integration step for one player entry: dead players are untouched;
/// living ones move, and their last-fire stamp advances exactly when they
/// fire.
pub open spec fn player_integrated(q: PlayerEntry, now: u64, p: PlayerEntry) -> bool {
    if !q.state.alive {
        p == q
    } else {
        &&& moved_state(q.state, q.rt, now, p.state)
        &&& (if fire_ready(q.rt, now) {
            p.rt == (PlayerRuntime { last_fire_ms: now, ..q.rt })
        } else {
            p.rt == q.rt
        })
    }
}

/// The integration step applied pointwise to the player list.
pub open spec fn players_integrated(a: Seq<PlayerEntry>, b: Seq<PlayerEntry>, now: u64) -> bool {
    &&& a.len() == b.len()
    &&& forall|i: int| 0 <= i < a.len()
        ==> player_integrated(#[trigger] a[i], now, #[trigger] b[i])
}

/// One bullet as the fire step emits it: owned by the shooter, at the
/// shooter's post-integration position, full time to live, flying at bullet
/// speed along the given heading.
pub open spec fn bullet_fired(b: BulletRuntime, owner: u64, p: PlayerState, ang: int) -> bool {
    &&& b.state.owner_id == owner
    &&& b.state.pos == p.pos
    &&& b.state.vel == spec_dir_vec(ang, BULLET_SPEED as int)
    &&& b.ttl_ms == BULLET_TTL_MS
}

/// The bullets the first `upto` players appended this tick, read off the
/// segment boundaries: a living player whose cooldown elapsed with fire held
/// appends exactly three bullets at the snapped heading and one step either
/// side while triple shot is active, else exactly one at the snapped
/// heading; everyone else appends none.
pub open spec fn fired_segments(
    a_players: Seq<PlayerEntry>,
    b_players: Seq<PlayerEntry>,
    b_bullets: Seq<BulletRuntime>,
    fstarts: Seq<int>,
    now: u64,
    upto: int,
) -> bool {
    forall|i: int| #![trigger fstarts[i]] 0 <= i < upto ==> {
        let s = fstarts[i];
        let q = a_players[i];
        let p = b_players[i].state;
        let snap = spec_snap_sector(p.angle as int);
        &&& 0 <= s
        &&& (if q.state.alive && fire_ready(q.rt, now) {
            if active_at(q.rt.triple_shot_until, now) {
                &&& fstarts[i + 1] == s + 3
                &&& s + 2 < b_bullets.len()
                &&& bullet_fired(b_bullets[s], q.state.id, p, (snap + 23) % 24)
                &&& bullet_fired(b_bullets[s + 1], q.state.id, p, snap)
                &&& bullet_fired(b_bullets[s + 2], q.state.id, p, (snap + 1) % 24)
            } else {
                &&& fstarts[i + 1] == s + 1
                &&& s < b_bullets.len()
                &&& bullet_fired(b_bullets[s], q.state.id, p, snap)
            }
        } else {
            fstarts[i + 1] == s
        })
    }
}

/// The clock advance that opens a tick: one tick length, saturating; nothing
/// else changes.
pub open spec fn clock_advanced(a: World, b: World) -> bool {
    b == (World { now_ms: spec_sat_add(a.now_ms, TICK_MS), ..a })
}

/// The transition relation of one tick phase, stated exactly as the phase's
/// contract: `process_respawns` turns world `a` into world `b`.
pub open spec fn respawns_processed(a: World, b: World) -> bool {
    &&& (wf_world(b))
    &&& (b.now_ms == a.now_ms)
    &&& (b.next_id == a.next_id)
    &&& (b.bullets == a.bullets)
    &&& (b.asteroids == a.asteroids)
    &&& (b.power_ups == a.power_ups)
    &&& (b.current_wave == a.current_wave)
    &&& (b.wave_countdown == a.wave_countdown)
    &&& (same_identity(a.players@, b.players@))
    &&& (protected(a.players@, b.players@, a.now_ms))
    &&& (forall|i: int| 0 <= i < a.players@.len()
                && !respawn_due((#[trigger] a.players@[i]).rt, a.now_ms)
                ==> b.players@[i] == a.players@[i])
    &&& (forall|i: int| 0 <= i < a.players@.len()
                && respawn_due((#[trigger] a.players@[i]).rt, a.now_ms)
                ==> {
                    let p = b.players@[i];
                    let q = a.players@[i];
                    &&& p.state.alive
                    &&& in_world(p.state.pos)
                    &&& p.state.vel.x == 0 && p.state.vel.y == 0
                    &&& p.state.respawn_timer is None
                    &&& p.state.id == q.state.id
                    &&& p.state.name@ == q.state.name@
                    &&& p.state.angle == q.state.angle
                    &&& p.state.score == q.state.score
                    &&& p.state.combo == q.state.combo
                    &&& p.state.kill_streak == q.state.kill_streak
                    &&& p.state.effects == q.state.effects
                    &&& p.rt.respawn_at is None
                    &&& p.rt.invincible_until
                        == Some(spec_sat_add(a.now_ms, SPAWN_INVINCIBILITY_MS))
                    &&& p.rt.input == q.rt.input
                    &&& p.rt.last_fire_ms == q.rt.last_fire_ms
                    &&& p.rt.last_kill_ms == q.rt.last_kill_ms
                    &&& p.rt.combo == q.rt.combo
                    &&& p.rt.kill_streak == q.rt.kill_streak
                    &&& p.rt.shield_until == q.rt.shield_until
                    &&& p.rt.rapid_fire_until == q.rt.rapid_fire_until
                    &&& p.rt.triple_shot_until == q.rt.triple_shot_until
                    &&& p.rt.speed_boost_until == q.rt.speed_boost_until
                })
}

/// The transition relation of one tick phase, stated exactly as the phase's
/// contract: `project_effects` turns world `a` into world `b`.
pub open spec fn effects_projected(a: World, b: World) -> bool {
    &&& (wf_world(b))
    &&& (b.now_ms == a.now_ms)
    &&& (b.next_id == a.next_id)
    &&& (b.bullets == a.bullets)
    &&& (b.asteroids == a.asteroids)
    &&& (b.power_ups == a.power_ups)
    &&& (b.current_wave == a.current_wave)
    &&& (b.wave_countdown == a.wave_countdown)
    &&& (same_identity(a.players@, b.players@))
    &&& (protected(a.players@, b.players@, a.now_ms))
    &&& (forall|i: int| 0 <= i < a.players@.len() ==> {
                let p = #[trigger] b.players@[i];
                let q = a.players@[i];
                &&& p.rt == q.rt
                &&& p.state.id == q.state.id
                &&& p.state.name@ == q.state.name@
                &&& p.state.pos == q.state.pos
                &&& p.state.vel == q.state.vel
                &&& p.state.angle == q.state.angle
                &&& p.state.alive == q.state.alive
                &&& p.state.score == q.state.score
                &&& p.state.combo == q.rt.combo
                &&& p.state.kill_streak == q.rt.kill_streak
                &&& p.state.respawn_timer
                    == PlayerRuntime::spec_remaining(q.rt.respawn_at, a.now_ms)
                &&& p.state.effects.shield_remaining
                    == PlayerRuntime::spec_remaining(q.rt.shield_until, a.now_ms)
                &&& p.state.effects.rapid_fire_remaining
                    == PlayerRuntime::spec_remaining(q.rt.rapid_fire_until, a.now_ms)
                &&& p.state.effects.triple_shot_remaining
                    == PlayerRuntime::spec_remaining(q.rt.triple_shot_until, a.now_ms)
                &&& p.state.effects.speed_boost_remaining
                    == PlayerRuntime::spec_remaining(q.rt.speed_boost_until, a.now_ms)
                &&& p.state.effects.invincible_remaining
                    == PlayerRuntime::spec_remaining(q.rt.invincible_until, a.now_ms)
            })
}

/// The transition relation of one tick phase, stated exactly as the phase's
/// contract: `integrate_players` turns world `a` into world `b`.
pub open spec fn players_stepped(a: World, b: World) -> bool {
    &&& (wf_world(b))
    &&& (b.now_ms == a.now_ms)
    &&& (b.asteroids == a.asteroids)
    &&& (b.power_ups == a.power_ups)
    &&& (b.current_wave == a.current_wave)
    &&& (b.wave_countdown == a.wave_countdown)
    &&& (same_identity(a.players@, b.players@))
    &&& (protected(a.players@, b.players@, a.now_ms))
    &&& (players_integrated(a.players@, b.players@, a.now_ms))
    &&& (b.bullets@.len() >= a.bullets@.len())
    &&& (b.bullets@.subrange(0, a.bullets@.len() as int)
                == a.bullets@)
    &&& (exists|fstarts: Seq<int>|
                #![trigger fired_segments(a.players@, b.players@,
                    b.bullets@, fstarts, a.now_ms,
                    a.players@.len() as int)]
                {
                    &&& fstarts.len() == a.players@.len() + 1
                    &&& fstarts[0] == a.bullets@.len()
                    &&& fstarts[a.players@.len() as int] == b.bullets@.len()
                    &&& fired_segments(a.players@, b.players@,
                        b.bullets@, fstarts, a.now_ms,
                        a.players@.len() as int)
                })
}

/// The transition relation of one tick phase, stated exactly as the phase's
/// contract: `update_bullets` turns world `a` into world `b`.
pub open spec fn bullets_stepped(a: World, b: World) -> bool {
    &&& (wf_world(b))
    &&& (b.now_ms == a.now_ms)
    &&& (b.next_id == a.next_id)
    &&& (b.players == a.players)
    &&& (b.asteroids == a.asteroids)
    &&& (b.power_ups == a.power_ups)
    &&& (b.current_wave == a.current_wave)
    &&& (b.wave_countdown == a.wave_countdown)
    &&& (forall|j: int| 0 <= j < a.bullets@.len()
                && bullet_live(spec_step_bullet(#[trigger] a.bullets@[j]))
                ==> b.bullets@.contains(spec_step_bullet(a.bullets@[j])))
    &&& (bullets_stepped_from(
                a.bullets@,
                a.bullets@.len() as int,
                b.bullets@,
            ))
}

/// The transition relation of one tick phase, stated exactly as the phase's
/// contract: `integrate_asteroids` turns world `a` into world `b`.
pub open spec fn asteroids_stepped(a: World, b: World) -> bool {
    &&& (wf_world(b))
    &&& (b.now_ms == a.now_ms)
    &&& (b.next_id == a.next_id)
    &&& (b.players == a.players)
    &&& (b.bullets == a.bullets)
    &&& (b.power_ups == a.power_ups)
    &&& (b.current_wave == a.current_wave)
    &&& (b.wave_countdown == a.wave_countdown)
    &&& (b.asteroids@.len() == a.asteroids@.len())
    &&& (forall|i: int| 0 <= i < a.asteroids@.len() ==> {
                let ast = #[trigger] b.asteroids@[i];
                let q = a.asteroids@[i];
                &&& ast.id == q.id
                &&& ast.size == q.size
                &&& ast.vel == q.vel
                &&& ast.pos == spec_wrap(Vec2 {
                    x: (q.pos.x + q.vel.x) as i64,
                    y: (q.pos.y + q.vel.y) as i64,
                })
            })
}

/// The transition relation of one tick phase, stated exactly as the phase's
/// contract: `expire_power_ups` turns world `a` into world `b`.
pub open spec fn power_ups_expired(a: World, b: World) -> bool {
    &&& (wf_world(b))
    &&& (b.now_ms == a.now_ms)
    &&& (b.next_id == a.next_id)
    &&& (b.players == a.players)
    &&& (b.bullets == a.bullets)
    &&& (b.asteroids == a.asteroids)
    &&& (b.current_wave == a.current_wave)
    &&& (b.wave_countdown == a.wave_countdown)
    &&& (forall|j: int| 0 <= j < a.power_ups@.len()
                && a.now_ms < (#[trigger] a.power_ups@[j]).expires_at
                ==> b.power_ups@.contains(a.power_ups@[j]))
    &&& (forall|k: int| 0 <= k < b.power_ups@.len()
                ==> a.power_ups@.contains(#[trigger] b.power_ups@[k])
                    && a.now_ms < b.power_ups@[k].expires_at)
}

/// The transition relation of one tick phase, stated exactly as the phase's
/// contract: `resolve_bullet_asteroid` turns world `a` into world `b`.
pub open spec fn bullet_asteroid_resolved(a: World, b: World) -> bool {
    &&& (wf_world(b))
    &&& (b.now_ms == a.now_ms)
    &&& (b.current_wave == a.current_wave)
    &&& (b.wave_countdown == a.wave_countdown)
    &&& (same_identity(a.players@, b.players@))
    &&& (protected(a.players@, b.players@, a.now_ms))
    &&& (forall|i: int| 0 <= i < a.players@.len()
                ==> scored_only(#[trigger] a.players@[i], b.players@[i]))
    &&& (total_weight(b.asteroids@) <= total_weight(a.asteroids@))
    &&& (b.power_ups@.len() >= a.power_ups@.len())
    &&& (b.power_ups@.subrange(0, a.power_ups@.len() as int)
                == a.power_ups@)
    &&& (forall|j: int| 0 <= j < a.bullets@.len()
                && !bullet_hits_some_asteroid(#[trigger] a.bullets@[j],
                    a.asteroids@)
                ==> b.bullets@.contains(a.bullets@[j]))
    &&& (bullets_subset_of(a.bullets@, b.bullets@))
    &&& (a.bullets@.len() > 0
                && bullet_hits_some_asteroid(a.bullets@[0], a.asteroids@)
                ==> b.bullets@.len() < a.bullets@.len())
    &&& (exists|hit: Seq<bool>, starts: Seq<int>, kills: Seq<(u64, u8)>|
                #![trigger asteroids_rebuilt(a.asteroids@, hit, b.asteroids@,
                    starts), apply_kills(a.players@, kills, a.now_ms)]
                {
                    &&& asteroids_rebuilt(a.asteroids@, hit, b.asteroids@,
                        starts)
                    &&& forall|i: int| 0 <= i < hit.len() && #[trigger] hit[i]
                        ==> exists|j: int| 0 <= j < a.bullets@.len()
                            && bullet_overlaps_asteroid(
                                (#[trigger] a.bullets@[j]).state,
                                a.asteroids@[i])
                    &&& count_true(hit)
                        == a.bullets@.len() - b.bullets@.len()
                    &&& kills.len() == count_true(hit)
                    &&& b.players@
                        == apply_kills(a.players@, kills, a.now_ms)
                    &&& forall|k: int| #![trigger kills[k]] 0 <= k < kills.len()
                        ==> exists|j: int, i: int|
                            #![trigger a.bullets@[j], a.asteroids@[i]]
                            0 <= j < a.bullets@.len()
                            && 0 <= i < a.asteroids@.len()
                            && a.bullets@[j].state.owner_id == kills[k].0
                            && a.asteroids@[i].size == kills[k].1
                            && hit[i]
                            && bullet_overlaps_asteroid(a.bullets@[j].state,
                                a.asteroids@[i])
                })
}

/// The transition relation of one tick phase, stated exactly as the phase's
/// contract: `resolve_power_up_pickup` turns world `a` into world `b`.
pub open spec fn pickups_resolved(a: World, b: World) -> bool {
    &&& (wf_world(b))
    &&& (b.now_ms == a.now_ms)
    &&& (b.next_id == a.next_id)
    &&& (b.bullets == a.bullets)
    &&& (b.asteroids == a.asteroids)
    &&& (b.current_wave == a.current_wave)
    &&& (b.wave_countdown == a.wave_countdown)
    &&& (same_identity(a.players@, b.players@))
    &&& (protected(a.players@, b.players@, a.now_ms))
    &&& (b.players@.len() == a.players@.len())
    &&& (forall|i: int| 0 <= i < a.players@.len()
                ==> picked_up(#[trigger] a.players@[i], a.power_ups@,
                    a.now_ms, b.players@[i]))
    &&& (forall|j: int| 0 <= j < a.power_ups@.len()
                && !claimed_upto(#[trigger] a.power_ups@[j], a.players@,
                    a.players@.len() as int)
                ==> b.power_ups@.contains(a.power_ups@[j]))
    &&& (forall|j: int| 0 <= j < a.power_ups@.len()
                && claimed_upto(#[trigger] a.power_ups@[j], a.players@,
                    a.players@.len() as int)
                ==> !b.power_ups@.contains(a.power_ups@[j]))
    &&& (power_ups_kept_unclaimed(a.power_ups@, a.players@,
                b.power_ups@))
}

/// The transition relation of one tick phase, stated exactly as the phase's
/// contract: `resolve_player_asteroid` turns world `a` into world `b`.
pub open spec fn asteroid_deaths_resolved(a: World, b: World) -> bool {
    &&& (wf_world(b))
    &&& (b.now_ms == a.now_ms)
    &&& (b.next_id == a.next_id)
    &&& (b.bullets == a.bullets)
    &&& (b.asteroids == a.asteroids)
    &&& (b.power_ups == a.power_ups)
    &&& (b.current_wave == a.current_wave)
    &&& (b.wave_countdown == a.wave_countdown)
    &&& (same_identity(a.players@, b.players@))
    &&& (protected(a.players@, b.players@, a.now_ms))
    &&& (forall|i: int| 0 <= i < a.players@.len() ==> {
                let q = #[trigger] a.players@[i];
                let p = b.players@[i];
                if q.state.alive && !q.rt.spec_is_invincible(a.now_ms)
                    && hits_some_asteroid(q.state, a.asteroids@) {
                    death_applied(q, a.now_ms, p)
                } else {
                    p == q
                }
            })
}

/// The transition relation of one tick phase, stated exactly as the phase's
/// contract: `resolve_pvp` turns world `a` into world `b`.
pub open spec fn pvp_resolved(a: World, b: World) -> bool {
    &&& (wf_world(b))
    &&& (b.now_ms == a.now_ms)
    &&& (b.next_id == a.next_id)
    &&& (b.asteroids == a.asteroids)
    &&& (b.power_ups == a.power_ups)
    &&& (b.current_wave == a.current_wave)
    &&& (b.wave_countdown == a.wave_countdown)
    &&& (same_identity(a.players@, b.players@))
    &&& (protected(a.players@, b.players@, a.now_ms))
    &&& (forall|i: int| 0 <= i < a.players@.len()
                && (#[trigger] a.players@[i]).state.alive
                && !b.players@[i].state.alive
                ==> !a.players@[i].rt.spec_is_invincible(a.now_ms)
                    && exists|j: int| 0 <= j < a.bullets@.len()
                        && (#[trigger] a.bullets@[j]).state.owner_id
                            != a.players@[i].state.id
                        && bullet_overlaps_player(
                            a.bullets@[j].state,
                            a.players@[i].state,
                        ))
    &&& (forall|j: int, i: int| 0 <= j < a.bullets@.len()
                && #[trigger] sole_target(a.bullets@[j], a.players@, i,
                    a.now_ms)
                ==> !b.players@[i].state.alive)
    &&& (exists|pairs: Seq<(int, u64)>|
                #![trigger apply_pvp_kills(a.players@, pairs, a.now_ms)]
                {
                    &&& b.players@
                        == apply_pvp_kills(a.players@, pairs, a.now_ms)
                    &&& forall|m: int| #![trigger pairs[m]] 0 <= m < pairs.len() ==> {
                        &&& 0 <= pairs[m].0 < a.players@.len()
                        &&& pvp_eligible(a.players@[pairs[m].0], pairs[m].1,
                            a.now_ms)
                        &&& exists|j: int| 0 <= j < a.bullets@.len()
                            && (#[trigger] a.bullets@[j]).state.owner_id
                                == pairs[m].1
                            && bullet_overlaps_player(a.bullets@[j].state,
                                a.players@[pairs[m].0].state)
                    }
                    &&& forall|m: int, m2: int| #![trigger pairs[m], pairs[m2]]
                        0 <= m < m2 < pairs.len() ==> pairs[m].0 < pairs[m2].0
                })
    &&& (forall|j: int| 0 <= j < a.bullets@.len()
                && !bullet_threatens(#[trigger] a.bullets@[j], a.players@,
                    a.now_ms)
                ==> b.bullets@.contains(a.bullets@[j]))
    &&& (pvp_survivors(a.bullets@, a.players@, a.now_ms,
                b.bullets@))
}

/// The transition relation of one tick phase, stated exactly as the phase's
/// contract: `update_wave` turns world `a` into world `b`.
pub open spec fn wave_stepped(a: World, b: World) -> bool {
    &&& (wf_world(b))
    &&& (b.now_ms == a.now_ms)
    &&& (b.players == a.players)
    &&& (b.bullets == a.bullets)
    &&& (b.power_ups == a.power_ups)
    &&& (a.asteroids@.len() > 0 ==> {
                &&& b.asteroids == a.asteroids
                &&& b.current_wave == a.current_wave
                &&& b.wave_countdown == a.wave_countdown
                &&& b.next_id == a.next_id
            })
    &&& (a.asteroids@.len() == 0 && a.wave_countdown is None ==> {
                &&& b.asteroids == a.asteroids
                &&& b.current_wave == a.current_wave
                &&& b.wave_countdown
                    == Some(spec_sat_add(a.now_ms, WAVE_COUNTDOWN_MS))
                &&& b.next_id == a.next_id
            })
    &&& (forall|end: u64| a.asteroids@.len() == 0
                && a.wave_countdown == Some(end) && a.now_ms < end ==> {
                &&& b.asteroids == a.asteroids
                &&& b.current_wave == a.current_wave
                &&& b.wave_countdown == a.wave_countdown
                &&& b.next_id == a.next_id
            })
    &&& (forall|end: u64| a.asteroids@.len() == 0
                && a.wave_countdown == Some(end) && a.now_ms >= end ==> {
                &&& b.current_wave == spec_sat_add32(a.current_wave, 1)
                &&& b.asteroids@.len()
                    == World::spec_wave_count(b.current_wave)
                &&& b.wave_countdown is None
            })
}

impl World {
    /// Move every player whose respawn countdown has elapsed back into the
    /// world: a freshly computed safe position, zero velocity, alive, and a
    /// fresh spawn-invincibility window.
    pub fn process_respawns(&mut self)
        requires
            wf_world(*old(self)),
        ensures
            wf_world(*final(self)),
            final(self).now_ms == old(self).now_ms,
            final(self).next_id == old(self).next_id,
            final(self).bullets == old(self).bullets,
            final(self).asteroids == old(self).asteroids,
            final(self).power_ups == old(self).power_ups,
            final(self).current_wave == old(self).current_wave,
            final(self).wave_countdown == old(self).wave_countdown,
            same_identity(old(self).players@, final(self).players@),
            protected(old(self).players@, final(self).players@, old(self).now_ms),
            forall|i: int| 0 <= i < old(self).players@.len()
                && !respawn_due((#[trigger] old(self).players@[i]).rt, old(self).now_ms)
                ==> final(self).players@[i] == old(self).players@[i],
            forall|i: int| 0 <= i < old(self).players@.len()
                && respawn_due((#[trigger] old(self).players@[i]).rt, old(self).now_ms)
                ==> {
                    let p = final(self).players@[i];
                    let q = old(self).players@[i];
                    &&& p.state.alive
                    &&& in_world(p.state.pos)
                    &&& p.state.vel.x == 0 && p.state.vel.y == 0
                    &&& p.state.respawn_timer is None
                    &&& p.state.id == q.state.id
                    &&& p.state.name@ == q.state.name@
                    &&& p.state.angle == q.state.angle
                    &&& p.state.score == q.state.score
                    &&& p.state.combo == q.state.combo
                    &&& p.state.kill_streak == q.state.kill_streak
                    &&& p.state.effects == q.state.effects
                    &&& p.rt.respawn_at is None
                    &&& p.rt.invincible_until
                        == Some(spec_sat_add(old(self).now_ms, SPAWN_INVINCIBILITY_MS))
                    &&& p.rt.input == q.rt.input
                    &&& p.rt.last_fire_ms == q.rt.last_fire_ms
                    &&& p.rt.last_kill_ms == q.rt.last_kill_ms
                    &&& p.rt.combo == q.rt.combo
                    &&& p.rt.kill_streak == q.rt.kill_streak
                    &&& p.rt.shield_until == q.rt.shield_until
                    &&& p.rt.rapid_fire_until == q.rt.rapid_fire_until
                    &&& p.rt.triple_shot_until == q.rt.triple_shot_until
                    &&& p.rt.speed_boost_until == q.rt.speed_boost_until
                },            respawns_processed(*old(self), *final(self)),
    {
        let now = self.now_ms;
        let n = self.players.len();
        let mut i: usize = 0;
        while i < n
            invariant
                wf_world(*self),
                i <= n,
                n == self.players@.len(),
                now == self.now_ms,
                self.now_ms == old(self).now_ms,
                self.next_id == old(self).next_id,
                self.bullets == old(self).bullets,
                self.asteroids == old(self).asteroids,
                self.power_ups == old(self).power_ups,
                self.current_wave == old(self).current_wave,
                self.wave_countdown == old(self).wave_countdown,
                self.players@.len() == old(self).players@.len(),
                forall|k: int| i <= k < n ==> self.players@[k] == old(self).players@[k],
                forall|k: int| 0 <= k < i
                    && !respawn_due((#[trigger] old(self).players@[k]).rt, now)
                    ==> self.players@[k] == old(self).players@[k],
                forall|k: int| 0 <= k < i
                    && respawn_due((#[trigger] old(self).players@[k]).rt, now)
                    ==> {
                        let p = self.players@[k];
                        let q = old(self).players@[k];
                        &&& p.state.alive
                        &&& in_world(p.state.pos)
                        &&& p.state.vel.x == 0 && p.state.vel.y == 0
                        &&& p.state.respawn_timer is None
                        &&& p.state.id == q.state.id
                        &&& p.state.name@ == q.state.name@
                        &&& p.state.angle == q.state.angle
                        &&& p.state.score == q.state.score
                        &&& p.state.combo == q.state.combo
                        &&& p.state.kill_streak == q.state.kill_streak
                        &&& p.state.effects == q.state.effects
                        &&& p.rt.respawn_at is None
                        &&& p.rt.invincible_until
                            == Some(spec_sat_add(now, SPAWN_INVINCIBILITY_MS))
                        &&& p.rt.input == q.rt.input
                        &&& p.rt.last_fire_ms == q.rt.last_fire_ms
                        &&& p.rt.last_kill_ms == q.rt.last_kill_ms
                        &&& p.rt.combo == q.rt.combo
                        &&& p.rt.kill_streak == q.rt.kill_streak
                        &&& p.rt.shield_until == q.rt.shield_until
                        &&& p.rt.rapid_fire_until == q.rt.rapid_fire_until
                        &&& p.rt.triple_shot_until == q.rt.triple_shot_until
                        &&& p.rt.speed_boost_until == q.rt.speed_boost_until
                    },
            decreases n - i,
        {
            let due = match self.players[i].rt.respawn_at {
                Some(t) => t <= now,
                None => false,
            };
            if due {
                let pos = find_safe_spawn_position(&self.asteroids);
                self.players[i].state.pos = pos;
                self.players[i].state.vel = Vec2 { x: 0, y: 0 };
                self.players[i].state.alive = true;
                self.players[i].state.respawn_timer = None;
                self.players[i].rt.respawn_at = None;
                self.players[i].rt.invincible_until = Some(sat_add(now, SPAWN_INVINCIBILITY_MS));
            }
            i = i + 1;
        }
    }

    /// Project every player's runtime record into its broadcast state: the
    /// remaining effect durations, the combo and kill-streak counters, and
    /// the remaining respawn countdown.
    pub fn project_effects(&mut self)
        requires
            wf_world(*old(self)),
        ensures
            wf_world(*final(self)),
            final(self).now_ms == old(self).now_ms,
            final(self).next_id == old(self).next_id,
            final(self).bullets == old(self).bullets,
            final(self).asteroids == old(self).asteroids,
            final(self).power_ups == old(self).power_ups,
            final(self).current_wave == old(self).current_wave,
            final(self).wave_countdown == old(self).wave_countdown,
            same_identity(old(self).players@, final(self).players@),
            protected(old(self).players@, final(self).players@, old(self).now_ms),
            forall|i: int| 0 <= i < old(self).players@.len() ==> {
                let p = #[trigger] final(self).players@[i];
                let q = old(self).players@[i];
                &&& p.rt == q.rt
                &&& p.state.id == q.state.id
                &&& p.state.name@ == q.state.name@
                &&& p.state.pos == q.state.pos
                &&& p.state.vel == q.state.vel
                &&& p.state.angle == q.state.angle
                &&& p.state.alive == q.state.alive
                &&& p.state.score == q.state.score
                &&& p.state.combo == q.rt.combo
                &&& p.state.kill_streak == q.rt.kill_streak
                &&& p.state.respawn_timer
                    == PlayerRuntime::spec_remaining(q.rt.respawn_at, old(self).now_ms)
                &&& p.state.effects.shield_remaining
                    == PlayerRuntime::spec_remaining(q.rt.shield_until, old(self).now_ms)
                &&& p.state.effects.rapid_fire_remaining
                    == PlayerRuntime::spec_remaining(q.rt.rapid_fire_until, old(self).now_ms)
                &&& p.state.effects.triple_shot_remaining
                    == PlayerRuntime::spec_remaining(q.rt.triple_shot_until, old(self).now_ms)
                &&& p.state.effects.speed_boost_remaining
                    == PlayerRuntime::spec_remaining(q.rt.speed_boost_until, old(self).now_ms)
                &&& p.state.effects.invincible_remaining
                    == PlayerRuntime::spec_remaining(q.rt.invincible_until, old(self).now_ms)
            },            effects_projected(*old(self), *final(self)),
    {
        let now = self.now_ms;
        let n = self.players.len();
        let mut i: usize = 0;
        while i < n
            invariant
                wf_world(*self),
                i <= n,
                n == self.players@.len(),
                now == self.now_ms,
                self.now_ms == old(self).now_ms,
                self.next_id == old(self).next_id,
                self.bullets == old(self).bullets,
                self.asteroids == old(self).asteroids,
                self.power_ups == old(self).power_ups,
                self.current_wave == old(self).current_wave,
                self.wave_countdown == old(self).wave_countdown,
                self.players@.len() == old(self).players@.len(),
                forall|k: int| i <= k < n ==> self.players@[k] == old(self).players@[k],
                forall|k: int| 0 <= k < i ==> {
                    let p = #[trigger] self.players@[k];
                    let q = old(self).players@[k];
                    &&& p.rt == q.rt
                    &&& p.state.id == q.state.id
                    &&& p.state.name@ == q.state.name@
                    &&& p.state.pos == q.state.pos
                    &&& p.state.vel == q.state.vel
                    &&& p.state.angle == q.state.angle
                    &&& p.state.alive == q.state.alive
                    &&& p.state.score == q.state.score
                    &&& p.state.combo == q.rt.combo
                    &&& p.state.kill_streak == q.rt.kill_streak
                    &&& p.state.respawn_timer
                        == PlayerRuntime::spec_remaining(q.rt.respawn_at, now)
                    &&& p.state.effects.shield_remaining
                        == PlayerRuntime::spec_remaining(q.rt.shield_until, now)
                    &&& p.state.effects.rapid_fire_remaining
                        == PlayerRuntime::spec_remaining(q.rt.rapid_fire_until, now)
                    &&& p.state.effects.triple_shot_remaining
                        == PlayerRuntime::spec_remaining(q.rt.triple_shot_until, now)
                    &&& p.state.effects.speed_boost_remaining
                        == PlayerRuntime::spec_remaining(q.rt.speed_boost_until, now)
                    &&& p.state.effects.invincible_remaining
                        == PlayerRuntime::spec_remaining(q.rt.invincible_until, now)
                },
            decreases n - i,
        {
            let rt = self.players[i].rt;
            self.players[i].state.effects = rt.get_effects(now);
            self.players[i].state.combo = rt.combo;
            self.players[i].state.kill_streak = rt.kill_streak;
            self.players[i].state.respawn_timer = match rt.respawn_at {
                Some(t) => if now < t { Some(t - now) } else { None },
                None => None,
            };
            i = i + 1;
        }
    }
}

/// A bullet advanced by one tick: straight motion, no wrap, time to live
/// reduced by one tick.
pub open spec fn spec_step_bullet(b: BulletRuntime) -> BulletRuntime {
    BulletRuntime {
        state: BulletState {
            id: b.state.id,
            owner_id: b.state.owner_id,
            pos: Vec2 {
                x: (b.state.pos.x + b.state.vel.x) as i64,
                y: (b.state.pos.y + b.state.vel.y) as i64,
            },
            vel: b.state.vel,
        },
        ttl_ms: (b.ttl_ms - TICK_MS) as i64,
    }
}

/// A bullet that stays live after a step: time to live remaining and still
/// inside the closed world rectangle.
pub open spec fn bullet_live(b: BulletRuntime) -> bool {
    &&& b.ttl_ms > 0
    &&& 0 <= b.state.pos.x <= WORLD_WIDTH
    &&& 0 <= b.state.pos.y <= WORLD_HEIGHT
}

/// Every bullet of `new_bs` is the one-tick step of one of the first `upto`
/// bullets of `old_bs`, and live: nothing else survives the update.
pub open spec fn bullets_stepped_from(
    old_bs: Seq<BulletRuntime>,
    upto: int,
    new_bs: Seq<BulletRuntime>,
) -> bool {
    forall|k: int| #![trigger new_bs[k]] 0 <= k < new_bs.len()
        ==> exists|j: int| 0 <= j < upto
            && new_bs[k] == spec_step_bullet(#[trigger] old_bs[j])
            && bullet_live(new_bs[k])
}

impl World {
    /// Advance every bullet one tick and discard those whose time to live
    /// ran out or whose position left the world rectangle: bullets do not
    /// wrap, so a shot has straight, finite range.
    pub fn update_bullets(&mut self)
        requires
            wf_world(*old(self)),
        ensures
            wf_world(*final(self)),
            final(self).now_ms == old(self).now_ms,
            final(self).next_id == old(self).next_id,
            final(self).players == old(self).players,
            final(self).asteroids == old(self).asteroids,
            final(self).power_ups == old(self).power_ups,
            final(self).current_wave == old(self).current_wave,
            final(self).wave_countdown == old(self).wave_countdown,
            forall|j: int| 0 <= j < old(self).bullets@.len()
                && bullet_live(spec_step_bullet(#[trigger] old(self).bullets@[j]))
                ==> final(self).bullets@.contains(spec_step_bullet(old(self).bullets@[j])),
            bullets_stepped_from(
                old(self).bullets@,
                old(self).bullets@.len() as int,
                final(self).bullets@,
            ),            bullets_stepped(*old(self), *final(self)),
    {
        let n = self.bullets.len();
        let mut kept: Vec<BulletRuntime> = Vec::new();
        let mut i: usize = 0;
        while i < n
            invariant
                wf_world(*self),
                i <= n,
                n == self.bullets@.len(),
                self.bullets == old(self).bullets,
                forall|j: int| 0 <= j < i
                    && bullet_live(spec_step_bullet(#[trigger] old(self).bullets@[j]))
                    ==> kept@.contains(spec_step_bullet(old(self).bullets@[j])),
                bullets_stepped_from(old(self).bullets@, i as int, kept@),
                forall|k: int| 0 <= k < kept@.len() ==> wf_bullet(#[trigger] kept@[k]),
            decreases n - i,
        {
            let b = self.bullets[i];
            let stepped = BulletRuntime {
                state: BulletState {
                    id: b.state.id,
                    owner_id: b.state.owner_id,
                    pos: Vec2 { x: b.state.pos.x + b.state.vel.x, y: b.state.pos.y + b.state.vel.y },
                    vel: b.state.vel,
                },
                ttl_ms: b.ttl_ms - TICK_MS as i64,
            };
            if stepped.ttl_ms > 0
                && stepped.state.pos.x >= 0 && stepped.state.pos.x <= WORLD_WIDTH
                && stepped.state.pos.y >= 0 && stepped.state.pos.y <= WORLD_HEIGHT {
                let ghost prev = kept@;
                kept.push(stepped);
                proof {
                    assert(stepped == spec_step_bullet(old(self).bullets@[i as int]));
                    assert(forall|j: int| 0 <= j < prev.len() ==> kept@[j] == prev[j]);
                    assert(kept@[prev.len() as int] == stepped);
                    assert(forall|x: BulletRuntime| prev.contains(x)
                        ==> #[trigger] kept@.contains(x)) by {
                        assert(forall|j: int| 0 <= j < prev.len() && #[trigger] prev[j] == prev[j]
                            ==> kept@[j] == prev[j]);
                    }
                }
            } else {
                proof {
                    assert(stepped == spec_step_bullet(old(self).bullets@[i as int]));
                    assert(!bullet_live(stepped));
                }
            }
            i = i + 1;
        }
        self.bullets = kept;
    }

    /// Advance every asteroid one tick: constant velocity, wrapped position.
    pub fn integrate_asteroids(&mut self)
        requires
            wf_world(*old(self)),
        ensures
            wf_world(*final(self)),
            final(self).now_ms == old(self).now_ms,
            final(self).next_id == old(self).next_id,
            final(self).players == old(self).players,
            final(self).bullets == old(self).bullets,
            final(self).power_ups == old(self).power_ups,
            final(self).current_wave == old(self).current_wave,
            final(self).wave_countdown == old(self).wave_countdown,
            final(self).asteroids@.len() == old(self).asteroids@.len(),
            forall|i: int| 0 <= i < old(self).asteroids@.len() ==> {
                let a = #[trigger] final(self).asteroids@[i];
                let q = old(self).asteroids@[i];
                &&& a.id == q.id
                &&& a.size == q.size
                &&& a.vel == q.vel
                &&& a.pos == spec_wrap(Vec2 {
                    x: (q.pos.x + q.vel.x) as i64,
                    y: (q.pos.y + q.vel.y) as i64,
                })
            },            asteroids_stepped(*old(self), *final(self)),
    {
        let n = self.asteroids.len();
        let mut i: usize = 0;
        while i < n
            invariant
                i <= n,
                n == self.asteroids@.len(),
                self.asteroids@.len() == old(self).asteroids@.len(),
                self.now_ms == old(self).now_ms,
                self.next_id == old(self).next_id,
                self.players == old(self).players,
                self.bullets == old(self).bullets,
                self.power_ups == old(self).power_ups,
                self.current_wave == old(self).current_wave,
                self.wave_countdown == old(self).wave_countdown,
                wf_world(*old(self)),
                forall|k: int| 0 <= k < self.players@.len()
                    ==> (#[trigger] self.players@[k]).wf(),
                forall|k: int, j: int| 0 <= k < j < self.players@.len()
                    ==> self.players@[k].state.id != self.players@[j].state.id,
                forall|k: int| 0 <= k < self.bullets@.len()
                    ==> wf_bullet(#[trigger] self.bullets@[k]),
                forall|k: int| 0 <= k < self.power_ups@.len()
                    ==> wf_power_up(#[trigger] self.power_ups@[k]),
                1 <= self.current_wave,
                forall|k: int| i <= k < n ==> self.asteroids@[k] == old(self).asteroids@[k],
                forall|k: int| 0 <= k < n ==> wf_asteroid(#[trigger] self.asteroids@[k]),
                forall|k: int| 0 <= k < i ==> {
                    let a = #[trigger] self.asteroids@[k];
                    let q = old(self).asteroids@[k];
                    &&& a.id == q.id
                    &&& a.size == q.size
                    &&& a.vel == q.vel
                    &&& a.pos == spec_wrap(Vec2 {
                        x: (q.pos.x + q.vel.x) as i64,
                        y: (q.pos.y + q.vel.y) as i64,
                    })
                },
            decreases n - i,
        {
            let a = self.asteroids[i];
            let pos = step_position(a.pos, a.vel);
            self.asteroids[i].pos = pos;
            i = i + 1;
        }
        proof {
            lemma_total_weight_same_sizes(self.asteroids@, old(self).asteroids@);
        }
    }

    /// Remove every power-up whose time to live has expired.
    pub fn expire_power_ups(&mut self)
        requires
            wf_world(*old(self)),
        ensures
            wf_world(*final(self)),
            final(self).now_ms == old(self).now_ms,
            final(self).next_id == old(self).next_id,
            final(self).players == old(self).players,
            final(self).bullets == old(self).bullets,
            final(self).asteroids == old(self).asteroids,
            final(self).current_wave == old(self).current_wave,
            final(self).wave_countdown == old(self).wave_countdown,
            forall|j: int| 0 <= j < old(self).power_ups@.len()
                && old(self).now_ms < (#[trigger] old(self).power_ups@[j]).expires_at
                ==> final(self).power_ups@.contains(old(self).power_ups@[j]),
            forall|k: int| 0 <= k < final(self).power_ups@.len()
                ==> old(self).power_ups@.contains(#[trigger] final(self).power_ups@[k])
                    && old(self).now_ms < final(self).power_ups@[k].expires_at,            power_ups_expired(*old(self), *final(self)),
    {
        let now = self.now_ms;
        let n = self.power_ups.len();
        let mut kept: Vec<PowerUpRuntime> = Vec::new();
        let mut i: usize = 0;
        while i < n
            invariant
                wf_world(*self),
                i <= n,
                now == self.now_ms,
                n == self.power_ups@.len(),
                self.power_ups == old(self).power_ups,
                forall|j: int| 0 <= j < i && now < (#[trigger] self.power_ups@[j]).expires_at
                    ==> kept@.contains(self.power_ups@[j]),
                forall|k: int| 0 <= k < kept@.len()
                    ==> self.power_ups@.contains(#[trigger] kept@[k])
                        && now < kept@[k].expires_at,
                forall|k: int| 0 <= k < kept@.len() ==> wf_power_up(#[trigger] kept@[k]),
            decreases n - i,
        {
            let p = self.power_ups[i];
            if now < p.expires_at {
                let ghost prev = kept@;
                kept.push(p);
                proof {
                    assert(forall|j: int| 0 <= j < prev.len() ==> kept@[j] == prev[j]);
                    assert(kept@[prev.len() as int] == p);
                    assert(forall|x: PowerUpRuntime| prev.contains(x)
                        ==> #[trigger] kept@.contains(x)) by {
                        assert(forall|j: int| 0 <= j < prev.len() && #[trigger] prev[j] == prev[j]
                            ==> kept@[j] == prev[j]);
                    }
                }
            }
            i = i + 1;
        }
        self.power_ups = kept;
    }

    /// Move and steer every living player for one tick and fire their
    /// bullets where the cooldown allows: rotation, thrust, drag, speed cap,
    /// wrapped position, then one bullet along the snapped heading (or three
    /// with triple shot).
    #[verifier::rlimit(100)]
    #[verifier::spinoff_prover]
    pub fn integrate_players(&mut self)
        requires
            wf_world(*old(self)),
        ensures
            wf_world(*final(self)),
            final(self).now_ms == old(self).now_ms,
            final(self).asteroids == old(self).asteroids,
            final(self).power_ups == old(self).power_ups,
            final(self).current_wave == old(self).current_wave,
            final(self).wave_countdown == old(self).wave_countdown,
            same_identity(old(self).players@, final(self).players@),
            protected(old(self).players@, final(self).players@, old(self).now_ms),
            players_integrated(old(self).players@, final(self).players@, old(self).now_ms),
            final(self).bullets@.len() >= old(self).bullets@.len(),
            final(self).bullets@.subrange(0, old(self).bullets@.len() as int)
                == old(self).bullets@,
            exists|fstarts: Seq<int>|
                #![trigger fired_segments(old(self).players@, final(self).players@,
                    final(self).bullets@, fstarts, old(self).now_ms,
                    old(self).players@.len() as int)]
                {
                    &&& fstarts.len() == old(self).players@.len() + 1
                    &&& fstarts[0] == old(self).bullets@.len()
                    &&& fstarts[old(self).players@.len() as int] == final(self).bullets@.len()
                    &&& fired_segments(old(self).players@, final(self).players@,
                        final(self).bullets@, fstarts, old(self).now_ms,
                        old(self).players@.len() as int)
                },            players_stepped(*old(self), *final(self)),
    {
        let now = self.now_ms;
        let n = self.players.len();
        let ghost old_bullets = self.bullets@;
        let ghost mut fstarts: Seq<int> = seq![old_bullets.len() as int];
        let mut i: usize = 0;
        while i < n
            invariant
                wf_world(*self),
                i <= n,
                n == self.players@.len(),
                now == self.now_ms,
                self.now_ms == old(self).now_ms,
                self.asteroids == old(self).asteroids,
                self.power_ups == old(self).power_ups,
                self.current_wave == old(self).current_wave,
                self.wave_countdown == old(self).wave_countdown,
                self.players@.len() == old(self).players@.len(),
                forall|k: int| i <= k < n ==> self.players@[k] == old(self).players@[k],
                forall|k: int| 0 <= k < i
                    ==> player_integrated(#[trigger] old(self).players@[k], now, self.players@[k]),
                self.bullets@.len() >= old_bullets.len(),
                self.bullets@.subrange(0, old_bullets.len() as int) == old_bullets,
                old_bullets == old(self).bullets@,
                fstarts.len() == i + 1,
                fstarts[0] == old(self).bullets@.len(),
                fstarts[i as int] == self.bullets@.len(),
                fired_segments(old(self).players@, self.players@, self.bullets@, fstarts, now,
                    i as int),
            decreases n - i,
        {
            let ghost players_before = self.players@;
            let ghost bullets_before = self.bullets@;
            self.step_one_player(i);
            proof {
                fstarts = fstarts.push(self.bullets@.len() as int);
                assert(fstarts[i as int] == bullets_before.len());
                assert(self.bullets@.subrange(0, old_bullets.len() as int) =~= old_bullets);
                assert(forall|k: int| 0 <= k < bullets_before.len()
                    ==> self.bullets@[k] == bullets_before[k]);
            }
            i = i + 1;
        }
    }

    /// Integrate one player and fire its bullets, leaving every other player
    /// untouched; the appended bullets are exactly the fire step's output.
    fn step_one_player(&mut self, i: usize)
        requires
            wf_world(*old(self)),
            i < old(self).players@.len(),
        ensures
            wf_world(*final(self)),
            final(self).now_ms == old(self).now_ms,
            final(self).asteroids == old(self).asteroids,
            final(self).power_ups == old(self).power_ups,
            final(self).current_wave == old(self).current_wave,
            final(self).wave_countdown == old(self).wave_countdown,
            final(self).players@.len() == old(self).players@.len(),
            forall|k: int| 0 <= k < old(self).players@.len() && k != i
                ==> final(self).players@[k] == old(self).players@[k],
            player_integrated(old(self).players@[i as int], old(self).now_ms,
                final(self).players@[i as int]),
            final(self).bullets@.len() >= old(self).bullets@.len(),
            final(self).bullets@.subrange(0, old(self).bullets@.len() as int)
                == old(self).bullets@,
            ({
                let q = old(self).players@[i as int];
                let p = final(self).players@[i as int].state;
                let s = old(self).bullets@.len() as int;
                let snap = spec_snap_sector(p.angle as int);
                let now = old(self).now_ms;
                if q.state.alive && fire_ready(q.rt, now) {
                    if active_at(q.rt.triple_shot_until, now) {
                        &&& final(self).bullets@.len() == s + 3
                        &&& bullet_fired(final(self).bullets@[s], q.state.id, p,
                            (snap + 23) % 24)
                        &&& bullet_fired(final(self).bullets@[s + 1], q.state.id, p, snap)
                        &&& bullet_fired(final(self).bullets@[s + 2], q.state.id, p,
                            (snap + 1) % 24)
                    } else {
                        &&& final(self).bullets@.len() == s + 1
                        &&& bullet_fired(final(self).bullets@[s], q.state.id, p, snap)
                    }
                } else {
                    final(self).bullets == old(self).bullets
                }
            }),
    {
        let now = self.now_ms;
        let rt = self.players[i].rt;
        let alive = self.players[i].state.alive;
        if alive {
            let a2 = step_angle(self.players[i].state.angle, rt.input.rotate);
            let boost = rt.has_speed_boost(now);
            let vel2 = step_velocity(self.players[i].state.vel, a2, rt.input.thrust, boost);
            let pos2 = step_position(self.players[i].state.pos, vel2);
            self.players[i].state.angle = a2;
            self.players[i].state.vel = vel2;
            self.players[i].state.pos = pos2;
            let cooldown = if rt.has_rapid_fire(now) {
                RAPID_FIRE_COOLDOWN_MS
            } else {
                FIRE_COOLDOWN_MS
            };
            let ready = rt.input.fire
                && rt.last_fire_ms <= now && now - rt.last_fire_ms >= cooldown;
            if ready {
                self.players[i].rt.last_fire_ms = now;
                let owner = self.players[i].state.id;
                let triple = rt.has_triple_shot(now);
                let snapped = snap_sector(a2);
                let ghost before_fire = self.bullets@;
                if triple {
                    self.push_bullet(owner, pos2, (snapped + 23) % 24);
                    self.push_bullet(owner, pos2, snapped);
                    self.push_bullet(owner, pos2, (snapped + 1) % 24);
                    proof {
                        let s = before_fire.len() as int;
                        assert(bullet_fired(self.bullets@[s], owner,
                            self.players@[i as int].state,
                            (spec_snap_sector(a2 as int) + 23) % 24));
                        assert(bullet_fired(self.bullets@[s + 1], owner,
                            self.players@[i as int].state, spec_snap_sector(a2 as int)));
                        assert(bullet_fired(self.bullets@[s + 2], owner,
                            self.players@[i as int].state,
                            (spec_snap_sector(a2 as int) + 1) % 24));
                    }
                } else {
                    self.push_bullet(owner, pos2, snapped);
                    proof {
                        let s = before_fire.len() as int;
                        assert(bullet_fired(self.bullets@[s], owner,
                            self.players@[i as int].state, spec_snap_sector(a2 as int)));
                    }
                }
            }
        }
    }

    /// Append one bullet travelling along heading `a` from `pos`, with a
    /// fresh id and the full time to live.
    fn push_bullet(&mut self, owner: u64, pos: Vec2, a: u64)
        requires
            wf_world(*old(self)),
            a < 24,
            in_world(pos),
        ensures
            wf_world(*final(self)),
            final(self).now_ms == old(self).now_ms,
            final(self).players == old(self).players,
            final(self).asteroids == old(self).asteroids,
            final(self).power_ups == old(self).power_ups,
            final(self).current_wave == old(self).current_wave,
            final(self).wave_countdown == old(self).wave_countdown,
            final(self).bullets@.len() == old(self).bullets@.len() + 1,
            final(self).bullets@.subrange(0, old(self).bullets@.len() as int)
                == old(self).bullets@,
            final(self).bullets@.last() == (BulletRuntime {
                state: BulletState {
                    id: old(self).next_entity_id,
                    owner_id: owner,
                    pos,
                    vel: spec_dir_vec(a as int, BULLET_SPEED as int),
                },
                ttl_ms: BULLET_TTL_MS,
            }),
    {
        let id = self.next_entity_id;
        self.next_entity_id = sat_add(self.next_entity_id, 1);
        let vel = dir_vec(a, BULLET_SPEED);
        let ghost prev = self.bullets@;
        self.bullets.push(BulletRuntime {
            state: BulletState { id, owner_id: owner, pos, vel },
            ttl_ms: BULLET_TTL_MS,
        });
        proof {
            assert(self.bullets@.subrange(0, prev.len() as int) =~= prev);
        }
    }

    /// Whether a player overlaps any asteroid, by squared toroidal distance
    /// against the squared radius sum.
    fn player_hits_asteroid(p: &PlayerState, asteroids: &Vec<AsteroidState>) -> (r: bool)
        requires
            in_world(p.pos),
            forall|i: int| 0 <= i < asteroids@.len() ==> wf_asteroid(#[trigger] asteroids@[i]),
        ensures
            r == hits_some_asteroid(*p, asteroids@),
    {
        let n = asteroids.len();
        let mut i: usize = 0;
        while i < n
            invariant
                i <= n,
                n == asteroids@.len(),
                in_world(p.pos),
                forall|k: int| 0 <= k < n ==> wf_asteroid(#[trigger] asteroids@[k]),
                forall|k: int| 0 <= k < i
                    ==> !player_overlaps_asteroid(*p, #[trigger] asteroids@[k]),
            decreases n - i,
        {
            let a = asteroids[i];
            let d = distance_squared_wrapped(p.pos, a.pos);
            let rad = PLAYER_RADIUS + asteroid_radius(a.size);
            proof {
                assert(rad * rad <= 5_500 * 5_500i64) by (nonlinear_arith)
                    requires 0 <= rad <= 5_500;
            }
            if d < rad * rad {
                return true;
            }
            i = i + 1;
        }
        false
    }

    /// Kill every living, non-invincible player overlapping an asteroid.
    /// All victims are collected before any death is applied, so one
    /// player's death cannot alter the scan for the others.
    pub fn resolve_player_asteroid(&mut self)
        requires
            wf_world(*old(self)),
        ensures
            wf_world(*final(self)),
            final(self).now_ms == old(self).now_ms,
            final(self).next_id == old(self).next_id,
            final(self).bullets == old(self).bullets,
            final(self).asteroids == old(self).asteroids,
            final(self).power_ups == old(self).power_ups,
            final(self).current_wave == old(self).current_wave,
            final(self).wave_countdown == old(self).wave_countdown,
            same_identity(old(self).players@, final(self).players@),
            protected(old(self).players@, final(self).players@, old(self).now_ms),
            forall|i: int| 0 <= i < old(self).players@.len() ==> {
                let q = #[trigger] old(self).players@[i];
                let p = final(self).players@[i];
                if q.state.alive && !q.rt.spec_is_invincible(old(self).now_ms)
                    && hits_some_asteroid(q.state, old(self).asteroids@) {
                    death_applied(q, old(self).now_ms, p)
                } else {
                    p == q
                }
            },            asteroid_deaths_resolved(*old(self), *final(self)),
    {
        let now = self.now_ms;
        let n = self.players.len();
        let mut victim: Vec<bool> = Vec::new();
        let mut i: usize = 0;
        while i < n
            invariant
                wf_world(*self),
                i <= n,
                n == self.players@.len(),
                now == self.now_ms,
                *self == *old(self),
                victim@.len() == i,
                forall|k: int| 0 <= k < i ==> (victim@[k] <==> {
                    let q = #[trigger] old(self).players@[k];
                    q.state.alive && !q.rt.spec_is_invincible(now)
                        && hits_some_asteroid(q.state, old(self).asteroids@)
                }),
            decreases n - i,
        {
            let q_alive = self.players[i].state.alive;
            let inv = self.players[i].rt.is_invincible(now);
            let hit = if q_alive && !inv {
                Self::player_hits_asteroid(&self.players[i].state, &self.asteroids)
            } else {
                false
            };
            victim.push(q_alive && !inv && hit);
            i = i + 1;
        }
        let mut k: usize = 0;
        while k < n
            invariant
                wf_world(*self),
                k <= n,
                n == self.players@.len(),
                now == self.now_ms,
                self.now_ms == old(self).now_ms,
                self.next_id == old(self).next_id,
                self.bullets == old(self).bullets,
                self.asteroids == old(self).asteroids,
                self.power_ups == old(self).power_ups,
                self.current_wave == old(self).current_wave,
                self.wave_countdown == old(self).wave_countdown,
                self.players@.len() == old(self).players@.len(),
                victim@.len() == n,
                forall|j: int| 0 <= j < n ==> (victim@[j] <==> {
                    let q = #[trigger] old(self).players@[j];
                    q.state.alive && !q.rt.spec_is_invincible(now)
                        && hits_some_asteroid(q.state, old(self).asteroids@)
                }),
                forall|j: int| k <= j < n ==> self.players@[j] == old(self).players@[j],
                forall|j: int| 0 <= j < k ==> {
                    let q = #[trigger] old(self).players@[j];
                    let p = self.players@[j];
                    if victim@[j] {
                        death_applied(q, now, p)
                    } else {
                        p == q
                    }
                },
            decreases n - k,
        {
            if victim[k] {
                let e = &mut self.players[k];
                crate::scoring::apply_death(&mut e.state, &mut e.rt, now);
            }
            k = k + 1;
        }
    }

    /// The first player this bullet overlaps and may kill, scanning in
    /// registry order.
    fn first_pvp_target(&self, b: &BulletRuntime, now: u64) -> (r: Option<usize>)
        requires
            wf_world(*self),
            wf_bullet(*b),
        ensures
            match r {
                Some(i) => i < self.players@.len()
                    && pvp_eligible(self.players@[i as int], b.state.owner_id, now)
                    && bullet_overlaps_player(b.state, self.players@[i as int].state)
                    && forall|k: int| 0 <= k < i
                        ==> !(pvp_eligible(#[trigger] self.players@[k], b.state.owner_id, now)
                            && bullet_overlaps_player(b.state, self.players@[k].state)),
                None => !bullet_threatens(*b, self.players@, now),
            },
    {
        let n = self.players.len();
        let mut i: usize = 0;
        while i < n
            invariant
                i <= n,
                n == self.players@.len(),
                wf_world(*self),
                wf_bullet(*b),
                forall|k: int| 0 <= k < i
                    ==> !(pvp_eligible(#[trigger] self.players@[k], b.state.owner_id, now)
                        && bullet_overlaps_player(b.state, self.players@[k].state)),
            decreases n - i,
        {
            let p = &self.players[i];
            if p.state.alive && p.state.id != b.state.owner_id && !p.rt.is_invincible(now) {
                let d = distance_squared_wrapped(b.state.pos, p.state.pos);
                let rad = BULLET_RADIUS + PLAYER_RADIUS;
                if d < rad * rad {
                    return Some(i);
                }
            }
            i = i + 1;
        }
        None
    }

    /// Player-versus-player fire: every bullet that overlaps a living,
    /// non-invincible player other than its owner kills its first such
    /// target, credits the shooter with the flat points plus the periodic
    /// streak bonus, and is consumed. Hits are collected before any death or
    /// removal is applied, and each player dies at most once.
    #[verifier::rlimit(60)]
    pub fn resolve_pvp(&mut self)
        requires
            wf_world(*old(self)),
        ensures
            wf_world(*final(self)),
            final(self).now_ms == old(self).now_ms,
            final(self).next_id == old(self).next_id,
            final(self).asteroids == old(self).asteroids,
            final(self).power_ups == old(self).power_ups,
            final(self).current_wave == old(self).current_wave,
            final(self).wave_countdown == old(self).wave_countdown,
            same_identity(old(self).players@, final(self).players@),
            protected(old(self).players@, final(self).players@, old(self).now_ms),
            forall|i: int| 0 <= i < old(self).players@.len()
                && (#[trigger] old(self).players@[i]).state.alive
                && !final(self).players@[i].state.alive
                ==> !old(self).players@[i].rt.spec_is_invincible(old(self).now_ms)
                    && exists|j: int| 0 <= j < old(self).bullets@.len()
                        && (#[trigger] old(self).bullets@[j]).state.owner_id
                            != old(self).players@[i].state.id
                        && bullet_overlaps_player(
                            old(self).bullets@[j].state,
                            old(self).players@[i].state,
                        ),
            forall|j: int, i: int| 0 <= j < old(self).bullets@.len()
                && #[trigger] sole_target(old(self).bullets@[j], old(self).players@, i,
                    old(self).now_ms)
                ==> !final(self).players@[i].state.alive,
            exists|pairs: Seq<(int, u64)>|
                #![trigger apply_pvp_kills(old(self).players@, pairs, old(self).now_ms)]
                {
                    &&& final(self).players@
                        == apply_pvp_kills(old(self).players@, pairs, old(self).now_ms)
                    &&& forall|m: int| #![trigger pairs[m]] 0 <= m < pairs.len() ==> {
                        &&& 0 <= pairs[m].0 < old(self).players@.len()
                        &&& pvp_eligible(old(self).players@[pairs[m].0], pairs[m].1,
                            old(self).now_ms)
                        &&& exists|j: int| 0 <= j < old(self).bullets@.len()
                            && (#[trigger] old(self).bullets@[j]).state.owner_id
                                == pairs[m].1
                            && bullet_overlaps_player(old(self).bullets@[j].state,
                                old(self).players@[pairs[m].0].state)
                    }
                    &&& forall|m: int, m2: int| #![trigger pairs[m], pairs[m2]]
                        0 <= m < m2 < pairs.len() ==> pairs[m].0 < pairs[m2].0
                },
            forall|j: int| 0 <= j < old(self).bullets@.len()
                && !bullet_threatens(#[trigger] old(self).bullets@[j], old(self).players@,
                    old(self).now_ms)
                ==> final(self).bullets@.contains(old(self).bullets@[j]),
            pvp_survivors(old(self).bullets@, old(self).players@, old(self).now_ms,
                final(self).bullets@),            pvp_resolved(*old(self), *final(self)),
    {
        let now = self.now_ms;
        let n = self.players.len();
        let nb = self.bullets.len();
        let mut victim: Vec<bool> = vec![false; n];
        let mut shooter: Vec<u64> = vec![0; n];
        let mut consumed: Vec<bool> = vec![false; nb];
        let mut bi: usize = 0;
        while bi < nb
            invariant
                bi <= nb,
                n == self.players@.len(),
                nb == self.bullets@.len(),
                now == self.now_ms,
                *self == *old(self),
                wf_world(*self),
                victim@.len() == n,
                shooter@.len() == n,
                consumed@.len() == nb,
                forall|j: int| bi <= j < nb ==> !(#[trigger] consumed@[j]),
                forall|j: int| 0 <= j < bi
                    ==> #[trigger] consumed@[j]
                        == bullet_threatens(old(self).bullets@[j], old(self).players@, now),
                forall|i: int| 0 <= i < n && #[trigger] victim@[i]
                    ==> pvp_eligible(old(self).players@[i], shooter@[i], now)
                        && exists|j: int| 0 <= j < bi
                            && (#[trigger] old(self).bullets@[j]).state.owner_id == shooter@[i]
                            && bullet_overlaps_player(
                                old(self).bullets@[j].state,
                                old(self).players@[i].state,
                            ),
                forall|j: int, i: int| 0 <= j < bi
                    && #[trigger] sole_target(old(self).bullets@[j], old(self).players@, i, now)
                    ==> victim@[i],
            decreases nb - bi,
        {
            let b = self.bullets[bi];
            proof {
                assert(self.players@ == old(self).players@);
                assert(b == old(self).bullets@[bi as int]);
            }
            match self.first_pvp_target(&b, now) {
                Some(f) => {
                    proof {
                        assert(pvp_eligible(old(self).players@[f as int], b.state.owner_id, now));
                        assert(bullet_overlaps_player(
                            b.state, old(self).players@[f as int].state));
                        assert(bullet_threatens(
                            old(self).bullets@[bi as int], old(self).players@, now));
                        assert(forall|k: int| 0 <= k < f
                            ==> !(pvp_eligible(#[trigger] old(self).players@[k],
                                    b.state.owner_id, now)
                                && bullet_overlaps_player(
                                    b.state, old(self).players@[k].state)));
                    }
                    consumed.set(bi, true);
                    if !victim[f] {
                        victim.set(f, true);
                        shooter.set(f, b.state.owner_id);
                    }
                    proof {
                        assert forall|i: int|
                            #[trigger] sole_target(old(self).bullets@[bi as int],
                                old(self).players@, i, now)
                            implies victim@[i] by {
                            if i != f as int {
                                assert(pvp_eligible(old(self).players@[f as int],
                                    b.state.owner_id, now)
                                    && bullet_overlaps_player(
                                        b.state, old(self).players@[f as int].state));
                                assert(false);
                            }
                        };
                    }
                }
                None => {
                    proof {
                        assert(!bullet_threatens(
                            old(self).bullets@[bi as int], old(self).players@, now)) by {
                            if bullet_threatens(old(self).bullets@[bi as int],
                                old(self).players@, now) {
                                let i = choose|i: int| 0 <= i < old(self).players@.len()
                                    && pvp_eligible(#[trigger] old(self).players@[i],
                                        b.state.owner_id, now)
                                    && bullet_overlaps_player(
                                        b.state, old(self).players@[i].state);
                                assert(pvp_eligible(self.players@[i], b.state.owner_id, now));
                                assert(bullet_overlaps_player(b.state, self.players@[i].state));
                                assert(bullet_threatens(b, self.players@, now));
                            }
                        }
                    }
                }
            }
            bi = bi + 1;
        }
        let ghost mut pairs: Seq<(int, u64)> = Seq::empty();
        let mut k: usize = 0;
        while k < n
            invariant
                k <= n,
                n == self.players@.len(),
                nb == self.bullets@.len(),
                now == self.now_ms,
                wf_world(*self),
                self.now_ms == old(self).now_ms,
                self.next_id == old(self).next_id,
                self.bullets == old(self).bullets,
                self.asteroids == old(self).asteroids,
                self.power_ups == old(self).power_ups,
                self.current_wave == old(self).current_wave,
                self.wave_countdown == old(self).wave_countdown,
                self.players@.len() == old(self).players@.len(),
                self.players@ == apply_pvp_kills(old(self).players@, pairs, now),
                forall|m: int| #![trigger pairs[m]] 0 <= m < pairs.len() ==> {
                    &&& 0 <= pairs[m].0 < k
                    &&& pvp_eligible(old(self).players@[pairs[m].0], pairs[m].1, now)
                    &&& exists|j: int| 0 <= j < old(self).bullets@.len()
                        && (#[trigger] old(self).bullets@[j]).state.owner_id == pairs[m].1
                        && bullet_overlaps_player(old(self).bullets@[j].state,
                            old(self).players@[pairs[m].0].state)
                },
                forall|m: int, m2: int| #![trigger pairs[m], pairs[m2]]
                    0 <= m < m2 < pairs.len() ==> pairs[m].0 < pairs[m2].0,
                victim@.len() == n,
                shooter@.len() == n,
                consumed@.len() == nb,
                forall|j: int| 0 <= j < nb
                    ==> #[trigger] consumed@[j]
                        == bullet_threatens(old(self).bullets@[j], old(self).players@, now),
                forall|i: int| 0 <= i < n && #[trigger] victim@[i]
                    ==> pvp_eligible(old(self).players@[i], shooter@[i], now)
                        && exists|j: int| 0 <= j < nb
                            && (#[trigger] old(self).bullets@[j]).state.owner_id == shooter@[i]
                            && bullet_overlaps_player(
                                old(self).bullets@[j].state,
                                old(self).players@[i].state,
                            ),
                forall|j: int, i: int| 0 <= j < nb
                    && #[trigger] sole_target(old(self).bullets@[j], old(self).players@, i, now)
                    ==> victim@[i],
                forall|i: int| 0 <= i < n ==> {
                    let p = #[trigger] self.players@[i];
                    let q = old(self).players@[i];
                    &&& p.state.id == q.state.id
                    &&& p.state.name@ == q.state.name@
                    &&& p.state.alive == (q.state.alive && !(victim@[i] && i < k))
                    &&& p.rt.invincible_until == q.rt.invincible_until
                    &&& (!victim@[i] ==> p.rt.shield_until == q.rt.shield_until)
                },
            decreases n - k,
        {
            if victim[k] {
                let sid = shooter[k];
                let ghost prev = self.players@;
                let e = &mut self.players[k];
                crate::scoring::apply_death(&mut e.state, &mut e.rt, now);
                let ghost mid = self.players@;
                proof {
                    assert(self.players@[k as int] == dead_entry(prev[k as int], now));
                    assert(mid =~= prev.update(k as int, dead_entry(prev[k as int], now)));
                    assert(forall|a2: int, b2: int| 0 <= a2 < b2 < mid.len()
                        ==> (#[trigger] mid[a2]).state.id
                            != (#[trigger] mid[b2]).state.id) by {
                        assert(forall|a2: int| 0 <= a2 < mid.len()
                            ==> (#[trigger] mid[a2]).state.id
                                == old(self).players@[a2].state.id);
                    }
                }
                match self.find_player(sid) {
                    Some(si) => {
                        let e2 = &mut self.players[si];
                        crate::scoring::credit_pvp_kill(&mut e2.state, &mut e2.rt);
                        proof {
                            lemma_find_player_unique(mid, sid, si as int);
                            assert(self.players@[si as int]
                                == credited_entry(mid[si as int]));
                            assert(self.players@ =~= mid.update(si as int,
                                credited_entry(mid[si as int])));
                            assert(self.players@ == pvp_step(prev, k as int, sid, now));
                        }
                    }
                    None => {
                        proof {
                            assert(forall|k2: int| 0 <= k2 < mid.len()
                                ==> (#[trigger] mid[k2]).state.id != sid);
                            lemma_find_player_none(mid, sid);
                            assert(self.players@ == pvp_step(prev, k as int, sid, now));
                        }
                    }
                }
                proof {
                    let ghost prev_pairs = pairs;
                    pairs = pairs.push((k as int, sid));
                    assert(pairs.drop_last() =~= prev_pairs);
                    assert(pairs.drop_last() == prev_pairs);
                    assert(pairs.last() == (k as int, sid));
                    assert(apply_pvp_kills(old(self).players@, prev_pairs, now) == prev);
                    assert(self.players@ == apply_pvp_kills(old(self).players@, pairs, now));
                }
            }
            k = k + 1;
        }
        let mut kept: Vec<BulletRuntime> = Vec::new();
        let mut ci: usize = 0;
        while ci < nb
            invariant
                ci <= nb,
                nb == self.bullets@.len(),
                n == self.players@.len(),
                now == self.now_ms,
                wf_world(*self),
                self.now_ms == old(self).now_ms,
                self.next_id == old(self).next_id,
                self.bullets == old(self).bullets,
                self.asteroids == old(self).asteroids,
                self.power_ups == old(self).power_ups,
                self.current_wave == old(self).current_wave,
                self.wave_countdown == old(self).wave_countdown,
                self.players@.len() == old(self).players@.len(),
                victim@.len() == n,
                shooter@.len() == n,
                consumed@.len() == nb,
                forall|i: int| 0 <= i < n && #[trigger] victim@[i]
                    ==> pvp_eligible(old(self).players@[i], shooter@[i], now)
                        && exists|j: int| 0 <= j < nb
                            && (#[trigger] old(self).bullets@[j]).state.owner_id == shooter@[i]
                            && bullet_overlaps_player(
                                old(self).bullets@[j].state,
                                old(self).players@[i].state,
                            ),
                forall|j: int, i: int| 0 <= j < nb
                    && #[trigger] sole_target(old(self).bullets@[j], old(self).players@, i, now)
                    ==> victim@[i],
                forall|i: int| 0 <= i < n ==> {
                    let p = #[trigger] self.players@[i];
                    let q = old(self).players@[i];
                    &&& p.state.id == q.state.id
                    &&& p.state.name@ == q.state.name@
                    &&& p.state.alive == (q.state.alive && !victim@[i])
                    &&& p.rt.invincible_until == q.rt.invincible_until
                    &&& (!victim@[i] ==> p.rt.shield_until == q.rt.shield_until)
                },
                forall|j: int| 0 <= j < nb
                    ==> #[trigger] consumed@[j]
                        == bullet_threatens(old(self).bullets@[j], old(self).players@, now),
                forall|j: int| 0 <= j < ci
                    && !bullet_threatens(#[trigger] old(self).bullets@[j], old(self).players@, now)
                    ==> kept@.contains(old(self).bullets@[j]),
                pvp_survivors(old(self).bullets@, old(self).players@, now, kept@),
                forall|k2: int| 0 <= k2 < kept@.len() ==> wf_bullet(#[trigger] kept@[k2]),
            decreases nb - ci,
        {
            if !consumed[ci] {
                let b = self.bullets[ci];
                let ghost prev = kept@;
                kept.push(b);
                proof {
                    assert(b == old(self).bullets@[ci as int]);
                    assert(b == spec_same_bullet(old(self).bullets@[ci as int]));
                    assert(!bullet_threatens(old(self).bullets@[ci as int],
                        old(self).players@, now));
                    assert(wf_bullet(b));
                    assert(forall|j: int| 0 <= j < prev.len() ==> kept@[j] == prev[j]);
                    assert(kept@[prev.len() as int] == b);
                    assert(forall|x: BulletRuntime| prev.contains(x)
                        ==> #[trigger] kept@.contains(x)) by {
                        assert(forall|j: int| 0 <= j < prev.len() && #[trigger] prev[j] == prev[j]
                            ==> kept@[j] == prev[j]);
                    }
                    assert(kept@.contains(old(self).bullets@[ci as int]));
                    assert forall|k2: int| #![trigger kept@[k2]] 0 <= k2 < kept@.len() implies
                        exists|j: int| 0 <= j < old(self).bullets@.len()
                            && kept@[k2] == spec_same_bullet(#[trigger] old(self).bullets@[j])
                            && !bullet_threatens(old(self).bullets@[j], old(self).players@, now)
                        by {
                        if k2 < prev.len() {
                            assert(kept@[k2] == prev[k2]);
                        } else {
                            assert(kept@[k2]
                                == spec_same_bullet(old(self).bullets@[ci as int]));
                        }
                    };
                }
            } else {
                proof {
                    assert(bullet_threatens(old(self).bullets@[ci as int],
                        old(self).players@, now));
                }
            }
            ci = ci + 1;
        }
        self.bullets = kept;
    }

    /// The first asteroid not already hit this tick that the bullet
    /// overlaps, in scan order.
    fn first_unhit_asteroid(&self, b: &BulletRuntime, hit: &Vec<bool>) -> (r: Option<usize>)
        requires
            wf_world(*self),
            wf_bullet(*b),
            hit@.len() == self.asteroids@.len(),
        ensures
            match r {
                Some(ai) => ai < self.asteroids@.len()
                    && !hit@[ai as int]
                    && bullet_overlaps_asteroid(b.state, self.asteroids@[ai as int]),
                None => forall|ai: int| 0 <= ai < self.asteroids@.len() && !hit@[ai]
                    ==> !bullet_overlaps_asteroid(b.state, #[trigger] self.asteroids@[ai]),
            },
    {
        let n = self.asteroids.len();
        let mut i: usize = 0;
        while i < n
            invariant
                i <= n,
                n == self.asteroids@.len(),
                hit@.len() == n,
                wf_world(*self),
                wf_bullet(*b),
                forall|ai: int| 0 <= ai < i && !hit@[ai]
                    ==> !bullet_overlaps_asteroid(b.state, #[trigger] self.asteroids@[ai]),
            decreases n - i,
        {
            if !hit[i] {
                let a = self.asteroids[i];
                let d = distance_squared_wrapped(b.state.pos, a.pos);
                let rad = BULLET_RADIUS + asteroid_radius(a.size);
                proof {
                    assert(rad * rad <= 4_500 * 4_500i64) by (nonlinear_arith)
                        requires 0 <= rad <= 4_500;
                }
                if d < rad * rad {
                    return Some(i);
                }
            }
            i = i + 1;
        }
        None
    }

    /// Bullet against asteroid: each bullet destroys the first not yet
    /// destroyed asteroid it overlaps and is consumed; the shooter's combo
    /// advances and the kill is scored; a destroyed asteroid above the
    /// smallest class leaves exactly two children one class smaller, and may
    /// drop a power-up. All hits are collected, deduplicated by asteroid,
    /// before any removal is applied.
    pub fn resolve_bullet_asteroid(&mut self)
        requires
            wf_world(*old(self)),
        ensures
            wf_world(*final(self)),
            final(self).now_ms == old(self).now_ms,
            final(self).current_wave == old(self).current_wave,
            final(self).wave_countdown == old(self).wave_countdown,
            same_identity(old(self).players@, final(self).players@),
            protected(old(self).players@, final(self).players@, old(self).now_ms),
            forall|i: int| 0 <= i < old(self).players@.len()
                ==> scored_only(#[trigger] old(self).players@[i], final(self).players@[i]),
            total_weight(final(self).asteroids@) <= total_weight(old(self).asteroids@),
            final(self).power_ups@.len() >= old(self).power_ups@.len(),
            final(self).power_ups@.subrange(0, old(self).power_ups@.len() as int)
                == old(self).power_ups@,
            forall|j: int| 0 <= j < old(self).bullets@.len()
                && !bullet_hits_some_asteroid(#[trigger] old(self).bullets@[j],
                    old(self).asteroids@)
                ==> final(self).bullets@.contains(old(self).bullets@[j]),
            bullets_subset_of(old(self).bullets@, final(self).bullets@),
            old(self).bullets@.len() > 0
                && bullet_hits_some_asteroid(old(self).bullets@[0], old(self).asteroids@)
                ==> final(self).bullets@.len() < old(self).bullets@.len(),
            exists|hit: Seq<bool>, starts: Seq<int>, kills: Seq<(u64, u8)>|
                #![trigger asteroids_rebuilt(old(self).asteroids@, hit, final(self).asteroids@,
                    starts), apply_kills(old(self).players@, kills, old(self).now_ms)]
                {
                    &&& asteroids_rebuilt(old(self).asteroids@, hit, final(self).asteroids@,
                        starts)
                    &&& forall|i: int| 0 <= i < hit.len() && #[trigger] hit[i]
                        ==> exists|j: int| 0 <= j < old(self).bullets@.len()
                            && bullet_overlaps_asteroid(
                                (#[trigger] old(self).bullets@[j]).state,
                                old(self).asteroids@[i])
                    &&& count_true(hit)
                        == old(self).bullets@.len() - final(self).bullets@.len()
                    &&& kills.len() == count_true(hit)
                    &&& final(self).players@
                        == apply_kills(old(self).players@, kills, old(self).now_ms)
                    &&& forall|k: int| #![trigger kills[k]] 0 <= k < kills.len()
                        ==> exists|j: int, i: int|
                            #![trigger old(self).bullets@[j], old(self).asteroids@[i]]
                            0 <= j < old(self).bullets@.len()
                            && 0 <= i < old(self).asteroids@.len()
                            && old(self).bullets@[j].state.owner_id == kills[k].0
                            && old(self).asteroids@[i].size == kills[k].1
                            && hit[i]
                            && bullet_overlaps_asteroid(old(self).bullets@[j].state,
                                old(self).asteroids@[i])
                },            bullet_asteroid_resolved(*old(self), *final(self)),
    {
        let now = self.now_ms;
        let n = self.players.len();
        let nb = self.bullets.len();
        let na = self.asteroids.len();
        let mut ast_hit: Vec<bool> = vec![false; na];
        let mut consumed: Vec<bool> = vec![false; nb];
        let ghost mut kills: Seq<(u64, u8)> = Seq::empty();
        proof {
            lemma_count_true_zero(ast_hit@);
            lemma_count_true_zero(consumed@);
        }
        let mut bi: usize = 0;
        while bi < nb
            invariant
                bi <= nb,
                n == self.players@.len(),
                nb == self.bullets@.len(),
                na == self.asteroids@.len(),
                now == self.now_ms,
                wf_world(*self),
                self.now_ms == old(self).now_ms,
                self.next_id == old(self).next_id,
                self.bullets == old(self).bullets,
                self.asteroids == old(self).asteroids,
                self.power_ups == old(self).power_ups,
                self.current_wave == old(self).current_wave,
                self.wave_countdown == old(self).wave_countdown,
                self.players@.len() == old(self).players@.len(),
                ast_hit@.len() == na,
                consumed@.len() == nb,
                forall|j: int| bi <= j < nb ==> !(#[trigger] consumed@[j]),
                forall|j: int| 0 <= j < bi && #[trigger] consumed@[j]
                    ==> bullet_hits_some_asteroid(old(self).bullets@[j], old(self).asteroids@),
                bi == 0 ==> forall|ai: int| 0 <= ai < na ==> !(#[trigger] ast_hit@[ai]),
                bi > 0 && nb > 0
                    && bullet_hits_some_asteroid(old(self).bullets@[0], old(self).asteroids@)
                    ==> consumed@[0],
                count_true(consumed@) == count_true(ast_hit@),
                kills.len() == count_true(ast_hit@),
                self.players@ == apply_kills(old(self).players@, kills, now),
                forall|i: int| 0 <= i < ast_hit@.len() && #[trigger] ast_hit@[i]
                    ==> exists|j: int| 0 <= j < old(self).bullets@.len()
                        && bullet_overlaps_asteroid(
                            (#[trigger] old(self).bullets@[j]).state,
                            old(self).asteroids@[i]),
                forall|k: int| #![trigger kills[k]] 0 <= k < kills.len()
                    ==> exists|j: int, i: int|
                        #![trigger old(self).bullets@[j], old(self).asteroids@[i]]
                        0 <= j < old(self).bullets@.len()
                        && 0 <= i < old(self).asteroids@.len()
                        && old(self).bullets@[j].state.owner_id == kills[k].0
                        && old(self).asteroids@[i].size == kills[k].1
                        && ast_hit@[i]
                        && bullet_overlaps_asteroid(old(self).bullets@[j].state,
                            old(self).asteroids@[i]),
                forall|i: int| 0 <= i < n
                    ==> scored_only(#[trigger] old(self).players@[i], self.players@[i]),
            decreases nb - bi,
        {
            let b = self.bullets[bi];
            proof {
                assert(self.asteroids@ == old(self).asteroids@);
                assert(b == old(self).bullets@[bi as int]);
            }
            match self.first_unhit_asteroid(&b, &ast_hit) {
                Some(ai) => {
                    proof {
                        assert(bullet_overlaps_asteroid(
                            b.state, old(self).asteroids@[ai as int]));
                        assert(bullet_hits_some_asteroid(
                            old(self).bullets@[bi as int], old(self).asteroids@));
                    }
                    let ghost c0 = consumed@;
                    let ghost h0 = ast_hit@;
                    consumed.set(bi, true);
                    ast_hit.set(ai, true);
                    proof {
                        lemma_count_true_set_true(c0, bi as int);
                        lemma_count_true_set_true(h0, ai as int);
                    }
                    let size = self.asteroids[ai].size;
                    let owner = b.state.owner_id;
                    let ghost prev_players = self.players@;
                    proof {
                        assert(forall|a2: int, b2: int| 0 <= a2 < b2 < prev_players.len()
                            ==> (#[trigger] prev_players[a2]).state.id
                                != (#[trigger] prev_players[b2]).state.id) by {
                            assert(forall|a2: int| 0 <= a2 < prev_players.len()
                                ==> (#[trigger] prev_players[a2]).state.id
                                    == old(self).players@[a2].state.id);
                        }
                    }
                    match self.find_player(owner) {
                        Some(pi) => {
                            let e = &mut self.players[pi];
                            register_kill_combo(&mut e.rt, now);
                            let combo = e.rt.combo;
                            let base = base_points(size);
                            proof {
                                assert(base <= 100);
                                assert(base * combo <= 100 * 10) by (nonlinear_arith)
                                    requires 0 <= base <= 100 && 0 <= combo <= 10;
                            }
                            let points = base * combo;
                            e.state.score = sat_add32(e.state.score, points);
                            e.state.combo = e.rt.combo;
                            proof {
                                lemma_find_player_unique(prev_players, owner, pi as int);
                                assert(self.players@[pi as int]
                                    == killed_entry(prev_players[pi as int], size, now));
                                assert(self.players@ =~= prev_players.update(pi as int,
                                    killed_entry(prev_players[pi as int], size, now)));
                                assert(self.players@ == apply_kill(prev_players, owner,
                                    size, now));
                            }
                        }
                        None => {
                            proof {
                                assert(forall|k2: int| 0 <= k2 < prev_players.len()
                                    ==> (#[trigger] prev_players[k2]).state.id != owner);
                                lemma_find_player_none(prev_players, owner);
                                assert(self.players@ == apply_kill(prev_players, owner,
                                    size, now));
                            }
                        }
                    }
                    proof {
                        let ghost prev_kills = kills;
                        kills = kills.push((owner, size));
                        assert(kills.drop_last() =~= prev_kills);
                        assert(kills.drop_last() == prev_kills);
                        assert(kills.last() == (owner, size));
                        assert(apply_kills(old(self).players@, prev_kills, now)
                            == prev_players);
                        assert(self.players@
                            == apply_kills(old(self).players@, kills, now));
                        // the new kill's witnesses: this bullet and this asteroid
                        assert(ast_hit@[ai as int]);
                        assert(old(self).bullets@[bi as int].state.owner_id == owner);
                        assert(old(self).asteroids@[ai as int].size == size);
                    }
                }
                None => {
                    proof {
                        if bi == 0 {
                            assert(!bullet_hits_some_asteroid(
                                old(self).bullets@[0], old(self).asteroids@)) by {
                                if bullet_hits_some_asteroid(old(self).bullets@[0],
                                    old(self).asteroids@) {
                                    let ai = choose|ai: int| 0 <= ai < old(self).asteroids@.len()
                                        && bullet_overlaps_asteroid(b.state,
                                            #[trigger] old(self).asteroids@[ai]);
                                    assert(!ast_hit@[ai]);
                                    assert(bullet_overlaps_asteroid(
                                        b.state, self.asteroids@[ai]));
                                }
                            }
                        }
                    }
                }
            }
            bi = bi + 1;
        }
        let ghost mid_players = self.players@;
        let ghost mut starts: Seq<int> = seq![0int];
        let mut new_asts: Vec<AsteroidState> = Vec::new();
        let mut ai: usize = 0;
        while ai < na
            invariant
                ai <= na,
                n == self.players@.len(),
                nb == self.bullets@.len(),
                na == self.asteroids@.len(),
                now == self.now_ms,
                wf_world(*self),
                self.now_ms == old(self).now_ms,
                self.bullets == old(self).bullets,
                self.asteroids == old(self).asteroids,
                self.current_wave == old(self).current_wave,
                self.wave_countdown == old(self).wave_countdown,
                self.players@ == mid_players,
                self.players@.len() == old(self).players@.len(),
                ast_hit@.len() == na,
                consumed@.len() == nb,
                forall|j: int| 0 <= j < nb && #[trigger] consumed@[j]
                    ==> bullet_hits_some_asteroid(old(self).bullets@[j], old(self).asteroids@),
                nb > 0 && bullet_hits_some_asteroid(old(self).bullets@[0], old(self).asteroids@)
                    ==> consumed@[0],
                count_true(consumed@) == count_true(ast_hit@),
                kills.len() == count_true(ast_hit@),
                self.players@ == apply_kills(old(self).players@, kills, now),
                forall|i: int| 0 <= i < ast_hit@.len() && #[trigger] ast_hit@[i]
                    ==> exists|j: int| 0 <= j < old(self).bullets@.len()
                        && bullet_overlaps_asteroid(
                            (#[trigger] old(self).bullets@[j]).state,
                            old(self).asteroids@[i]),
                forall|k: int| #![trigger kills[k]] 0 <= k < kills.len()
                    ==> exists|j: int, i: int|
                        #![trigger old(self).bullets@[j], old(self).asteroids@[i]]
                        0 <= j < old(self).bullets@.len()
                        && 0 <= i < old(self).asteroids@.len()
                        && old(self).bullets@[j].state.owner_id == kills[k].0
                        && old(self).asteroids@[i].size == kills[k].1
                        && ast_hit@[i]
                        && bullet_overlaps_asteroid(old(self).bullets@[j].state,
                            old(self).asteroids@[i]),
                forall|i: int| 0 <= i < n
                    ==> scored_only(#[trigger] old(self).players@[i], self.players@[i]),
                self.power_ups@.len() >= old(self).power_ups@.len(),
                self.power_ups@.subrange(0, old(self).power_ups@.len() as int)
                    == old(self).power_ups@,
                forall|k: int| 0 <= k < self.power_ups@.len()
                    ==> wf_power_up(#[trigger] self.power_ups@[k]),
                forall|k: int| 0 <= k < new_asts@.len()
                    ==> wf_asteroid(#[trigger] new_asts@[k]),
                total_weight(new_asts@)
                    <= total_weight(old(self).asteroids@.take(ai as int)),
                starts.len() == ai + 1,
                starts[0] == 0,
                starts[ai as int] == new_asts@.len(),
                rebuilt_segments(old(self).asteroids@, ast_hit@, new_asts@, starts, ai as int),
            decreases na - ai,
        {
            let a = self.asteroids[ai];
            proof {
                assert(old(self).asteroids@.take(ai as int + 1)
                    =~= old(self).asteroids@.take(ai as int).push(old(self).asteroids@[ai as int]));
                lemma_total_weight_push(old(self).asteroids@.take(ai as int),
                    old(self).asteroids@[ai as int]);
            }
            if !ast_hit[ai] {
                proof {
                    lemma_total_weight_push(new_asts@, a);
                }
                new_asts.push(a);
                proof {
                    assert(new_asts@[starts[ai as int]] == a);
                }
            } else {
                let mut next_id = self.next_entity_id;
                match split_children(&a, &mut next_id) {
                    Some((c1, c2)) => {
                        proof {
                            lemma_total_weight_push(new_asts@, c1);
                            lemma_total_weight_push(new_asts@.push(c1), c2);
                        }
                        new_asts.push(c1);
                        new_asts.push(c2);
                        proof {
                            assert(new_asts@[starts[ai as int]] == c1);
                            assert(new_asts@[starts[ai as int] + 1] == c2);
                        }
                    }
                    None => {
                        proof {
                            assert(old(self).asteroids@[ai as int].size <= 1);
                        }
                    }
                }
                self.next_entity_id = next_id;
                if random_u64(0, 100) < POWERUP_SPAWN_PCT {
                    let kind = match random_u64(0, 4) {
                        0 => PowerUpKind::Shield,
                        1 => PowerUpKind::RapidFire,
                        2 => PowerUpKind::TripleShot,
                        _ => PowerUpKind::SpeedBoost,
                    };
                    let id = self.next_entity_id;
                    self.next_entity_id = sat_add(self.next_entity_id, 1);
                    let ghost prev_pus = self.power_ups@;
                    self.power_ups.push(PowerUpRuntime {
                        state: PowerUpState { id, pos: a.pos, kind },
                        expires_at: sat_add(now, POWERUP_TTL_MS),
                    });
                    proof {
                        assert(self.power_ups@.subrange(0, old(self).power_ups@.len() as int)
                            =~= old(self).power_ups@);
                    }
                }
            }
            proof {
                starts = starts.push(new_asts@.len() as int);
            }
            ai = ai + 1;
        }
        proof {
            assert(old(self).asteroids@.take(na as int) =~= old(self).asteroids@);
        }
        self.asteroids = new_asts;
        proof {
            assert(asteroids_rebuilt(old(self).asteroids@, ast_hit@, self.asteroids@, starts));
        }
        let mut kept: Vec<BulletRuntime> = Vec::new();
        let mut ci: usize = 0;
        while ci < nb
            invariant
                ci <= nb,
                n == self.players@.len(),
                nb == self.bullets@.len(),
                now == self.now_ms,
                wf_world(*self),
                self.now_ms == old(self).now_ms,
                self.bullets == old(self).bullets,
                self.current_wave == old(self).current_wave,
                self.wave_countdown == old(self).wave_countdown,
                self.players@ == mid_players,
                self.players@.len() == old(self).players@.len(),
                consumed@.len() == nb,
                forall|j: int| 0 <= j < nb && #[trigger] consumed@[j]
                    ==> bullet_hits_some_asteroid(old(self).bullets@[j], old(self).asteroids@),
                nb > 0 && bullet_hits_some_asteroid(old(self).bullets@[0], old(self).asteroids@)
                    ==> consumed@[0],
                kept@.len() <= ci,
                ci > 0 && consumed@[0] ==> kept@.len() < ci,
                kept@.len() + count_true(consumed@.take(ci as int)) == ci,
                ast_hit@.len() == na,
                na == old(self).asteroids@.len(),
                count_true(consumed@) == count_true(ast_hit@),
                kills.len() == count_true(ast_hit@),
                self.players@ == apply_kills(old(self).players@, kills, now),
                asteroids_rebuilt(old(self).asteroids@, ast_hit@, self.asteroids@, starts),
                forall|i: int| 0 <= i < ast_hit@.len() && #[trigger] ast_hit@[i]
                    ==> exists|j: int| 0 <= j < old(self).bullets@.len()
                        && bullet_overlaps_asteroid(
                            (#[trigger] old(self).bullets@[j]).state,
                            old(self).asteroids@[i]),
                forall|k: int| #![trigger kills[k]] 0 <= k < kills.len()
                    ==> exists|j: int, i: int|
                        #![trigger old(self).bullets@[j], old(self).asteroids@[i]]
                        0 <= j < old(self).bullets@.len()
                        && 0 <= i < old(self).asteroids@.len()
                        && old(self).bullets@[j].state.owner_id == kills[k].0
                        && old(self).asteroids@[i].size == kills[k].1
                        && ast_hit@[i]
                        && bullet_overlaps_asteroid(old(self).bullets@[j].state,
                            old(self).asteroids@[i]),
                forall|i: int| 0 <= i < n
                    ==> scored_only(#[trigger] old(self).players@[i], self.players@[i]),
                self.power_ups@.len() >= old(self).power_ups@.len(),
                self.power_ups@.subrange(0, old(self).power_ups@.len() as int)
                    == old(self).power_ups@,
                total_weight(self.asteroids@) <= total_weight(old(self).asteroids@),
                forall|j: int| 0 <= j < ci
                    && !bullet_hits_some_asteroid(#[trigger] old(self).bullets@[j],
                        old(self).asteroids@)
                    ==> kept@.contains(old(self).bullets@[j]),
                bullets_subset_of(old(self).bullets@, kept@),
                forall|k2: int| 0 <= k2 < kept@.len() ==> wf_bullet(#[trigger] kept@[k2]),
            decreases nb - ci,
        {
            if !consumed[ci] {
                let b = self.bullets[ci];
                let ghost prev = kept@;
                kept.push(b);
                proof {
                    assert(b == old(self).bullets@[ci as int]);
                    assert(b == spec_same_bullet(old(self).bullets@[ci as int]));
                    assert(wf_bullet(b));
                    assert(forall|j: int| 0 <= j < prev.len() ==> kept@[j] == prev[j]);
                    assert(kept@[prev.len() as int] == b);
                    assert(forall|x: BulletRuntime| prev.contains(x)
                        ==> #[trigger] kept@.contains(x)) by {
                        assert(forall|j: int| 0 <= j < prev.len() && #[trigger] prev[j] == prev[j]
                            ==> kept@[j] == prev[j]);
                    }
                    assert(kept@.contains(old(self).bullets@[ci as int]));
                }
            } else {
                proof {
                    assert(bullet_hits_some_asteroid(old(self).bullets@[ci as int],
                        old(self).asteroids@));
                }
            }
            proof {
                lemma_count_true_take_step(consumed@, ci as int);
            }
            ci = ci + 1;
        }
        self.bullets = kept;
        proof {
            assert(consumed@.take(nb as int) =~= consumed@);
            assert(count_true(ast_hit@)
                == old(self).bullets@.len() - self.bullets@.len());
            assert(asteroids_rebuilt(old(self).asteroids@, ast_hit@, self.asteroids@, starts));
            assert(self.players@
                == apply_kills(old(self).players@, kills, old(self).now_ms));
            assert(kills.len() == count_true(ast_hit@));
        }
    }

    /// Power-up pickup: every living player overlapping a power-up receives
    /// its effect for a full duration from now (refreshing, not stacking);
    /// claimed power-ups are removed after the full scan, so two players
    /// overlapping the same power-up in one tick both receive its effect.
    pub fn resolve_power_up_pickup(&mut self)
        requires
            wf_world(*old(self)),
        ensures
            wf_world(*final(self)),
            final(self).now_ms == old(self).now_ms,
            final(self).next_id == old(self).next_id,
            final(self).bullets == old(self).bullets,
            final(self).asteroids == old(self).asteroids,
            final(self).current_wave == old(self).current_wave,
            final(self).wave_countdown == old(self).wave_countdown,
            same_identity(old(self).players@, final(self).players@),
            protected(old(self).players@, final(self).players@, old(self).now_ms),
            final(self).players@.len() == old(self).players@.len(),
            forall|i: int| 0 <= i < old(self).players@.len()
                ==> picked_up(#[trigger] old(self).players@[i], old(self).power_ups@,
                    old(self).now_ms, final(self).players@[i]),
            forall|j: int| 0 <= j < old(self).power_ups@.len()
                && !claimed_upto(#[trigger] old(self).power_ups@[j], old(self).players@,
                    old(self).players@.len() as int)
                ==> final(self).power_ups@.contains(old(self).power_ups@[j]),
            forall|j: int| 0 <= j < old(self).power_ups@.len()
                && claimed_upto(#[trigger] old(self).power_ups@[j], old(self).players@,
                    old(self).players@.len() as int)
                ==> !final(self).power_ups@.contains(old(self).power_ups@[j]),
            power_ups_kept_unclaimed(old(self).power_ups@, old(self).players@,
                final(self).power_ups@),            pickups_resolved(*old(self), *final(self)),
    {
        let now = self.now_ms;
        let n = self.players.len();
        let nu = self.power_ups.len();
        let mut taken: Vec<bool> = vec![false; nu];
        let mut pi: usize = 0;
        while pi < n
            invariant
                pi <= n,
                n == self.players@.len(),
                nu == self.power_ups@.len(),
                now == self.now_ms,
                wf_world(*self),
                self.now_ms == old(self).now_ms,
                self.next_id == old(self).next_id,
                self.bullets == old(self).bullets,
                self.asteroids == old(self).asteroids,
                self.power_ups == old(self).power_ups,
                self.current_wave == old(self).current_wave,
                self.wave_countdown == old(self).wave_countdown,
                self.players@.len() == old(self).players@.len(),
                taken@.len() == nu,
                forall|j: int| 0 <= j < nu ==> (#[trigger] taken@[j]
                    == claimed_upto(old(self).power_ups@[j], old(self).players@, pi as int)),
                forall|i: int| pi <= i < n ==> self.players@[i] == old(self).players@[i],
                forall|i: int| 0 <= i < pi
                    ==> picked_up(#[trigger] old(self).players@[i], old(self).power_ups@,
                        now, self.players@[i]),
            decreases n - pi,
        {
            let alive = self.players[pi].state.alive;
            if alive {
                let mut uj: usize = 0;
                while uj < nu
                    invariant
                        uj <= nu,
                        pi < n,
                        n == self.players@.len(),
                        nu == self.power_ups@.len(),
                        now == self.now_ms,
                        wf_world(*self),
                        self.now_ms == old(self).now_ms,
                        self.next_id == old(self).next_id,
                        self.bullets == old(self).bullets,
                        self.asteroids == old(self).asteroids,
                        self.power_ups == old(self).power_ups,
                        self.current_wave == old(self).current_wave,
                        self.wave_countdown == old(self).wave_countdown,
                        self.players@.len() == old(self).players@.len(),
                        taken@.len() == nu,
                        old(self).players@[pi as int].state.alive,
                        forall|j: int| 0 <= j < nu && j >= uj ==> (#[trigger] taken@[j]
                            == claimed_upto(old(self).power_ups@[j], old(self).players@,
                                pi as int)),
                        forall|j: int| 0 <= j < uj ==> (#[trigger] taken@[j]
                            == claimed_upto(old(self).power_ups@[j], old(self).players@,
                                pi as int + 1)),
                        forall|i: int| pi < i < n
                            ==> self.players@[i] == old(self).players@[i],
                        forall|i: int| 0 <= i < pi
                            ==> picked_up(#[trigger] old(self).players@[i],
                                old(self).power_ups@, now, self.players@[i]),
                        ({
                            let p = self.players@[pi as int];
                            let q = old(self).players@[pi as int];
                            &&& p.state == q.state
                            &&& p.rt.input == q.rt.input
                            &&& p.rt.last_fire_ms == q.rt.last_fire_ms
                            &&& p.rt.invincible_until == q.rt.invincible_until
                            &&& p.rt.respawn_at == q.rt.respawn_at
                            &&& p.rt.last_kill_ms == q.rt.last_kill_ms
                            &&& p.rt.combo == q.rt.combo
                            &&& p.rt.kill_streak == q.rt.kill_streak
                            &&& p.rt.shield_until == (if picks_kind_upto(q,
                                old(self).power_ups@, PowerUpKind::Shield, uj as int) {
                                Some(spec_sat_add(now, POWERUP_DURATION_MS))
                            } else {
                                q.rt.shield_until
                            })
                            &&& p.rt.rapid_fire_until == (if picks_kind_upto(q,
                                old(self).power_ups@, PowerUpKind::RapidFire, uj as int) {
                                Some(spec_sat_add(now, POWERUP_DURATION_MS))
                            } else {
                                q.rt.rapid_fire_until
                            })
                            &&& p.rt.triple_shot_until == (if picks_kind_upto(q,
                                old(self).power_ups@, PowerUpKind::TripleShot, uj as int) {
                                Some(spec_sat_add(now, POWERUP_DURATION_MS))
                            } else {
                                q.rt.triple_shot_until
                            })
                            &&& p.rt.speed_boost_until == (if picks_kind_upto(q,
                                old(self).power_ups@, PowerUpKind::SpeedBoost, uj as int) {
                                Some(spec_sat_add(now, POWERUP_DURATION_MS))
                            } else {
                                q.rt.speed_boost_until
                            })
                        }),
                    decreases nu - uj,
                {
                    let u = self.power_ups[uj];
                    let d = distance_squared_wrapped(self.players[pi].state.pos, u.state.pos);
                    let rad = PLAYER_RADIUS + POWERUP_RADIUS;
                    if d < rad * rad {
                        proof {
                            assert(u == old(self).power_ups@[uj as int]);
                            assert(self.players@[pi as int].state
                                == old(self).players@[pi as int].state);
                            assert(player_overlaps_power_up(
                                old(self).players@[pi as int].state, u.state));
                        }
                        taken.set(uj, true);
                        let until = Some(sat_add(now, POWERUP_DURATION_MS));
                        match u.state.kind {
                            PowerUpKind::Shield => {
                                self.players[pi].rt.shield_until = until;
                            }
                            PowerUpKind::RapidFire => {
                                self.players[pi].rt.rapid_fire_until = until;
                            }
                            PowerUpKind::TripleShot => {
                                self.players[pi].rt.triple_shot_until = until;
                            }
                            PowerUpKind::SpeedBoost => {
                                self.players[pi].rt.speed_boost_until = until;
                            }
                        }
                    } else {
                        proof {
                            assert(u == old(self).power_ups@[uj as int]);
                            assert(!player_overlaps_power_up(
                                old(self).players@[pi as int].state, u.state));
                        }
                    }
                    uj = uj + 1;
                }
            } else {
                proof {
                    assert(forall|j: int| 0 <= j < nu ==> (#[trigger] taken@[j]
                        == claimed_upto(old(self).power_ups@[j], old(self).players@,
                            pi as int + 1)));
                }
            }
            pi = pi + 1;
        }
        let mut kept: Vec<PowerUpRuntime> = Vec::new();
        let mut ci: usize = 0;
        while ci < nu
            invariant
                ci <= nu,
                n == self.players@.len(),
                nu == self.power_ups@.len(),
                now == self.now_ms,
                wf_world(*self),
                self.now_ms == old(self).now_ms,
                self.next_id == old(self).next_id,
                self.bullets == old(self).bullets,
                self.asteroids == old(self).asteroids,
                self.power_ups == old(self).power_ups,
                self.current_wave == old(self).current_wave,
                self.wave_countdown == old(self).wave_countdown,
                self.players@.len() == old(self).players@.len(),
                taken@.len() == nu,
                forall|j: int| 0 <= j < nu ==> (#[trigger] taken@[j]
                    == claimed_upto(old(self).power_ups@[j], old(self).players@, n as int)),
                forall|i: int| 0 <= i < n
                    ==> picked_up(#[trigger] old(self).players@[i], old(self).power_ups@,
                        now, self.players@[i]),
                forall|j: int| 0 <= j < ci
                    && !claimed_upto(#[trigger] old(self).power_ups@[j], old(self).players@,
                        n as int)
                    ==> kept@.contains(old(self).power_ups@[j]),
                n as int == old(self).players@.len(),
                power_ups_kept_unclaimed(old(self).power_ups@, old(self).players@, kept@),
                forall|k2: int| 0 <= k2 < kept@.len() ==> wf_power_up(#[trigger] kept@[k2]),
            decreases nu - ci,
        {
            if !taken[ci] {
                let u = self.power_ups[ci];
                let ghost prev = kept@;
                kept.push(u);
                proof {
                    assert(u == old(self).power_ups@[ci as int]);
                    assert(u == spec_same_power_up(old(self).power_ups@[ci as int]));
                    assert(!claimed_upto(old(self).power_ups@[ci as int], old(self).players@,
                        old(self).players@.len() as int));
                    assert(wf_power_up(u));
                    assert(forall|j: int| 0 <= j < prev.len() ==> kept@[j] == prev[j]);
                    assert(kept@[prev.len() as int] == u);
                    assert(forall|x: PowerUpRuntime| prev.contains(x)
                        ==> #[trigger] kept@.contains(x)) by {
                        assert(forall|j: int| 0 <= j < prev.len() && #[trigger] prev[j] == prev[j]
                            ==> kept@[j] == prev[j]);
                    }
                    assert(kept@.contains(old(self).power_ups@[ci as int]));
                }
            } else {
                proof {
                    assert(spec_same_power_up(old(self).power_ups@[ci as int])
                        == old(self).power_ups@[ci as int]);
                }
            }
            ci = ci + 1;
        }
        self.power_ups = kept;
        proof {
            assert forall|j: int| 0 <= j < old(self).power_ups@.len()
                && claimed_upto(#[trigger] old(self).power_ups@[j], old(self).players@,
                    old(self).players@.len() as int)
                implies !self.power_ups@.contains(old(self).power_ups@[j]) by {
                if self.power_ups@.contains(old(self).power_ups@[j]) {
                    let k = choose|k: int| 0 <= k < self.power_ups@.len()
                        && self.power_ups@[k] == old(self).power_ups@[j];
                    assert(self.power_ups@[k] == kept@[k]);
                    let j2 = choose|j2: int| 0 <= j2 < old(self).power_ups@.len()
                        && kept@[k] == spec_same_power_up(#[trigger] old(self).power_ups@[j2])
                        && !claimed_upto(old(self).power_ups@[j2], old(self).players@,
                            old(self).players@.len() as int);
                    assert(old(self).power_ups@[j] == old(self).power_ups@[j2]);
                }
            };
        }
    }

    /// The number of asteroids the given wave spawns: the base count plus the
    /// per-wave increment, capped.
    pub open spec fn spec_wave_count(wave: u32) -> u64 {
        if ASTEROID_COUNT + (wave - 1) * ASTEROIDS_PER_WAVE >= WAVE_SPAWN_CAP {
            WAVE_SPAWN_CAP
        } else {
            (ASTEROID_COUNT + (wave - 1) * ASTEROIDS_PER_WAVE) as u64
        }
    }

    /// Wave progression: the instant the asteroid field empties, start the
    /// countdown; once it has fully elapsed, spawn the next, larger wave.
    /// The countdown is never interrupted or restarted.
    pub fn update_wave(&mut self)
        requires
            wf_world(*old(self)),
        ensures
            wf_world(*final(self)),
            final(self).now_ms == old(self).now_ms,
            final(self).players == old(self).players,
            final(self).bullets == old(self).bullets,
            final(self).power_ups == old(self).power_ups,
            old(self).asteroids@.len() > 0 ==> {
                &&& final(self).asteroids == old(self).asteroids
                &&& final(self).current_wave == old(self).current_wave
                &&& final(self).wave_countdown == old(self).wave_countdown
                &&& final(self).next_id == old(self).next_id
            },
            old(self).asteroids@.len() == 0 && old(self).wave_countdown is None ==> {
                &&& final(self).asteroids == old(self).asteroids
                &&& final(self).current_wave == old(self).current_wave
                &&& final(self).wave_countdown
                    == Some(spec_sat_add(old(self).now_ms, WAVE_COUNTDOWN_MS))
                &&& final(self).next_id == old(self).next_id
            },
            forall|end: u64| old(self).asteroids@.len() == 0
                && old(self).wave_countdown == Some(end) && old(self).now_ms < end ==> {
                &&& final(self).asteroids == old(self).asteroids
                &&& final(self).current_wave == old(self).current_wave
                &&& final(self).wave_countdown == old(self).wave_countdown
                &&& final(self).next_id == old(self).next_id
            },
            forall|end: u64| old(self).asteroids@.len() == 0
                && old(self).wave_countdown == Some(end) && old(self).now_ms >= end ==> {
                &&& final(self).current_wave == spec_sat_add32(old(self).current_wave, 1)
                &&& final(self).asteroids@.len()
                    == Self::spec_wave_count(final(self).current_wave)
                &&& final(self).wave_countdown is None
            },            wave_stepped(*old(self), *final(self)),
    {
        if self.asteroids.len() == 0 {
            match self.wave_countdown {
                None => {
                    self.wave_countdown = Some(sat_add(self.now_ms, WAVE_COUNTDOWN_MS));
                }
                Some(end) => {
                    if self.now_ms >= end {
                        self.current_wave = sat_add32(self.current_wave, 1);
                        let w = self.current_wave as u64;
                        let count: u64 = if w >= 11 {
                            WAVE_SPAWN_CAP
                        } else {
                            ASTEROID_COUNT + (w - 1) * ASTEROIDS_PER_WAVE
                        };
                        let mut next_id = self.next_entity_id;
                        let spawned = spawn_asteroids(count, &mut next_id);
                        self.next_entity_id = next_id;
                        self.asteroids = spawned;
                        self.wave_countdown = None;
                    }
                }
            }
        }
    }
}

/// Protection chains across phases.
proof fn lemma_protected_trans(a: Seq<PlayerEntry>, b: Seq<PlayerEntry>, c: Seq<PlayerEntry>, now: u64)
    requires
        protected(a, b, now),
        protected(b, c, now),
    ensures
        protected(a, c, now),
{
}

impl World {
    /// One fixed-rate simulation step: advance the clock, respawn due
    /// players, project effects into the broadcast state, integrate players
    /// (with firing), bullets and asteroids, expire power-ups, resolve every
    /// collision category in order (bullet against asteroid, power-up
    /// pickup, player against asteroid, player against player), and step the
    /// wave scheduler. Every phase collects its effects before mutating what
    /// it scanned.
    pub fn tick(&mut self)
        requires
            wf_world(*old(self)),
        ensures
            wf_world(*final(self)),
            final(self).now_ms == spec_sat_add(old(self).now_ms, TICK_MS),
            same_identity(old(self).players@, final(self).players@),
            protected(old(self).players@, final(self).players@,
                spec_sat_add(old(self).now_ms, TICK_MS)),
            forall|k: int| 0 <= k < final(self).bullets@.len() ==> {
                let b = #[trigger] final(self).bullets@[k];
                &&& 0 <= b.state.pos.x <= WORLD_WIDTH
                &&& 0 <= b.state.pos.y <= WORLD_HEIGHT
                &&& b.ttl_ms > 0
            },
            exists|w0: World, w1: World, w2: World, w3: World, w4: World, w5: World,
                w6: World, w7: World, w8: World, w9: World, w10: World|
                #![trigger respawns_processed(w0, w1), effects_projected(w1, w2),
                    players_stepped(w2, w3), bullets_stepped(w3, w4),
                    asteroids_stepped(w4, w5), power_ups_expired(w5, w6),
                    bullet_asteroid_resolved(w6, w7), pickups_resolved(w7, w8),
                    asteroid_deaths_resolved(w8, w9), pvp_resolved(w9, w10)]
                {
                    &&& clock_advanced(*old(self), w0)
                    &&& respawns_processed(w0, w1)
                    &&& effects_projected(w1, w2)
                    &&& players_stepped(w2, w3)
                    &&& bullets_stepped(w3, w4)
                    &&& asteroids_stepped(w4, w5)
                    &&& power_ups_expired(w5, w6)
                    &&& bullet_asteroid_resolved(w6, w7)
                    &&& pickups_resolved(w7, w8)
                    &&& asteroid_deaths_resolved(w8, w9)
                    &&& pvp_resolved(w9, w10)
                    &&& wave_stepped(w10, *final(self))
                },
    {
        self.now_ms = sat_add(self.now_ms, TICK_MS);
        let ghost now = self.now_ms;
        let ghost s0 = self.players@;
        let ghost g0 = *self;
        proof {
            assert(clock_advanced(*old(self), g0));
        }
        self.process_respawns();
        let ghost s1 = self.players@;
        let ghost g1 = *self;
        self.project_effects();
        let ghost s2 = self.players@;
        let ghost g2 = *self;
        self.integrate_players();
        let ghost s3 = self.players@;
        let ghost g3 = *self;
        self.update_bullets();
        let ghost g4 = *self;
        self.integrate_asteroids();
        let ghost g5 = *self;
        self.expire_power_ups();
        let ghost s4 = self.players@;
        let ghost g6 = *self;
        proof {
            lemma_protected_trans(s0, s1, s2, now);
            lemma_protected_trans(s0, s2, s3, now);
            assert(protected(s3, s4, now));
            lemma_protected_trans(s0, s3, s4, now);
        }
        self.resolve_bullet_asteroid();
        let ghost s5 = self.players@;
        let ghost g7 = *self;
        self.resolve_power_up_pickup();
        let ghost s6 = self.players@;
        let ghost g8 = *self;
        self.resolve_player_asteroid();
        let ghost s7 = self.players@;
        let ghost g9 = *self;
        self.resolve_pvp();
        let ghost s8 = self.players@;
        let ghost g10 = *self;
        self.update_wave();
        proof {
            lemma_protected_trans(s0, s4, s5, now);
            lemma_protected_trans(s0, s5, s6, now);
            lemma_protected_trans(s0, s6, s7, now);
            lemma_protected_trans(s0, s7, s8, now);
            assert(protected(s8, self.players@, now));
            lemma_protected_trans(s0, s8, self.players@, now);
            assert(respawns_processed(g0, g1));
            assert(effects_projected(g1, g2));
            assert(players_stepped(g2, g3));
            assert(bullets_stepped(g3, g4));
            assert(asteroids_stepped(g4, g5));
            assert(power_ups_expired(g5, g6));
            assert(bullet_asteroid_resolved(g6, g7));
            assert(pickups_resolved(g7, g8));
            assert(asteroid_deaths_resolved(g8, g9));
            assert(pvp_resolved(g9, g10));
            assert(wave_stepped(g10, *self));
        }
    }
}

} // verus!
