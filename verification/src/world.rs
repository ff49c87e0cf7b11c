//! The canonical world state: the player registry, the live entity sets, and
//! the wave scheduler, with the well-formedness invariant the engine
//! maintains, plus spawning and the session-level operations (join, input,
//! disconnect).

use vstd::prelude::*;
use crate::torus::{Vec2, in_world, distance_squared_wrapped, WORLD_WIDTH, WORLD_HEIGHT};
use crate::entities::{PlayerState, PlayerRuntime, PlayerInput, PlayerEffects, AsteroidState,
    BulletRuntime, PowerUpRuntime, WaveInfo, wf_player, wf_runtime, wf_asteroid, wf_bullet,
    wf_power_up, asteroid_radius, spec_asteroid_radius, ASTEROID_COUNT, WAVE_SPAWN_CAP,
    SAFE_SPAWN_RADIUS, SPAWN_INVINCIBILITY_MS};
use crate::math::{sat_add, spec_sat_add};
use crate::rng::{random_u64, random_i64};

verus! {

/// A player's broadcast state together with its runtime record.
#[derive(Clone, Debug)]
pub struct PlayerEntry {
    pub state: PlayerState,
    pub rt: PlayerRuntime,
}

impl PlayerEntry {
    /// Well-formed entry.
    pub open spec fn wf(&self) -> bool {
        wf_player(self.state) && wf_runtime(self.rt)
    }
}

/// The whole simulation state. One instance is owned by the tick loop; every
/// mutation goes through the engine's verified operations.
pub struct World {
    /// Simulation clock, milliseconds since the server started.
    pub now_ms: u64,
    /// Next client id to hand out; client ids start at 1 and increase
    /// monotonically.
    pub next_id: u64,
    /// Next entity id for asteroids, bullets and power-ups.
    pub next_entity_id: u64,
    pub players: Vec<PlayerEntry>,
    pub bullets: Vec<BulletRuntime>,
    pub asteroids: Vec<AsteroidState>,
    pub power_ups: Vec<PowerUpRuntime>,
    pub current_wave: u32,
    /// Absolute instant the next wave spawns, present while the field is
    /// empty.
    pub wave_countdown: Option<u64>,
}

/// The splitting weight of a size class: 4, 2, 1 for sizes 3, 2, 1. A split
/// replaces a parent by two children of the next smaller class, so it never
/// increases the total weight; the weight therefore bounds how many
/// asteroids one wave can ever produce.
pub open spec fn ast_weight(size: u8) -> int {
    if size == 1 {
        1
    } else if size == 2 {
        2
    } else {
        4
    }
}

/// Total splitting weight of an asteroid set.
pub open spec fn total_weight(s: Seq<AsteroidState>) -> int
    decreases s.len(),
{
    if s.len() == 0 {
        0
    } else {
        ast_weight(s.first().size) + total_weight(s.drop_first())
    }
}

pub proof fn lemma_total_weight_push(s: Seq<AsteroidState>, a: AsteroidState)
    ensures
        total_weight(s.push(a)) == total_weight(s) + ast_weight(a.size),
    decreases s.len(),
{
    if s.len() == 0 {
        assert(s.push(a).drop_first() =~= s);
    } else {
        assert(s.push(a).drop_first() =~= s.drop_first().push(a));
        lemma_total_weight_push(s.drop_first(), a);
    }
}

/// Every asteroid weighs at least 1, so the weight bounds the count.
pub proof fn lemma_total_weight_len(s: Seq<AsteroidState>)
    ensures
        s.len() <= total_weight(s),
    decreases s.len(),
{
    if s.len() > 0 {
        lemma_total_weight_len(s.drop_first());
    }
}

/// The weight is determined by the sizes alone.
pub proof fn lemma_total_weight_same_sizes(s1: Seq<AsteroidState>, s2: Seq<AsteroidState>)
    requires
        s1.len() == s2.len(),
        forall|i: int| 0 <= i < s1.len() ==> s1[i].size == s2[i].size,
    ensures
        total_weight(s1) == total_weight(s2),
    decreases s1.len(),
{
    if s1.len() > 0 {
        lemma_total_weight_same_sizes(s1.drop_first(), s2.drop_first());
    }
}

/// In any well-formed world the live asteroid count stays within four times
/// the per-wave spawn cap: a wave spawns at most the cap, each spawned
/// asteroid weighs at most 4, and splitting never increases the total
/// weight, of which each asteroid carries at least 1.
pub proof fn lemma_asteroid_count_bounded(w: World)
    requires
        wf_world(w),
    ensures
        w.asteroids@.len() <= 4 * WAVE_SPAWN_CAP,
{
    lemma_total_weight_len(w.asteroids@);
}

/// The world's well-formedness invariant: every entity well formed, player
/// ids unique, and the asteroid weight within the bound one wave can
/// produce.
pub open spec fn wf_world(w: World) -> bool {
    &&& forall|i: int| 0 <= i < w.players.len() ==> (#[trigger] w.players[i]).wf()
    &&& forall|i: int, j: int|
        0 <= i < j < w.players.len() ==> w.players[i].state.id != w.players[j].state.id
    &&& forall|i: int| 0 <= i < w.asteroids.len() ==> wf_asteroid(#[trigger] w.asteroids[i])
    &&& forall|i: int| 0 <= i < w.bullets.len() ==> wf_bullet(#[trigger] w.bullets[i])
    &&& forall|i: int| 0 <= i < w.power_ups.len() ==> wf_power_up(#[trigger] w.power_ups[i])
    &&& total_weight(w.asteroids@) <= 4 * WAVE_SPAWN_CAP
    &&& 1 <= w.current_wave
}

/// A player with this id is registered.
pub open spec fn has_player(w: World, id: u64) -> bool {
    exists|i: int| 0 <= i < w.players.len() && #[trigger] w.players[i].state.id == id
}

/// One asteroid at a uniformly random position, with random velocity and a
/// uniformly random size class.
pub fn spawn_asteroid(next_id: &mut u64) -> (r: AsteroidState)
    ensures
        wf_asteroid(r),
        r.id == *old(next_id),
        *final(next_id) == spec_sat_add(*old(next_id), 1),
        -125 <= r.vel.x <= 125,
        -75 <= r.vel.y <= 75,
{
    let id = *next_id;
    *next_id = sat_add(*next_id, 1);
    let pos = Vec2 { x: random_i64(0, WORLD_WIDTH), y: random_i64(0, WORLD_HEIGHT) };
    let vel = Vec2 { x: random_i64(-125, 126), y: random_i64(-75, 76) };
    let size = random_u64(1, 4) as u8;
    AsteroidState { id, pos, vel, size }
}

/// Spawn `count` random asteroids with fresh ids.
pub fn spawn_asteroids(count: u64, next_id: &mut u64) -> (r: Vec<AsteroidState>)
    requires
        count <= WAVE_SPAWN_CAP,
    ensures
        r@.len() == count,
        forall|i: int| 0 <= i < r@.len() ==> wf_asteroid(#[trigger] r@[i]),
        forall|i: int| 0 <= i < r@.len()
            ==> -125 <= (#[trigger] r@[i]).vel.x <= 125 && -75 <= r@[i].vel.y <= 75,
        total_weight(r@) <= 4 * count,
        *old(next_id) <= *final(next_id),
        *old(next_id) + count <= u64::MAX ==> {
            &&& *final(next_id) == *old(next_id) + count
            &&& forall|i: int| 0 <= i < r@.len()
                ==> (#[trigger] r@[i]).id == *old(next_id) + i
        },
{
    let mut out: Vec<AsteroidState> = Vec::new();
    let mut i: u64 = 0;
    while i < count
        invariant
            i <= count,
            out@.len() == i,
            *old(next_id) <= *next_id,
            forall|j: int| 0 <= j < out@.len() ==> wf_asteroid(#[trigger] out@[j]),
            forall|j: int| 0 <= j < out@.len()
                ==> -125 <= (#[trigger] out@[j]).vel.x <= 125 && -75 <= out@[j].vel.y <= 75,
            total_weight(out@) <= 4 * i,
            *old(next_id) + count <= u64::MAX ==> {
                &&& *next_id == *old(next_id) + i
                &&& forall|j: int| 0 <= j < out@.len()
                    ==> (#[trigger] out@[j]).id == *old(next_id) + j
            },
        decreases count - i,
    {
        let a = spawn_asteroid(next_id);
        proof {
            lemma_total_weight_push(out@, a);
        }
        out.push(a);
        i = i + 1;
    }
    out
}

/// Whether a position keeps the safe-spawn separation from every asteroid.
pub fn is_safe_position(pos: Vec2, asteroids: &Vec<AsteroidState>) -> (r: bool)
    requires
        in_world(pos),
        forall|i: int| 0 <= i < asteroids@.len() ==> wf_asteroid(#[trigger] asteroids@[i]),
    ensures
        r <==> forall|i: int| 0 <= i < asteroids@.len() ==> {
            let a = #[trigger] asteroids@[i];
            crate::torus::spec_distance_squared(pos, a.pos)
                >= (SAFE_SPAWN_RADIUS + spec_asteroid_radius(a.size))
                    * (SAFE_SPAWN_RADIUS + spec_asteroid_radius(a.size))
        },
{
    let n = asteroids.len();
    let mut i: usize = 0;
    while i < n
        invariant
            i <= n,
            n == asteroids@.len(),
            in_world(pos),
            forall|k: int| 0 <= k < asteroids@.len() ==> wf_asteroid(#[trigger] asteroids@[k]),
            forall|k: int| 0 <= k < i ==> {
                let a = #[trigger] asteroids@[k];
                crate::torus::spec_distance_squared(pos, a.pos)
                    >= (SAFE_SPAWN_RADIUS + spec_asteroid_radius(a.size))
                        * (SAFE_SPAWN_RADIUS + spec_asteroid_radius(a.size))
            },
        decreases n - i,
    {
        let a = asteroids[i];
        let d = distance_squared_wrapped(pos, a.pos);
        let min_dist = SAFE_SPAWN_RADIUS + asteroid_radius(a.size);
        proof {
            assert(min_dist * min_dist <= 12_000 * 12_000i64) by (nonlinear_arith)
                requires 0 <= min_dist <= 12_000;
        }
        if d < min_dist * min_dist {
            return false;
        }
        i = i + 1;
    }
    true
}

/// Pick a respawn position: up to 50 random attempts, each required to keep
/// the safe separation from every asteroid; if all fail, fall back to a
/// random position with no safety guarantee.
pub fn find_safe_spawn_position(asteroids: &Vec<AsteroidState>) -> (r: Vec2)
    requires
        forall|i: int| 0 <= i < asteroids@.len() ==> wf_asteroid(#[trigger] asteroids@[i]),
    ensures
        in_world(r),
{
    let mut attempt: u64 = 0;
    while attempt < 50
        invariant
            forall|i: int| 0 <= i < asteroids@.len() ==> wf_asteroid(#[trigger] asteroids@[i]),
        decreases 50 - attempt,
    {
        let pos = Vec2 { x: random_i64(0, WORLD_WIDTH), y: random_i64(0, WORLD_HEIGHT) };
        if is_safe_position(pos, asteroids) {
            return pos;
        }
        attempt = attempt + 1;
    }
    Vec2 { x: random_i64(0, WORLD_WIDTH), y: random_i64(0, WORLD_HEIGHT) }
}

/// A freshly joined player: alive at a safe position with zero velocity and
/// score, a random heading, and no active effects.
pub fn spawn_player(id: u64, name: String, asteroids: &Vec<AsteroidState>) -> (r: PlayerState)
    requires
        forall|i: int| 0 <= i < asteroids@.len() ==> wf_asteroid(#[trigger] asteroids@[i]),
    ensures
        wf_player(r),
        r.id == id,
        r.name@ == name@,
        in_world(r.pos),
        r.vel.x == 0 && r.vel.y == 0,
        r.alive,
        r.score == 0,
        r.combo == 0,
        r.kill_streak == 0,
        r.respawn_timer is None,
        r.effects.shield_remaining is None,
        r.effects.rapid_fire_remaining is None,
        r.effects.triple_shot_remaining is None,
        r.effects.speed_boost_remaining is None,
        r.effects.invincible_remaining is None,
        r.angle < 24,
{
    let pos = find_safe_spawn_position(asteroids);
    PlayerState {
        id,
        name,
        pos,
        vel: Vec2 { x: 0, y: 0 },
        angle: random_u64(0, 24),
        alive: true,
        score: 0,
        combo: 0,
        kill_streak: 0,
        respawn_timer: None,
        effects: PlayerEffects::none(),
    }
}

impl World {
    /// A fresh world: the first wave's asteroid field, no players, clock at
    /// zero.
    pub fn new() -> (r: World)
        ensures
            wf_world(r),
            r.now_ms == 0,
            r.next_id == 1,
            r.next_entity_id == 1 + ASTEROID_COUNT,
            r.players@.len() == 0,
            r.bullets@.len() == 0,
            r.power_ups@.len() == 0,
            r.asteroids@.len() == ASTEROID_COUNT,
            forall|i: int| 0 <= i < r.asteroids@.len()
                ==> (#[trigger] r.asteroids@[i]).id == 1 + i,
            forall|i: int, j: int| 0 <= i < j < r.asteroids@.len()
                ==> r.asteroids@[i].id != r.asteroids@[j].id,
            r.current_wave == 1,
            r.wave_countdown is None,
    {
        let mut next_entity_id: u64 = 1;
        let asteroids = spawn_asteroids(ASTEROID_COUNT, &mut next_entity_id);
        World {
            now_ms: 0,
            next_id: 1,
            next_entity_id,
            players: Vec::new(),
            bullets: Vec::new(),
            asteroids,
            power_ups: Vec::new(),
            current_wave: 1,
            wave_countdown: None,
        }
    }

    /// Assign the next client id, monotonically increasing.
    pub fn register_client(&mut self) -> (id: u64)
        ensures
            id == old(self).next_id,
            final(self).next_id == spec_sat_add(old(self).next_id, 1),
            final(self).next_entity_id == old(self).next_entity_id,
            final(self).now_ms == old(self).now_ms,
            final(self).players == old(self).players,
            final(self).bullets == old(self).bullets,
            final(self).asteroids == old(self).asteroids,
            final(self).power_ups == old(self).power_ups,
            final(self).current_wave == old(self).current_wave,
            final(self).wave_countdown == old(self).wave_countdown,
    {
        let id = self.next_id;
        self.next_id = sat_add(self.next_id, 1);
        id
    }

    /// The index of the player with this id, if registered.
    pub fn find_player(&self, id: u64) -> (r: Option<usize>)
        ensures
            match r {
                Some(i) => i < self.players@.len() && self.players@[i as int].state.id == id,
                None => !has_player(*self, id),
            },
    {
        let n = self.players.len();
        let mut i: usize = 0;
        while i < n
            invariant
                i <= n,
                n == self.players@.len(),
                forall|k: int| 0 <= k < i ==> #[trigger] self.players@[k].state.id != id,
            decreases n - i,
        {
            if self.players[i].state.id == id {
                return Some(i);
            }
            i = i + 1;
        }
        None
    }

    /// The join handshake: create the player and its runtime record with a
    /// fresh spawn-invincibility window, unless the id is already bound.
    pub fn handle_join(&mut self, id: u64, name: String)
        requires
            wf_world(*old(self)),
        ensures
            wf_world(*final(self)),
            has_player(*final(self), id),
            old(self).now_ms == final(self).now_ms,
            final(self).next_id == old(self).next_id,
            final(self).bullets == old(self).bullets,
            final(self).asteroids == old(self).asteroids,
            final(self).power_ups == old(self).power_ups,
            final(self).current_wave == old(self).current_wave,
            final(self).wave_countdown == old(self).wave_countdown,
            has_player(*old(self), id) ==> final(self).players == old(self).players,
            !has_player(*old(self), id) ==> {
                &&& final(self).players@.len() == old(self).players@.len() + 1
                &&& final(self).players@.subrange(0, old(self).players@.len() as int)
                    == old(self).players@
                &&& {
                    let p = final(self).players@.last();
                    &&& p.state.id == id
                    &&& p.state.name@ == name@
                    &&& p.state.alive
                    &&& p.state.score == 0
                    &&& p.state.combo == 0
                    &&& p.state.kill_streak == 0
                    &&& p.state.respawn_timer is None
                    &&& in_world(p.state.pos)
                    &&& p.state.vel.x == 0 && p.state.vel.y == 0
                    &&& p.rt.invincible_until
                        == Some(spec_sat_add(old(self).now_ms, SPAWN_INVINCIBILITY_MS))
                    &&& p.rt.respawn_at is None
                    &&& p.rt.combo == 0 && p.rt.kill_streak == 0
                }
            },
    {
        match self.find_player(id) {
            Some(_) => {
                proof {
                    assert(has_player(*self, id));
                }
            }
            None => {
                let state = spawn_player(id, name, &self.asteroids);
                let mut rt = PlayerRuntime::new(self.now_ms);
                rt.invincible_until = Some(sat_add(self.now_ms, SPAWN_INVINCIBILITY_MS));
                let ghost old_players = self.players@;
                self.players.push(PlayerEntry { state, rt });
                proof {
                    assert(self.players@.subrange(0, old_players.len() as int) =~= old_players);
                    assert(self.players@[old_players.len() as int].state.id == id);
                }
            }
        }
    }

    /// Buffer a client's latest input for its player; unknown ids are a
    /// no-op. The rotation is normalized to a signed unit.
    pub fn handle_input(&mut self, id: u64, input: PlayerInput)
        requires
            wf_world(*old(self)),
        ensures
            wf_world(*final(self)),
            final(self).now_ms == old(self).now_ms,
            final(self).next_id == old(self).next_id,
            final(self).bullets == old(self).bullets,
            final(self).asteroids == old(self).asteroids,
            final(self).power_ups == old(self).power_ups,
            final(self).current_wave == old(self).current_wave,
            final(self).wave_countdown == old(self).wave_countdown,
            final(self).players@.len() == old(self).players@.len(),
            !has_player(*old(self), id) ==> final(self).players == old(self).players,
            forall|i: int| 0 <= i < old(self).players@.len()
                && #[trigger] old(self).players@[i].state.id != id
                ==> final(self).players@[i] == old(self).players@[i],
            forall|i: int| 0 <= i < old(self).players@.len()
                && #[trigger] old(self).players@[i].state.id == id
                ==> {
                    let p = final(self).players@[i];
                    let q = old(self).players@[i];
                    &&& p.state == q.state
                    &&& p.rt.input.thrust == input.thrust
                    &&& p.rt.input.fire == input.fire
                    &&& p.rt.input.rotate
                        == (if input.rotate > 0 { 1int } else if input.rotate < 0 { -1int } else { 0int })
                    &&& p.rt.last_fire_ms == q.rt.last_fire_ms
                    &&& p.rt.invincible_until == q.rt.invincible_until
                    &&& p.rt.respawn_at == q.rt.respawn_at
                    &&& p.rt.last_kill_ms == q.rt.last_kill_ms
                    &&& p.rt.combo == q.rt.combo
                    &&& p.rt.kill_streak == q.rt.kill_streak
                    &&& p.rt.shield_until == q.rt.shield_until
                    &&& p.rt.rapid_fire_until == q.rt.rapid_fire_until
                    &&& p.rt.triple_shot_until == q.rt.triple_shot_until
                    &&& p.rt.speed_boost_until == q.rt.speed_boost_until
                },
    {
        let rotate: i8 = if input.rotate > 0 {
            1
        } else if input.rotate < 0 {
            -1
        } else {
            0
        };
        let normalized = PlayerInput { thrust: input.thrust, rotate, fire: input.fire };
        match self.find_player(id) {
            Some(i) => {
                self.players[i].rt.input = normalized;
                proof {
                    assert(forall|k: int| 0 <= k < old(self).players@.len() && k != i
                        ==> final(self).players@[k] == old(self).players@[k]);
                }
            }
            None => {}
        }
    }

    /// Remove a disconnecting client's player, returning its display name.
    pub fn remove_player(&mut self, id: u64) -> (r: Option<String>)
        requires
            wf_world(*old(self)),
        ensures
            wf_world(*final(self)),
            final(self).now_ms == old(self).now_ms,
            final(self).next_id == old(self).next_id,
            final(self).bullets == old(self).bullets,
            final(self).asteroids == old(self).asteroids,
            final(self).power_ups == old(self).power_ups,
            final(self).current_wave == old(self).current_wave,
            final(self).wave_countdown == old(self).wave_countdown,
            r is Some <==> has_player(*old(self), id),
            !has_player(*final(self), id),
            r is None ==> final(self).players == old(self).players,
            r is Some ==> exists|i: int| 0 <= i < old(self).players@.len()
                && (#[trigger] old(self).players@[i]).state.id == id
                && r->0@ == old(self).players@[i].state.name@
                && final(self).players@ == old(self).players@.remove(i),
    {
        match self.find_player(id) {
            Some(i) => {
                let entry = self.players.remove(i);
                proof {
                    assert(forall|k: int| 0 <= k < final(self).players@.len()
                        ==> #[trigger] final(self).players@[k].state.id != id) by {
                        assert(forall|k: int| 0 <= k < i
                            ==> final(self).players@[k] == old(self).players@[k]);
                        assert(forall|k: int| i <= k < final(self).players@.len()
                            ==> final(self).players@[k] == old(self).players@[k + 1]);
                    }
                }
                Some(entry.state.name)
            }
            None => None,
        }
    }

    /// The wave summary for the snapshot: the wave number, the live asteroid
    /// count, and the remaining countdown while the field is empty.
    pub fn wave_info(&self) -> (r: WaveInfo)
        requires
            wf_world(*self),
        ensures
            r.wave_number == self.current_wave,
            r.asteroids_remaining == self.asteroids@.len(),
            r.countdown == match self.wave_countdown {
                Some(t) => Some(if self.now_ms < t { (t - self.now_ms) as u64 } else { 0u64 }),
                None => None::<u64>,
            },
    {
        proof {
            lemma_total_weight_len(self.asteroids@);
        }
        let countdown = match self.wave_countdown {
            Some(t) => Some(if self.now_ms < t { t - self.now_ms } else { 0 }),
            None => None,
        };
        WaveInfo {
            wave_number: self.current_wave,
            asteroids_remaining: self.asteroids.len() as u32,
            countdown,
        }
    }
}

} // verus!
