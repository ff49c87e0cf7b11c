//! The message surface between clients and the server, and the per-tick
//! snapshot contract: one complete, internally consistent view of the world
//! is assembled from the canonical state after every tick and fanned out to
//! every session.

use vstd::prelude::*;
use vstd::string::StringExecFns;
use crate::entities::{PlayerState, PlayerInput, AsteroidState, BulletState, PowerUpState,
    WaveInfo, TICK_HZ};
use crate::world::{World, wf_world, has_player};

verus! {

/// What a client sends: the join handshake, its latest input (absolute,
/// latest wins), a chat line, or a liveness probe.
pub enum ClientMsg {
    Join { name: String },
    Input(PlayerInput),
    Chat { text: String },
    Ping { nonce: u64 },
}

/// What the server sends: the handshake reply, the per-tick state snapshot,
/// chat fan-out, system notices, and the probe echo.
pub enum ServerMsg {
    Welcome { id: u64, tick_hz: u32 },
    State {
        players: Vec<PlayerState>,
        asteroids: Vec<AsteroidState>,
        bullets: Vec<BulletState>,
        power_ups: Vec<PowerUpState>,
        wave: Option<WaveInfo>,
    },
    Chat { from: String, text: String },
    System { text: String },
    Pong { nonce: u64 },
}

/// The complete per-tick broadcast: all players, asteroids, bullets,
/// power-ups, and the wave summary.
pub struct Snapshot {
    pub players: Vec<PlayerState>,
    pub asteroids: Vec<AsteroidState>,
    pub bullets: Vec<BulletState>,
    pub power_ups: Vec<PowerUpState>,
    pub wave: WaveInfo,
}

/// Two broadcast player records agree on every field.
pub open spec fn same_player_state(a: PlayerState, b: PlayerState) -> bool {
    &&& a.id == b.id
    &&& a.name@ == b.name@
    &&& a.pos == b.pos
    &&& a.vel == b.vel
    &&& a.angle == b.angle
    &&& a.alive == b.alive
    &&& a.score == b.score
    &&& a.combo == b.combo
    &&& a.kill_streak == b.kill_streak
    &&& a.respawn_timer == b.respawn_timer
    &&& a.effects == b.effects
}

/// The handshake reply that binds a client id to the fixed tick rate.
pub fn welcome_msg(id: u64) -> (r: ServerMsg)
    ensures
        r == (ServerMsg::Welcome { id, tick_hz: TICK_HZ }),
{
    ServerMsg::Welcome { id, tick_hz: TICK_HZ }
}

/// The system notice broadcast when a player joins.
pub fn join_notice(name: &str) -> (r: String)
    ensures
        r@ == name@ + " joined the room"@,
{
    let s: String = name.to_owned();
    s.concat(" joined the room")
}

/// The system notice broadcast when a player leaves.
pub fn left_notice(name: &str) -> (r: String)
    ensures
        r@ == name@ + " left the room"@,
{
    let s: String = name.to_owned();
    s.concat(" left the room")
}

impl World {
    /// The display name of the player bound to this id, if any.
    pub fn player_name(&self, id: u64) -> (r: Option<String>)
        ensures
            match r {
                Some(name) => exists|i: int| 0 <= i < self.players@.len()
                    && #[trigger] self.players@[i].state.id == id
                    && self.players@[i].state.name@ == name@,
                None => !has_player(*self, id),
            },
    {
        match self.find_player(id) {
            Some(i) => Some(self.players[i].state.name.clone()),
            None => None,
        }
    }

    /// Assemble the snapshot of the current tick: every player, asteroid,
    /// bullet and power-up exactly as the canonical state holds them, plus
    /// the wave summary.
    pub fn snapshot(&self) -> (r: Snapshot)
        requires
            wf_world(*self),
        ensures
            r.players@.len() == self.players@.len(),
            forall|i: int| 0 <= i < self.players@.len()
                ==> same_player_state(#[trigger] r.players@[i], self.players@[i].state),
            r.asteroids@ == self.asteroids@,
            r.bullets@.len() == self.bullets@.len(),
            forall|i: int| 0 <= i < self.bullets@.len()
                ==> #[trigger] r.bullets@[i] == self.bullets@[i].state,
            r.power_ups@.len() == self.power_ups@.len(),
            forall|i: int| 0 <= i < self.power_ups@.len()
                ==> #[trigger] r.power_ups@[i] == self.power_ups@[i].state,
            r.wave.wave_number == self.current_wave,
            r.wave.asteroids_remaining == self.asteroids@.len(),
            r.wave.countdown == match self.wave_countdown {
                Some(t) => Some(if self.now_ms < t { (t - self.now_ms) as u64 } else { 0u64 }),
                None => None::<u64>,
            },
    {
        let n = self.players.len();
        let mut players: Vec<PlayerState> = Vec::new();
        let mut i: usize = 0;
        while i < n
            invariant
                i <= n,
                n == self.players@.len(),
                players@.len() == i,
                forall|k: int| 0 <= k < i
                    ==> same_player_state(#[trigger] players@[k], self.players@[k].state),
            decreases n - i,
        {
            players.push(self.players[i].state.duplicate());
            i = i + 1;
        }
        let asteroids = self.copy_asteroids();
        let nb = self.bullets.len();
        let mut bullets: Vec<BulletState> = Vec::new();
        let mut j: usize = 0;
        while j < nb
            invariant
                j <= nb,
                nb == self.bullets@.len(),
                bullets@.len() == j,
                forall|k: int| 0 <= k < j
                    ==> #[trigger] bullets@[k] == self.bullets@[k].state,
            decreases nb - j,
        {
            bullets.push(self.bullets[j].state);
            j = j + 1;
        }
        let nu = self.power_ups.len();
        let mut power_ups: Vec<PowerUpState> = Vec::new();
        let mut k: usize = 0;
        while k < nu
            invariant
                k <= nu,
                nu == self.power_ups@.len(),
                power_ups@.len() == k,
                forall|m: int| 0 <= m < k
                    ==> #[trigger] power_ups@[m] == self.power_ups@[m].state,
            decreases nu - k,
        {
            power_ups.push(self.power_ups[k].state);
            k = k + 1;
        }
        let wave = self.wave_info();
        Snapshot { players, asteroids, bullets, power_ups, wave }
    }

    /// A plain copy of the asteroid list.
    fn copy_asteroids(&self) -> (r: Vec<AsteroidState>)
        ensures
            r@ == self.asteroids@,
    {
        let n = self.asteroids.len();
        let mut out: Vec<AsteroidState> = Vec::new();
        let mut i: usize = 0;
        while i < n
            invariant
                i <= n,
                n == self.asteroids@.len(),
                out@.len() == i,
                forall|k: int| 0 <= k < i ==> #[trigger] out@[k] == self.asteroids@[k],
            decreases n - i,
        {
            out.push(self.asteroids[i]);
            i = i + 1;
        }
        proof {
            assert(out@ =~= self.asteroids@);
        }
        out
    }
}

} // verus!
