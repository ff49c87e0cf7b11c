//! Client-side state: key-press bookkeeping with the per-key timeout used
//! where key-release events are unavailable, the latest-wins input message,
//! the mirror of the last received snapshot, and the pure parts of the
//! terminal view (world-to-view projection, heading glyphs, the character
//! grid, and the leaderboard order).

use vstd::prelude::*;
use vstd::string::StringExecFns;
use vstd::string::StrSliceExecFns;
use crate::entities::{PlayerState, PlayerInput, AsteroidState, BulletState, PowerUpState,
    WaveInfo};
use crate::math::{sat_add, spec_sat_add};

verus! {

/// A held key is released by silence: without a fresh press within this many
/// milliseconds it is treated as released.
pub const INPUT_TIMEOUT_MS: u64 = 120;

/// How long the border flashes after the local player dies, milliseconds.
pub const DEATH_FLASH_MS: u64 = 500;

/// Chat lines kept in the scrollback.
pub const CHAT_SCROLLBACK: usize = 200;

/// Pressed-key state with per-key press timestamps, for platforms that
/// deliver no key-release events.
pub struct InputState {
    pub thrust: bool,
    pub rotate_left: bool,
    pub rotate_right: bool,
    pub fire: bool,
    pub thrust_at: Option<u64>,
    pub rotate_left_at: Option<u64>,
    pub rotate_right_at: Option<u64>,
    pub fire_at: Option<u64>,
}

impl Default for InputState {
    /// Nothing pressed, no timestamps.
    fn default() -> (r: InputState)
        ensures
            !r.thrust && !r.rotate_left && !r.rotate_right && !r.fire,
            r.thrust_at is None,
            r.rotate_left_at is None,
            r.rotate_right_at is None,
            r.fire_at is None,
    {
        InputState {
            thrust: false,
            rotate_left: false,
            rotate_right: false,
            fire: false,
            thrust_at: None,
            rotate_left_at: None,
            rotate_right_at: None,
            fire_at: None,
        }
    }
}

/// A press timestamp that has gone stale at `now`.
pub open spec fn press_expired(at: Option<u64>, now: u64) -> bool {
    match at {
        Some(t) => t + INPUT_TIMEOUT_MS < now,
        None => false,
    }
}

impl InputState {
    /// Release every key and clear every timestamp.
    pub fn clear(&mut self)
        ensures
            !final(self).thrust && !final(self).rotate_left,
            !final(self).rotate_right && !final(self).fire,
            final(self).thrust_at is None,
            final(self).rotate_left_at is None,
            final(self).rotate_right_at is None,
            final(self).fire_at is None,
    {
        self.thrust = false;
        self.rotate_left = false;
        self.rotate_right = false;
        self.fire = false;
        self.thrust_at = None;
        self.rotate_left_at = None;
        self.rotate_right_at = None;
        self.fire_at = None;
    }

    /// Release every key whose last press has gone stale: needed where the
    /// platform delivers no key-release events.
    pub fn check_timeout(&mut self, now: u64)
        ensures
            final(self).thrust
                == (old(self).thrust && !press_expired(old(self).thrust_at, now)),
            final(self).rotate_left
                == (old(self).rotate_left && !press_expired(old(self).rotate_left_at, now)),
            final(self).rotate_right
                == (old(self).rotate_right && !press_expired(old(self).rotate_right_at, now)),
            final(self).fire
                == (old(self).fire && !press_expired(old(self).fire_at, now)),
            press_expired(old(self).thrust_at, now) ==> final(self).thrust_at is None,
            !press_expired(old(self).thrust_at, now)
                ==> final(self).thrust_at == old(self).thrust_at,
            press_expired(old(self).rotate_left_at, now) ==> final(self).rotate_left_at is None,
            !press_expired(old(self).rotate_left_at, now)
                ==> final(self).rotate_left_at == old(self).rotate_left_at,
            press_expired(old(self).rotate_right_at, now) ==> final(self).rotate_right_at is None,
            !press_expired(old(self).rotate_right_at, now)
                ==> final(self).rotate_right_at == old(self).rotate_right_at,
            press_expired(old(self).fire_at, now) ==> final(self).fire_at is None,
            !press_expired(old(self).fire_at, now) ==> final(self).fire_at == old(self).fire_at,
    {
        if Self::expired(self.thrust_at, now) {
            self.thrust = false;
            self.thrust_at = None;
        }
        if Self::expired(self.rotate_left_at, now) {
            self.rotate_left = false;
            self.rotate_left_at = None;
        }
        if Self::expired(self.rotate_right_at, now) {
            self.rotate_right = false;
            self.rotate_right_at = None;
        }
        if Self::expired(self.fire_at, now) {
            self.fire = false;
            self.fire_at = None;
        }
    }

    fn expired(at: Option<u64>, now: u64) -> (r: bool)
        ensures
            r == press_expired(at, now),
    {
        match at {
            Some(t) => t <= now && now - t > INPUT_TIMEOUT_MS,
            None => false,
        }
    }
}

/// Build the latest-wins input message from the pressed keys, after letting
/// stale presses expire. Opposite rotations cancel.
pub fn build_input(input: &mut InputState, now: u64) -> (r: PlayerInput)
    ensures
        r.thrust == final(input).thrust,
        r.fire == final(input).fire,
        r.rotate == (if final(input).rotate_left && !final(input).rotate_right {
            -1int
        } else if final(input).rotate_right && !final(input).rotate_left {
            1int
        } else {
            0int
        }),
        final(input).thrust == (old(input).thrust && !press_expired(old(input).thrust_at, now)),
        final(input).fire == (old(input).fire && !press_expired(old(input).fire_at, now)),
        final(input).rotate_left
            == (old(input).rotate_left && !press_expired(old(input).rotate_left_at, now)),
        final(input).rotate_right
            == (old(input).rotate_right && !press_expired(old(input).rotate_right_at, now)),
{
    input.check_timeout(now);
    let rotate: i8 = if input.rotate_left && !input.rotate_right {
        -1
    } else if input.rotate_right && !input.rotate_left {
        1
    } else {
        0
    };
    PlayerInput { thrust: input.thrust, rotate, fire: input.fire }
}

/// Whether the client is steering the ship or typing into the chat line.
pub enum Mode {
    Game,
    Chat,
}

/// Whether the player bound to `id` is alive in a snapshot: the last record
/// with that id decides, as the mirror reads them in order.
pub open spec fn spec_last_alive(ps: Seq<PlayerState>, id: u64) -> bool
    decreases ps.len(),
{
    if ps.len() == 0 {
        false
    } else if ps.last().id == id {
        ps.last().alive
    } else {
        spec_last_alive(ps.drop_last(), id)
    }
}

/// The client's mirror of the world plus its local UI state.
pub struct ClientState {
    pub id: Option<u64>,
    pub name: String,
    pub players: Vec<PlayerState>,
    pub asteroids: Vec<AsteroidState>,
    pub bullets: Vec<BulletState>,
    pub power_ups: Vec<PowerUpState>,
    pub wave: Option<WaveInfo>,
    pub chat: Vec<String>,
    pub input: InputState,
    pub mode: Mode,
    pub chat_input: String,
    pub should_quit: bool,
    pub death_flash_until: Option<u64>,
    pub last_alive: bool,
}

impl ClientState {
    /// A fresh client that has not yet been welcomed.
    pub fn new(name: String) -> (r: ClientState)
        ensures
            r.id is None,
            r.name@ == name@,
            r.players@.len() == 0,
            r.asteroids@.len() == 0,
            r.bullets@.len() == 0,
            r.power_ups@.len() == 0,
            r.wave is None,
            r.chat@.len() == 0,
            r.mode is Game,
            r.chat_input@.len() == 0,
            !r.should_quit,
            r.death_flash_until is None,
            r.last_alive,
    {
        ClientState {
            id: None,
            name,
            players: Vec::new(),
            asteroids: Vec::new(),
            bullets: Vec::new(),
            power_ups: Vec::new(),
            wave: None,
            chat: Vec::new(),
            input: InputState::default(),
            mode: Mode::Game,
            chat_input: String::new(),
            should_quit: false,
            death_flash_until: None,
            last_alive: true,
        }
    }

    /// Record the welcome: bind the assigned id.
    pub fn apply_welcome(&mut self, id: u64)
        ensures
            final(self).id == Some(id),
            final(self).players == old(self).players,
            final(self).chat == old(self).chat,
    {
        self.id = Some(id);
    }

    /// The local player's record, if the welcome arrived and the snapshot
    /// holds it.
    pub fn local_player(&self) -> (r: Option<&PlayerState>)
        ensures
            match r {
                Some(p) => self.id is Some && exists|i: int|
                    0 <= i < self.players@.len()
                    && *p == #[trigger] self.players@[i]
                    && p.id == self.id->0,
                None => true,
            },
    {
        let id = match self.id {
            Some(id) => id,
            None => { return None; }
        };
        let n = self.players.len();
        let mut i: usize = 0;
        while i < n
            invariant
                i <= n,
                n == self.players@.len(),
                self.id == Some(id),
            decreases n - i,
        {
            if self.players[i].id == id {
                proof {
                    assert(self.players@[i as int].id == id);
                    assert(self.id == Some(id));
                }
                return Some(&self.players[i]);
            }
            i = i + 1;
        }
        None
    }

    /// Take a snapshot into the mirror, flashing the border when the local
    /// player has just died.
    pub fn apply_state(
        &mut self,
        players: Vec<PlayerState>,
        asteroids: Vec<AsteroidState>,
        bullets: Vec<BulletState>,
        power_ups: Vec<PowerUpState>,
        wave: Option<WaveInfo>,
        now: u64,
    )
        ensures
            final(self).players == players,
            final(self).asteroids == asteroids,
            final(self).bullets == bullets,
            final(self).power_ups == power_ups,
            final(self).wave == wave,
            final(self).id == old(self).id,
            final(self).chat == old(self).chat,
            final(self).mode == old(self).mode,
            final(self).should_quit == old(self).should_quit,
            old(self).id is None ==> {
                &&& final(self).death_flash_until == old(self).death_flash_until
                &&& final(self).last_alive == old(self).last_alive
            },
            forall|pid: u64| old(self).id == Some(pid) ==> {
                &&& final(self).last_alive == spec_last_alive(players@, pid)
                &&& final(self).death_flash_until == (
                    if old(self).last_alive && !spec_last_alive(players@, pid) {
                        Some(spec_sat_add(now, DEATH_FLASH_MS))
                    } else {
                        old(self).death_flash_until
                    })
            },
    {
        match self.id {
            Some(id) => {
                let was_alive = self.last_alive;
                let mut now_alive = false;
                let n = players.len();
                let mut i: usize = 0;
                while i < n
                    invariant
                        i <= n,
                        n == players@.len(),
                        now_alive == spec_last_alive(players@.take(i as int), id),
                    decreases n - i,
                {
                    proof {
                        assert(players@.take(i as int + 1).last() == players@[i as int]);
                        assert(players@.take(i as int + 1).drop_last()
                            =~= players@.take(i as int));
                    }
                    if players[i].id == id {
                        now_alive = players[i].alive;
                    }
                    i = i + 1;
                }
                proof {
                    assert(players@.take(n as int) =~= players@);
                }
                if was_alive && !now_alive {
                    self.death_flash_until = Some(sat_add(now, DEATH_FLASH_MS));
                }
                self.last_alive = now_alive;
            }
            None => {}
        }
        self.players = players;
        self.asteroids = asteroids;
        self.bullets = bullets;
        self.power_ups = power_ups;
        self.wave = wave;
    }

    /// Append a chat line, keeping only the newest lines of the scrollback.
    pub fn push_chat(&mut self, line: String)
        requires
            old(self).chat@.len() <= CHAT_SCROLLBACK,
        ensures
            final(self).chat@.len() <= CHAT_SCROLLBACK,
            old(self).chat@.len() < CHAT_SCROLLBACK
                ==> final(self).chat@ == old(self).chat@.push(line),
            old(self).chat@.len() == CHAT_SCROLLBACK
                ==> final(self).chat@ == old(self).chat@.push(line).drop_first(),
            final(self).chat@.last()@ == line@,
            final(self).players == old(self).players,
            final(self).id == old(self).id,
    {
        self.chat.push(line);
        if self.chat.len() > CHAT_SCROLLBACK {
            let _ = self.chat.remove(0);
            proof {
                assert(final(self).chat@ =~= old(self).chat@.push(line).drop_first());
            }
        }
    }
}

/// The keys the game reacts to, as delivered by the terminal.
pub enum Key {
    Char(char),
    Up,
    Down,
    Left,
    Right,
    Enter,
    Esc,
    Backspace,
    Other,
}

/// Press or release.
pub enum KeyKind {
    Press,
    Release,
}

/// A key event while steering: quit, switch to chat, or hold and release
/// the thrust, rotation, and fire keys, stamping each press at `now`.
pub fn handle_game_key(state: &mut ClientState, key: Key, kind: KeyKind, now: u64)
    ensures
        key is Char && key->0 == 'q' ==> final(state).should_quit,
        key is Char && key->0 == 'c' ==> final(state).mode is Chat,
        (key is Up || (key is Char && key->0 == 'w')) && kind is Press ==> {
            &&& final(state).input.thrust
            &&& final(state).input.thrust_at == Some(now)
        },
        (key is Up || (key is Char && key->0 == 'w')) && kind is Release ==> {
            &&& !final(state).input.thrust
            &&& final(state).input.thrust_at is None
        },
        (key is Left || (key is Char && key->0 == 'a')) && kind is Press
            ==> final(state).input.rotate_left
                && final(state).input.rotate_left_at == Some(now),
        (key is Right || (key is Char && key->0 == 'd')) && kind is Press
            ==> final(state).input.rotate_right
                && final(state).input.rotate_right_at == Some(now),
        key is Char && key->0 == ' ' && kind is Press
            ==> final(state).input.fire && final(state).input.fire_at == Some(now),
        key is Char && key->0 == ' ' && kind is Release
            ==> !final(state).input.fire && final(state).input.fire_at is None,
        final(state).players == old(state).players,
        final(state).chat == old(state).chat,
{
    match key {
        Key::Char(c) => {
            if c == 'q' {
                state.should_quit = true;
                return;
            }
            if c == 'c' {
                state.mode = Mode::Chat;
                state.input.clear();
                return;
            }
            if c == 'w' {
                set_key(&mut state.input.thrust, &mut state.input.thrust_at, kind, now);
            } else if c == 'a' {
                set_key(&mut state.input.rotate_left, &mut state.input.rotate_left_at,
                    kind, now);
            } else if c == 'd' {
                set_key(&mut state.input.rotate_right, &mut state.input.rotate_right_at,
                    kind, now);
            } else if c == ' ' {
                set_key(&mut state.input.fire, &mut state.input.fire_at, kind, now);
            }
        }
        Key::Up => {
            set_key(&mut state.input.thrust, &mut state.input.thrust_at, kind, now);
        }
        Key::Left => {
            set_key(&mut state.input.rotate_left, &mut state.input.rotate_left_at,
                kind, now);
        }
        Key::Right => {
            set_key(&mut state.input.rotate_right, &mut state.input.rotate_right_at,
                kind, now);
        }
        _ => {}
    }
}

/// A key event while typing chat: Esc cancels, Enter submits the line for
/// sending (unless blank), Backspace deletes, a plain character is typed.
pub fn handle_chat_key(state: &mut ClientState, key: Key, ctrl: bool) -> (send: Option<String>)
    ensures
        key is Esc ==> {
            &&& final(state).mode is Game
            &&& final(state).chat_input@.len() == 0
            &&& send is None
        },
        key is Enter ==> {
            &&& final(state).mode is Game
            &&& final(state).chat_input@.len() == 0
            &&& (match send {
                Some(text) => text@ == trimmed_of(old(state).chat_input@)
                    && text@.len() > 0,
                None => trimmed_of(old(state).chat_input@).len() == 0,
            })
        },
        key is Backspace ==> {
            &&& final(state).chat_input@
                == (if old(state).chat_input@.len() > 0 {
                    old(state).chat_input@.drop_last()
                } else {
                    old(state).chat_input@
                })
            &&& send is None
        },
        forall|c: char| key == Key::Char(c) && !ctrl
            ==> final(state).chat_input@ == old(state).chat_input@.push(c) && send is None,
        final(state).players == old(state).players,
        final(state).chat == old(state).chat,
{
    match key {
        Key::Esc => {
            state.mode = Mode::Game;
            state.chat_input = String::new();
            state.input.clear();
            None
        }
        Key::Enter => {
            let text = trim_str(state.chat_input.as_str());
            state.chat_input = String::new();
            state.mode = Mode::Game;
            state.input.clear();
            if text.unicode_len() == 0 {
                None
            } else {
                Some(text)
            }
        }
        Key::Backspace => {
            pop_char(&mut state.chat_input);
            None
        }
        Key::Char(c) => {
            if !ctrl {
                push_char(&mut state.chat_input, c);
            }
            None
        }
        _ => None,
    }
}

fn set_key(flag: &mut bool, at: &mut Option<u64>, kind: KeyKind, now: u64)
    ensures
        kind is Press ==> *final(flag) && *final(at) == Some(now),
        kind is Release ==> !*final(flag) && *final(at) is None,
{
    match kind {
        KeyKind::Press => {
            *flag = true;
            *at = Some(now);
        }
        KeyKind::Release => {
            *flag = false;
            *at = None;
        }
    }
}

/// What str::trim returns: the string without its leading and trailing
/// whitespace, a function of the characters alone.
pub uninterp spec fn trimmed_of(s: Seq<char>) -> Seq<char>;

/// Relies on str::trim: removes leading and trailing whitespace, so the
/// result depends on the characters alone and an empty string stays empty.
#[verifier::external_body]
fn trim_str(s: &str) -> (r: String)
    ensures
        r@ == trimmed_of(s@),
        s@.len() == 0 ==> r@.len() == 0,
        r@.len() <= s@.len(),
{
    s.trim().to_string()
}

/// Relies on String::push: appends exactly the one character.
#[verifier::external_body]
pub(crate) fn push_char(s: &mut String, c: char)
    ensures
        final(s)@ == old(s)@.push(c),
{
    s.push(c);
}

/// Relies on String::pop: removes exactly the last character, if any.
#[verifier::external_body]
fn pop_char(s: &mut String) -> (r: Option<char>)
    ensures
        old(s)@.len() == 0 ==> final(s)@ == old(s)@ && r is None,
        old(s)@.len() > 0 ==> final(s)@ == old(s)@.drop_last() && r == Some(old(s)@.last()),
{
    s.pop()
}

/// A display name shortened to the column budget, with an ellipsis when it
/// was cut.
pub fn truncate_name(name: &str, max_len: usize) -> (r: String)
    requires
        max_len >= 1,
    ensures
        name@.len() <= max_len ==> r@ == name@,
        name@.len() > max_len ==> r@ == name@.subrange(0, max_len - 1) + seq!['\u{2026}'],
{
    proof {
        reveal_strlit("\u{2026}");
    }
    if name.unicode_len() <= max_len {
        name.to_owned()
    } else {
        let head = name.substring_char(0, max_len - 1);
        let out = head.to_owned();
        out.concat("\u{2026}")
    }
}

} // verus!
