//! The pure parts of the terminal view: projecting world positions into the
//! zoomed viewport centred on the local ship, the heading glyph, the
//! character grid the renderer draws, run-length spans of equally coloured
//! cells, and the leaderboard order.

use vstd::prelude::*;
use crate::torus::{Vec2, in_world, shortest_delta, spec_shortest_delta, WORLD_WIDTH,
    WORLD_HEIGHT};
use crate::entities::{PlayerState, PowerUpKind};
use crate::angle::spec_snap_sector;
use crate::client::ClientState;

verus! {

/// The view palette.
#[derive(Clone, Copy, Debug, PartialEq, Eq, Structural)]
pub enum Color {
    Plain,
    Yellow,
    Red,
    Cyan,
    Green,
    White,
    Blue,
    Magenta,
}

/// One character cell of the view.
#[derive(Clone, Copy, Debug, PartialEq, Eq, Structural)]
pub struct Cell {
    pub ch: char,
    pub color: Color,
}

/// Zoom numerator and denominator: the viewport shows `10/13` of a world
/// unit per cell, so objects appear larger.
pub const VIEW_ZOOM_NUM: i64 = 10;
pub const VIEW_ZOOM_DEN: i64 = 13;

/// One axis of the projection: the toroidal delta to the view centre in
/// milli-units, mapped onto `cells` columns of a viewport `cells * 10 / 13`
/// world units wide; `None` when outside the viewport.
pub open spec fn spec_view_axis(d: int, cells: int) -> Option<int> {
    let span = cells * 1000 * (VIEW_ZOOM_NUM as int) / (VIEW_ZOOM_DEN as int);
    if 2 * d > span || 2 * d < -span {
        None
    } else {
        let f = (d + span / 2) * (cells - 1) / span;
        if f < 0 {
            Some(0)
        } else if f > cells - 1 {
            Some(cells - 1)
        } else {
            Some(f)
        }
    }
}

fn view_axis(d: i64, cells: usize) -> (r: Option<usize>)
    requires
        2 <= cells <= 10_000,
        -200_000 <= d <= 200_000,
    ensures
        r is Some <==> spec_view_axis(d as int, cells as int) is Some,
        r is Some ==> r->0 as int == spec_view_axis(d as int, cells as int)->0
            && r->0 < cells,
{
    let c = cells as i64;
    let span: i64 = c * 1000 * VIEW_ZOOM_NUM / VIEW_ZOOM_DEN;
    proof {
        assert(span >= 1000) by (nonlinear_arith)
            requires span == c * 1000 * 10 / 13 && c >= 2;
        assert(span <= 10_000_000) by (nonlinear_arith)
            requires span == c * 1000 * 10 / 13 && 2 <= c <= 10_000;
    }
    if 2 * d > span || 2 * d < -span {
        return None;
    }
    proof {
        assert((d + span / 2) * (c - 1) <= 10_200_000 * 10_000i64) by (nonlinear_arith)
            requires 0 <= d + span / 2 <= 10_200_000 && 1 <= c <= 10_000;
        assert((d + span / 2) * (c - 1) >= 0) by (nonlinear_arith)
            requires d + span / 2 >= 0 && c >= 1;
    }
    let f: i64 = (d + span / 2) * (c - 1) / span;
    let clamped: i64 = if f < 0 {
        0
    } else if f > c - 1 {
        c - 1
    } else {
        f
    };
    Some(clamped as usize)
}

/// Project a world position into the viewport centred on `center`:
/// `None` when it falls outside the visible span on either axis.
pub fn world_to_view(pos: Vec2, center: Vec2, w: usize, h: usize) -> (r: Option<(usize, usize)>)
    requires
        in_world(pos),
        in_world(center),
    ensures
        match r {
            Some(xy) => {
                &&& w >= 2 && h >= 2
                &&& xy.0 < w && xy.1 < h
                &&& Some(xy.0 as int) == spec_view_axis(
                    spec_shortest_delta(pos.x as int, center.x as int, WORLD_WIDTH as int),
                    w as int)
                &&& Some(xy.1 as int) == spec_view_axis(
                    spec_shortest_delta(pos.y as int, center.y as int, WORLD_HEIGHT as int),
                    h as int)
            }
            None => w < 2 || h < 2 || w > 10_000 || h > 10_000
                || spec_view_axis(
                    spec_shortest_delta(pos.x as int, center.x as int, WORLD_WIDTH as int),
                    w as int) is None
                || spec_view_axis(
                    spec_shortest_delta(pos.y as int, center.y as int, WORLD_HEIGHT as int),
                    h as int) is None,
        },
{
    if w < 2 || h < 2 || w > 10_000 || h > 10_000 {
        return None;
    }
    let dx = shortest_delta(pos.x, center.x, WORLD_WIDTH);
    let dy = shortest_delta(pos.y, center.y, WORLD_HEIGHT);
    let x = match view_axis(dx, w) {
        Some(x) => x,
        None => { return None; }
    };
    let y = match view_axis(dy, h) {
        Some(y) => y,
        None => { return None; }
    };
    Some((x, y))
}

/// The glyph that points along a heading, one of the eight firing sectors.
pub open spec fn spec_heading_glyph(a: int) -> char {
    let sector = spec_snap_sector(a) / 3;
    if sector == 0 { '\u{2192}' }
    else if sector == 1 { '\u{2198}' }
    else if sector == 2 { '\u{2193}' }
    else if sector == 3 { '\u{2199}' }
    else if sector == 4 { '\u{2190}' }
    else if sector == 5 { '\u{2196}' }
    else if sector == 6 { '\u{2191}' }
    else { '\u{2197}' }
}

/// The arrow glyph for the local ship's heading.
pub fn heading_glyph(a: u64) -> (r: char)
    requires
        a < 24,
    ensures
        r == spec_heading_glyph(a as int),
{
    let sector = crate::angle::snap_sector(a) / 3;
    match sector {
        0 => '\u{2192}',
        1 => '\u{2198}',
        2 => '\u{2193}',
        3 => '\u{2199}',
        4 => '\u{2190}',
        5 => '\u{2196}',
        6 => '\u{2191}',
        _ => '\u{2197}',
    }
}

/// Write one cell of the grid, ignoring writes that fall outside it.
fn set_cell(grid: &mut Vec<Vec<Cell>>, x: usize, y: usize, ch: char, color: Color)
    ensures
        final(grid)@.len() == old(grid)@.len(),
        forall|r: int| 0 <= r < old(grid)@.len()
            ==> (#[trigger] final(grid)@[r])@.len() == old(grid)@[r]@.len(),
{
    if y < grid.len() {
        let row_len = grid[y].len();
        if x < row_len {
            let ghost old_rows = grid@;
            grid[y][x] = Cell { ch, color };
            proof {
                assert(forall|r: int| 0 <= r < old_rows.len() && r != y
                    ==> grid@[r] == old_rows[r]);
                assert(grid@[y as int]@.len() == old_rows[y as int]@.len());
            }
        }
    }
}

/// The character grid of the world view: asteroids by size class, bullets,
/// power-ups by kind, and ships (the local one as a heading arrow), centred
/// on the local player. Invincible ships blink.
pub fn render_grid(state: &ClientState, w: usize, h: usize, blink_on: bool) -> (r: Vec<Vec<Cell>>)
    requires
        w <= 10_000,
        h <= 10_000,
        forall|i: int| 0 <= i < state.players@.len()
            ==> in_world((#[trigger] state.players@[i]).pos)
                && state.players@[i].angle < 24,
        forall|i: int| 0 <= i < state.asteroids@.len()
            ==> in_world((#[trigger] state.asteroids@[i]).pos),
        forall|i: int| 0 <= i < state.power_ups@.len()
            ==> in_world((#[trigger] state.power_ups@[i]).pos),
    ensures
        r@.len() == h,
        forall|row: int| 0 <= row < h ==> (#[trigger] r@[row])@.len() == w,
{
    let mut grid: Vec<Vec<Cell>> = Vec::new();
    let mut row: usize = 0;
    while row < h
        invariant
            row <= h,
            grid@.len() == row,
            forall|k: int| 0 <= k < row ==> (#[trigger] grid@[k])@.len() == w,
        decreases h - row,
    {
        let mut line: Vec<Cell> = Vec::new();
        let mut col: usize = 0;
        while col < w
            invariant
                col <= w,
                line@.len() == col,
            decreases w - col,
        {
            line.push(Cell { ch: ' ', color: Color::Plain });
            col = col + 1;
        }
        grid.push(line);
        row = row + 1;
    }
    let center: Vec2 = match state.local_player() {
        Some(p) => p.pos,
        None => Vec2 { x: WORLD_WIDTH / 2, y: WORLD_HEIGHT / 2 },
    };
    proof {
        assert(in_world(center));
    }
    let na = state.asteroids.len();
    let mut i: usize = 0;
    while i < na
        invariant
            i <= na,
            na == state.asteroids@.len(),
            in_world(center),
            w <= 10_000,
            h <= 10_000,
            forall|k: int| 0 <= k < na ==> in_world((#[trigger] state.asteroids@[k]).pos),
            grid@.len() == h,
            forall|k: int| 0 <= k < h ==> (#[trigger] grid@[k])@.len() == w,
        decreases na - i,
    {
        let a = state.asteroids[i];
        match world_to_view(a.pos, center, w, h) {
            Some((x, y)) => {
                if a.size == 1 {
                    set_cell(&mut grid, x, y, 'o', Color::Yellow);
                } else if a.size == 2 {
                    set_cell(&mut grid, x, y, 'O', Color::Yellow);
                    if x > 0 {
                        set_cell(&mut grid, x - 1, y, 'O', Color::Yellow);
                    }
                    set_cell(&mut grid, x + 1, y, 'O', Color::Yellow);
                } else {
                    let mut dy: usize = 0;
                    while dy <= 1
                        invariant
                            grid@.len() == h,
                            forall|k: int| 0 <= k < h ==> (#[trigger] grid@[k])@.len() == w,
                            dy <= 2,
                            x < w <= 10_000,
                            y < h <= 10_000,
                        decreases 2 - dy,
                    {
                        set_cell(&mut grid, x, y + dy, '#', Color::Yellow);
                        if x > 0 {
                            set_cell(&mut grid, x - 1, y + dy, '#', Color::Yellow);
                        }
                        set_cell(&mut grid, x + 1, y + dy, '#', Color::Yellow);
                        dy = dy + 1;
                    }
                }
            }
            None => {}
        }
        i = i + 1;
    }
    let nb = state.bullets.len();
    let mut j: usize = 0;
    while j < nb
        invariant
            j <= nb,
            nb == state.bullets@.len(),
            in_world(center),
            grid@.len() == h,
            forall|k: int| 0 <= k < h ==> (#[trigger] grid@[k])@.len() == w,
        decreases nb - j,
    {
        let b = state.bullets[j];
        let wrapped = Vec2 {
            x: if b.pos.x >= WORLD_WIDTH { WORLD_WIDTH - 1 } else if b.pos.x < 0 { 0 } else { b.pos.x },
            y: if b.pos.y >= WORLD_HEIGHT { WORLD_HEIGHT - 1 } else if b.pos.y < 0 { 0 } else { b.pos.y },
        };
        match world_to_view(wrapped, center, w, h) {
            Some((x, y)) => {
                set_cell(&mut grid, x, y, '*', Color::Red);
            }
            None => {}
        }
        j = j + 1;
    }
    let nu = state.power_ups.len();
    let mut m: usize = 0;
    while m < nu
        invariant
            m <= nu,
            nu == state.power_ups@.len(),
            in_world(center),
            forall|k: int| 0 <= k < nu ==> in_world((#[trigger] state.power_ups@[k]).pos),
            grid@.len() == h,
            forall|k: int| 0 <= k < h ==> (#[trigger] grid@[k])@.len() == w,
        decreases nu - m,
    {
        let u = state.power_ups[m];
        match world_to_view(u.pos, center, w, h) {
            Some((x, y)) => {
                let (ch, color) = match u.kind {
                    PowerUpKind::Shield => ('S', Color::Cyan),
                    PowerUpKind::RapidFire => ('R', Color::Red),
                    PowerUpKind::TripleShot => ('T', Color::Magenta),
                    PowerUpKind::SpeedBoost => ('B', Color::Blue),
                };
                set_cell(&mut grid, x, y, ch, color);
            }
            None => {}
        }
        m = m + 1;
    }
    let np = state.players.len();
    let mut p: usize = 0;
    while p < np
        invariant
            p <= np,
            np == state.players@.len(),
            in_world(center),
            forall|k: int| 0 <= k < np ==> in_world((#[trigger] state.players@[k]).pos)
                && state.players@[k].angle < 24,
            grid@.len() == h,
            forall|k: int| 0 <= k < h ==> (#[trigger] grid@[k])@.len() == w,
        decreases np - p,
    {
        let pl = &state.players[p];
        if pl.alive {
            match world_to_view(pl.pos, center, w, h) {
                Some((x, y)) => {
                    let is_self = match state.id {
                        Some(id) => pl.id == id,
                        None => false,
                    };
                    let ch = if is_self { heading_glyph(pl.angle) } else { 'A' };
                    let invincible = pl.effects.invincible_remaining.is_some()
                        || pl.effects.shield_remaining.is_some();
                    let color = if invincible && !blink_on {
                        Color::White
                    } else if is_self {
                        Color::Green
                    } else {
                        Color::Cyan
                    };
                    set_cell(&mut grid, x, y, ch, color);
                }
                None => {}
            }
        }
        p = p + 1;
    }
    grid
}

/// The characters of a row's spans, concatenated in order.
pub open spec fn spans_chars(s: Seq<(String, Color)>) -> Seq<char>
    decreases s.len(),
{
    if s.len() == 0 {
        Seq::empty()
    } else {
        s.first().0@ + spans_chars(s.drop_first())
    }
}

/// The characters of a row of cells, in order.
pub open spec fn row_chars(s: Seq<Cell>) -> Seq<char>
    decreases s.len(),
{
    if s.len() == 0 {
        Seq::empty()
    } else {
        row_chars(s.drop_last()).push(s.last().ch)
    }
}

proof fn lemma_spans_chars_push(s: Seq<(String, Color)>, x: (String, Color))
    ensures
        spans_chars(s.push(x)) =~= spans_chars(s) + x.0@,
    decreases s.len(),
{
    if s.len() == 0 {
        assert(s.push(x).drop_first() =~= s);
    } else {
        assert(s.push(x).drop_first() =~= s.drop_first().push(x));
        lemma_spans_chars_push(s.drop_first(), x);
        assert(spans_chars(s.push(x))
            =~= s.first().0@ + (spans_chars(s.drop_first()) + x.0@));
    }
}

/// Merge a row of cells into runs of equal colour, preserving every
/// character in order.
pub fn row_spans(row: &Vec<Cell>) -> (r: Vec<(String, Color)>)
    ensures
        spans_chars(r@) == row_chars(row@),
{
    let n = row.len();
    let mut out: Vec<(String, Color)> = Vec::new();
    if n == 0 {
        proof {
            assert(row@.take(0) =~= row@);
        }
        return out;
    }
    let mut buf = String::new();
    let mut current = row[0].color;
    let mut i: usize = 0;
    while i < n
        invariant
            i <= n,
            n == row@.len(),
            n > 0,
            spans_chars(out@) + buf@ =~= row_chars(row@.take(i as int)),
        decreases n - i,
    {
        let cell = row[i];
        proof {
            assert(row@.take(i as int + 1).drop_last() =~= row@.take(i as int));
            assert(row@.take(i as int + 1).last() == row@[i as int]);
        }
        if cell.color == current {
            crate::client::push_char(&mut buf, cell.ch);
        } else {
            let ghost prev = out@;
            let done = buf;
            proof {
                lemma_spans_chars_push(prev, (done, current));
            }
            out.push((done, current));
            buf = String::new();
            crate::client::push_char(&mut buf, cell.ch);
            current = cell.color;
        }
        i = i + 1;
    }
    let ghost prev = out@;
    proof {
        lemma_spans_chars_push(prev, (buf, current));
        assert(row@.take(n as int) =~= row@);
    }
    out.push((buf, current));
    proof {
        assert(spans_chars(out@) =~= row_chars(row@));
    }
    out
}

/// The registry indices in leaderboard order: scores descending, every index
/// exactly once.
pub fn leaderboard_order(players: &Vec<PlayerState>) -> (r: Vec<usize>)
    ensures
        r@.len() == players@.len(),
        forall|i: int| 0 <= i < r@.len() ==> (#[trigger] r@[i]) < players@.len(),
        forall|i: int, j: int| #![trigger r@[i], r@[j]] 0 <= i < j < r@.len()
            ==> players@[r@[i] as int].score >= players@[r@[j] as int].score,
        forall|i: int, j: int| #![trigger r@[i], r@[j]] 0 <= i < j < r@.len()
            ==> r@[i] != r@[j],
{
    let n = players.len();
    let mut out: Vec<usize> = Vec::new();
    let mut k: usize = 0;
    while k < n
        invariant
            k <= n,
            n == players@.len(),
            out@.len() == k,
            forall|i: int| 0 <= i < out@.len() ==> (#[trigger] out@[i]) < n,
            forall|i: int, j: int| #![trigger out@[i], out@[j]] 0 <= i < j < out@.len()
                ==> players@[out@[i] as int].score >= players@[out@[j] as int].score,
            forall|i: int, j: int| #![trigger out@[i], out@[j]] 0 <= i < j < out@.len()
                ==> out@[i] != out@[j],
            forall|i: int| 0 <= i < out@.len() ==> (#[trigger] out@[i]) < k,
        decreases n - k,
    {
        // insert index k before the first strictly smaller score
        let score = players[k].score;
        let m = out.len();
        let mut pos: usize = 0;
        while pos < m && players[out[pos]].score >= score
            invariant
                pos <= m,
                m == out@.len(),
                n == players@.len(),
                k < n,
                forall|i: int| 0 <= i < out@.len() ==> (#[trigger] out@[i]) < n,
                score == players@[k as int].score,
                forall|i: int| 0 <= i < pos
                    ==> players@[(#[trigger] out@[i]) as int].score >= score,
            decreases m - pos,
        {
            pos = pos + 1;
        }
        let ghost before = out@;
        out.insert(pos, k);
        proof {
            assert(out@ =~= before.insert(pos as int, k as usize));
            assert(forall|i: int| 0 <= i < pos ==> out@[i] == before[i]);
            assert(out@[pos as int] == k as usize);
            assert(forall|i: int| pos < i < out@.len() ==> out@[i] == before[i - 1]);
        }
        k = k + 1;
    }
    out
}

} // verus!
