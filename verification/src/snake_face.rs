//! How the snake face lays out its board: the board size that fits, what
//! each cell shows, and the heads-up line above the board.
use crate::cli::{dec_text, push_decimal};
use crate::screen::{min, sat};
use crate::snake::{Point, WINDOW_MS};
use crate::text::owned;
use std::collections::VecDeque;
use crate::arith::{wrap, wrap_exec};
use vstd::prelude::*;

verus! {

/// Rows taken by the date (a blank line and the date) when it is shown:
/// only when asked for and the area is at least 12 rows high.
pub fn date_rows(show_date: bool, avail_h: usize) -> (r: usize)
    ensures
        r == (if show_date && avail_h >= 12 { 2int } else { 0 }),
{
    if show_date && avail_h >= 12 { 2 } else { 0 }
}

/// The board for an area: cells two columns wide and one row high, at
/// most 48 by 24, leaving six rows for the frame, the heads-up line and
/// the footer plus `extra` rows below; `None` when that leaves less than
/// 8 by 4 cells.
pub fn board_size(avail_w: usize, avail_h: usize, extra: usize) -> (r: Option<(usize, usize)>)
    ensures
        ({
            let cols = min(sat(avail_w - 2) / 2, 48);
            let rows = min(sat(avail_h - (extra + 6)), 24);
            r == if cols < 8 || rows < 4 { None } else { Some((cols as usize, rows as usize)) }
        }),
{
    let c = avail_w.saturating_sub(2) / 2;
    let cols = if c < 48 { c } else { 48 };
    let reserved = if extra <= usize::MAX - 6 { extra + 6 } else { usize::MAX };
    let rr = avail_h.saturating_sub(reserved);
    proof {
        if extra > usize::MAX - 6 {
            assert(sat(avail_h - (extra + 6)) == 0);
        }
    }
    let rows = if rr < 24 { rr } else { 24 };
    if cols < 8 || rows < 4 { None } else { Some((cols, rows)) }
}

/// Which way the snake's head points.
#[derive(Clone, Copy, Debug, PartialEq, Eq, Structural)]
pub enum Heading {
    Right,
    Left,
    Up,
    Down,
}

/// What a board cell shows.
#[derive(Clone, Copy, Debug, PartialEq, Eq, Structural)]
pub enum Tile {
    Head(Heading),
    /// A body segment, counted from the head.
    Body(usize),
    Food,
    /// A faint dot of the background pattern.
    Dot,
    Empty,
}

/// The heading from the neck to the head.
pub open spec fn heading_of(head: Point, neck: Point) -> Heading {
    if head.0 - neck.0 == 1 && head.1 == neck.1 {
        Heading::Right
    } else if head.0 - neck.0 == -1 && head.1 == neck.1 {
        Heading::Left
    } else if head.0 == neck.0 && head.1 - neck.1 == -1 {
        Heading::Up
    } else {
        Heading::Down
    }
}

/// The first position of `p` in the body, if any.
pub open spec fn first_index(body: Seq<Point>, p: Point) -> Option<int>
    decreases body.len(),
{
    if body.len() == 0 {
        None
    } else if body.last() == p && first_index(body.drop_last(), p) is None {
        Some(body.len() - 1)
    } else {
        first_index(body.drop_last(), p)
    }
}

/// What cell `(x, y)` shows, for a snake (head first, not empty) and food.
pub open spec fn tile_of(x: int, y: int, body: Seq<Point>, food: Point) -> Tile {
    let p = (x as i32, y as i32);
    let head = body[0];
    let neck = if body.len() > 1 { body[1] } else { head };
    if p == head {
        Tile::Head(heading_of(head, neck))
    } else {
        match first_index(body, p) {
            Some(i) => Tile::Body(i as usize),
            None => if p == food {
                Tile::Food
            } else if (x + y * 3) % 11 == 0 {
                Tile::Dot
            } else {
                Tile::Empty
            },
        }
    }
}

fn find(body: &VecDeque<Point>, p: Point) -> (r: Option<usize>)
    ensures
        match r {
            Some(i) => first_index(body@, p) == Some(i as int),
            None => first_index(body@, p) is None,
        },
{
    let mut i: usize = 0;
    while i < body.len()
        invariant
            i <= body@.len(),
            first_index(body@.take(i as int), p) is None,
        decreases body@.len() - i,
    {
        assert(body@.take(i as int + 1).drop_last() =~= body@.take(i as int));
        if body[i].0 == p.0 && body[i].1 == p.1 {
            proof {
                lemma_first_index_extend(body@, p, i as int);
            }
            return Some(i);
        }
        i += 1;
    }
    assert(body@.take(i as int) =~= body@);
    None
}

proof fn lemma_first_index_extend(body: Seq<Point>, p: Point, i: int)
    requires
        0 <= i < body.len(),
        body[i] == p,
        first_index(body.take(i), p) is None,
    ensures
        first_index(body, p) == Some(i),
    decreases body.len(),
{
    if i < body.len() - 1 {
        assert(body.drop_last().take(i) =~= body.take(i));
        lemma_first_index_extend(body.drop_last(), p, i);
    } else {
        assert(body.drop_last() =~= body.take(i));
    }
}

/// What cell `(x, y)` of the board shows.
pub fn tile_at(x: usize, y: usize, body: &VecDeque<Point>, food: Point) -> (t: Tile)
    requires
        body@.len() >= 1,
        x <= i32::MAX,
        y <= i32::MAX,
        x + 3 * y <= usize::MAX,
    ensures
        t == tile_of(x as int, y as int, body@, food),
{
    let p: Point = (x as i32, y as i32);
    let head = body[0];
    let neck = if body.len() > 1 { body[1] } else { head };
    if p.0 == head.0 && p.1 == head.1 {
        let dx = head.0 as i64 - neck.0 as i64;
        let dy = head.1 as i64 - neck.1 as i64;
        let h = if dx == 1 && dy == 0 {
            Heading::Right
        } else if dx == -1 && dy == 0 {
            Heading::Left
        } else if dx == 0 && dy == -1 {
            Heading::Up
        } else {
            Heading::Down
        };
        return Tile::Head(h);
    }
    match find(body, p) {
        Some(i) => Tile::Body(i),
        None => if p.0 == food.0 && p.1 == food.1 {
            Tile::Food
        } else if (x + y * 3) % 11 == 0 {
            Tile::Dot
        } else {
            Tile::Empty
        },
    }
}

/// The two terminal cells a tile is drawn with.
pub open spec fn tile_text(t: Tile) -> Seq<char> {
    match t {
        Tile::Head(Heading::Right) => "\u{25b6} "@,
        Tile::Head(Heading::Left) => "\u{25c0} "@,
        Tile::Head(Heading::Up) => "\u{25b2} "@,
        Tile::Head(Heading::Down) => "\u{25bc} "@,
        Tile::Body(_) => "\u{2588}\u{2588}"@,
        Tile::Food => "\u{25cf} "@,
        Tile::Dot => "\u{b7} "@,
        Tile::Empty => "  "@,
    }
}

pub fn tile_str(t: Tile) -> (s: &'static str)
    ensures
        s@ == tile_text(t),
{
    match t {
        Tile::Head(Heading::Right) => "\u{25b6} ",
        Tile::Head(Heading::Left) => "\u{25c0} ",
        Tile::Head(Heading::Up) => "\u{25b2} ",
        Tile::Head(Heading::Down) => "\u{25bc} ",
        Tile::Body(_) => "\u{2588}\u{2588}",
        Tile::Food => "\u{25cf} ",
        Tile::Dot => "\u{b7} ",
        Tile::Empty => "  ",
    }
}

/// The board's rows of tiles.
pub fn board_tiles(cols: usize, rows: usize, body: &VecDeque<Point>, food: Point) -> (r: Vec<Vec<Tile>>)
    requires
        body@.len() >= 1,
        cols <= 48,
        rows <= 24,
    ensures
        r@.len() == rows,
        forall|y: int| 0 <= y < rows ==> #[trigger] r@[y]@.len() == cols,
        forall|y: int, x: int| 0 <= y < rows && 0 <= x < cols ==> #[trigger] r@[y]@[x] == tile_of(x, y, body@, food),
{
    let mut r: Vec<Vec<Tile>> = Vec::new();
    let mut y: usize = 0;
    while y < rows
        invariant
            body@.len() >= 1,
            cols <= 48,
            rows <= 24,
            y <= rows,
            r@.len() == y,
            forall|yy: int| 0 <= yy < y ==> #[trigger] r@[yy]@.len() == cols,
            forall|yy: int, x: int| 0 <= yy < y && 0 <= x < cols ==> #[trigger] r@[yy]@[x] == tile_of(x, yy, body@, food),
        decreases rows - y,
    {
        let mut line: Vec<Tile> = Vec::new();
        let mut x: usize = 0;
        while x < cols
            invariant
                body@.len() >= 1,
                cols <= 48,
                y < rows <= 24,
                x <= cols,
                line@.len() == x,
                forall|xx: int| 0 <= xx < x ==> #[trigger] line@[xx] == tile_of(xx, y as int, body@, food),
            decreases cols - x,
        {
            line.push(tile_at(x, y, body, food));
            x += 1;
        }
        r.push(line);
        y += 1;
    }
    r
}

/// The snake's length as the heads-up line shows it: `"LENGTH "` and at
/// least two digits.
pub open spec fn length_text(n: nat) -> Seq<char> {
    "LENGTH "@ + if n < 10 { seq!['0'] + dec_text(n) } else { dec_text(n) }
}

pub fn length_label(n: usize) -> (s: String)
    ensures
        s@ == length_text(n as nat),
{
    let mut s = owned("LENGTH ");
    if n < 10 {
        s.append("0");
    }
    push_decimal(&mut s, n);
    proof {
        reveal_strlit("0");
    }
    assert(s@ =~= length_text(n as nat));
    s
}

/// The gaps around the time on the heads-up line, which spans the board's
/// inside: `"SNAKE"` on the left, the length on the right, the time
/// centered between; `None` when they do not fit with four cells to spare.
pub fn hud_gaps(clock_len: usize, right_len: usize, board_w: usize) -> (r: Option<(usize, usize)>)
    ensures
        ({
            let inner = sat(board_w - 2);
            let used = 5 + clock_len + right_len;
            r == if used + 4 <= inner { Some((((inner - used) / 2) as usize, ((inner - used) - (inner - used) / 2) as usize)) } else { None }
        }),
{
    let inner = board_w.saturating_sub(2);
    if clock_len > inner || right_len > inner - clock_len || 5 > inner - clock_len - right_len {
        return None;
    }
    let used = 5 + clock_len + right_len;
    if inner - used < 4 {
        return None;
    }
    let free = inner - used;
    Some((free / 2, free - free / 2))
}

/// When the next run starts: the end of the current 15-minute window.
pub fn next_run_ms(epoch_ms: i64) -> (r: i64)
    requires
        i64::MIN + WINDOW_MS <= epoch_ms <= i64::MAX - WINDOW_MS,
    ensures
        r == epoch_ms - wrap(epoch_ms as int, WINDOW_MS as int) + WINDOW_MS,
{
    epoch_ms - wrap_exec(epoch_ms, WINDOW_MS) + WINDOW_MS
}

} // verus!
