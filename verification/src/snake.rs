//! The self-playing snake board: a deterministic game replayed from the
//! wall clock. The current 15-minute window seeds the run, and every frame
//! replays it from tick zero, so the board is a function of the time and
//! the board size alone.
use crate::arith::{wrap, wrap_exec};
use std::collections::VecDeque;
use vstd::prelude::*;

verus! {

/// A board cell, `(column, row)`.
pub type Point = (i32, i32);

/// Milliseconds per snake step.
pub const TICK_MS: i64 = 130;

/// The run restarts every 15 minutes.
pub const WINDOW_MS: i64 = 900_000;

pub const GOLDEN: u64 = 0x9E37_79B9_7F4A_7C15;

/// SplitMix64 output function.
pub open spec fn mix(s: u64) -> u64 {
    let z1 = (s ^ (s >> 30u64)).wrapping_mul(0xBF58_476D_1CE4_E5B9u64);
    let z2 = (z1 ^ (z1 >> 27u64)).wrapping_mul(0x94D0_49BB_1331_11EBu64);
    z2 ^ (z2 >> 31u64)
}

/// A tiny deterministic generator (SplitMix64): good enough for food
/// placement, and lets a run be replayed exactly from its seed.
pub struct Rng(pub u64);

impl Rng {
    pub fn new(seed: u64) -> (r: Rng)
        ensures
            r.0 == seed,
    {
        Rng(seed)
    }

    pub fn next_u64(&mut self) -> (r: u64)
        ensures
            final(self).0 == old(self).0.wrapping_add(GOLDEN),
            r == mix(final(self).0),
    {
        self.0 = self.0.wrapping_add(GOLDEN);
        let z = self.0;
        let z1 = (z ^ (z >> 30)).wrapping_mul(0xBF58_476D_1CE4_E5B9);
        let z2 = (z1 ^ (z1 >> 27)).wrapping_mul(0x94D0_49BB_1331_11EB);
        z2 ^ (z2 >> 31)
    }

    /// A value in `0..n`.
    pub fn below(&mut self, n: usize) -> (r: usize)
        requires
            n > 0,
        ensures
            final(self).0 == old(self).0.wrapping_add(GOLDEN),
            r == mix(final(self).0) % (n as u64),
            r < n,
    {
        let v = self.next_u64();
        (v % (n as u64)) as usize
    }
}

pub open spec fn in_board(p: Point, cols: int, rows: int) -> bool {
    in_cells(p.0 as int, p.1 as int, cols, rows)
}

pub open spec fn in_cells(x: int, y: int, cols: int, rows: int) -> bool {
    0 <= x < cols && 0 <= y < rows
}

/// The first cell in row-major order from `(x, y)` on that is not in `body`;
/// `(0, 0)` when there is none.
pub open spec fn scan_free(cols: int, rows: int, body: Seq<Point>, y: int, x: int) -> Point
    decreases rows - y, cols - x,
{
    if y >= rows || y < 0 || x < 0 {
        (0, 0)
    } else if x >= cols {
        scan_free(cols, rows, body, y + 1, 0)
    } else if !body.contains((x as i32, y as i32)) {
        (x as i32, y as i32)
    } else {
        scan_free(cols, rows, body, y, x + 1)
    }
}

/// Food placement from generator state `s`: up to 200 random tries for a
/// cell outside `body`, each drawing a column and then a row (400 draws in
/// all), then a scan.
/// Gives the cell and the generator state afterwards.
pub open spec fn place_food(cols: int, rows: int, body: Seq<Point>, s: u64, tries: int) -> (Point, u64)
    decreases 200 - tries,
{
    if tries >= 200 || cols <= 0 || rows <= 0 {
        (scan_free(cols, rows, body, 0, 0), s)
    } else {
        let s1 = s.wrapping_add(GOLDEN);
        let s2 = s1.wrapping_add(GOLDEN);
        let p = ((mix(s1) % (cols as u64)) as i32, (mix(s2) % (rows as u64)) as i32);
        if !body.contains(p) {
            (p, s2)
        } else {
            place_food(cols, rows, body, s2, tries + 1)
        }
    }
}

/// A fresh snake of length 5 in the middle of the board, heading right.
pub open spec fn start_body(cols: int, rows: int) -> Seq<Point> {
    let cx = cols / 2;
    let cy = rows / 2;
    Seq::new(5, |i: int| ((cx - i) as i32, cy as i32))
}

pub open spec fn sign(v: int) -> int {
    if v > 0 { 1 } else if v < 0 { -1 } else { 0 }
}

pub open spec fn abs(v: int) -> int {
    if v < 0 { -v } else { v }
}

pub open spec fn with(s: Seq<Point>, d: Point) -> Seq<Point> {
    if s.contains(d) { s } else { s.push(d) }
}

/// Directions in order of preference: toward the food along the axis with
/// the bigger gap, then the other axis, then the rest.
pub open spec fn preferences(dx: int, dy: int) -> Seq<Point> {
    let horiz: Seq<Point> = if dx != 0 { seq![(sign(dx) as i32, 0i32)] } else { Seq::empty() };
    let vert: Seq<Point> = if dy != 0 { seq![(0i32, sign(dy) as i32)] } else { Seq::empty() };
    let first = if abs(dx) >= abs(dy) { horiz + vert } else { vert + horiz };
    with(with(with(with(first, (1i32, 0i32)), (-1i32, 0i32)), (0i32, 1i32)), (0i32, -1i32))
}

pub open spec fn moved(p: Point, d: Point) -> Point {
    ((p.0 + d.0) as i32, (p.1 + d.1) as i32)
}

/// The first preferred direction from index `k` on that leads to a free
/// cell of the board.
pub open spec fn first_safe(prefs: Seq<Point>, head: Point, cols: int, rows: int, body: Seq<Point>, k: int) -> Option<Point>
    decreases prefs.len() - k,
{
    if k >= prefs.len() || k < 0 {
        None
    } else if in_cells(head.0 + prefs[k].0, head.1 + prefs[k].1, cols, rows) && !body.contains(moved(head, prefs[k])) {
        Some(prefs[k])
    } else {
        first_safe(prefs, head, cols, rows, body, k + 1)
    }
}

/// A game state: the body (head first), the food, and the generator state.
pub type Game = (Seq<Point>, Point, u64);

pub open spec fn respawn(cols: int, rows: int, s: u64) -> Game {
    let b = start_body(cols, rows);
    let (f, s2) = place_food(cols, rows, b, s, 0);
    (b, f, s2)
}

/// One step of the game.
pub open spec fn step_spec(cols: int, rows: int, g: Game, max_len: int) -> Game {
    let (body, food, s) = g;
    let head = body[0];
    let prefs = preferences(food.0 - head.0, food.1 - head.1);
    match first_safe(prefs, head, cols, rows, body, 0) {
        None => respawn(cols, rows, s),
        Some(d) => {
            let next = moved(head, d);
            let b1 = seq![next] + body;
            if next == food {
                if b1.len() >= max_len {
                    respawn(cols, rows, s)
                } else {
                    let (f, s2) = place_food(cols, rows, b1, s, 0);
                    (b1, f, s2)
                }
            } else {
                (b1.drop_last(), food, s)
            }
        },
    }
}

/// Whether two cells are neighbours on the board.
pub open spec fn adjacent(a: Point, b: Point) -> bool {
    abs(a.0 - b.0) + abs(a.1 - b.1) == 1
}

/// The board's invariant: a snake of at least 5 and fewer than `max_len`
/// distinct, in-board cells, each next to the one before, and food on the
/// board but not on the snake.
pub open spec fn game_wf(cols: int, rows: int, g: Game, max_len: int) -> bool {
    let (body, food, _) = g;
    &&& 5 <= body.len() < max_len
    &&& body.no_duplicates()
    &&& forall|i: int| 0 <= i < body.len() ==> in_board(#[trigger] body[i], cols, rows)
    &&& forall|i: int| 0 <= i < body.len() - 1 ==> adjacent(#[trigger] body[i], body[i + 1])
    &&& in_board(food, cols, rows)
    &&& !body.contains(food)
}

/// The board sizes the face plays on.
pub open spec fn board_ok(cols: int, rows: int) -> bool {
    8 <= cols <= 0x7fff_ffff && 4 <= rows <= 0x7fff_ffff
}

/// Whether `p` is a cell of the snake. The snake's cells are scanned rather
/// than kept in a `HashSet`: vstd specifies a `HashSet`'s contents only for
/// keys with a key model (integers, `bool` and boxes of them), and a cell
/// is a pair.
fn contains(body: &VecDeque<Point>, p: Point) -> (b: bool)
    ensures
        b == body@.contains(p),
{
    let mut i: usize = 0;
    while i < body.len()
        invariant
            i <= body@.len(),
            forall|j: int| 0 <= j < i ==> body@[j] != p,
        decreases body@.len() - i,
    {
        if body[i].0 == p.0 && body[i].1 == p.1 {
            return true;
        }
        i += 1;
    }
    false
}

/// Picks an empty cell for the next food: random tries, then a full scan
/// so it always terminates.
pub fn spawn_food(cols: usize, rows: usize, occupied: &VecDeque<Point>, rng: &mut Rng) -> (p: Point)
    requires
        1 <= cols <= 0x7fff_ffff,
        1 <= rows <= 0x7fff_ffff,
    ensures
        (p, final(rng).0) == place_food(cols as int, rows as int, occupied@, old(rng).0, 0),
{
    let mut tries: usize = 0;
    while tries < 200
        invariant
            1 <= cols <= 0x7fff_ffff,
            1 <= rows <= 0x7fff_ffff,
            tries <= 200,
            place_food(cols as int, rows as int, occupied@, old(rng).0, 0) == place_food(
                cols as int,
                rows as int,
                occupied@,
                rng.0,
                tries as int,
            ),
        decreases 200 - tries,
    {
        let x = rng.below(cols);
        let y = rng.below(rows);
        let p: Point = (x as i32, y as i32);
        if !contains(occupied, p) {
            return p;
        }
        tries += 1;
    }
    let mut y: usize = 0;
    while y < rows
        invariant
            1 <= cols <= 0x7fff_ffff,
            1 <= rows <= 0x7fff_ffff,
            y <= rows,
            place_food(cols as int, rows as int, occupied@, old(rng).0, 0) == (scan_free(cols as int, rows as int, occupied@, y as int, 0), rng.0),
        decreases rows - y,
    {
        let mut x: usize = 0;
        while x < cols
            invariant
                1 <= cols <= 0x7fff_ffff,
                1 <= rows <= 0x7fff_ffff,
                y < rows,
                x <= cols,
                place_food(cols as int, rows as int, occupied@, old(rng).0, 0) == (scan_free(cols as int, rows as int, occupied@, y as int, x as int), rng.0),
            decreases cols - x,
        {
            let p: Point = (x as i32, y as i32);
            if !contains(occupied, p) {
                return p;
            }
            x += 1;
        }
        y += 1;
    }
    (0, 0)
}

/// Starts a fresh run: a length-5 snake in the middle heading right, and
/// food somewhere it isn't.
pub fn spawn(cols: usize, rows: usize, rng: &mut Rng) -> (r: (VecDeque<Point>, Point))
    requires
        1 <= cols <= 0x7fff_ffff,
        1 <= rows <= 0x7fff_ffff,
    ensures
        (r.0@, r.1, final(rng).0) == respawn(cols as int, rows as int, old(rng).0),
{
    let cx = (cols / 2) as i32;
    let cy = (rows / 2) as i32;
    let mut body: VecDeque<Point> = VecDeque::new();
    let mut i: i32 = 0;
    while i < 5
        invariant
            0 <= i <= 5,
            cx == cols / 2,
            cy == rows / 2,
            body@ == start_body(cols as int, rows as int).subrange(0, i as int),
        decreases 5 - i,
    {
        body.push_back((cx - i, cy));
        i += 1;
    }
    assert(body@ =~= start_body(cols as int, rows as int));
    let food = spawn_food(cols, rows, &body, rng);
    (body, food)
}

fn has_dir(v: &Vec<Point>, d: Point) -> (b: bool)
    ensures
        b == v@.contains(d),
{
    let mut i: usize = 0;
    while i < v.len()
        invariant
            i <= v@.len(),
            forall|j: int| 0 <= j < i ==> v@[j] != d,
        decreases v@.len() - i,
    {
        if v[i].0 == d.0 && v[i].1 == d.1 {
            return true;
        }
        i += 1;
    }
    false
}

fn push_missing(v: &mut Vec<Point>, d: Point)
    ensures
        final(v)@ == with(old(v)@, d),
{
    if !has_dir(v, d) {
        v.push(d);
    }
}

fn sign_exec(v: i64) -> (r: i32)
    ensures
        r == sign(v as int),
{
    if v > 0 { 1 } else if v < 0 { -1 } else { 0 }
}

fn abs_exec(v: i64) -> (r: i64)
    requires
        v > i64::MIN,
    ensures
        r == abs(v as int),
{
    if v < 0 { -v } else { v }
}

/// Advances the game by one step: the snake heads toward the food,
/// preferring the axis with the bigger gap, and steers around its own body
/// and the walls. Cornering itself, or growing to `max_len`, restarts the run.
pub fn step(
    cols: usize,
    rows: usize,
    body: &mut VecDeque<Point>,
    food: &mut Point,
    rng: &mut Rng,
    max_len: usize,
)
    requires
        1 <= cols <= 0x7fff_ffff,
        1 <= rows <= 0x7fff_ffff,
        old(body)@.len() >= 1,
        in_board(old(body)@[0], cols as int, rows as int),
        in_board(*old(food), cols as int, rows as int),
    ensures
        (final(body)@, *final(food), final(rng).0) == step_spec(
            cols as int,
            rows as int,
            (old(body)@, *old(food), old(rng).0),
            max_len as int,
        ),
{
    let head = body[0];
    let dx: i64 = food.0 as i64 - head.0 as i64;
    let dy: i64 = food.1 as i64 - head.1 as i64;
    let mut prefs: Vec<Point> = Vec::new();
    let ghost horiz: Seq<Point> = if dx != 0 { seq![(sign(dx as int) as i32, 0i32)] } else { Seq::empty() };
    let ghost vert: Seq<Point> = if dy != 0 { seq![(0i32, sign(dy as int) as i32)] } else { Seq::empty() };
    if abs_exec(dx) >= abs_exec(dy) {
        if dx != 0 {
            prefs.push((sign_exec(dx), 0));
        }
        if dy != 0 {
            prefs.push((0, sign_exec(dy)));
        }
        assert(prefs@ =~= horiz + vert);
    } else {
        if dy != 0 {
            prefs.push((0, sign_exec(dy)));
        }
        if dx != 0 {
            prefs.push((sign_exec(dx), 0));
        }
        assert(prefs@ =~= vert + horiz);
    }
    push_missing(&mut prefs, (1, 0));
    push_missing(&mut prefs, (-1, 0));
    push_missing(&mut prefs, (0, 1));
    push_missing(&mut prefs, (0, -1));
    let ghost pv = preferences(dx as int, dy as int);
    assert(prefs@ == pv);
    assert(prefs@.len() <= 6);
    let mut k: usize = 0;
    let mut safe: Option<Point> = None;
    while k < prefs.len()
        invariant_except_break
            safe is None,
        invariant
            k <= prefs@.len(),
            prefs@ == pv,
            prefs@.len() <= 6,
            head == body@[0],
            1 <= cols <= 0x7fff_ffff,
            1 <= rows <= 0x7fff_ffff,
            in_board(head, cols as int, rows as int),
            forall|j: int| 0 <= j < prefs@.len() ==> -1 <= #[trigger] prefs@[j].0 <= 1 && -1 <= prefs@[j].1 <= 1,
            first_safe(pv, head, cols as int, rows as int, body@, 0) == first_safe(pv, head, cols as int, rows as int, body@, k as int),
        ensures
            safe == first_safe(pv, head, cols as int, rows as int, body@, 0),
        decreases prefs@.len() - k,
    {
        let d = prefs[k];
        let nx: i64 = head.0 as i64 + d.0 as i64;
        let ny: i64 = head.1 as i64 + d.1 as i64;
        if 0 <= nx && nx < cols as i64 && 0 <= ny && ny < rows as i64 && !contains(body, (nx as i32, ny as i32)) {
            safe = Some(d);
            break;
        }
        k += 1;
    }
    let ghost sv = first_safe(pv, head, cols as int, rows as int, body@, 0);
    assert(safe == sv);
    match safe {
        None => {
            let (b, f) = spawn(cols, rows, rng);
            *body = b;
            *food = f;
        },
        Some(d) => {
            let next: Point = ((head.0 as i64 + d.0 as i64) as i32, (head.1 as i64 + d.1 as i64) as i32);
            body.push_front(next);
            assert(body@ =~= seq![next] + old(body)@);
            if next.0 == food.0 && next.1 == food.1 {
                if body.len() >= max_len {
                    let (b, f) = spawn(cols, rows, rng);
                    *body = b;
                    *food = f;
                } else {
                    let f = spawn_food(cols, rows, body, rng);
                    *food = f;
                }
            } else {
                body.pop_back();
                assert(body@ =~= (seq![next] + old(body)@).drop_last());
            }
        },
    }
}

pub open spec fn unit(d: Point) -> bool {
    abs(d.0 as int) + abs(d.1 as int) == 1
}

proof fn lemma_scan_in_board(cols: int, rows: int, body: Seq<Point>, y: int, x: int)
    requires
        1 <= cols <= 0x7fff_ffff,
        1 <= rows <= 0x7fff_ffff,
    ensures
        in_board(scan_free(cols, rows, body, y, x), cols, rows),
    decreases rows - y, cols - x,
{
    if y >= rows || y < 0 || x < 0 {
    } else if x >= cols {
        lemma_scan_in_board(cols, rows, body, y + 1, 0);
    } else if !body.contains((x as i32, y as i32)) {
    } else {
        lemma_scan_in_board(cols, rows, body, y, x + 1);
    }
}

/// Food is always placed on the board.
pub proof fn lemma_food_in_board(cols: int, rows: int, body: Seq<Point>, s: u64, tries: int)
    requires
        1 <= cols <= 0x7fff_ffff,
        1 <= rows <= 0x7fff_ffff,
    ensures
        in_board(place_food(cols, rows, body, s, tries).0, cols, rows),
    decreases 200 - tries,
{
    if tries >= 200 {
        lemma_scan_in_board(cols, rows, body, 0, 0);
    } else {
        let s1 = s.wrapping_add(GOLDEN);
        let s2 = s1.wrapping_add(GOLDEN);
        assert(mix(s1) % (cols as u64) < cols);
        assert(mix(s2) % (rows as u64) < rows);
        lemma_food_in_board(cols, rows, body, s2, tries + 1);
    }
}

proof fn lemma_scan_finds_free(cols: int, rows: int, body: Seq<Point>, y: int, x: int, fx: int, fy: int)
    requires
        1 <= cols <= 0x7fff_ffff,
        1 <= rows <= 0x7fff_ffff,
        0 <= y,
        0 <= x,
        in_cells(fx, fy, cols, rows),
        !body.contains((fx as i32, fy as i32)),
        fy > y || (fy == y && fx >= x),
    ensures
        !body.contains(scan_free(cols, rows, body, y, x)),
    decreases rows - y, cols - x,
{
    if y >= rows {
    } else if x >= cols {
        lemma_scan_finds_free(cols, rows, body, y + 1, 0, fx, fy);
    } else if !body.contains((x as i32, y as i32)) {
    } else {
        assert(fx != x || fy != y);
        lemma_scan_finds_free(cols, rows, body, y, x + 1, fx, fy);
    }
}

/// Food placement never lands on the snake while a cell of the board is free.
proof fn lemma_food_off_body(cols: int, rows: int, body: Seq<Point>, s: u64, tries: int, fx: int, fy: int)
    requires
        1 <= cols <= 0x7fff_ffff,
        1 <= rows <= 0x7fff_ffff,
        in_cells(fx, fy, cols, rows),
        !body.contains((fx as i32, fy as i32)),
    ensures
        !body.contains(place_food(cols, rows, body, s, tries).0),
    decreases 200 - tries,
{
    if tries >= 200 {
        lemma_scan_finds_free(cols, rows, body, 0, 0, fx, fy);
    } else {
        let s1 = s.wrapping_add(GOLDEN);
        let s2 = s1.wrapping_add(GOLDEN);
        lemma_food_off_body(cols, rows, body, s2, tries + 1, fx, fy);
    }
}

/// The cells of the board in row-major order.
spec fn board_cells(cols: int, rows: int) -> Seq<Point> {
    Seq::new((cols * rows) as nat, |k: int| ((k % cols) as i32, (k / cols) as i32))
}

/// A snake of distinct cells shorter than the board's area leaves a cell free.
proof fn lemma_free_cell(cols: int, rows: int, body: Seq<Point>) -> (c: (int, int))
    requires
        1 <= cols <= 0x7fff_ffff,
        1 <= rows <= 0x7fff_ffff,
        body.no_duplicates(),
        body.len() < cols * rows,
    ensures
        in_cells(c.0, c.1, cols, rows),
        !body.contains((c.0 as i32, c.1 as i32)),
{
    broadcast use vstd::set::group_set_axioms, vstd::seq_lib::seq_to_set_is_finite;

    let n = cols * rows;
    assert(n >= 1) by (nonlinear_arith)
        requires
            cols >= 1,
            rows >= 1,
            n == cols * rows,
    ;
    let cells = board_cells(cols, rows);
    assert forall|k: int| 0 <= k < n implies 0 <= #[trigger] (k / cols) < rows && k == cols * (k / cols) + k % cols
        && 0 <= k % cols < cols by {
        assert(0 <= k / cols < rows && k == cols * (k / cols) + k % cols && 0 <= k % cols < cols) by (nonlinear_arith)
            requires
                0 <= k < n,
                n == cols * rows,
                cols >= 1,
        ;
    }
    assert(cells.no_duplicates()) by {
        assert forall|i: int, j: int| 0 <= i < cells.len() && 0 <= j < cells.len() && i != j implies cells[i] != cells[j] by {
            assert(0 <= i / cols < rows && 0 <= j / cols < rows);
            if cells[i] == cells[j] {
                assert(i % cols == j % cols);
                assert(i / cols == j / cols);
                assert(i == cols * (i / cols) + i % cols);
                assert(j == cols * (j / cols) + j % cols);
            }
        }
    }
    if forall|x: int, y: int| #[trigger] in_cells(x, y, cols, rows) ==> body.contains((x as i32, y as i32)) {
        cells.unique_seq_to_set();
        body.unique_seq_to_set();
        assert(cells.to_set().subset_of(body.to_set())) by {
            assert forall|p: Point| cells.to_set().contains(p) implies body.to_set().contains(p) by {
                let k = choose|k: int| 0 <= k < cells.len() && cells[k] == p;
                assert(0 <= k / cols < rows);
                assert(in_cells(k % cols, k / cols, cols, rows));
            }
        }
        vstd::set_lib::lemma_len_subset(cells.to_set(), body.to_set());
        assert(false);
        (0, 0)
    } else {
        choose|x: int, y: int| in_cells(x, y, cols, rows) && !body.contains((x as i32, y as i32))
    }
}

proof fn lemma_first_safe(prefs: Seq<Point>, head: Point, cols: int, rows: int, body: Seq<Point>, k: int)
    ensures
        first_safe(prefs, head, cols, rows, body, k) matches Some(d) ==> prefs.contains(d) && in_cells(
            head.0 + d.0,
            head.1 + d.1,
            cols,
            rows,
        ) && !body.contains(moved(head, d)),
    decreases prefs.len() - k,
{
    if k >= prefs.len() || k < 0 {
    } else if in_cells(head.0 + prefs[k].0, head.1 + prefs[k].1, cols, rows) && !body.contains(moved(head, prefs[k])) {
        assert(prefs[k] == prefs[k]);
    } else {
        lemma_first_safe(prefs, head, cols, rows, body, k + 1);
    }
}

proof fn lemma_with_units(s: Seq<Point>, d: Point)
    requires
        forall|j: int| 0 <= j < s.len() ==> unit(#[trigger] s[j]),
        unit(d),
    ensures
        forall|j: int| 0 <= j < with(s, d).len() ==> unit(#[trigger] with(s, d)[j]),
{
}

proof fn lemma_preferences_units(dx: int, dy: int)
    ensures
        forall|j: int| 0 <= j < preferences(dx, dy).len() ==> unit(#[trigger] preferences(dx, dy)[j]),
{
    let horiz: Seq<Point> = if dx != 0 { seq![(sign(dx) as i32, 0i32)] } else { Seq::empty() };
    let vert: Seq<Point> = if dy != 0 { seq![(0i32, sign(dy) as i32)] } else { Seq::empty() };
    let first = if abs(dx) >= abs(dy) { horiz + vert } else { vert + horiz };
    assert(forall|j: int| 0 <= j < first.len() ==> unit(#[trigger] first[j]));
    lemma_with_units(first, (1i32, 0i32));
    let a = with(first, (1i32, 0i32));
    lemma_with_units(a, (-1i32, 0i32));
    let b = with(a, (-1i32, 0i32));
    lemma_with_units(b, (0i32, 1i32));
    let c = with(b, (0i32, 1i32));
    lemma_with_units(c, (0i32, -1i32));
}

proof fn lemma_respawn_wf(cols: int, rows: int, s: u64, max_len: int)
    requires
        board_ok(cols, rows),
        6 <= max_len,
    ensures
        game_wf(cols, rows, respawn(cols, rows, s), max_len),
{
    let b = start_body(cols, rows);
    lemma_food_in_board(cols, rows, b, s, 0);
    assert(b.no_duplicates()) by {
        assert forall|i: int, j: int| 0 <= i < b.len() && 0 <= j < b.len() && i != j implies b[i] != b[j] by {
            assert(b[i].0 == (cols / 2 - i) as i32);
            assert(b[j].0 == (cols / 2 - j) as i32);
        }
    }
    assert(cols * rows >= 32) by (nonlinear_arith)
        requires
            cols >= 8,
            rows >= 4,
    ;
    let c = lemma_free_cell(cols, rows, b);
    lemma_food_off_body(cols, rows, b, s, 0, c.0, c.1);
}

/// The law of the board: every step keeps the snake a simple path of
/// neighbouring cells on the board, of at least 5 and fewer than `max_len`
/// cells, with the food on the board and off the snake; and in a step the
/// head moves to a neighbouring cell, the tail following unless the food
/// was eaten, or the run restarts from the fresh length-5 snake.
pub proof fn lemma_step_keeps_board(cols: int, rows: int, g: Game, max_len: int)
    requires
        board_ok(cols, rows),
        6 <= max_len <= cols * rows,
        game_wf(cols, rows, g, max_len),
    ensures
        game_wf(cols, rows, step_spec(cols, rows, g, max_len), max_len),
        ({
            let (body, food, _) = g;
            let (b2, f2, _) = step_spec(cols, rows, g, max_len);
            ||| b2 == start_body(cols, rows)
            ||| adjacent(b2[0], body[0]) && (b2[0] == food ==> b2 == seq![b2[0]] + body) && (b2[0] != food ==> b2
                == (seq![b2[0]] + body).drop_last() && f2 == food)
        }),
{
    let (body, food, s) = g;
    let head = body[0];
    let prefs = preferences(food.0 - head.0, food.1 - head.1);
    lemma_first_safe(prefs, head, cols, rows, body, 0);
    lemma_preferences_units(food.0 - head.0, food.1 - head.1);
    lemma_respawn_wf(cols, rows, s, max_len);
    match first_safe(prefs, head, cols, rows, body, 0) {
        None => {},
        Some(d) => {
            let k = choose|k: int| 0 <= k < prefs.len() && prefs[k] == d;
            assert(unit(prefs[k]));
            let next = moved(head, d);
            let b1 = seq![next] + body;
            assert(adjacent(next, head));
            assert(b1.no_duplicates()) by {
                assert forall|i: int, j: int| 0 <= i < b1.len() && 0 <= j < b1.len() && i != j implies b1[i] != b1[j] by {
                    if i == 0 {
                        assert(b1[j] == body[j - 1]);
                    } else if j == 0 {
                        assert(b1[i] == body[i - 1]);
                    } else {
                        assert(b1[i] == body[i - 1] && b1[j] == body[j - 1]);
                    }
                }
            }
            assert forall|i: int| 0 <= i < b1.len() - 1 implies adjacent(#[trigger] b1[i], b1[i + 1]) by {
                if i > 0 {
                    assert(b1[i] == body[i - 1] && b1[i + 1] == body[i]);
                }
            }
            assert forall|i: int| 0 <= i < b1.len() implies in_board(#[trigger] b1[i], cols, rows) by {
                if i > 0 {
                    assert(b1[i] == body[i - 1]);
                }
            }
            if next == food {
                if b1.len() >= max_len {
                } else {
                    lemma_food_in_board(cols, rows, b1, s, 0);
                    let c = lemma_free_cell(cols, rows, b1);
                    lemma_food_off_body(cols, rows, b1, s, 0, c.0, c.1);
                }
            } else {
                let b2 = b1.drop_last();
                assert(!b2.contains(food)) by {
                    if b2.contains(food) {
                        let i = choose|i: int| 0 <= i < b2.len() && b2[i] == food;
                        assert(b2[i] == b1[i]);
                        if i > 0 {
                            assert(b1[i] == body[i - 1]);
                        }
                    }
                }
                assert(b2.no_duplicates()) by {
                    assert forall|i: int, j: int| 0 <= i < b2.len() && 0 <= j < b2.len() && i != j implies b2[i] != b2[j] by {
                        assert(b2[i] == b1[i] && b2[j] == b1[j]);
                    }
                }
                assert forall|i: int| 0 <= i < b2.len() - 1 implies adjacent(#[trigger] b2[i], b2[i + 1]) by {
                    assert(b2[i] == b1[i] && b2[i + 1] == b1[i + 1]);
                }
                assert forall|i: int| 0 <= i < b2.len() implies in_board(#[trigger] b2[i], cols, rows) by {
                    assert(b2[i] == b1[i]);
                }
            }
        },
    }
}

/// `n` steps of the game from `g`.
pub open spec fn run(cols: int, rows: int, g: Game, max_len: int, n: nat) -> Game
    decreases n,
{
    if n == 0 {
        g
    } else {
        step_spec(cols, rows, run(cols, rows, g, max_len, (n - 1) as nat), max_len)
    }
}

/// The longest the snake may grow on a board before the run restarts.
pub open spec fn max_len_for(cols: int, rows: int) -> int {
    let a = cols * rows / 3;
    let b = if a < 8 { 8 } else if a > 60 { 60 } else { a };
    if b < cols * rows - 4 { b } else { cols * rows - 4 }
}

/// The start of the 15-minute window holding `ms`.
pub open spec fn window_start(ms: int) -> int {
    ms - wrap(ms, WINDOW_MS as int)
}

/// The generator seed of the window starting at `anchor`.
pub open spec fn window_seed(anchor: int) -> u64 {
    (anchor as u64) ^ 0x2545_F491_4F6C_DD1Du64
}

/// The board at epoch time `ms`: the window's run replayed from its start,
/// one step per tick.
pub open spec fn board_at(ms: int, cols: int, rows: int) -> Game {
    let anchor = window_start(ms);
    let start = respawn(cols, rows, window_seed(anchor));
    run(cols, rows, start, max_len_for(cols, rows), ((ms - anchor) / (TICK_MS as int)) as nat)
}

proof fn lemma_run_wf(cols: int, rows: int, g: Game, max_len: int, n: nat)
    requires
        board_ok(cols, rows),
        6 <= max_len <= cols * rows,
        game_wf(cols, rows, g, max_len),
    ensures
        game_wf(cols, rows, run(cols, rows, g, max_len, n), max_len),
    decreases n,
{
    if n > 0 {
        lemma_run_wf(cols, rows, g, max_len, (n - 1) as nat);
        lemma_step_keeps_board(cols, rows, run(cols, rows, g, max_len, (n - 1) as nat), max_len);
    }
}

proof fn lemma_max_len_bounds(cols: int, rows: int)
    requires
        board_ok(cols, rows),
    ensures
        8 <= max_len_for(cols, rows) <= cols * rows - 4,
{
    assert(cols * rows >= 32) by (nonlinear_arith)
        requires
            cols >= 8,
            rows >= 4,
    ;
}

/// The law of the replayed board: at every moment the board is well formed
/// (a simple path of neighbouring cells on the board, of at least 5 and
/// fewer than `max_len_for` cells, with the food on the board and off the
/// snake); it depends only on the 15-minute window and the tick within it;
/// and in the first tick of a window the snake is the fresh length-5 one.
pub proof fn lemma_board_at_wf(ms: int, ms2: int, cols: int, rows: int)
    requires
        board_ok(cols, rows),
    ensures
        game_wf(cols, rows, board_at(ms, cols, rows), max_len_for(cols, rows)),
        window_start(ms2) == window_start(ms) && (ms2 - window_start(ms2)) / (TICK_MS as int) == (ms
            - window_start(ms)) / (TICK_MS as int) ==> board_at(ms2, cols, rows) == board_at(ms, cols, rows),
        ms - window_start(ms) < TICK_MS ==> board_at(ms, cols, rows).0 == start_body(cols, rows),
{
    let anchor = window_start(ms);
    lemma_max_len_bounds(cols, rows);
    lemma_respawn_wf(cols, rows, window_seed(anchor), max_len_for(cols, rows));
    lemma_run_wf(
        cols,
        rows,
        respawn(cols, rows, window_seed(anchor)),
        max_len_for(cols, rows),
        ((ms - anchor) / (TICK_MS as int)) as nat,
    );
    assert(ms - anchor >= 0);
    if ms - anchor < TICK_MS {
        assert((ms - anchor) / (TICK_MS as int) == 0);
    }
}

/// Replays the current 15-minute window from tick zero up to `epoch_ms`.
/// Gives the snake (head first) and the food.
pub fn simulate(epoch_ms: i64, cols: usize, rows: usize) -> (r: (VecDeque<Point>, Point))
    requires
        board_ok(cols as int, rows as int),
        cols * rows <= usize::MAX,
        epoch_ms >= i64::MIN + WINDOW_MS,
    ensures
        r.0@ == board_at(epoch_ms as int, cols as int, rows as int).0,
        r.1 == board_at(epoch_ms as int, cols as int, rows as int).1,
        game_wf(cols as int, rows as int, board_at(epoch_ms as int, cols as int, rows as int), max_len_for(cols as int, rows as int)),
{
    let off = wrap_exec(epoch_ms, WINDOW_MS);
    let anchor = epoch_ms - off;
    let target: i64 = off / TICK_MS;
    let mut rng = Rng::new((anchor as u64) ^ 0x2545_F491_4F6C_DD1D);
    let area = cols * rows;
    assert(area >= 32) by (nonlinear_arith)
        requires
            area == cols * rows,
            cols >= 8,
            rows >= 4,
    ;
    let a = area / 3;
    let b = if a < 8 { 8 } else if a > 60 { 60 } else { a };
    let max_len = if b < area - 4 { b } else { area - 4 };
    assert(max_len == max_len_for(cols as int, rows as int));
    let (mut body, mut food) = spawn(cols, rows, &mut rng);
    let ghost start = respawn(cols as int, rows as int, window_seed(anchor as int));
    proof {
        lemma_respawn_wf(cols as int, rows as int, window_seed(anchor as int), max_len as int);
    }
    let mut t: i64 = 0;
    while t < target
        invariant
            0 <= t <= target,
            board_ok(cols as int, rows as int),
            6 <= max_len <= cols * rows,
            game_wf(cols as int, rows as int, start, max_len as int),
            (body@, food, rng.0) == run(cols as int, rows as int, start, max_len as int, t as nat),
        decreases target - t,
    {
        proof {
            lemma_run_wf(cols as int, rows as int, start, max_len as int, t as nat);
        }
        step(cols, rows, &mut body, &mut food, &mut rng, max_len);
        t += 1;
    }
    proof {
        lemma_run_wf(cols as int, rows as int, start, max_len as int, t as nat);
    }
    (body, food)
}

} // verus!
