//! Properties that hold across calls: cycling faces, names that read back,
//! undoing an adjustment, the life of a ringing alarm, sizing, the compact
//! card fitting its area, and the snake board playing on frame to frame.
use crate::alarm::{fires, is_dismissed, lead_of, still_ringing, ActiveAlarm};
use crate::arith::wrap;
use crate::calendar::Now;
use crate::compact::{card_clock, card_lines, card_top, take, upper, Tint};
use crate::screen::blanks;
use crate::snake::{board_at, max_len_for, step_spec, window_start, TICK_MS, WINDOW_MS};
use crate::config::{
    effective_step, resolved_alarm, face_at, face_name, face_named, face_pos, next_face, prev_face, recurrence_at,
    recurrence_pos, weekday_at, weekday_full_name, weekday_named, weekday_num, Config, Face, Recurrence,
    Weekday, MAX_SCALE,
};
use crate::keys::{grown, shrunk};
use crate::text::{hm_text, lemma_hm_text_injective, lower, lower_char};
use vstd::arithmetic::div_mod::{lemma_fundamental_div_mod, lemma_mod_multiples_vanish, lemma_small_mod};
use vstd::prelude::*;

verus! {

/// Stepping a value in `0..n` around its cycle by `d` and then by `-d`
/// gives it back: what an adjustment by `+`, followed by one by `-`, does
/// to an hour, a minute, a weekday or a recurrence.
pub proof fn lemma_wrap_undo(x: int, d: int, n: int)
    requires
        0 <= x < n,
    ensures
        wrap(wrap(x + d, n) - d, n) == x,
        0 <= wrap(x + d, n) < n,
{
    let a = (x + d) % n;
    let q = (x + d) / n;
    lemma_fundamental_div_mod(x + d, n);
    assert(a - d == n * (-q) + x) by (nonlinear_arith)
        requires
            x + d == n * q + a,
    ;
    lemma_mod_multiples_vanish(-q, x, n);
    lemma_small_mod(x as nat, n as nat);
}

/// Each face's position names it back, and each position names a face
/// whose position it is.
pub proof fn lemma_face_positions(f: Face, i: int)
    ensures
        face_at(face_pos(f)) == f,
        0 <= face_pos(f) < 18,
        0 <= i < 18 ==> face_pos(face_at(i)) == i,
{
}

/// Moving to the next face undoes moving to the previous one, and the
/// other way round.
pub proof fn lemma_next_prev_inverse(f: Face)
    ensures
        next_face(prev_face(f)) == f,
        prev_face(next_face(f)) == f,
{
}

/// The face reached from `f` by `n` presses of the right arrow.
pub open spec fn advance_faces(f: Face, n: nat) -> Face
    decreases n,
{
    if n == 0 {
        f
    } else {
        next_face(advance_faces(f, (n - 1) as nat))
    }
}

proof fn lemma_advance_position(f: Face, n: nat)
    ensures
        advance_faces(f, n) == face_at((face_pos(f) + n) % 18),
    decreases n,
{
    if n > 0 {
        lemma_advance_position(f, (n - 1) as nat);
        let k = (face_pos(f) + n - 1) % 18;
        lemma_face_positions(f, k);
        lemma_wrap_undo(0, face_pos(f) + n - 1, 18);
        assert((k + 1) % 18 == (face_pos(f) + n) % 18) by {
            let q = (face_pos(f) + n - 1) / 18;
            lemma_fundamental_div_mod(face_pos(f) + n - 1, 18);
            lemma_mod_multiples_vanish(q, k + 1, 18);
        }
    }
}

/// How many presses of the right arrow lead from `f` to `g`.
pub open spec fn presses_between(f: Face, g: Face) -> nat {
    if face_pos(g) >= face_pos(f) {
        (face_pos(g) - face_pos(f)) as nat
    } else {
        (face_pos(g) - face_pos(f) + 18) as nat
    }
}

proof fn lemma_reaches(f: Face, g: Face)
    ensures
        presses_between(f, g) < 18,
        advance_faces(f, presses_between(f, g)) == g,
{
    let k = presses_between(f, g);
    lemma_face_positions(f, 0);
    lemma_face_positions(g, 0);
    lemma_advance_position(f, k);
    let pg = face_pos(g);
    lemma_small_mod(pg as nat, 18);
    vstd::arithmetic::div_mod::lemma_mod_add_multiples_vanish(pg, 18);
    assert((face_pos(f) + k) % 18 == pg);
}

proof fn lemma_full_turn(f: Face)
    ensures
        advance_faces(f, 18) == f,
{
    let pf = face_pos(f);
    lemma_face_positions(f, 0);
    lemma_advance_position(f, 18);
    vstd::arithmetic::div_mod::lemma_mod_add_multiples_vanish(pf, 18);
    lemma_small_mod(pf as nat, 18);
    assert((pf + 18) % 18 == pf);
}

/// Pressing the right arrow once per face brings the clock back to the
/// face it started on, and on the way it shows every face.
pub proof fn lemma_faces_cycle(f: Face)
    ensures
        advance_faces(f, 18) == f,
        forall|g: Face| presses_between(f, g) < 18 && #[trigger] advance_faces(f, presses_between(f, g)) == g,
{
    lemma_full_turn(f);
    assert forall|g: Face| presses_between(f, g) < 18 && #[trigger] advance_faces(f, presses_between(f, g)) == g by {
        lemma_reaches(f, g);
    }
}

/// Every face's configuration name reads back as that face.
pub proof fn lemma_face_name_round_trip(f: Face)
    ensures
        face_named(lower(face_name(f))) == Some(f),
{
    reveal_strlit("digital");
    reveal_strlit("analog");
    reveal_strlit("binary");
    reveal_strlit("word");
    reveal_strlit("matrix");
    reveal_strlit("flip");
    reveal_strlit("waves");
    reveal_strlit("rings");
    reveal_strlit("roman");
    reveal_strlit("lcd");
    reveal_strlit("hourglass");
    reveal_strlit("blocks");
    reveal_strlit("cuckoo");
    reveal_strlit("radar");
    reveal_strlit("ship");
    reveal_strlit("grid");
    reveal_strlit("warp");
    reveal_strlit("snake");
    assert("digital"@.len() == 7 && "digital"@[0] == 'd' && "digital"@[1] == 'i');
    assert("analog"@.len() == 6 && "analog"@[0] == 'a' && "analog"@[1] == 'n');
    assert("binary"@.len() == 6 && "binary"@[0] == 'b' && "binary"@[1] == 'i');
    assert("word"@.len() == 4 && "word"@[0] == 'w' && "word"@[1] == 'o');
    assert("matrix"@.len() == 6 && "matrix"@[0] == 'm' && "matrix"@[1] == 'a');
    assert("flip"@.len() == 4 && "flip"@[0] == 'f' && "flip"@[1] == 'l');
    assert("waves"@.len() == 5 && "waves"@[0] == 'w' && "waves"@[1] == 'a');
    assert("rings"@.len() == 5 && "rings"@[0] == 'r' && "rings"@[1] == 'i');
    assert("roman"@.len() == 5 && "roman"@[0] == 'r' && "roman"@[1] == 'o');
    assert("lcd"@.len() == 3 && "lcd"@[0] == 'l' && "lcd"@[1] == 'c');
    assert("hourglass"@.len() == 9 && "hourglass"@[0] == 'h' && "hourglass"@[1] == 'o');
    assert("blocks"@.len() == 6 && "blocks"@[0] == 'b' && "blocks"@[1] == 'l');
    assert("cuckoo"@.len() == 6 && "cuckoo"@[0] == 'c' && "cuckoo"@[1] == 'u');
    assert("radar"@.len() == 5 && "radar"@[0] == 'r' && "radar"@[1] == 'a');
    assert("ship"@.len() == 4 && "ship"@[0] == 's' && "ship"@[1] == 'h');
    assert("grid"@.len() == 4 && "grid"@[0] == 'g' && "grid"@[1] == 'r');
    assert("warp"@.len() == 4 && "warp"@[0] == 'w' && "warp"@[1] == 'a');
    assert("snake"@.len() == 5 && "snake"@[0] == 's' && "snake"@[1] == 'n');
    let n = face_name(f);
    assert(lower(n) =~= n) by {
        assert forall|i: int| 0 <= i < n.len() implies lower_char(#[trigger] n[i]) == n[i] by {}
    }
    // Names of one length differ in their first two characters.
    assert(n.len() >= 2 && n[0] == n[0] && n[1] == n[1]);
}

/// A ringing occurrence that is dismissed no longer fires.
pub proof fn lemma_dismissed_occurrence_is_silent(c: Config, d: Seq<(usize, i32)>, now: Now, act: ActiveAlarm)
    ensures
        is_dismissed(d.push((act.index, act.candidate_date)), act.index as int, act.candidate_date as int),
        !fires(c, d.push((act.index, act.candidate_date)), now, act.index as int, act.candidate_date - now.day),
{
    let d2 = d.push((act.index, act.candidate_date));
    assert(d2[d.len() as int] == (act.index, act.candidate_date));
}

/// An occurrence the alarm check reports as firing is, at that moment and
/// with the configuration unchanged, still inside its ringing window.
pub proof fn lemma_firing_occurrence_still_rings(c: Config, d: Seq<(usize, i32)>, now: Now, i: usize, off: int)
    requires
        now.wf(),
        0 <= off <= 1,
        i < c.alarms@.len(),
        fires(c, d, now, i as int, off),
    ensures
        still_ringing(c, ActiveAlarm { index: i, candidate_date: (now.day + off) as i32 }, now),
{
}

/// The time until an alarm starts ringing is always in the future.
pub proof fn lemma_lead_is_positive(c: Config, now: Now, i: int, off: int)
    ensures
        lead_of(c, now, i, off) matches Some(e) ==> e > 0,
{
}

/// Cycling an alarm's recurrence by `d` and back by `-d` restores it.
pub proof fn lemma_recurrence_cycle_undo(r: Recurrence, d: int)
    ensures
        recurrence_at(wrap(recurrence_pos(recurrence_at(wrap(recurrence_pos(r) + d, 6))) - d, 6)) == r,
{
    lemma_wrap_undo(recurrence_pos(r), d, 6);
}

/// The seconds shown with a step: a multiple of the step, not after the
/// actual second, and less than one step before it.
pub proof fn lemma_step_second_rounds_down(c: Config, s: u32)
    ensures
        ({
            let st = effective_step(c);
            let r = (s as int) / st * st;
            &&& r % st == 0
            &&& r <= s < r + st
        }),
{
    let st = effective_step(c);
    let q = (s as int) / st;
    lemma_fundamental_div_mod(s as int, st);
    vstd::arithmetic::div_mod::lemma_mod_multiples_basic(q, st);
    assert(q * st == st * q) by (nonlinear_arith);
}

/// Growing a pinned size and shrinking it again gives it back, and so
/// does shrinking then growing, away from the ends of `1..=MAX_SCALE`.
pub proof fn lemma_grow_shrink_undo(s: int)
    ensures
        1 <= s < MAX_SCALE ==> shrunk(grown(s)) == s,
        1 < s <= MAX_SCALE ==> grown(shrunk(s)) == s,
        1 <= grown(s) <= MAX_SCALE <== 0 <= s,
        1 <= shrunk(s) <= MAX_SCALE <== s <= MAX_SCALE + 1,
{
}


/// The width of a line of colored pieces.
pub open spec fn line_width(l: Seq<(Seq<char>, Tint)>) -> int
    decreases l.len(),
{
    if l.len() == 0 {
        0
    } else {
        l[0].0.len() + line_width(l.drop_first())
    }
}

/// The compact card, the fallback for faces that do not fit, always fits
/// its area: no more lines than rows and no line wider than the area.
pub proof fn lemma_compact_card_fits(
    f: Face,
    full: Seq<char>,
    suffix: Seq<char>,
    w: int,
    h: int,
    show_date: bool,
    date: Seq<char>,
)
    requires
        w >= 0,
        h >= 0,
    ensures
        card_lines(f, full, suffix, w, h, show_date, date).len() <= h,
        forall|i: int| 0 <= i < card_lines(f, full, suffix, w, h, show_date, date).len()
            ==> line_width(#[trigger] card_lines(f, full, suffix, w, h, show_date, date)[i]) <= w,
{
    reveal_with_fuel(line_width, 6);
    let lines = card_lines(f, full, suffix, w, h, show_date, date);
    let clock = card_clock(full, suffix, w);
    if w == 0 || h == 0 {
    } else if h < 3 || w < 6 {
        assert(line_width(lines[0]) == take(clock, w).len());
    } else {
        let box_w = if w > 30 { 30 } else { w };
        let inner = box_w - 2;
        let label = take(upper(face_name(f)), inner - 3);
        let head = "\u{2500} "@ + label + " "@;
        reveal_strlit("\u{2500} ");
        reveal_strlit(" ");
        reveal_strlit("\u{256d}");
        reveal_strlit("\u{256e}");
        reveal_strlit("\u{2502}");
        reveal_strlit("\u{2570}");
        reveal_strlit("\u{256f}");
        assert(head.len() <= inner);
        assert(card_top(f, inner).len() == inner);
        let shown = take(clock, inner);
        assert(line_width(lines[0]) == inner + 2);
        assert(line_width(lines[1]) == 2 + blanks((inner - shown.len()) / 2).len() + shown.len()
            + blanks(inner - shown.len() - (inner - shown.len()) / 2).len());
        assert(line_width(lines[1]) == inner + 2);
        assert(line_width(lines[2]) == inner + 2);
        if show_date && h >= 5 && date.len() <= w {
            assert(line_width(lines[3]) == 0);
            assert(line_width(lines[4]) == date.len());
        }
    }
}


/// The snake board plays on from frame to frame: one tick later, within
/// the same 15-minute run, the board is the earlier board moved one step.
pub proof fn lemma_snake_frames_continue(ms: int, cols: int, rows: int)
    requires
        window_start(ms + TICK_MS) == window_start(ms),
    ensures
        board_at(ms + TICK_MS, cols, rows) == step_spec(cols, rows, board_at(ms, cols, rows), max_len_for(cols, rows)),
{
    let anchor = window_start(ms);
    let x = ms - anchor;
    vstd::arithmetic::div_mod::lemma_div_plus_one(x, TICK_MS as int);
    assert((ms + TICK_MS - anchor) / (TICK_MS as int) == x / (TICK_MS as int) + 1);
    let n = x / (TICK_MS as int);
    assert(x >= 0);
    vstd::arithmetic::div_mod::lemma_div_pos_is_pos(x, TICK_MS as int);
    assert(n >= 0);
    assert(((n + 1) as nat) as int - 1 == n);
}


/// Every weekday's stored name reads back as that weekday.
pub proof fn lemma_weekday_name_round_trip(w: Weekday)
    ensures
        weekday_named(lower(weekday_full_name(w))) == w,
{
    reveal_strlit("Monday");
    reveal_strlit("Tuesday");
    reveal_strlit("Wednesday");
    reveal_strlit("Thursday");
    reveal_strlit("Friday");
    reveal_strlit("Saturday");
    reveal_strlit("Sunday");
    reveal_strlit("monday");
    reveal_strlit("tuesday");
    reveal_strlit("wednesday");
    reveal_strlit("thursday");
    reveal_strlit("friday");
    reveal_strlit("saturday");
    reveal_strlit("sunday");
    reveal_strlit("mon");
    reveal_strlit("tue");
    reveal_strlit("wed");
    reveal_strlit("thu");
    reveal_strlit("fri");
    reveal_strlit("sat");
    reveal_strlit("sun");
    let n = weekday_full_name(w);
    let l = lower(n);
    assert(l =~= match w {
        Weekday::Mon => "monday"@,
        Weekday::Tue => "tuesday"@,
        Weekday::Wed => "wednesday"@,
        Weekday::Thu => "thursday"@,
        Weekday::Fri => "friday"@,
        Weekday::Sat => "saturday"@,
        Weekday::Sun => "sunday"@,
    });
    // Names of one length differ in one of their first three characters.
    assert(l.len() >= 6 && l[0] == l[0] && l[1] == l[1] && l[2] == l[2]);
    assert("monday"@[0] == 'm' && "tuesday"@[0] == 't' && "wednesday"@[0] == 'w' && "thursday"@[0] == 't');
    assert("friday"@[0] == 'f' && "saturday"@[0] == 's' && "sunday"@[0] == 's');
    assert("tuesday"@[1] == 'u' && "thursday"@[1] == 'h' && "saturday"@[1] == 'a' && "sunday"@[1] == 'u');
}

/// Stepping a weekly alarm's weekday by `d` and back by `-d`, through the
/// name it is stored under, restores it.
pub proof fn lemma_weekday_cycle_undo(w: Weekday, d: int)
    ensures
        ({
            let there = weekday_at(wrap(weekday_num(w) + d, 7));
            let read = weekday_named(lower(weekday_full_name(there)));
            weekday_at(wrap(weekday_num(read) - d, 7)) == w
        }),
{
    let there = weekday_at(wrap(weekday_num(w) + d, 7));
    lemma_weekday_name_round_trip(there);
    lemma_wrap_undo(weekday_num(w), d, 7);
}


/// The clock time of day `n` shows, as the legacy alarm compares it.
pub open spec fn minute_text(n: Now) -> Seq<char> {
    hm_text((n.ms_of_day / 3_600_000) as int, ((n.ms_of_day / 60_000) % 60) as int)
}

/// The legacy alarm is active in one minute of the day only: two moments
/// at which it is active show the same hour and minute.
pub proof fn lemma_legacy_alarm_single_minute(c: Config, n1: Now, n2: Now)
    requires
        n1.wf(),
        n2.wf(),
        resolved_alarm(c) == Some(minute_text(n1)),
        resolved_alarm(c) == Some(minute_text(n2)),
    ensures
        n1.ms_of_day / 3_600_000 == n2.ms_of_day / 3_600_000,
        (n1.ms_of_day / 60_000) % 60 == (n2.ms_of_day / 60_000) % 60,
{
    lemma_hm_text_injective(
        (n1.ms_of_day / 3_600_000) as int,
        ((n1.ms_of_day / 60_000) % 60) as int,
        (n2.ms_of_day / 3_600_000) as int,
        ((n2.ms_of_day / 60_000) % 60) as int,
    );
}

} // verus!
