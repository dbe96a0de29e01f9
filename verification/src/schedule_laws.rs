//! What the alarm schedule and `config set` mean: which days the weekday
//! and weekend recurrences cover, that an alarm due within the look-ahead
//! is always found, and that a boolean key sets the field it names.
use crate::alarm::{first_upcoming, next_of, occurrence, rec_matches};
use crate::calendar::{clock_ms, moment, weekday_number, Now};
use crate::config::{alarm_start, alarm_time, alarm_weekday, weekday_at, weekday_num, Alarm, Config, Recurrence, Weekday};
use crate::manager::opt_view;
use crate::settings::{applied, bool_setting, clamp_step, is_bool_key};
use vstd::arithmetic::div_mod::{lemma_mod_add_multiples_vanish, lemma_fundamental_div_mod};
use vstd::prelude::*;

verus! {

/// Every day is covered by exactly one of the weekday and the weekend
/// recurrences.
pub proof fn lemma_weekdays_and_weekends_split_the_week(a: Alarm, cand: int, start: int)
    ensures
        rec_matches(Alarm { recurrence: Recurrence::Weekday, ..a }, cand, start) != rec_matches(
            Alarm { recurrence: Recurrence::Weekend, ..a },
            cand,
            start,
        ),
{
}

/// The weekend recurrence covers exactly the days a weekly Saturday alarm
/// or a weekly Sunday alarm covers.
pub proof fn lemma_weekend_is_saturday_and_sunday(a: Alarm, sat: Alarm, sun: Alarm, cand: int, start: int)
    requires
        sat.recurrence == Recurrence::Weekly,
        alarm_weekday(sat) == Weekday::Sat,
        sun.recurrence == Recurrence::Weekly,
        alarm_weekday(sun) == Weekday::Sun,
    ensures
        rec_matches(Alarm { recurrence: Recurrence::Weekend, ..a }, cand, start) <==> (rec_matches(sat, cand, start)
            || rec_matches(sun, cand, start)),
{
    let w = weekday_number(cand);
    assert(0 <= w < 7);
}

/// Weekend days come in pairs: a day the weekend recurrence covers has a
/// covered neighbour, the day before or the day after.
pub proof fn lemma_weekend_days_pair_up(a: Alarm, cand: int, start: int)
    requires
        a.recurrence == Recurrence::Weekend,
        rec_matches(a, cand, start),
    ensures
        rec_matches(a, cand + 1, start) || rec_matches(a, cand - 1, start),
{
    let w = weekday_number(cand);
    if w == 5 {
        assert(weekday_number(cand + 1) == 6) by {
            lemma_fundamental_div_mod(cand - 1, 7);
            lemma_fundamental_div_mod(cand, 7);
        }
    } else {
        assert(weekday_number(cand - 1) == 5) by {
            lemma_fundamental_div_mod(cand - 1, 7);
            lemma_fundamental_div_mod(cand - 2, 7);
        }
    }
}

/// A daily alarm covers every day; a one-off alarm exactly its start day.
pub proof fn lemma_daily_and_once(a: Alarm, cand: int, start: int)
    ensures
        rec_matches(Alarm { recurrence: Recurrence::Daily, ..a }, cand, start),
        rec_matches(Alarm { recurrence: Recurrence::Once, ..a }, cand, start) <==> cand == start,
{
}

/// A weekly alarm covers a day exactly when it covers the same day a week
/// later, and two days it covers are a whole number of weeks apart.
pub proof fn lemma_weekly_repeats_each_week(a: Alarm, c1: int, c2: int, start: int)
    requires
        a.recurrence == Recurrence::Weekly,
    ensures
        rec_matches(a, c1, start) <==> rec_matches(a, c1 + 7, start),
        rec_matches(a, c1, start) && rec_matches(a, c2, start) ==> (c1 - c2) % 7 == 0,
{
    lemma_fundamental_div_mod(c1 - 1, 7);
    lemma_fundamental_div_mod(c1 + 6, 7);
    lemma_fundamental_div_mod(c2 - 1, 7);
    lemma_fundamental_div_mod(c1 - c2, 7);
    let w1 = weekday_number(c1);
    let w2 = weekday_number(c2);
    assert(0 <= w1 < 7 && 0 <= w2 < 7);
    if rec_matches(a, c1, start) && rec_matches(a, c2, start) {
        assert(weekday_at(w1) == weekday_at(w2));
        assert(w1 == w2);
        assert((c1 - c2) == 7 * ((c1 - 1) / 7 - (c2 - 1) / 7));
        vstd::arithmetic::div_mod::lemma_mod_multiples_basic((c1 - 1) / 7 - (c2 - 1) / 7, 7);
    }
}

/// A bi-weekly alarm covers its start day and then every fourteenth day,
/// and no day in between or before the start.
pub proof fn lemma_biweekly_every_fourteen_days(a: Alarm, cand: int, start: int)
    requires
        a.recurrence == Recurrence::BiWeekly,
    ensures
        rec_matches(a, start, start),
        cand >= start ==> (rec_matches(a, cand, start) <==> rec_matches(a, cand + 14, start)),
        cand < start ==> !rec_matches(a, cand, start),
        start < cand < start + 14 ==> !rec_matches(a, cand, start),
{
    if cand >= start {
        lemma_mod_add_multiples_vanish(cand - start, 14);
    }
}

/// The alarm has an occurrence at or after `now` on day `today + off`.
pub open spec fn due_on(a: Alarm, today: int, now: int, off: int) -> bool {
    occurrence(a, today + off) matches Some(s) && s >= now
}

proof fn lemma_first_upcoming_from(a: Alarm, today: int, now: int, k: int, off: int)
    requires
        0 <= k <= off <= 15,
        due_on(a, today, now, off),
    ensures
        first_upcoming(a, today, now, k) matches Some(o) && k <= o <= off && due_on(a, today, now, o) && forall|p: int|
            k <= p < o ==> !#[trigger] due_on(a, today, now, p),
    decreases off - k,
{
    if !due_on(a, today, now, k) {
        lemma_first_upcoming_from(a, today, now, k + 1, off);
    }
}

/// Looking ahead finds the earliest day, within the next 15, on which the
/// alarm is due: whenever the alarm is due on some day in that range,
/// the look-ahead gives a day no later, on which it is due, with no day
/// before it on which it is due.
pub proof fn lemma_first_upcoming_finds(a: Alarm, today: int, now: int, off: int)
    requires
        0 <= off <= 15,
        due_on(a, today, now, off),
    ensures
        first_upcoming(a, today, now, 0) matches Some(o) && 0 <= o <= off && due_on(a, today, now, o) && forall|p: int|
            0 <= p < o ==> !#[trigger] due_on(a, today, now, p),
{
    lemma_first_upcoming_from(a, today, now, 0, off);
}

/// An alarm due at or after now within the next 15 days has a next
/// occurrence, so the status line names an upcoming alarm.
pub proof fn lemma_due_alarm_is_upcoming(c: Config, now: Now, i: int, off: int)
    requires
        0 <= i < c.alarms@.len(),
        0 <= off <= 15,
        due_on(c.alarms@[i], now.day as int, now.at(), off),
    ensures
        next_of(c, now, i) is Some,
{
    lemma_first_upcoming_finds(c.alarms@[i], now.day as int, now.at(), off);
}

/// An enabled weekly alarm whose time and start date parse, and which has
/// started, is always upcoming: it rings again within a week.
pub proof fn lemma_weekly_alarm_is_upcoming(c: Config, now: Now, i: int)
    requires
        now.wf(),
        0 <= i < c.alarms@.len(),
        c.alarms@[i].enabled,
        c.alarms@[i].recurrence == Recurrence::Weekly,
        alarm_time(c.alarms@[i]) is Some,
        alarm_start(c.alarms@[i]) matches Some(st) && st <= now.day,
    ensures
        next_of(c, now, i) is Some,
{
    let a = c.alarms@[i];
    let today = now.day as int;
    let w = weekday_num(alarm_weekday(a));
    let t = today - 1;
    let k0 = (w - t) % 7;
    let k = if k0 == 0 { 7 } else { k0 };
    assert((t + k) % 7 == w) by {
        lemma_fundamental_div_mod(w - t, 7);
        lemma_mod_add_multiples_vanish(w, 7);
        if k0 == 0 {
            lemma_fundamental_div_mod(t, 7);
            lemma_mod_add_multiples_vanish(t, 7);
            assert(t % 7 == w) by {
                lemma_fundamental_div_mod(t, 7);
            }
        } else {
            assert(t + k == w + 7 * (-((w - t) / 7)));
            vstd::arithmetic::div_mod::lemma_mod_multiples_vanish(-((w - t) / 7), w, 7);
        }
    }
    assert(weekday_number(today + k) == w);
    assert(weekday_at(w) == alarm_weekday(a));
    let (h, m) = alarm_time(a)->0;
    assert(clock_ms(h as int, m as int) >= 0) by (nonlinear_arith)
        requires
            h >= 0,
            m >= 0,
    ;
    assert(moment(today + k, clock_ms(h as int, m as int)) >= now.at());
    assert(due_on(a, today, now.at(), k));
    lemma_due_alarm_is_upcoming(c, now, i, k);
}

/// A seconds step, however far out of range, is stored within 1..=60, and
/// a step already in that range is stored as given.
pub proof fn lemma_second_step_in_range(v: int)
    ensures
        1 <= clamp_step(v) <= 60,
        1 <= v <= 60 ==> clamp_step(v) == v,
        v < 1 ==> clamp_step(v) == 1,
        v > 60 ==> clamp_step(v) == 60,
{
}

/// A boolean setting read by the name of its key.
pub open spec fn bool_field(c: Config, k: Seq<char>) -> bool {
    if k == "hour12"@ {
        c.hour12
    } else if k == "show_seconds"@ {
        c.show_seconds
    } else if k == "show_date"@ {
        c.show_date
    } else if k == "blink_colon"@ {
        c.blink_colon
    } else if k == "tick_marks"@ {
        c.tick_marks
    } else {
        c.ghost_segments
    }
}

/// `config set KEY VALUE` with a boolean key sets the field that the key
/// names, and only that field: every other boolean field, and every other
/// setting, keeps its value.
pub proof fn lemma_bool_key_sets_its_field(a: Config, b: Config, k: Seq<char>, v: bool)
    requires
        is_bool_key(k),
        applied(a, b, bool_setting(k, v)),
    ensures
        bool_field(b, k) == v,
        forall|k2: Seq<char>| is_bool_key(k2) && k2 != k ==> bool_field(b, k2) == #[trigger] bool_field(a, k2),
        b.face == a.face,
        b.scale == a.scale,
        b.color@ == a.color@,
        b.accent_color@ == a.accent_color@,
        b.second_step == a.second_step,
        opt_view(b.alarm) == opt_view(a.alarm),
        b.alarms == a.alarms,
{
    reveal_strlit("hour12");
    reveal_strlit("show_seconds");
    reveal_strlit("show_date");
    reveal_strlit("blink_colon");
    reveal_strlit("tick_marks");
    reveal_strlit("ghost_segments");
}

} // verus!
