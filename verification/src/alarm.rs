//! When alarms ring: which alarm is ringing now, how long until the next one
//! starts, and the one-line summary of the next scheduled alarm.
use crate::calendar::{
    day_prefix, weekday_number, clock_ms, day_in_range, format_day_prefix, moment,
    weekday_of, Now, MAX_DAY, MIN_DAY, MS_PER_DAY,
};
use crate::config::{
    alarm_start, alarm_time, alarm_weekday, recurrence_name, resolved_alarm, weekday_at, Alarm, Config,
    Recurrence, Weekday,
};
use crate::text::{format_hm, hm_text, owned};
use vstd::prelude::*;

verus! {

/// How long an alarm keeps ringing after its scheduled time, in milliseconds.
pub const RING_MS: i64 = 300_000;

/// An alarm occurrence that is ringing: which alarm, and on which day.
#[derive(Clone, Copy, Debug, PartialEq, Eq, Structural)]
pub struct ActiveAlarm {
    pub index: usize,
    pub candidate_date: i32,
}

/// Whether the alarm's recurrence includes day `cand`, for an alarm that
/// starts on day `start`.
pub open spec fn rec_matches(a: Alarm, cand: int, start: int) -> bool {
    match a.recurrence {
        Recurrence::Once => cand == start,
        Recurrence::Daily => true,
        Recurrence::Weekly => weekday_at(weekday_number(cand)) == alarm_weekday(a),
        Recurrence::BiWeekly => cand - start >= 0 && (cand - start) % 14 == 0,
        Recurrence::Weekday => weekday_number(cand) != 5 && weekday_number(cand) != 6,
        Recurrence::Weekend => weekday_number(cand) == 5 || weekday_number(cand) == 6,
    }
}

/// The moment an alarm is scheduled for on day `cand`, when it is enabled,
/// its time and start date parse, the day is not before the start, and its
/// recurrence includes the day.
pub open spec fn occurrence(a: Alarm, cand: int) -> Option<int> {
    match (alarm_time(a), alarm_start(a)) {
        (Some((h, m)), Some(start)) => if a.enabled && cand >= start && rec_matches(a, cand, start as int) {
            Some(moment(cand, clock_ms(h as int, m as int)))
        } else {
            None
        },
        _ => None,
    }
}

/// The moment the alarm's occurrence on day `cand` starts ringing.
pub open spec fn ring_start(a: Alarm, sched: int) -> int {
    sched - (a.trigger_offset_min as int) * 60_000
}

/// Whether the alarm's occurrence on day `cand` is ringing at moment `now`:
/// from its trigger offset before the scheduled time until five minutes after.
pub open spec fn ringing(a: Alarm, cand: int, now: int) -> bool {
    match occurrence(a, cand) {
        Some(sched) => ring_start(a, sched) <= now && now < sched + RING_MS,
        None => false,
    }
}

pub open spec fn is_dismissed(d: Seq<(usize, i32)>, i: int, cand: int) -> bool {
    exists|k: int| 0 <= k < d.len() && d[k].0 == i && d[k].1 == cand
}

/// Whether alarm `i`'s occurrence `off` days from today rings now and has
/// not been dismissed.
pub open spec fn fires(c: Config, d: Seq<(usize, i32)>, now: Now, i: int, off: int) -> bool {
    ringing(c.alarms@[i], now.day + off, now.at()) && !is_dismissed(d, i, now.day + off)
}

/// Whether no (alarm, day offset) pair before `(i, off)` fires, looking at
/// offsets 0 and 1.
pub open spec fn none_fire_before(c: Config, d: Seq<(usize, i32)>, now: Now, i: int, off: int) -> bool {
    forall|j: int, o: int|
        0 <= j < c.alarms@.len() && 0 <= o <= 1 && (j < i || (j == i && o < off)) ==> !#[trigger] fires(c, d, now, j, o)
}

/// How long until the occurrence on day `cand` starts ringing, when that is
/// still in the future.
pub open spec fn lead(a: Alarm, cand: int, now: int) -> Option<int> {
    match occurrence(a, cand) {
        Some(sched) => if ring_start(a, sched) > now {
            Some(ring_start(a, sched) - now)
        } else {
            None
        },
        None => None,
    }
}

pub open spec fn lead_of(c: Config, now: Now, i: int, off: int) -> Option<int> {
    lead(c.alarms@[i], now.day + off, now.at())
}

/// The first day offset in `off..=15` on which the alarm has an occurrence
/// scheduled at or after `now`.
pub open spec fn first_upcoming(a: Alarm, today: int, now: int, off: int) -> Option<int>
    decreases 16 - off,
{
    if off > 15 || off < 0 {
        None
    } else if occurrence(a, today + off) matches Some(s) && s >= now {
        Some(off)
    } else {
        first_upcoming(a, today, now, off + 1)
    }
}

/// The next scheduled moment of alarm `i`, looking at most 15 days ahead.
pub open spec fn next_of(c: Config, now: Now, i: int) -> Option<int> {
    match first_upcoming(c.alarms@[i], now.day as int, now.at(), 0) {
        Some(off) => occurrence(c.alarms@[i], now.day + off),
        None => None,
    }
}

/// Alarm `i` is the earliest upcoming one, and no earlier alarm in the list
/// is scheduled at the same moment.
pub open spec fn is_next(c: Config, now: Now, i: int) -> bool {
    &&& 0 <= i < c.alarms@.len()
    &&& next_of(c, now, i) is Some
    &&& forall|j: int| 0 <= j < i ==> match #[trigger] next_of(c, now, j) {
        Some(t) => t > next_of(c, now, i)->0,
        None => true,
    }
    &&& forall|j: int| i < j < c.alarms@.len() ==> match #[trigger] next_of(c, now, j) {
        Some(t) => t >= next_of(c, now, i)->0,
        None => true,
    }
}

/// The status-line text for the next alarm.
pub open spec fn summary_text(a: Alarm, day: int) -> Seq<char> {
    "Alarm: "@ + day_prefix(day) + a.time@ + " ("@ + a.name@ + ") ["@ + recurrence_name(
        a.recurrence,
    ) + "]"@
}

fn recurrence_matches(a: &Alarm, cand: i32, start: i32) -> (r: bool)
    requires
        day_in_range(cand as int),
    ensures
        r == rec_matches(*a, cand as int, start as int),
{
    match a.recurrence {
        Recurrence::Once => cand == start,
        Recurrence::Daily => true,
        Recurrence::Weekly => {
            let w = weekday_of(cand);
            Weekday::from_monday(w) == a.get_day_of_week()
        },
        Recurrence::BiWeekly => {
            let diff: i64 = cand as i64 - start as i64;
            diff >= 0 && diff % 14 == 0
        },
        Recurrence::Weekday => {
            let w = weekday_of(cand);
            w != 5 && w != 6
        },
        Recurrence::Weekend => {
            let w = weekday_of(cand);
            w == 5 || w == 6
        },
    }
}

/// The scheduled moment of the alarm's occurrence on day `cand`, if any.
fn occurrence_at(a: &Alarm, cand: i32) -> (r: Option<i64>)
    requires
        day_in_range(cand as int),
    ensures
        r matches Some(s) ==> occurrence(*a, cand as int) == Some(s as int),
        r is None ==> occurrence(*a, cand as int) is None,
{
    if !a.enabled {
        return None;
    }
    let (h, m) = match a.get_time() {
        Some(t) => t,
        None => return None,
    };
    let start = match a.get_start_date() {
        Some(d) => d,
        None => return None,
    };
    if cand < start || !recurrence_matches(a, cand, start) {
        return None;
    }
    let ms: i64 = ((h as i64) * 3600 + (m as i64) * 60) * 1000;
    Some((cand as i64) * MS_PER_DAY + ms)
}

fn is_dismissed_exec(d: &[(usize, i32)], i: usize, cand: i32) -> (r: bool)
    ensures
        r == is_dismissed(d@, i as int, cand as int),
{
    let mut k: usize = 0;
    while k < d.len()
        invariant
            k <= d@.len(),
            forall|q: int| 0 <= q < k ==> !(d@[q].0 == i && d@[q].1 == cand),
        decreases d@.len() - k,
    {
        if d[k].0 == i && d[k].1 == cand {
            return true;
        }
        k += 1;
    }
    false
}

/// The alarm occurrence ringing at `now`, looking at today and tomorrow for
/// every alarm in order, and skipping dismissed occurrences: the first
/// (alarm, day) pair that rings.
pub fn check_active_alarm(cfg: &Config, now: Now, dismissed: &[(usize, i32)]) -> (r: Option<ActiveAlarm>)
    requires
        now.wf(),
    ensures
        match r {
            Some(act) => {
                &&& act.index < cfg.alarms@.len()
                &&& (act.candidate_date == now.day || act.candidate_date == now.day + 1)
                &&& fires(*cfg, dismissed@, now, act.index as int, act.candidate_date - now.day)
                &&& none_fire_before(*cfg, dismissed@, now, act.index as int, act.candidate_date - now.day)
            },
            None => none_fire_before(*cfg, dismissed@, now, cfg.alarms@.len() as int, 0),
        },
{
    let now_ms = now.naive_ms();
    let n = cfg.alarms.len();
    let mut i: usize = 0;
    while i < n
        invariant
            n == cfg.alarms@.len(),
            i <= n,
            now.wf(),
            now_ms == now.at(),
            none_fire_before(*cfg, dismissed@, now, i as int, 0),
        decreases n - i,
    {
        let alarm = &cfg.alarms[i];
        let mut off: i32 = 0;
        while off <= 1
            invariant
                n == cfg.alarms@.len(),
                i < n,
                0 <= off <= 2,
                now.wf(),
                now_ms == now.at(),
                *alarm == cfg.alarms@[i as int],
                none_fire_before(*cfg, dismissed@, now, i as int, off as int),
            decreases 2 - off,
        {
            let cand = now.day + off;
            if !is_dismissed_exec(dismissed, i, cand) {
                match occurrence_at(alarm, cand) {
                    Some(sched) => {
                        let trig = sched - (alarm.trigger_offset_min as i64) * 60_000;
                        if now_ms >= trig && now_ms < sched + RING_MS {
                            return Some(ActiveAlarm { index: i, candidate_date: cand });
                        }
                    },
                    None => {},
                }
            }
            assert(!fires(*cfg, dismissed@, now, i as int, off as int));
            off += 1;
        }
        i += 1;
    }
    None
}

/// Whether the occurrence `active` is still inside its ringing window at
/// `now`: its alarm still exists, is enabled, and its time parses.
pub open spec fn still_ringing(c: Config, active: ActiveAlarm, now: Now) -> bool {
    active.index < c.alarms@.len() && {
        let a = c.alarms@[active.index as int];
        a.enabled && match alarm_time(a) {
            Some((h, m)) => {
                let sched = moment(active.candidate_date as int, clock_ms(h as int, m as int));
                ring_start(a, sched) <= now.at() && now.at() < sched + RING_MS
            },
            None => false,
        }
    }
}

/// Whether a ringing occurrence should keep ringing: its alarm still exists,
/// is enabled, its time parses, and `now` is still inside its window.
pub fn active_alarm_still_valid(cfg: &Config, active: &ActiveAlarm, now: Now) -> (r: bool)
    requires
        now.wf(),
        day_in_range(active.candidate_date as int),
    ensures
        r == still_ringing(*cfg, *active, now),
{
    if active.index >= cfg.alarms.len() {
        return false;
    }
    let alarm = &cfg.alarms[active.index];
    if !alarm.enabled {
        return false;
    }
    let (h, m) = match alarm.get_time() {
        Some(t) => t,
        None => return false,
    };
    let sched: i64 = (active.candidate_date as i64) * MS_PER_DAY + ((h as i64) * 3600 + (m as i64) * 60) * 1000;
    let trig = sched - (alarm.trigger_offset_min as i64) * 60_000;
    let now_ms = now.naive_ms();
    now_ms >= trig && now_ms < sched + RING_MS
}

/// Milliseconds until the soonest future moment at which an alarm starts
/// ringing, looking at today and the next two days; `None` when there is none.
pub fn duration_until_next_trigger(cfg: &Config, now: Now) -> (r: Option<u64>)
    requires
        now.wf(),
    ensures
        match r {
            Some(d) => {
                &&& exists|i: int, o: int| 0 <= i < cfg.alarms@.len() && 0 <= o <= 2 && #[trigger] lead_of(*cfg, now, i, o) == Some(d as int)
                &&& forall|i: int, o: int| 0 <= i < cfg.alarms@.len() && 0 <= o <= 2 ==> match #[trigger] lead_of(*cfg, now, i, o) {
                    Some(e) => d <= e,
                    None => true,
                }
            },
            None => forall|i: int, o: int| 0 <= i < cfg.alarms@.len() && 0 <= o <= 2 ==> #[trigger] lead_of(*cfg, now, i, o) is None,
        },
{
    let now_ms = now.naive_ms();
    let n = cfg.alarms.len();
    let mut best: Option<u64> = None;
    let mut i: usize = 0;
    while i < n
        invariant
            n == cfg.alarms@.len(),
            i <= n,
            now.wf(),
            now_ms == now.at(),
            match best {
                Some(d) => {
                    &&& exists|j: int, o: int| 0 <= j < i && 0 <= o <= 2 && #[trigger] lead_of(*cfg, now, j, o) == Some(d as int)
                    &&& forall|j: int, o: int| 0 <= j < i && 0 <= o <= 2 ==> match #[trigger] lead_of(*cfg, now, j, o) {
                        Some(e) => d <= e,
                        None => true,
                    }
                },
                None => forall|j: int, o: int| 0 <= j < i && 0 <= o <= 2 ==> #[trigger] lead_of(*cfg, now, j, o) is None,
            },
        decreases n - i,
    {
        let alarm = &cfg.alarms[i];
        let mut off: i32 = 0;
        while off <= 2
            invariant
                n == cfg.alarms@.len(),
                i < n,
                0 <= off <= 3,
                now.wf(),
                now_ms == now.at(),
                *alarm == cfg.alarms@[i as int],
                match best {
                    Some(d) => {
                        &&& exists|j: int, o: int| (0 <= j < i && 0 <= o <= 2 || j == i && 0 <= o < off) && #[trigger] lead_of(*cfg, now, j, o) == Some(d as int)
                        &&& forall|j: int, o: int| (0 <= j < i && 0 <= o <= 2 || j == i && 0 <= o < off) ==> match #[trigger] lead_of(*cfg, now, j, o) {
                            Some(e) => d <= e,
                            None => true,
                        }
                    },
                    None => forall|j: int, o: int| (0 <= j < i && 0 <= o <= 2 || j == i && 0 <= o < off) ==> #[trigger] lead_of(*cfg, now, j, o) is None,
                },
            decreases 3 - off,
        {
            let cand = now.day + off;
            let ghost before = best;
            match occurrence_at(alarm, cand) {
                Some(sched) => {
                    let trig = sched - (alarm.trigger_offset_min as i64) * 60_000;
                    if trig > now_ms {
                        let dur = (trig - now_ms) as u64;
                        assert(lead_of(*cfg, now, i as int, off as int) == Some(dur as int));
                        best = match best {
                            Some(b) => if dur < b { Some(dur) } else { Some(b) },
                            None => Some(dur),
                        };
                    } else {
                        assert(lead_of(*cfg, now, i as int, off as int) is None);
                    }
                },
                None => {
                    assert(lead_of(*cfg, now, i as int, off as int) is None);
                },
            }
            off += 1;
        }
        i += 1;
    }
    best
}

/// Whether the legacy single alarm rings now: it resolves to the current
/// `"HH:MM"`.
pub fn legacy_alarm_active(cfg: &Config, now: Now) -> (r: bool)
    requires
        now.wf(),
    ensures
        r == (resolved_alarm(*cfg) == Some(
            hm_text((now.ms_of_day / 3_600_000) as int, ((now.ms_of_day / 60_000) % 60) as int),
        )),
{
    match cfg.resolve_alarm() {
        Some(t) => {
            let cur = format_hm(now.hour(), now.minute());
            t == cur
        },
        None => false,
    }
}

fn first_upcoming_exec(a: &Alarm, today: i32, now_ms: i64) -> (r: Option<(i32, i64)>)
    requires
        MIN_DAY <= today <= MAX_DAY - 16,
    ensures
        match r {
            Some((off, s)) => first_upcoming(*a, today as int, now_ms as int, 0) == Some(off as int)
                && occurrence(*a, today + off) == Some(s as int),
            None => first_upcoming(*a, today as int, now_ms as int, 0) is None,
        },
{
    let mut off: i32 = 0;
    while off <= 15
        invariant
            MIN_DAY <= today <= MAX_DAY - 16,
            0 <= off <= 16,
            first_upcoming(*a, today as int, now_ms as int, 0) == first_upcoming(
                *a,
                today as int,
                now_ms as int,
                off as int,
            ),
        decreases 16 - off,
    {
        match occurrence_at(a, today + off) {
            Some(s) => {
                if s >= now_ms {
                    return Some((off, s));
                }
            },
            None => {},
        }
        off += 1;
    }
    None
}

/// A one-line summary of the next scheduled alarm, looking up to 15 days
/// ahead: `"Alarm: <weekday> <HH:MM> (<name>) [<recurrence>]"`; among alarms
/// scheduled at the same moment the first in the list wins.
pub fn next_upcoming_alarm(cfg: &Config, now: Now) -> (r: Option<String>)
    requires
        now.wf(),
    ensures
        match r {
            Some(t) => exists|i: int| #[trigger] is_next(*cfg, now, i) && t@ == summary_text(
                cfg.alarms@[i],
                now.day + first_upcoming(cfg.alarms@[i], now.day as int, now.at(), 0)->0,
            ),
            None => forall|i: int| 0 <= i < cfg.alarms@.len() ==> #[trigger] next_of(*cfg, now, i) is None,
        },
{
    let now_ms = now.naive_ms();
    let n = cfg.alarms.len();
    let mut best: Option<(usize, i32, i64)> = None;
    let mut i: usize = 0;
    while i < n
        invariant
            n == cfg.alarms@.len(),
            i <= n,
            now.wf(),
            now_ms == now.at(),
            match best {
                Some((b, off, t)) => {
                    &&& b < i
                    &&& next_of(*cfg, now, b as int) == Some(t as int)
                    &&& first_upcoming(cfg.alarms@[b as int], now.day as int, now.at(), 0) == Some(off as int)
                    &&& 0 <= off <= 15
                    &&& forall|j: int| 0 <= j < b ==> match #[trigger] next_of(*cfg, now, j) {
                        Some(u) => u > t,
                        None => true,
                    }
                    &&& forall|j: int| b < j < i ==> match #[trigger] next_of(*cfg, now, j) {
                        Some(u) => u >= t,
                        None => true,
                    }
                },
                None => forall|j: int| 0 <= j < i ==> #[trigger] next_of(*cfg, now, j) is None,
            },
        decreases n - i,
    {
        let alarm = &cfg.alarms[i];
        match first_upcoming_exec(alarm, now.day, now_ms) {
            Some((off, t)) => {
                proof {
                    lemma_first_upcoming_range(*alarm, now.day as int, now_ms as int, 0);
                }
                assert(next_of(*cfg, now, i as int) == Some(t as int));
                best = match best {
                    Some((b, boff, bt)) => if t < bt { Some((i, off, t)) } else { Some((b, boff, bt)) },
                    None => Some((i, off, t)),
                };
            },
            None => {
                assert(next_of(*cfg, now, i as int) is None);
            },
        }
        i += 1;
    }
    match best {
        Some((b, off, _)) => {
            let alarm = &cfg.alarms[b];
            let mut s = owned("Alarm: ");
            let prefix = format_day_prefix(now.day + off);
            s.append(prefix.as_str());
            s.append(alarm.time.as_str());
            s.append(" (");
            s.append(alarm.name.as_str());
            s.append(") [");
            s.append(alarm.recurrence.name());
            s.append("]");
            assert(is_next(*cfg, now, b as int));
            Some(s)
        },
        None => None,
    }
}

/// A day offset found by `first_upcoming` lies in `0..=15`.
proof fn lemma_first_upcoming_range(a: Alarm, today: int, now: int, off: int)
    ensures
        first_upcoming(a, today, now, off) matches Some(o) ==> 0 <= o <= 15 && o >= off,
    decreases 16 - off,
{
    if off > 15 || off < 0 {
    } else if occurrence(a, today + off) matches Some(s) && s >= now {
    } else {
        lemma_first_upcoming_range(a, today, now, off + 1);
    }
}

} // verus!
