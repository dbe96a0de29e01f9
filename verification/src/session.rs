//! One-off overrides for a run, what a session writes back, picker grid
//! navigation and how long the clock may sleep.
use crate::alarm::{duration_until_next_trigger, lead_of};
use crate::calendar::Now;
use crate::config::{face_at, Config, Face, FACE_COUNT};
use crate::manager::opt_view;
use crate::arith::{wrap, wrap_exec};
use vstd::prelude::*;

verus! {

/// Columns of the face picker grid.
pub const PICKER_COLS: usize = 3;

/// Settings given on the command line for one run; they are not saved.
#[derive(Debug)]
pub struct Overrides {
    pub face: Option<Face>,
    pub hour12: bool,
    pub hour24: bool,
    pub seconds: bool,
    pub no_seconds: bool,
    pub date: bool,
    pub no_date: bool,
    pub color: Option<String>,
    pub accent_color: Option<String>,
    pub scale: Option<u8>,
    pub alarm: Option<String>,
}

impl Overrides {
    /// The configuration with these overrides applied; `hour24` wins over
    /// `hour12`, `no_seconds` over `seconds`, `no_date` over `date`.
    pub fn apply(&self, cfg: Config) -> (c: Config)
        ensures
            c.face == (match self.face { Some(f) => f, None => cfg.face }),
            c.hour12 == (if self.hour24 { false } else if self.hour12 { true } else { cfg.hour12 }),
            c.show_seconds == (if self.no_seconds { false } else if self.seconds { true } else { cfg.show_seconds }),
            c.show_date == (if self.no_date { false } else if self.date { true } else { cfg.show_date }),
            c.color@ == (match self.color { Some(s) => s@, None => cfg.color@ }),
            c.accent_color@ == (match self.accent_color { Some(s) => s@, None => cfg.accent_color@ }),
            c.scale == (match self.scale { Some(s) => s, None => cfg.scale }),
            opt_view(c.alarm) == (match self.alarm { Some(a) => Some(a@), None => opt_view(cfg.alarm) }),
            c.blink_colon == cfg.blink_colon,
            c.tick_marks == cfg.tick_marks,
            c.ghost_segments == cfg.ghost_segments,
            c.second_step == cfg.second_step,
            c.alarms == cfg.alarms,
    {
        let Config {
            face,
            hour12,
            show_seconds,
            show_date,
            blink_colon,
            tick_marks,
            scale,
            color,
            accent_color,
            ghost_segments,
            second_step,
            alarm,
            alarms,
        } = cfg;
        let alarm = match &self.alarm {
            Some(a) => Some(a.clone()),
            None => alarm,
        };
        let face = match self.face {
            Some(f) => f,
            None => face,
        };
        let hour12 = if self.hour24 { false } else if self.hour12 { true } else { hour12 };
        let show_seconds = if self.no_seconds { false } else if self.seconds { true } else { show_seconds };
        let show_date = if self.no_date { false } else if self.date { true } else { show_date };
        let color = match &self.color {
            Some(c) => c.clone(),
            None => color,
        };
        let accent_color = match &self.accent_color {
            Some(c) => c.clone(),
            None => accent_color,
        };
        let scale = match self.scale {
            Some(s) => s,
            None => scale,
        };
        Config {
            face,
            hour12,
            show_seconds,
            show_date,
            blink_colon,
            tick_marks,
            scale,
            color,
            accent_color,
            ghost_segments,
            second_step,
            alarm,
            alarms,
        }
    }
}

/// Whether the session changed something the keyboard can change.
pub open spec fn session_changed(before: Config, after: Config) -> bool {
    before.face != after.face || before.hour12 != after.hour12 || before.show_seconds != after.show_seconds
        || before.scale != after.scale || before.color@ != after.color@
}

/// What to write back at the end of a session: the stored configuration
/// with the face, 12/24h, seconds, size and color the user switched to, so
/// one-off command-line overrides don't leak into it. `None` when nothing
/// the keyboard controls changed, or when there is no stored configuration.
pub fn persist_session(before: &Config, after: &Config, stored: Option<Config>) -> (r: Option<Config>)
    ensures
        r is Some <==> session_changed(*before, *after) && stored is Some,
        r matches Some(c) ==> {
            let s = stored->0;
            &&& c.face == after.face
            &&& c.hour12 == after.hour12
            &&& c.show_seconds == after.show_seconds
            &&& c.scale == after.scale
            &&& c.color@ == after.color@
            &&& c.show_date == s.show_date
            &&& c.blink_colon == s.blink_colon
            &&& c.tick_marks == s.tick_marks
            &&& c.accent_color == s.accent_color
            &&& c.ghost_segments == s.ghost_segments
            &&& c.second_step == s.second_step
            &&& c.alarm == s.alarm
            &&& c.alarms == s.alarms
        },
{
    let changed = before.face != after.face || before.hour12 != after.hour12 || before.show_seconds
        != after.show_seconds || before.scale != after.scale || !(before.color == after.color);
    if !changed {
        return None;
    }
    match stored {
        Some(s) => {
            let mut s = s;
            s.face = after.face;
            s.hour12 = after.hour12;
            s.show_seconds = after.show_seconds;
            s.scale = after.scale;
            s.color = after.color.clone();
            Some(s)
        },
        None => None,
    }
}

pub open spec fn clamp(v: int, lo: int, hi: int) -> int {
    if v < lo { lo } else if v > hi { hi } else { v }
}

/// `x as i32` for a `usize`: its two's-complement low 32 bits.
pub open spec fn low_i32(x: int) -> int {
    let m = x % 0x1_0000_0000;
    if m <= i32::MAX { m } else { m - 0x1_0000_0000 }
}

/// Where a move by `(dcol, drow)` from cell `selected` of the picker grid
/// lands: clamped at the edges, and staying put rather than landing on an
/// empty trailing cell.
pub open spec fn moved_selection(selected: int, dcol: int, drow: int) -> int {
    let n = FACE_COUNT as int;
    let rows = 6int;
    let row = selected / 3;
    let col = selected % 3;
    let new_col = clamp(col + dcol, 0, 2);
    let new_row = clamp(low_i32(row) + drow, 0, rows - 1);
    let idx = new_row * 3 + new_col;
    if idx < n { idx } else { selected }
}

fn low_i32_exec(x: usize) -> (r: i64)
    ensures
        r == low_i32(x as int),
{
    let m = (x as u64) % 0x1_0000_0000;
    if m <= 0x7fff_ffff { m as i64 } else { m as i64 - 0x1_0000_0000 }
}

/// Moves the picker selection by `(dcol, drow)` on its three-column grid.
pub fn move_selection(selected: usize, dcol: i32, drow: i32) -> (r: usize)
    requires
        i32::MIN <= (selected % 3) + dcol <= i32::MAX,
        i32::MIN <= low_i32((selected / 3) as int) + drow <= i32::MAX,
    ensures
        r == moved_selection(selected as int, dcol as int, drow as int),
        selected < FACE_COUNT ==> r < FACE_COUNT,
{
    let n = FACE_COUNT;
    let rows: i64 = 6;
    let row = selected / PICKER_COLS;
    let col = selected % PICKER_COLS;
    let c = col as i64 + dcol as i64;
    let new_col: i64 = if c < 0 { 0 } else if c > 2 { 2 } else { c };
    let rr = low_i32_exec(row) + drow as i64;
    let new_row: i64 = if rr < 0 { 0 } else if rr > rows - 1 { rows - 1 } else { rr };
    let idx = (new_row * 3 + new_col) as usize;
    if idx < n {
        idx
    } else {
        selected
    }
}

/// Faces that animate continuously.
pub open spec fn animated(f: Face) -> bool {
    f is Analog || f is Rings || f is Hourglass || f is Cuckoo || f is Radar || f is Ship || f is Warp
}

/// Faces that blink their colons.
pub open spec fn blinking(f: Face) -> bool {
    f is Digital || f is Matrix || f is Flip || f is Lcd || f is Grid
}

/// How often the display can change, in milliseconds: four times a second
/// while an alarm rings, every 500 ms to blink a colon, four times a second
/// for an animated face, every second for a seconds readout, else once a
/// minute.
pub open spec fn wake_period(cfg: Config, active_alarm: bool) -> int {
    if active_alarm {
        250
    } else if cfg.blink_colon && blinking(cfg.face) {
        500
    } else if animated(cfg.face) {
        250
    } else if cfg.show_seconds {
        1000
    } else {
        60_000
    }
}

/// The sleep that lands on the next period boundary, at least 10 ms.
pub open spec fn boundary_sleep(period: int, epoch_ms: int) -> int {
    clamp(period - wrap(epoch_ms, period), 10, period)
}

/// No alarm starts ringing within the next three days.
pub open spec fn no_lead(cfg: Config, now: Now) -> bool {
    forall|i: int, o: int| 0 <= i < cfg.alarms@.len() && 0 <= o <= 2 ==> #[trigger] lead_of(cfg, now, i, o) is None
}

/// `d` milliseconds is the soonest an alarm starts ringing.
pub open spec fn is_soonest(cfg: Config, now: Now, d: int) -> bool {
    &&& exists|i: int, o: int| 0 <= i < cfg.alarms@.len() && 0 <= o <= 2 && #[trigger] lead_of(cfg, now, i, o) == Some(d)
    &&& forall|i: int, o: int| 0 <= i < cfg.alarms@.len() && 0 <= o <= 2 ==> match #[trigger] lead_of(cfg, now, i, o) {
        Some(e) => d <= e,
        None => true,
    }
}

/// How long the clock may sleep before the display would go stale, in
/// milliseconds: 16 for the warp animation, one step for the snake, else up
/// to the next boundary of `wake_period` (250 ms, 500 ms, a second or a
/// minute), cut short (to no less than 10 ms) when an alarm starts ringing
/// sooner.
pub fn next_wake(cfg: &Config, now: Now, active_alarm: bool) -> (ms: u64)
    requires
        now.wf(),
    ensures
        wake_bound(*cfg, now, active_alarm, ms),
{
    let animated = match cfg.face {
        Face::Analog | Face::Rings | Face::Hourglass | Face::Cuckoo | Face::Radar | Face::Ship | Face::Warp => true,
        _ => false,
    };
    let blinks = cfg.blink_colon && match cfg.face {
        Face::Digital | Face::Matrix | Face::Flip | Face::Lcd | Face::Grid => true,
        _ => false,
    };
    if cfg.face == Face::Warp {
        return 16;
    }
    if cfg.face == Face::Snake {
        return 130;
    }
    let period: i64 = if active_alarm {
        250
    } else if blinks {
        500
    } else if animated {
        250
    } else if cfg.show_seconds {
        1000
    } else {
        60_000
    };
    let remainder = period - wrap_exec(now.epoch_ms, period);
    let mut sleep: u64 = (if remainder < 10 { 10 } else if remainder > period { period } else { remainder }) as u64;
    match duration_until_next_trigger(cfg, now) {
        Some(until) => {
            if until < sleep {
                sleep = if until < 10 { 10 } else { until };
            }
        },
        None => {},
    }
    sleep
}

/// What `next_wake` promises of its result `ms`.
pub open spec fn wake_bound(cfg: Config, now: Now, active_alarm: bool, ms: u64) -> bool {
    &&& 10 <= ms <= 60_000
    &&& cfg.face is Warp ==> ms == 16
    &&& cfg.face is Snake ==> ms == 130
    &&& !(cfg.face is Warp) && !(cfg.face is Snake) && no_lead(cfg, now) ==> ms == boundary_sleep(
        wake_period(cfg, active_alarm),
        now.epoch_ms as int,
    )
    &&& forall|d: int| !(cfg.face is Warp) && !(cfg.face is Snake) && #[trigger] is_soonest(cfg, now, d) ==> {
        let sleep = boundary_sleep(wake_period(cfg, active_alarm), now.epoch_ms as int);
        ms == (if d < sleep { if d < 10 { 10 } else { d } } else { sleep })
    }
}

} // verus!
