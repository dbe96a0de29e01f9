//! Persisted user configuration: which face to draw, colors, display
//! options and alarms, with the rules that resolve them for drawing.
use crate::calendar::{chrono_date_of, chrono_time_of, weekday_number, parse_clock_time, parse_iso_date, two_digit_clock, weekday_of, day_in_range};
use crate::numparse::dec_value;
use crate::text::{chars_eq_str, eq_ignore_case, hm_text, lower, lower_chars, format_hm, owned};
use vstd::prelude::*;

verus! {

/// Upper bound on the `scale` setting (0 stays "auto").
pub const MAX_SCALE: u8 = 9;

/// The number of clock faces.
pub const FACE_COUNT: usize = 18;

#[derive(Clone, Copy, Debug, PartialEq, Eq, Structural)]
pub enum Face {
    Digital,
    Analog,
    Binary,
    Word,
    Matrix,
    Flip,
    Waves,
    Rings,
    Roman,
    Lcd,
    Hourglass,
    Blocks,
    Cuckoo,
    Radar,
    Ship,
    Grid,
    Warp,
    Snake,
}

/// The face at position `i` of the cycling order.
pub open spec fn face_at(i: int) -> Face {
    if i == 0 { Face::Digital }
    else if i == 1 { Face::Analog }
    else if i == 2 { Face::Binary }
    else if i == 3 { Face::Word }
    else if i == 4 { Face::Matrix }
    else if i == 5 { Face::Flip }
    else if i == 6 { Face::Waves }
    else if i == 7 { Face::Rings }
    else if i == 8 { Face::Roman }
    else if i == 9 { Face::Lcd }
    else if i == 10 { Face::Hourglass }
    else if i == 11 { Face::Blocks }
    else if i == 12 { Face::Cuckoo }
    else if i == 13 { Face::Radar }
    else if i == 14 { Face::Ship }
    else if i == 15 { Face::Grid }
    else if i == 16 { Face::Warp }
    else { Face::Snake }
}

/// The position of `f` in the cycling order.
pub open spec fn face_pos(f: Face) -> int {
    match f {
        Face::Digital => 0,
        Face::Analog => 1,
        Face::Binary => 2,
        Face::Word => 3,
        Face::Matrix => 4,
        Face::Flip => 5,
        Face::Waves => 6,
        Face::Rings => 7,
        Face::Roman => 8,
        Face::Lcd => 9,
        Face::Hourglass => 10,
        Face::Blocks => 11,
        Face::Cuckoo => 12,
        Face::Radar => 13,
        Face::Ship => 14,
        Face::Grid => 15,
        Face::Warp => 16,
        Face::Snake => 17,
    }
}

/// The face after `f` in the cycling order, wrapping around.
pub open spec fn next_face(f: Face) -> Face {
    face_at((face_pos(f) + 1) % 18)
}

/// The face before `f` in the cycling order, wrapping around.
pub open spec fn prev_face(f: Face) -> Face {
    face_at((face_pos(f) + 17) % 18)
}

/// The configuration name of a face.
pub open spec fn face_name(f: Face) -> Seq<char> {
    match f {
        Face::Digital => "digital"@,
        Face::Analog => "analog"@,
        Face::Binary => "binary"@,
        Face::Word => "word"@,
        Face::Matrix => "matrix"@,
        Face::Flip => "flip"@,
        Face::Waves => "waves"@,
        Face::Rings => "rings"@,
        Face::Roman => "roman"@,
        Face::Lcd => "lcd"@,
        Face::Hourglass => "hourglass"@,
        Face::Blocks => "blocks"@,
        Face::Cuckoo => "cuckoo"@,
        Face::Radar => "radar"@,
        Face::Ship => "ship"@,
        Face::Grid => "grid"@,
        Face::Warp => "warp"@,
        Face::Snake => "snake"@,
    }
}

/// The face a lower-cased configuration name stands for, if any.
pub open spec fn face_named(l: Seq<char>) -> Option<Face> {
    if l == "digital"@ { Some(Face::Digital) }
    else if l == "analog"@ { Some(Face::Analog) }
    else if l == "binary"@ { Some(Face::Binary) }
    else if l == "word"@ { Some(Face::Word) }
    else if l == "matrix"@ { Some(Face::Matrix) }
    else if l == "flip"@ { Some(Face::Flip) }
    else if l == "waves"@ { Some(Face::Waves) }
    else if l == "rings"@ { Some(Face::Rings) }
    else if l == "roman"@ { Some(Face::Roman) }
    else if l == "lcd"@ { Some(Face::Lcd) }
    else if l == "hourglass"@ { Some(Face::Hourglass) }
    else if l == "blocks"@ { Some(Face::Blocks) }
    else if l == "cuckoo"@ { Some(Face::Cuckoo) }
    else if l == "radar"@ { Some(Face::Radar) }
    else if l == "ship"@ { Some(Face::Ship) }
    else if l == "grid"@ { Some(Face::Grid) }
    else if l == "warp"@ { Some(Face::Warp) }
    else if l == "snake"@ { Some(Face::Snake) }
    else { None }
}

impl Face {
    /// The face at position `i` of the cycling order (and of the picker grid).
    pub fn from_index(i: usize) -> (f: Face)
        requires
            i < FACE_COUNT,
        ensures
            f == face_at(i as int),
    {
        match i {
            0 => Face::Digital,
            1 => Face::Analog,
            2 => Face::Binary,
            3 => Face::Word,
            4 => Face::Matrix,
            5 => Face::Flip,
            6 => Face::Waves,
            7 => Face::Rings,
            8 => Face::Roman,
            9 => Face::Lcd,
            10 => Face::Hourglass,
            11 => Face::Blocks,
            12 => Face::Cuckoo,
            13 => Face::Radar,
            14 => Face::Ship,
            15 => Face::Grid,
            16 => Face::Warp,
            _ => Face::Snake,
        }
    }

    /// Position of this face in the cycling order.
    pub fn index(self) -> (i: usize)
        ensures
            i == face_pos(self),
            i < FACE_COUNT,
    {
        match self {
            Face::Digital => 0,
            Face::Analog => 1,
            Face::Binary => 2,
            Face::Word => 3,
            Face::Matrix => 4,
            Face::Flip => 5,
            Face::Waves => 6,
            Face::Rings => 7,
            Face::Roman => 8,
            Face::Lcd => 9,
            Face::Hourglass => 10,
            Face::Blocks => 11,
            Face::Cuckoo => 12,
            Face::Radar => 13,
            Face::Ship => 14,
            Face::Grid => 15,
            Face::Warp => 16,
            Face::Snake => 17,
        }
    }

    /// The next face in the cycling order, wrapping around.
    pub fn next(self) -> (f: Face)
        ensures
            f == next_face(self),
    {
        Face::from_index((self.index() + 1) % FACE_COUNT)
    }

    /// The previous face in the cycling order, wrapping around.
    pub fn prev(self) -> (f: Face)
        ensures
            f == prev_face(self),
    {
        Face::from_index((self.index() + FACE_COUNT - 1) % FACE_COUNT)
    }

    /// The configuration name of this face, as shown to the user.
    pub fn name(self) -> (s: &'static str)
        ensures
            s@ == face_name(self),
    {
        match self {
            Face::Digital => "digital",
            Face::Analog => "analog",
            Face::Binary => "binary",
            Face::Word => "word",
            Face::Matrix => "matrix",
            Face::Flip => "flip",
            Face::Waves => "waves",
            Face::Rings => "rings",
            Face::Roman => "roman",
            Face::Lcd => "lcd",
            Face::Hourglass => "hourglass",
            Face::Blocks => "blocks",
            Face::Cuckoo => "cuckoo",
            Face::Radar => "radar",
            Face::Ship => "ship",
            Face::Grid => "grid",
            Face::Warp => "warp",
            Face::Snake => "snake",
        }
    }

    /// The face a configuration name stands for, compared without regard
    /// to ASCII case; `None` for an unknown name.
    pub fn parse_name(s: &str) -> (f: Option<Face>)
        ensures
            f == face_named(lower(s@)),
    {
        let l = lower_chars(s);
        if chars_eq_str(&l, "digital") { return Some(Face::Digital); }
        if chars_eq_str(&l, "analog") { return Some(Face::Analog); }
        if chars_eq_str(&l, "binary") { return Some(Face::Binary); }
        if chars_eq_str(&l, "word") { return Some(Face::Word); }
        if chars_eq_str(&l, "matrix") { return Some(Face::Matrix); }
        if chars_eq_str(&l, "flip") { return Some(Face::Flip); }
        if chars_eq_str(&l, "waves") { return Some(Face::Waves); }
        if chars_eq_str(&l, "rings") { return Some(Face::Rings); }
        if chars_eq_str(&l, "roman") { return Some(Face::Roman); }
        if chars_eq_str(&l, "lcd") { return Some(Face::Lcd); }
        if chars_eq_str(&l, "hourglass") { return Some(Face::Hourglass); }
        if chars_eq_str(&l, "blocks") { return Some(Face::Blocks); }
        if chars_eq_str(&l, "cuckoo") { return Some(Face::Cuckoo); }
        if chars_eq_str(&l, "radar") { return Some(Face::Radar); }
        if chars_eq_str(&l, "ship") { return Some(Face::Ship); }
        if chars_eq_str(&l, "grid") { return Some(Face::Grid); }
        if chars_eq_str(&l, "warp") { return Some(Face::Warp); }
        if chars_eq_str(&l, "snake") { return Some(Face::Snake); }
        None
    }

    /// The face a stored configuration names; an unknown or obsolete name
    /// falls back to the first face, so an old file keeps loading.
    pub fn from_name(s: &str) -> (f: Face)
        ensures
            f == (match face_named(lower(s@)) {
                Some(g) => g,
                None => Face::Digital,
            }),
    {
        match Face::parse_name(s) {
            Some(g) => g,
            None => Face::Digital,
        }
    }
}

impl Default for Face {
    fn default() -> (f: Face)
        ensures
            f == Face::Digital,
    {
        Face::Digital
    }
}


/// How often an alarm repeats.
#[derive(Clone, Copy, Debug, PartialEq, Eq, Structural)]
pub enum Recurrence {
    Once,
    Daily,
    Weekly,
    BiWeekly,
    Weekday,
    Weekend,
}

/// The position of a recurrence in the order the alarm manager cycles through.
pub open spec fn recurrence_pos(r: Recurrence) -> int {
    match r {
        Recurrence::Once => 0,
        Recurrence::Daily => 1,
        Recurrence::Weekly => 2,
        Recurrence::BiWeekly => 3,
        Recurrence::Weekday => 4,
        Recurrence::Weekend => 5,
    }
}

/// The recurrence at position `i` of the cycling order.
pub open spec fn recurrence_at(i: int) -> Recurrence {
    if i == 0 { Recurrence::Once }
    else if i == 1 { Recurrence::Daily }
    else if i == 2 { Recurrence::Weekly }
    else if i == 3 { Recurrence::BiWeekly }
    else if i == 4 { Recurrence::Weekday }
    else { Recurrence::Weekend }
}

/// The configuration name of a recurrence.
pub open spec fn recurrence_name(r: Recurrence) -> Seq<char> {
    match r {
        Recurrence::Once => "once"@,
        Recurrence::Daily => "daily"@,
        Recurrence::Weekly => "weekly"@,
        Recurrence::BiWeekly => "bi-weekly"@,
        Recurrence::Weekday => "weekday"@,
        Recurrence::Weekend => "weekend"@,
    }
}

impl Recurrence {
    pub fn index(self) -> (i: usize)
        ensures
            i == recurrence_pos(self),
            i < 6,
    {
        match self {
            Recurrence::Once => 0,
            Recurrence::Daily => 1,
            Recurrence::Weekly => 2,
            Recurrence::BiWeekly => 3,
            Recurrence::Weekday => 4,
            Recurrence::Weekend => 5,
        }
    }

    pub fn from_index(i: usize) -> (r: Recurrence)
        requires
            i < 6,
        ensures
            r == recurrence_at(i as int),
    {
        match i {
            0 => Recurrence::Once,
            1 => Recurrence::Daily,
            2 => Recurrence::Weekly,
            3 => Recurrence::BiWeekly,
            4 => Recurrence::Weekday,
            _ => Recurrence::Weekend,
        }
    }

    /// The configuration name, as shown to the user.
    pub fn name(self) -> (s: &'static str)
        ensures
            s@ == recurrence_name(self),
    {
        match self {
            Recurrence::Once => "once",
            Recurrence::Daily => "daily",
            Recurrence::Weekly => "weekly",
            Recurrence::BiWeekly => "bi-weekly",
            Recurrence::Weekday => "weekday",
            Recurrence::Weekend => "weekend",
        }
    }
}

/// A day of the week.
#[derive(Clone, Copy, Debug, PartialEq, Eq, Structural)]
pub enum Weekday {
    Mon,
    Tue,
    Wed,
    Thu,
    Fri,
    Sat,
    Sun,
}

/// Days after Monday.
pub open spec fn weekday_num(w: Weekday) -> int {
    match w {
        Weekday::Mon => 0,
        Weekday::Tue => 1,
        Weekday::Wed => 2,
        Weekday::Thu => 3,
        Weekday::Fri => 4,
        Weekday::Sat => 5,
        Weekday::Sun => 6,
    }
}

/// The weekday `n` days after Monday.
pub open spec fn weekday_at(n: int) -> Weekday {
    if n == 0 { Weekday::Mon }
    else if n == 1 { Weekday::Tue }
    else if n == 2 { Weekday::Wed }
    else if n == 3 { Weekday::Thu }
    else if n == 4 { Weekday::Fri }
    else if n == 5 { Weekday::Sat }
    else { Weekday::Sun }
}

/// The weekday a lower-cased name (full or three-letter) stands for;
/// anything else stands for Monday.
pub open spec fn weekday_named(l: Seq<char>) -> Weekday {
    if l == "monday"@ || l == "mon"@ { Weekday::Mon }
    else if l == "tuesday"@ || l == "tue"@ { Weekday::Tue }
    else if l == "wednesday"@ || l == "wed"@ { Weekday::Wed }
    else if l == "thursday"@ || l == "thu"@ { Weekday::Thu }
    else if l == "friday"@ || l == "fri"@ { Weekday::Fri }
    else if l == "saturday"@ || l == "sat"@ { Weekday::Sat }
    else if l == "sunday"@ || l == "sun"@ { Weekday::Sun }
    else { Weekday::Mon }
}

/// The full English name of a weekday, as stored in an alarm.
pub open spec fn weekday_full_name(w: Weekday) -> Seq<char> {
    match w {
        Weekday::Mon => "Monday"@,
        Weekday::Tue => "Tuesday"@,
        Weekday::Wed => "Wednesday"@,
        Weekday::Thu => "Thursday"@,
        Weekday::Fri => "Friday"@,
        Weekday::Sat => "Saturday"@,
        Weekday::Sun => "Sunday"@,
    }
}

impl Weekday {
    pub fn num_days_from_monday(self) -> (n: u32)
        ensures
            n == weekday_num(self),
            n < 7,
    {
        match self {
            Weekday::Mon => 0,
            Weekday::Tue => 1,
            Weekday::Wed => 2,
            Weekday::Thu => 3,
            Weekday::Fri => 4,
            Weekday::Sat => 5,
            Weekday::Sun => 6,
        }
    }

    pub fn from_monday(n: u32) -> (w: Weekday)
        requires
            n < 7,
        ensures
            w == weekday_at(n as int),
    {
        match n {
            0 => Weekday::Mon,
            1 => Weekday::Tue,
            2 => Weekday::Wed,
            3 => Weekday::Thu,
            4 => Weekday::Fri,
            5 => Weekday::Sat,
            _ => Weekday::Sun,
        }
    }

    /// The full English name, as stored in an alarm's `day_of_week`.
    pub fn full_name(self) -> (s: &'static str)
        ensures
            s@ == weekday_full_name(self),
    {
        match self {
            Weekday::Mon => "Monday",
            Weekday::Tue => "Tuesday",
            Weekday::Wed => "Wednesday",
            Weekday::Thu => "Thursday",
            Weekday::Fri => "Friday",
            Weekday::Sat => "Saturday",
            Weekday::Sun => "Sunday",
        }
    }

    /// The weekday a stored name stands for, compared without regard to
    /// ASCII case; unknown names stand for Monday.
    pub fn from_name(s: &str) -> (w: Weekday)
        ensures
            w == weekday_named(lower(s@)),
    {
        let l = lower_chars(s);
        if chars_eq_str(&l, "monday") || chars_eq_str(&l, "mon") { return Weekday::Mon; }
        if chars_eq_str(&l, "tuesday") || chars_eq_str(&l, "tue") { return Weekday::Tue; }
        if chars_eq_str(&l, "wednesday") || chars_eq_str(&l, "wed") { return Weekday::Wed; }
        if chars_eq_str(&l, "thursday") || chars_eq_str(&l, "thu") { return Weekday::Thu; }
        if chars_eq_str(&l, "friday") || chars_eq_str(&l, "fri") { return Weekday::Fri; }
        if chars_eq_str(&l, "saturday") || chars_eq_str(&l, "sat") { return Weekday::Sat; }
        if chars_eq_str(&l, "sunday") || chars_eq_str(&l, "sun") { return Weekday::Sun; }
        Weekday::Mon
    }
}

/// One configured alarm.
#[derive(Clone, Debug)]
pub struct Alarm {
    pub name: String,
    /// `"HH:MM"`, 24-hour.
    pub time: String,
    pub recurrence: Recurrence,
    /// `"YYYY-MM-DD"`.
    pub start_date: String,
    /// For weekly alarms: the weekday by name; otherwise the start date's.
    pub day_of_week: Option<String>,
    /// Minutes before the scheduled time at which the alarm starts ringing.
    pub trigger_offset_min: u32,
    pub enabled: bool,
}

/// The alarm's clock time, as `chrono` parses it.
pub open spec fn alarm_time(a: Alarm) -> Option<(u32, u32)> {
    chrono_time_of(a.time@)
}

/// The alarm's start day, as `chrono` parses it.
pub open spec fn alarm_start(a: Alarm) -> Option<i32> {
    chrono_date_of(a.start_date@)
}

/// The weekday a weekly alarm rings on: its named weekday, else its start
/// date's weekday, else Monday.
pub open spec fn alarm_weekday(a: Alarm) -> Weekday {
    match a.day_of_week {
        Some(d) => weekday_named(lower(d@)),
        None => match alarm_start(a) {
            Some(day) => weekday_at(weekday_number(day as int)),
            None => Weekday::Mon,
        },
    }
}

pub fn default_true() -> (b: bool)
    ensures
        b,
{
    true
}

pub fn default_false() -> (b: bool)
    ensures
        !b,
{
    false
}

pub fn default_trigger_offset() -> (m: u32)
    ensures
        m == 3,
{
    3
}

pub fn default_alarm_name() -> (s: String)
    ensures
        s@ == "Alarm"@,
{
    owned("Alarm")
}

pub fn default_second_step() -> (s: u32)
    ensures
        s == 1,
{
    1
}

/// 0 means "auto": grow the face to fill the terminal.
pub fn default_scale() -> (s: u8)
    ensures
        s == 0,
{
    0
}

pub fn default_color() -> (s: String)
    ensures
        s@ == "#38d9e8"@,
{
    owned("#38d9e8")
}

/// "none": the accent falls back to the primary color.
pub fn default_accent() -> (s: String)
    ensures
        s@ == "none"@,
{
    owned("none")
}

impl Default for Alarm {
    fn default() -> (a: Alarm)
        ensures
            a.name@ == "Alarm"@,
            a.time@ == "08:00"@,
            a.recurrence == Recurrence::Once,
            a.start_date@ == Seq::<char>::empty(),
            a.day_of_week is None,
            a.trigger_offset_min == 3,
            a.enabled,
    {
        Alarm {
            name: owned("Alarm"),
            time: owned("08:00"),
            recurrence: Recurrence::Once,
            start_date: String::new(),
            day_of_week: None,
            trigger_offset_min: default_trigger_offset(),
            enabled: true,
        }
    }
}

impl Alarm {
    /// The start date's day number, if it parses as `"YYYY-MM-DD"`.
    pub fn get_start_date(&self) -> (d: Option<i32>)
        ensures
            d == alarm_start(*self),
            d matches Some(day) ==> day_in_range(day as int),
    {
        parse_iso_date(self.start_date.as_str())
    }

    /// The clock time as (hour, minute), if it parses as `"HH:MM"`.
    pub fn get_time(&self) -> (t: Option<(u32, u32)>)
        ensures
            t == alarm_time(*self),
            t matches Some((h, m)) ==> h < 24 && m < 60,
    {
        parse_clock_time(self.time.as_str())
    }

    /// The weekday a weekly alarm rings on.
    pub fn get_day_of_week(&self) -> (w: Weekday)
        ensures
            w == alarm_weekday(*self),
    {
        match &self.day_of_week {
            Some(d) => Weekday::from_name(d.as_str()),
            None => match self.get_start_date() {
                Some(day) => Weekday::from_monday(weekday_of(day)),
                None => Weekday::Mon,
            },
        }
    }
}

/// Persisted settings.
#[derive(Clone, Debug)]
pub struct Config {
    /// Which clock face to draw.
    pub face: Face,
    /// 12-hour clock with am/pm vs. 24-hour.
    pub hour12: bool,
    /// Show a seconds readout / second hand.
    pub show_seconds: bool,
    /// Show today's date under the clock.
    pub show_date: bool,
    /// Blink the ':' separators once a second.
    pub blink_colon: bool,
    /// Draw hour tick marks around the rim (analog face).
    pub tick_marks: bool,
    /// 0 auto-fills the terminal; 1-9 pins a size.
    pub scale: u8,
    /// Primary color.
    pub color: String,
    /// Accent color; "none" or empty falls back to the primary color.
    pub accent_color: String,
    /// Show the unlit segments faintly on the `lcd` face.
    pub ghost_segments: bool,
    /// Granularity of the displayed seconds.
    pub second_step: u32,
    /// The legacy single alarm, `"HH:MM"` 24-hour.
    pub alarm: Option<String>,
    /// Configured alarms.
    pub alarms: Vec<Alarm>,
}

/// The legacy alarm as a canonical `"HH:MM"` text, when it is set, is not
/// "none" (in any case) and parses as a clock time.
pub open spec fn resolved_alarm(c: Config) -> Option<Seq<char>> {
    match c.alarm {
        None => None,
        Some(v) => if v@.len() == 0 || lower(v@) == lower("none"@) {
            None
        } else {
            match chrono_time_of(v@) {
                Some((h, m)) => Some(hm_text(h as int, m as int)),
                None => None,
            }
        },
    }
}

/// The accent color to draw with.
pub open spec fn resolved_accent(c: Config) -> Seq<char> {
    if c.accent_color@.len() == 0 || lower(c.accent_color@) == lower("none"@) {
        c.color@
    } else {
        c.accent_color@
    }
}

/// The effective seconds step, 1 to 60.
pub open spec fn effective_step(c: Config) -> int {
    if c.second_step < 1 {
        1
    } else if c.second_step > 60 {
        60
    } else {
        c.second_step as int
    }
}

impl Default for Config {
    fn default() -> (c: Config)
        ensures
            c.face == Face::Digital,
            c.hour12,
            c.show_seconds,
            c.show_date,
            c.blink_colon,
            c.tick_marks,
            c.scale == 0,
            c.color@ == "#38d9e8"@,
            c.accent_color@ == "none"@,
            !c.ghost_segments,
            c.second_step == 1,
            c.alarm is None,
            c.alarms@.len() == 0,
    {
        Config {
            face: Face::Digital,
            hour12: true,
            show_seconds: true,
            show_date: true,
            blink_colon: true,
            tick_marks: true,
            scale: default_scale(),
            color: default_color(),
            accent_color: default_accent(),
            ghost_segments: false,
            second_step: default_second_step(),
            alarm: None,
            alarms: Vec::new(),
        }
    }
}

impl Config {
    /// Resolves the legacy alarm setting to a canonical `"HH:MM"` time.
    pub fn resolve_alarm(&self) -> (r: Option<String>)
        ensures
            match r {
                Some(t) => resolved_alarm(*self) == Some(t@),
                None => resolved_alarm(*self) is None,
            },
            self.alarm is Some && two_digit_clock(self.alarm.unwrap()@) ==> (r is Some <==> dec_value(
                self.alarm.unwrap()@.subrange(0, 2),
            ) < 24 && dec_value(self.alarm.unwrap()@.subrange(3, 5)) < 60),
    {
        let val = match &self.alarm {
            Some(v) => v,
            None => return None,
        };
        proof {
            reveal_strlit("none");
            assert(lower("none"@).len() == 4);
            assert(lower(val@).len() == val@.len());
        }
        if val.as_str().is_empty() || eq_ignore_case(val.as_str(), "none") {
            return None;
        }
        match parse_clock_time(val.as_str()) {
            Some((h, m)) => Some(format_hm(h, m)),
            None => None,
        }
    }

    /// The scale to draw at: the pinned `scale` (at most `MAX_SCALE`), or,
    /// when `scale` is 0 ("auto"), the largest size the caller found that
    /// fits, at least 1.
    pub fn resolve_scale(&self, auto_fit: usize) -> (s: usize)
        ensures
            self.scale == 0 ==> s == (if auto_fit < 1 { 1 } else { auto_fit }),
            self.scale != 0 ==> s == (if self.scale > MAX_SCALE { MAX_SCALE } else { self.scale }),
    {
        if self.scale == 0 {
            if auto_fit < 1 { 1 } else { auto_fit }
        } else {
            (if self.scale > MAX_SCALE { MAX_SCALE } else { self.scale }) as usize
        }
    }

    /// Rounds a second count down to the configured step (clamped to 1..=60).
    pub fn step_second(&self, s: u32) -> (r: u32)
        ensures
            r == s / (effective_step(*self) as u32) * (effective_step(*self) as u32),
    {
        let step: u32 = if self.second_step < 1 {
            1
        } else if self.second_step > 60 {
            60
        } else {
            self.second_step
        };
        assert(s / step * step <= s) by (nonlinear_arith)
            requires
                step >= 1,
        ;
        s / step * step
    }

    pub fn is_auto_scale(&self) -> (b: bool)
        ensures
            b == (self.scale == 0),
    {
        self.scale == 0
    }

    /// The accent color, falling back to the primary color when it is
    /// "none" (in any case) or empty.
    pub fn resolve_accent(&self) -> (s: String)
        ensures
            s@ == resolved_accent(*self),
    {
        if self.accent_color.as_str().is_empty() || eq_ignore_case(self.accent_color.as_str(), "none") {
            self.color.clone()
        } else {
            self.accent_color.clone()
        }
    }
}

} // verus!
