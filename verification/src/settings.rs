//! Changing settings from the command line (`config set KEY VALUE`) and
//! one-off overrides for a single run, and what a session writes back.
use crate::calendar::{chrono_time_of, parse_clock_time};
use crate::config::{face_named, Config, Face, MAX_SCALE};
use crate::manager::opt_view;
use crate::numparse::{parse_unsigned, parse_unsigned_exec};
use crate::text::{chars_eq_str, eq_ignore_case, lower, lower_chars, owned, str_eq, string_of};
use vstd::prelude::*;

verus! {

/// A value for one setting, parsed from text.
#[derive(Debug)]
pub enum Setting {
    Face(Face),
    Hour12(bool),
    ShowSeconds(bool),
    ShowDate(bool),
    BlinkColon(bool),
    TickMarks(bool),
    GhostSegments(bool),
    Alarm(Option<String>),
    SecondStep(u32),
    Scale(u8),
    Color(String),
    AccentColor(String),
}

/// Why `config set` refused a value.
#[derive(Debug)]
pub enum SetError {
    /// Not one of true/on/yes/1/false/off/no/0; holds the lower-cased value.
    NotBool(String),
    /// Not a face name; holds the lower-cased value.
    UnknownFace(String),
    BadAlarm,
    BadSecondStep,
    BadScale,
    /// Holds the key as given.
    UnknownKey(String),
}

/// The boolean a lower-cased word stands for.
pub open spec fn bool_named(l: Seq<char>) -> Option<bool> {
    if l == "true"@ || l == "on"@ || l == "yes"@ || l == "1"@ {
        Some(true)
    } else if l == "false"@ || l == "off"@ || l == "no"@ || l == "0"@ {
        Some(false)
    } else {
        None
    }
}

pub open spec fn is_bool_key(k: Seq<char>) -> bool {
    k == "hour12"@ || k == "show_seconds"@ || k == "show_date"@ || k == "blink_colon"@ || k == "tick_marks"@
        || k == "ghost_segments"@
}

/// The setting a boolean key sets to `b`.
pub open spec fn bool_setting(k: Seq<char>, b: bool) -> Setting {
    if k == "hour12"@ {
        Setting::Hour12(b)
    } else if k == "show_seconds"@ {
        Setting::ShowSeconds(b)
    } else if k == "show_date"@ {
        Setting::ShowDate(b)
    } else if k == "blink_colon"@ {
        Setting::BlinkColon(b)
    } else if k == "tick_marks"@ {
        Setting::TickMarks(b)
    } else {
        Setting::GhostSegments(b)
    }
}

pub open spec fn known_key(k: Seq<char>) -> bool {
    k == "face"@ || is_bool_key(k) || k == "alarm"@ || k == "second_step"@ || k == "scale"@ || k == "color"@
        || k == "accent_color"@
}

/// Whether the legacy alarm value means "no alarm".
pub open spec fn alarm_off(v: Seq<char>) -> bool {
    lower(v) == lower("none"@) || v.len() == 0
}

pub open spec fn clamp_step(v: int) -> int {
    if v < 1 { 1 } else if v > 60 { 60 } else { v }
}

/// The message shown for a refused value.
pub open spec fn error_text(e: SetError) -> Seq<char> {
    match e {
        SetError::NotBool(v) => "expected true/false, got '"@ + v@ + "'"@,
        SetError::UnknownFace(v) => "unknown face '"@ + v@
            + "' (expected one of: digital, analog, binary, word, matrix, flip, waves, rings, roman, lcd, hourglass, blocks, cuckoo, radar, ship, grid, warp, snake)"@,
        SetError::BadAlarm => "alarm must be in \"HH:MM\" 24-hour format (or \"none\" to disable)"@,
        SetError::BadSecondStep => "second_step must be a number 1-60"@,
        SetError::BadScale => "scale must be 0 (auto) or 1-9"@,
        SetError::UnknownKey(k) => "unknown key '"@ + k@
            + "' (expected one of: face, hour12, show_seconds, show_date, blink_colon, tick_marks, ghost_segments, alarm, second_step, scale, color, accent_color)"@,
    }
}

impl SetError {
    /// The message shown to the user.
    pub fn message(&self) -> (s: String)
        ensures
            s@ == error_text(*self),
    {
        match self {
            SetError::NotBool(v) => {
                let mut s = owned("expected true/false, got '");
                s.append(v.as_str());
                s.append("'");
                s
            },
            SetError::UnknownFace(v) => {
                let mut s = owned("unknown face '");
                s.append(v.as_str());
                s.append(
                    "' (expected one of: digital, analog, binary, word, matrix, flip, waves, rings, roman, lcd, hourglass, blocks, cuckoo, radar, ship, grid, warp, snake)",
                );
                s
            },
            SetError::BadAlarm => owned("alarm must be in \"HH:MM\" 24-hour format (or \"none\" to disable)"),
            SetError::BadSecondStep => owned("second_step must be a number 1-60"),
            SetError::BadScale => owned("scale must be 0 (auto) or 1-9"),
            SetError::UnknownKey(k) => {
                let mut s = owned("unknown key '");
                s.append(k.as_str());
                s.append(
                    "' (expected one of: face, hour12, show_seconds, show_date, blink_colon, tick_marks, ghost_segments, alarm, second_step, scale, color, accent_color)",
                );
                s
            },
        }
    }
}

/// Reads a boolean: true/on/yes/1 or false/off/no/0, in any ASCII case.
pub fn parse_bool(v: &str) -> (r: Result<bool, SetError>)
    ensures
        match bool_named(lower(v@)) {
            Some(b) => r == Ok::<bool, SetError>(b),
            None => r matches Err(SetError::NotBool(t)) && t@ == lower(v@),
        },
{
    let l = lower_chars(v);
    if chars_eq_str(&l, "true") || chars_eq_str(&l, "on") || chars_eq_str(&l, "yes") || chars_eq_str(&l, "1") {
        Ok(true)
    } else if chars_eq_str(&l, "false") || chars_eq_str(&l, "off") || chars_eq_str(&l, "no") || chars_eq_str(&l, "0") {
        Ok(false)
    } else {
        Err(SetError::NotBool(string_of(&l)))
    }
}

fn bool_setting_exec(key: &str, b: bool) -> (s: Setting)
    requires
        is_bool_key(key@),
    ensures
        s == bool_setting(key@, b),
{
    if str_eq(key, "hour12") {
        Setting::Hour12(b)
    } else if str_eq(key, "show_seconds") {
        Setting::ShowSeconds(b)
    } else if str_eq(key, "show_date") {
        Setting::ShowDate(b)
    } else if str_eq(key, "blink_colon") {
        Setting::BlinkColon(b)
    } else if str_eq(key, "tick_marks") {
        Setting::TickMarks(b)
    } else {
        Setting::GhostSegments(b)
    }
}

fn parse_alarm_setting(value: &str) -> (r: Result<Setting, SetError>)
    ensures
        if alarm_off(value@) {
            r matches Ok(Setting::Alarm(a)) && a is None
        } else if chrono_time_of(value@) is Some {
            r matches Ok(Setting::Alarm(a)) && opt_view(a) == Some(value@)
        } else {
            r matches Err(SetError::BadAlarm)
        },
{
    if eq_ignore_case(value, "none") || value.is_empty() {
        Ok(Setting::Alarm(None))
    } else if parse_clock_time(value).is_some() {
        Ok(Setting::Alarm(Some(owned(value))))
    } else {
        Err(SetError::BadAlarm)
    }
}

fn parse_step_setting(value: &str) -> (r: Result<Setting, SetError>)
    ensures
        match parse_unsigned(value@, u32::MAX as int) {
            Some(v) => r matches Ok(Setting::SecondStep(s)) && s == clamp_step(v),
            None => r matches Err(SetError::BadSecondStep),
        },
{
    match parse_unsigned_exec(value, 0xffff_ffff) {
        Some(v) => Ok(Setting::SecondStep(if v < 1 { 1 } else if v > 60 { 60 } else { v as u32 })),
        None => Err(SetError::BadSecondStep),
    }
}

fn parse_scale_setting(value: &str) -> (r: Result<Setting, SetError>)
    ensures
        match parse_unsigned(value@, u8::MAX as int) {
            Some(v) => r matches Ok(Setting::Scale(s)) && s == (if v > 9 { 9 } else { v }),
            None => r matches Err(SetError::BadScale),
        },
{
    match parse_unsigned_exec(value, 0xff) {
        Some(v) => Ok(Setting::Scale(if v > 9 { MAX_SCALE } else { v as u8 })),
        None => Err(SetError::BadScale),
    }
}

fn parse_face_setting(value: &str) -> (r: Result<Setting, SetError>)
    ensures
        match face_named(lower(value@)) {
            Some(f) => r matches Ok(Setting::Face(g)) && g == f,
            None => r matches Err(SetError::UnknownFace(t)) && t@ == lower(value@),
        },
{
    match Face::parse_name(value) {
        Some(f) => Ok(Setting::Face(f)),
        None => Err(SetError::UnknownFace(string_of(&lower_chars(value)))),
    }
}

fn is_bool_key_exec(key: &str) -> (b: bool)
    ensures
        b == is_bool_key(key@),
{
    str_eq(key, "hour12") || str_eq(key, "show_seconds") || str_eq(key, "show_date") || str_eq(key, "blink_colon")
        || str_eq(key, "tick_marks") || str_eq(key, "ghost_segments")
}

/// Reads the value for a setting.
pub fn parse_setting(key: &str, value: &str) -> (r: Result<Setting, SetError>)
    ensures
        key@ == "face"@ ==> match face_named(lower(value@)) {
            Some(f) => r matches Ok(Setting::Face(g)) && g == f,
            None => r matches Err(SetError::UnknownFace(t)) && t@ == lower(value@),
        },
        is_bool_key(key@) ==> match bool_named(lower(value@)) {
            Some(b) => r matches Ok(s) && s == bool_setting(key@, b),
            None => r matches Err(SetError::NotBool(t)) && t@ == lower(value@),
        },
        key@ == "alarm"@ ==> if alarm_off(value@) {
            r matches Ok(Setting::Alarm(a)) && a is None
        } else if chrono_time_of(value@) is Some {
            r matches Ok(Setting::Alarm(a)) && opt_view(a) == Some(value@)
        } else {
            r matches Err(SetError::BadAlarm)
        },
        key@ == "second_step"@ ==> match parse_unsigned(value@, u32::MAX as int) {
            Some(v) => r matches Ok(Setting::SecondStep(s)) && s == clamp_step(v),
            None => r matches Err(SetError::BadSecondStep),
        },
        key@ == "scale"@ ==> match parse_unsigned(value@, u8::MAX as int) {
            Some(v) => r matches Ok(Setting::Scale(s)) && s == (if v > 9 { 9 } else { v }),
            None => r matches Err(SetError::BadScale),
        },
        key@ == "color"@ ==> (r matches Ok(Setting::Color(c)) && c@ == value@),
        key@ == "accent_color"@ ==> (r matches Ok(Setting::AccentColor(c)) && c@ == value@),
        !known_key(key@) ==> (r matches Err(SetError::UnknownKey(k)) && k@ == key@),
{
    proof {
        reveal_strlit("face");
        reveal_strlit("hour12");
        reveal_strlit("show_seconds");
        reveal_strlit("show_date");
        reveal_strlit("blink_colon");
        reveal_strlit("tick_marks");
        reveal_strlit("ghost_segments");
        reveal_strlit("alarm");
        reveal_strlit("second_step");
        reveal_strlit("scale");
        reveal_strlit("color");
        reveal_strlit("accent_color");
        assert("face"@.len() == 4 && "face"@[0] == 'f');
        assert("hour12"@.len() == 6 && "hour12"@[0] == 'h');
        assert("show_seconds"@.len() == 12 && "show_seconds"@[0] == 's');
        assert("show_date"@.len() == 9 && "show_date"@[0] == 's');
        assert("blink_colon"@.len() == 11 && "blink_colon"@[0] == 'b');
        assert("tick_marks"@.len() == 10 && "tick_marks"@[0] == 't');
        assert("ghost_segments"@.len() == 14 && "ghost_segments"@[0] == 'g');
        assert("alarm"@.len() == 5 && "alarm"@[0] == 'a');
        assert("second_step"@.len() == 11 && "second_step"@[0] == 's');
        assert("scale"@.len() == 5 && "scale"@[0] == 's');
        assert("color"@.len() == 5 && "color"@[0] == 'c');
        assert("accent_color"@.len() == 12 && "accent_color"@[0] == 'a');
    }
    if str_eq(key, "face") {
        parse_face_setting(value)
    } else if is_bool_key_exec(key) {
        match parse_bool(value) {
            Ok(b) => Ok(bool_setting_exec(key, b)),
            Err(e) => Err(e),
        }
    } else if str_eq(key, "alarm") {
        parse_alarm_setting(value)
    } else if str_eq(key, "second_step") {
        parse_step_setting(value)
    } else if str_eq(key, "scale") {
        parse_scale_setting(value)
    } else if str_eq(key, "color") {
        Ok(Setting::Color(owned(value)))
    } else if str_eq(key, "accent_color") {
        Ok(Setting::AccentColor(owned(value)))
    } else {
        Err(SetError::UnknownKey(owned(key)))
    }
}

/// Whether two configurations agree on every field but field number `f`
/// (0 face, 1 hour12, 2 show_seconds, 3 show_date, 4 blink_colon,
/// 5 tick_marks, 6 scale, 7 color, 8 accent_color, 9 ghost_segments,
/// 10 second_step, 11 alarm); the alarms always agree.
pub open spec fn others_same(a: Config, b: Config, f: int) -> bool {
    &&& (f != 0 ==> a.face == b.face)
    &&& (f != 1 ==> a.hour12 == b.hour12)
    &&& (f != 2 ==> a.show_seconds == b.show_seconds)
    &&& (f != 3 ==> a.show_date == b.show_date)
    &&& (f != 4 ==> a.blink_colon == b.blink_colon)
    &&& (f != 5 ==> a.tick_marks == b.tick_marks)
    &&& (f != 6 ==> a.scale == b.scale)
    &&& (f != 7 ==> a.color@ == b.color@)
    &&& (f != 8 ==> a.accent_color@ == b.accent_color@)
    &&& (f != 9 ==> a.ghost_segments == b.ghost_segments)
    &&& (f != 10 ==> a.second_step == b.second_step)
    &&& (f != 11 ==> opt_view(a.alarm) == opt_view(b.alarm))
    &&& a.alarms == b.alarms
}

/// The field a setting changes.
pub open spec fn setting_field(s: Setting) -> int {
    match s {
        Setting::Face(_) => 0,
        Setting::Hour12(_) => 1,
        Setting::ShowSeconds(_) => 2,
        Setting::ShowDate(_) => 3,
        Setting::BlinkColon(_) => 4,
        Setting::TickMarks(_) => 5,
        Setting::Scale(_) => 6,
        Setting::Color(_) => 7,
        Setting::AccentColor(_) => 8,
        Setting::GhostSegments(_) => 9,
        Setting::SecondStep(_) => 10,
        Setting::Alarm(_) => 11,
    }
}

/// Whether configuration `b` is `a` with setting `s` applied.
pub open spec fn applied(a: Config, b: Config, s: Setting) -> bool {
    &&& others_same(a, b, setting_field(s))
    &&& match s {
        Setting::Face(f) => b.face == f,
        Setting::Hour12(v) => b.hour12 == v,
        Setting::ShowSeconds(v) => b.show_seconds == v,
        Setting::ShowDate(v) => b.show_date == v,
        Setting::BlinkColon(v) => b.blink_colon == v,
        Setting::TickMarks(v) => b.tick_marks == v,
        Setting::Scale(v) => b.scale == v,
        Setting::Color(c) => b.color@ == c@,
        Setting::AccentColor(c) => b.accent_color@ == c@,
        Setting::GhostSegments(v) => b.ghost_segments == v,
        Setting::SecondStep(v) => b.second_step == v,
        Setting::Alarm(a) => opt_view(b.alarm) == opt_view(a),
    }
}

/// Stores a parsed setting in the configuration.
pub fn apply_setting(cfg: &mut Config, s: Setting)
    ensures
        applied(*old(cfg), *final(cfg), s),
{
    let ghost s0 = s;
    match s {
        Setting::Face(f) => cfg.face = f,
        Setting::Hour12(v) => cfg.hour12 = v,
        Setting::ShowSeconds(v) => cfg.show_seconds = v,
        Setting::ShowDate(v) => cfg.show_date = v,
        Setting::BlinkColon(v) => cfg.blink_colon = v,
        Setting::TickMarks(v) => cfg.tick_marks = v,
        Setting::GhostSegments(v) => cfg.ghost_segments = v,
        Setting::Alarm(a) => cfg.alarm = a,
        Setting::SecondStep(v) => cfg.second_step = v,
        Setting::Scale(v) => cfg.scale = v,
        Setting::Color(c) => cfg.color = c,
        Setting::AccentColor(c) => cfg.accent_color = c,
    }
}

/// Whether `config set KEY VALUE` accepts the value.
pub open spec fn set_accepts(k: Seq<char>, v: Seq<char>) -> bool {
    if k == "face"@ {
        face_named(lower(v)) is Some
    } else if is_bool_key(k) {
        bool_named(lower(v)) is Some
    } else if k == "alarm"@ {
        alarm_off(v) || chrono_time_of(v) is Some
    } else if k == "second_step"@ {
        parse_unsigned(v, u32::MAX as int) is Some
    } else if k == "scale"@ {
        parse_unsigned(v, u8::MAX as int) is Some
    } else {
        k == "color"@ || k == "accent_color"@
    }
}

/// Sets one configuration value from text, as `config set KEY VALUE` does:
/// face names and booleans in any ASCII case, the legacy alarm as `"HH:MM"`
/// or "none"/empty, `second_step` clamped to 1..=60, `scale` capped at 9,
/// colors as given. A refused value leaves the configuration unchanged.
pub fn set_field(cfg: &mut Config, key: &str, value: &str) -> (r: Result<(), SetError>)
    ensures
        r is Ok <==> set_accepts(key@, value@),
        r is Err ==> others_same(*old(cfg), *final(cfg), -1),
        key@ == "face"@ && r is Ok ==> applied(*old(cfg), *final(cfg), Setting::Face(face_named(lower(value@))->0)),
        is_bool_key(key@) && r is Ok ==> applied(*old(cfg), *final(cfg), bool_setting(key@, bool_named(lower(value@))->0)),
        key@ == "alarm"@ && r is Ok ==> others_same(*old(cfg), *final(cfg), 11) && opt_view(final(cfg).alarm) == (if alarm_off(value@) {
            None::<Seq<char>>
        } else {
            Some(value@)
        }),
        key@ == "second_step"@ && r is Ok ==> applied(*old(cfg), *final(cfg), Setting::SecondStep(clamp_step(parse_unsigned(value@, u32::MAX as int)->0) as u32)),
        key@ == "scale"@ && r is Ok ==> applied(*old(cfg), *final(cfg), Setting::Scale((if parse_unsigned(value@, u8::MAX as int)->0 > 9 { 9 } else { parse_unsigned(value@, u8::MAX as int)->0 }) as u8)),
        key@ == "color"@ ==> others_same(*old(cfg), *final(cfg), 7) && final(cfg).color@ == value@,
        key@ == "accent_color"@ ==> others_same(*old(cfg), *final(cfg), 8) && final(cfg).accent_color@ == value@,
        r matches Err(e) ==> (!known_key(key@) ==> (e matches SetError::UnknownKey(k) && k@ == key@)),
        r matches Err(e) ==> (key@ == "face"@ ==> (e matches SetError::UnknownFace(t) && t@ == lower(value@))),
        r matches Err(e) ==> (is_bool_key(key@) ==> (e matches SetError::NotBool(t) && t@ == lower(value@))),
        r matches Err(e) ==> (key@ == "alarm"@ ==> e is BadAlarm),
        r matches Err(e) ==> (key@ == "second_step"@ ==> e is BadSecondStep),
        r matches Err(e) ==> (key@ == "scale"@ ==> e is BadScale),
{
    proof {
        reveal_strlit("face");
        reveal_strlit("hour12");
        reveal_strlit("show_seconds");
        reveal_strlit("show_date");
        reveal_strlit("blink_colon");
        reveal_strlit("tick_marks");
        reveal_strlit("ghost_segments");
        reveal_strlit("alarm");
        reveal_strlit("second_step");
        reveal_strlit("scale");
        reveal_strlit("color");
        reveal_strlit("accent_color");
        assert("face"@.len() == 4 && "face"@[0] == 'f');
        assert("hour12"@.len() == 6 && "hour12"@[0] == 'h');
        assert("show_seconds"@.len() == 12 && "show_seconds"@[0] == 's');
        assert("show_date"@.len() == 9 && "show_date"@[0] == 's');
        assert("blink_colon"@.len() == 11 && "blink_colon"@[0] == 'b');
        assert("tick_marks"@.len() == 10 && "tick_marks"@[0] == 't');
        assert("ghost_segments"@.len() == 14 && "ghost_segments"@[0] == 'g');
        assert("alarm"@.len() == 5 && "alarm"@[0] == 'a');
        assert("second_step"@.len() == 11 && "second_step"@[0] == 's');
        assert("scale"@.len() == 5 && "scale"@[0] == 's');
        assert("color"@.len() == 5 && "color"@[0] == 'c');
        assert("accent_color"@.len() == 12 && "accent_color"@[0] == 'a');
    }
    match parse_setting(key, value) {
        Ok(s) => {
            apply_setting(cfg, s);
            Ok(())
        },
        Err(e) => Err(e),
    }
}

} // verus!
