//! Editing alarms in the alarm manager: which fields a row has, and what one
//! press of `+` or `-` does to the focused field.
use crate::calendar::{
    chrono_iso_date, weekday_number, day_in_range, format_iso_date, MAX_DAY, MIN_DAY,
};
use crate::config::{
    alarm_start, alarm_time, alarm_weekday, recurrence_at, recurrence_pos, weekday_at,
    weekday_full_name, weekday_num, Alarm, Recurrence, Weekday,
};
use crate::arith::{wrap, wrap_exec};
use crate::text::{format_hm, hm_text, owned};
use vstd::prelude::*;

verus! {

/// A column of an alarm row in the alarm manager.
#[derive(Clone, Copy, Debug, PartialEq, Eq, Structural)]
pub enum AlarmField {
    Enabled,
    Hour,
    Minute,
    Recurrence,
    Detail,
    WarningOffset,
    Name,
}

/// Recurrences with an extra column: a date for one-off and bi-weekly
/// alarms, a weekday for weekly ones.
pub open spec fn has_detail(r: Recurrence) -> bool {
    r is Once || r is Weekly || r is BiWeekly
}

/// The columns of a row, left to right.
pub open spec fn fields_of(r: Recurrence) -> Seq<AlarmField> {
    seq![AlarmField::Enabled, AlarmField::Hour, AlarmField::Minute, AlarmField::Recurrence] + (if has_detail(r) {
        seq![AlarmField::Detail]
    } else {
        Seq::empty()
    }) + seq![AlarmField::WarningOffset, AlarmField::Name]
}

pub fn has_detail_field(rec: &Recurrence) -> (b: bool)
    ensures
        b == has_detail(*rec),
{
    match rec {
        Recurrence::Once | Recurrence::Weekly | Recurrence::BiWeekly => true,
        _ => false,
    }
}

/// The editable columns of an alarm's row.
pub fn active_fields(alarm: &Alarm) -> (v: Vec<AlarmField>)
    ensures
        v@ == fields_of(alarm.recurrence),
        6 <= v@.len() <= 7,
{
    let mut fields = vec![
        AlarmField::Enabled,
        AlarmField::Hour,
        AlarmField::Minute,
        AlarmField::Recurrence,
    ];
    if has_detail_field(&alarm.recurrence) {
        fields.push(AlarmField::Detail);
    }
    fields.push(AlarmField::WarningOffset);
    fields.push(AlarmField::Name);
    assert(fields@ =~= fields_of(alarm.recurrence));
    fields
}

pub open spec fn fits_i32(x: int) -> bool {
    i32::MIN <= x <= i32::MAX
}

/// `(x as i32)`: the two's-complement reading of a `u32`.
pub open spec fn as_i32(x: u32) -> int {
    if x <= i32::MAX { x as int } else { x as int - 0x1_0000_0000 }
}

/// Whether one adjustment by `delta` stays within what the arithmetic of
/// the field can hold: 32-bit signed sums, and dates `chrono` can represent.
pub open spec fn adjust_defined(a: Alarm, field: AlarmField, delta: i32) -> bool {
    match field {
        AlarmField::Hour => alarm_time(a) matches Some((h, m)) ==> fits_i32(h + delta),
        AlarmField::Minute => alarm_time(a) matches Some((h, m)) ==> fits_i32(m + delta),
        AlarmField::Recurrence => fits_i32(recurrence_pos(a.recurrence) + delta),
        AlarmField::Detail => match a.recurrence {
            Recurrence::Weekly => fits_i32(weekday_num(alarm_weekday(a)) + delta),
            Recurrence::Once | Recurrence::BiWeekly => alarm_start(a) matches Some(d) ==> day_in_range(d + delta),
            _ => true,
        },
        AlarmField::WarningOffset => fits_i32(as_i32(a.trigger_offset_min) + delta),
        _ => true,
    }
}

pub open spec fn clamp_offset(x: int) -> int {
    if x < 0 { 0 } else if x > 60 { 60 } else { x }
}

pub open spec fn opt_view(o: Option<String>) -> Option<Seq<char>> {
    match o {
        Some(s) => Some(s@),
        None => None,
    }
}

/// What one adjustment by `delta` of `field` makes of alarm `a`: toggles
/// the switch, moves the hour (mod 24) or minute (mod 60), cycles the
/// recurrence (turning on Monday for a weekly alarm without a weekday),
/// moves the weekday or the start date, or the warning offset (kept in
/// 0..=60). A time or start date that does not parse is left alone, as is
/// the name.
pub open spec fn adjusted(a: Alarm, b: Alarm, field: AlarmField, delta: i32) -> bool {
    &&& b.name == a.name
    &&& b.enabled == (if field is Enabled { !a.enabled } else { a.enabled })
    &&& b.time@ == (match (field, alarm_time(a)) {
        (AlarmField::Hour, Some((h, m))) => hm_text(wrap(h + delta, 24), m as int),
        (AlarmField::Minute, Some((h, m))) => hm_text(h as int, wrap(m + delta, 60)),
        _ => a.time@,
    })
    &&& b.recurrence == (if field is Recurrence {
        recurrence_at(wrap(recurrence_pos(a.recurrence) + delta, 6))
    } else {
        a.recurrence
    })
    &&& b.start_date@ == (if field is Detail && (a.recurrence is Once || a.recurrence is BiWeekly) {
        match alarm_start(a) {
            Some(d) => chrono_iso_date(d + delta),
            None => a.start_date@,
        }
    } else {
        a.start_date@
    })
    &&& opt_view(b.day_of_week) == (if field is Detail && a.recurrence is Weekly {
        Some(weekday_full_name(weekday_at(wrap(weekday_num(alarm_weekday(a)) + delta, 7))))
    } else if field is Recurrence && b.recurrence is Weekly && a.day_of_week is None {
        Some("Monday"@)
    } else {
        opt_view(a.day_of_week)
    })
    &&& b.trigger_offset_min == (if field is WarningOffset {
        clamp_offset(as_i32(a.trigger_offset_min) + delta)
    } else {
        a.trigger_offset_min as int
    })
}

/// Changes the focused field of an alarm by one step `delta`, as
/// `adjusted` describes.
pub fn adjust_field(alarm: &mut Alarm, field: AlarmField, delta: i32)
    requires
        adjust_defined(*old(alarm), field, delta),
    ensures
        adjusted(*old(alarm), *final(alarm), field, delta),
{
    match field {
        AlarmField::Enabled => {
            alarm.enabled = !alarm.enabled;
        },
        AlarmField::Hour => {
            if let Some((h, m)) = alarm.get_time() {
                let new_h = wrap_exec(h as i64 + delta as i64, 24);
                alarm.time = format_hm(new_h as u32, m);
            }
        },
        AlarmField::Minute => {
            if let Some((h, m)) = alarm.get_time() {
                let new_m = wrap_exec(m as i64 + delta as i64, 60);
                alarm.time = format_hm(h, new_m as u32);
            }
        },
        AlarmField::Recurrence => {
            let pos = alarm.recurrence.index();
            let new_pos = wrap_exec(pos as i64 + delta as i64, 6);
            alarm.recurrence = Recurrence::from_index(new_pos as usize);
            if alarm.recurrence == Recurrence::Weekly && alarm.day_of_week.is_none() {
                alarm.day_of_week = Some(owned("Monday"));
            }
        },
        AlarmField::Detail => match alarm.recurrence {
            Recurrence::Weekly => {
                let pos = alarm.get_day_of_week().num_days_from_monday();
                let new_pos = wrap_exec(pos as i64 + delta as i64, 7);
                let next = Weekday::from_monday(new_pos as u32);
                alarm.day_of_week = Some(owned(next.full_name()));
            },
            Recurrence::Once | Recurrence::BiWeekly => {
                if let Some(start) = alarm.get_start_date() {
                    let new_day = start as i64 + delta as i64;
                    alarm.start_date = format_iso_date(new_day as i32);
                }
            },
            _ => {},
        },
        AlarmField::WarningOffset => {
            let cur: i64 = if alarm.trigger_offset_min <= 0x7fff_ffff {
                alarm.trigger_offset_min as i64
            } else {
                alarm.trigger_offset_min as i64 - 0x1_0000_0000
            };
            let v = cur + delta as i64;
            alarm.trigger_offset_min = if v < 0 {
                0
            } else if v > 60 {
                60
            } else {
                v as u32
            };
        },
        AlarmField::Name => {},
    }
}

/// Whether `adjust_field` is defined for this alarm, field and step.
pub fn adjust_is_defined(alarm: &Alarm, field: AlarmField, delta: i32) -> (b: bool)
    ensures
        b == adjust_defined(*alarm, field, delta),
{
    let d = delta as i64;
    match field {
        AlarmField::Hour => match alarm.get_time() {
            Some((h, _)) => h as i64 + d <= i32::MAX as i64,
            None => true,
        },
        AlarmField::Minute => match alarm.get_time() {
            Some((_, m)) => m as i64 + d <= i32::MAX as i64,
            None => true,
        },
        AlarmField::Recurrence => alarm.recurrence.index() as i64 + d <= i32::MAX as i64,
        AlarmField::Detail => match alarm.recurrence {
            Recurrence::Weekly => alarm.get_day_of_week().num_days_from_monday() as i64 + d <= i32::MAX as i64,
            Recurrence::Once | Recurrence::BiWeekly => match alarm.get_start_date() {
                Some(s) => MIN_DAY as i64 <= s as i64 + d && s as i64 + d <= MAX_DAY as i64,
                None => true,
            },
            _ => true,
        },
        AlarmField::WarningOffset => {
            let cur: i64 = if alarm.trigger_offset_min <= 0x7fff_ffff {
                alarm.trigger_offset_min as i64
            } else {
                alarm.trigger_offset_min as i64 - 0x1_0000_0000
            };
            i32::MIN as i64 <= cur + d && cur + d <= i32::MAX as i64
        },
        _ => true,
    }
}

} // verus!
