//! What a key press does: in the alarm manager, in the face picker, and on
//! the clock itself. Terminal work (reading keys, prompting for a name,
//! saving) is left to the caller, which is told what to do.
use crate::alarm::ActiveAlarm;
use crate::config::{face_at, face_pos, next_face, prev_face, Alarm, Config, Face, Recurrence, FACE_COUNT, MAX_SCALE};
use crate::manager::{active_fields, adjust_defined, adjust_field, adjust_is_defined, adjusted, fields_of, AlarmField};
use crate::session::{move_selection, moved_selection};
use crate::matrix::usable_rows;
use crate::screen::{sat, CHROME_H};
use crate::seg7::{fit_text, fit_unit, largest_fit, lemma_units_bounds, units, width_spec};
use crate::text::{chars_eq_str, lower, lower_chars, owned, std_trim, trim};
use vstd::prelude::*;

verus! {

/// A key, as far as the clock tells keys apart.
#[derive(Clone, Copy, Debug, PartialEq, Eq, Structural)]
pub enum Key {
    Char(char),
    Left,
    Right,
    Up,
    Down,
    Enter,
    Esc,
    Tab,
    Backspace,
    Delete,
    Other,
}

/// The alarm manager's answer to a key.
#[derive(Debug)]
pub struct ManagerStep {
    /// The row still selected, or `None` when the manager closes.
    pub manager: Option<usize>,
    pub selected_col: usize,
    pub needs_clear: bool,
    /// The configuration changed and should be saved.
    pub save: bool,
    /// The caller should prompt for a new name for this row.
    pub edit_name: Option<usize>,
}

pub open spec fn min(a: int, b: int) -> int {
    if a < b { a } else { b }
}

/// The column kept when moving to row `row`: the old one, or the row's last.
pub open spec fn col_on_row(alarms: Seq<Alarm>, row: int, col: int) -> int {
    min(col, fields_of(alarms[row].recurrence).len() - 1)
}

/// Whether key `k` adjusts the focused field, and by how much.
pub open spec fn adjust_delta(k: Key) -> Option<i32> {
    match k {
        Key::Char(c) => if c == '+' || c == '=' { Some(1i32) } else if c == '-' { Some(-1i32) } else { None },
        _ => None,
    }
}

pub open spec fn is_delete(k: Key) -> bool {
    k == Key::Char('d') || k == Key::Char('x') || k == Key::Backspace || k == Key::Delete
}

/// A new alarm as the manager adds it: 08:00, once, starting `today`.
pub open spec fn fresh_alarm(a: Alarm, today: Seq<char>) -> bool {
    &&& a.name@ == "Alarm"@
    &&& a.time@ == "08:00"@
    &&& a.recurrence == Recurrence::Once
    &&& a.start_date@ == today
    &&& a.day_of_week is None
    &&& a.trigger_offset_min == 3
    &&& a.enabled
}

fn new_alarm(today: &str) -> (a: Alarm)
    ensures
        fresh_alarm(a, today@),
{
    Alarm {
        name: owned("Alarm"),
        time: owned("08:00"),
        recurrence: Recurrence::Once,
        start_date: owned(today),
        day_of_week: None,
        trigger_offset_min: 3,
        enabled: true,
    }
}

fn nav_step(alarms: &Vec<Alarm>, selected: usize, selected_col: usize, key: Key) -> (r: ManagerStep)
    requires
        alarms@.len() > 0,
        selected < alarms@.len(),
        selected_col < usize::MAX,
        key == Key::Up || key == Key::Down || key == Key::Left || key == Key::Right,
    ensures
        r.needs_clear == false && r.save == false && r.edit_name is None,
        key == Key::Up ==> {
            let ns = if selected == 0 { 0 } else { selected - 1 };
            r.manager == Some(ns as usize) && r.selected_col == col_on_row(alarms@, ns, selected_col as int)
        },
        key == Key::Down ==> {
            let ns = min(selected + 1, alarms@.len() - 1);
            r.manager == Some(ns as usize) && r.selected_col == col_on_row(alarms@, ns, selected_col as int)
        },
        key == Key::Left ==> {
            let m = fields_of(alarms@[selected as int].recurrence).len();
            r.selected_col == (if selected_col == 0 { m - 1 } else { selected_col - 1 }) && r.manager == Some(selected)
        },
        key == Key::Right ==> {
            let m = fields_of(alarms@[selected as int].recurrence).len();
            r.selected_col == (selected_col + 1) % (m as int) && r.manager == Some(selected)
        },
        r.manager matches Some(m) ==> m < alarms@.len(),
{
    let n = alarms.len();
    let ns = match key {
        Key::Up => if selected == 0 { 0 } else { selected - 1 },
        Key::Down => if selected + 1 < n - 1 { selected + 1 } else { n - 1 },
        _ => selected,
    };
    let m = active_fields(&alarms[ns]).len();
    let c = match key {
        Key::Up | Key::Down => if selected_col < m - 1 { selected_col } else { m - 1 },
        Key::Left => if selected_col == 0 { m - 1 } else { selected_col - 1 },
        _ => (selected_col + 1) % m,
    };
    ManagerStep { manager: Some(ns), selected_col: c, needs_clear: false, save: false, edit_name: None }
}

fn delete_step(cfg: &mut Config, selected: usize, selected_col: usize) -> (r: ManagerStep)
    requires
        selected < old(cfg).alarms@.len(),
    ensures
        final(cfg).alarms@ == old(cfg).alarms@.remove(selected as int),
        same_settings(*old(cfg), *final(cfg)),
        r.save && r.needs_clear && r.edit_name is None,
        if final(cfg).alarms@.len() == 0 {
            r.manager == Some(0usize) && r.selected_col == 0
        } else {
            let ns = min(selected as int, final(cfg).alarms@.len() - 1);
            r.manager == Some(ns as usize) && r.selected_col == col_on_row(final(cfg).alarms@, ns, selected_col as int)
        },
        r.manager matches Some(m) ==> final(cfg).alarms@.len() == 0 || m < final(cfg).alarms@.len(),
{
    cfg.alarms.remove(selected);
    let len = cfg.alarms.len();
    if len == 0 {
        return ManagerStep { manager: Some(0), selected_col: 0, needs_clear: true, save: true, edit_name: None };
    }
    let ns = if selected < len - 1 { selected } else { len - 1 };
    let m = active_fields(&cfg.alarms[ns]).len();
    ManagerStep {
        manager: Some(ns),
        selected_col: if selected_col < m - 1 { selected_col } else { m - 1 },
        needs_clear: true,
        save: true,
        edit_name: None,
    }
}

/// Everything but the alarms is as it was.
pub open spec fn same_settings(a: Config, b: Config) -> bool {
    &&& a.face == b.face
    &&& a.hour12 == b.hour12
    &&& a.show_seconds == b.show_seconds
    &&& a.show_date == b.show_date
    &&& a.blink_colon == b.blink_colon
    &&& a.tick_marks == b.tick_marks
    &&& a.scale == b.scale
    &&& a.color == b.color
    &&& a.accent_color == b.accent_color
    &&& a.ghost_segments == b.ghost_segments
    &&& a.second_step == b.second_step
    &&& a.alarm == b.alarm
}

/// The manager stays where it is and nothing needs doing.
pub open spec fn stays(r: ManagerStep, selected: usize, selected_col: usize) -> bool {
    &&& r.manager == Some(selected)
    &&& r.selected_col == selected_col
    &&& !r.needs_clear
    &&& !r.save
    &&& r.edit_name is None
}

/// Only alarm `i` may differ.
pub open spec fn only_row_changed(a: Seq<Alarm>, b: Seq<Alarm>, i: int) -> bool {
    &&& b.len() == a.len()
    &&& forall|j: int| 0 <= j < a.len() && j != i ==> #[trigger] b[j] == a[j]
}

/// Alarm `a` with its switch flipped.
pub open spec fn toggled(a: Alarm) -> Alarm {
    Alarm { enabled: !a.enabled, ..a }
}

/// What the manager does with a key on the focused field: adjust it, flip
/// the switch, or ask for a name.
pub open spec fn field_outcome(old: Config, new: Config, r: ManagerStep, selected: usize, selected_col: usize, key: Key) -> bool {
    let a = old.alarms@[selected as int];
    let fields = fields_of(a.recurrence);
    if selected_col >= fields.len() {
        stays(r, selected, selected_col) && new.alarms == old.alarms
    } else {
        let field = fields[selected_col as int];
        match adjust_delta(key) {
            Some(d) => if adjust_defined(a, field, d) {
                &&& r.manager == Some(selected) && r.selected_col == selected_col
                &&& r.save && !r.needs_clear && r.edit_name is None
                &&& only_row_changed(old.alarms@, new.alarms@, selected as int)
                &&& adjusted(a, new.alarms@[selected as int], field, d)
            } else {
                stays(r, selected, selected_col) && new.alarms == old.alarms
            },
            None => if (key == Key::Char(' ') || key == Key::Enter) && field is Name {
                &&& r.manager == Some(selected) && r.selected_col == selected_col
                &&& r.needs_clear && !r.save && r.edit_name == Some(selected)
                &&& new.alarms == old.alarms
            } else if (key == Key::Char(' ') || key == Key::Enter) && field is Enabled {
                &&& r.manager == Some(selected) && r.selected_col == selected_col
                &&& r.save && !r.needs_clear && r.edit_name is None
                &&& only_row_changed(old.alarms@, new.alarms@, selected as int)
                &&& new.alarms@[selected as int] == toggled(a)
            } else {
                stays(r, selected, selected_col) && new.alarms == old.alarms
            },
        }
    }
}

fn field_step(cfg: &mut Config, selected: usize, selected_col: usize, key: Key) -> (r: ManagerStep)
    requires
        selected < old(cfg).alarms@.len(),
    ensures
        same_settings(*old(cfg), *final(cfg)),
        field_outcome(*old(cfg), *final(cfg), r, selected, selected_col, key),
{
    let stay = ManagerStep { manager: Some(selected), selected_col, needs_clear: false, save: false, edit_name: None };
    let fields = active_fields(&cfg.alarms[selected]);
    if selected_col >= fields.len() {
        return stay;
    }
    let field = fields[selected_col];
    let delta: i32 = match key {
        Key::Char('+') | Key::Char('=') => 1,
        Key::Char('-') => -1,
        _ => 0,
    };
    if delta != 0 {
        if !adjust_is_defined(&cfg.alarms[selected], field, delta) {
            return stay;
        }
        let mut a = cfg.alarms.remove(selected);
        adjust_field(&mut a, field, delta);
        cfg.alarms.insert(selected, a);
        return ManagerStep { manager: Some(selected), selected_col, needs_clear: false, save: true, edit_name: None };
    }
    if key == Key::Char(' ') || key == Key::Enter {
        if field == AlarmField::Name {
            return ManagerStep { manager: Some(selected), selected_col, needs_clear: true, save: false, edit_name: Some(selected) };
        } else if field == AlarmField::Enabled {
            let mut a = cfg.alarms.remove(selected);
            a.enabled = !a.enabled;
            cfg.alarms.insert(selected, a);
            return ManagerStep { manager: Some(selected), selected_col, needs_clear: false, save: true, edit_name: None };
        }
    }
    stay
}

pub open spec fn is_arrow(k: Key) -> bool {
    k == Key::Up || k == Key::Down || k == Key::Left || k == Key::Right
}

/// Keys that act on the focused field: `+`, `=`, `-`, space and enter.
pub open spec fn is_field_key(k: Key) -> bool {
    adjust_delta(k) is Some || k == Key::Char(' ') || k == Key::Enter
}

/// The keys the alarm manager answers.
pub open spec fn handled(k: Key) -> bool {
    k == Key::Esc || k == Key::Char('q') || is_arrow(k) || is_field_key(k) || k == Key::Char('a') || is_delete(k)
}

/// Handles a key in the alarm manager, on row `selected` and column
/// `selected_col`. Arrows move the focus (up/down keep the column where
/// the new row has it, left/right wrap around the row), `+`/`=` and `-`
/// adjust the focused field, space or enter toggle the switch or ask for a
/// new name, `a` adds an alarm starting `today`, `d`/`x`/backspace/delete
/// remove the row, and esc or `q` close the manager. An adjustment that
/// would leave `chrono`'s date range is ignored.
pub fn manager_key(cfg: &mut Config, selected: usize, selected_col: usize, key: Key, today: &str) -> (r: ManagerStep)
    requires
        old(cfg).alarms@.len() == 0 || selected < old(cfg).alarms@.len(),
        old(cfg).alarms@.len() < usize::MAX,
        selected_col < usize::MAX,
    ensures
        same_settings(*old(cfg), *final(cfg)),
        (key == Key::Esc || key == Key::Char('q')) ==> r.manager is None && r.needs_clear && !r.save
            && r.edit_name is None && r.selected_col == selected_col && final(cfg).alarms == old(cfg).alarms,
        is_arrow(key) && old(cfg).alarms@.len() == 0 ==> stays(r, selected, selected_col)
            && final(cfg).alarms == old(cfg).alarms,
        is_arrow(key) && old(cfg).alarms@.len() > 0 ==> !r.needs_clear && !r.save && r.edit_name is None
            && final(cfg).alarms == old(cfg).alarms,
        key == Key::Up && old(cfg).alarms@.len() > 0 ==> {
            let ns = if selected == 0 { 0 } else { selected - 1 };
            &&& r.manager == Some(ns as usize)
            &&& r.selected_col == col_on_row(old(cfg).alarms@, ns, selected_col as int)
        },
        key == Key::Down && old(cfg).alarms@.len() > 0 ==> {
            let ns = min(selected + 1, old(cfg).alarms@.len() - 1);
            &&& r.manager == Some(ns as usize)
            &&& r.selected_col == col_on_row(old(cfg).alarms@, ns, selected_col as int)
        },
        key == Key::Left && old(cfg).alarms@.len() > 0 ==> {
            let m = fields_of(old(cfg).alarms@[selected as int].recurrence).len();
            r.selected_col == (if selected_col == 0 { m - 1 } else { selected_col - 1 }) && r.manager == Some(selected)
        },
        key == Key::Right && old(cfg).alarms@.len() > 0 ==> {
            let m = fields_of(old(cfg).alarms@[selected as int].recurrence).len();
            r.selected_col == (selected_col + 1) % (m as int) && r.manager == Some(selected)
        },
        is_field_key(key) && old(cfg).alarms@.len() == 0 ==> stays(r, selected, selected_col)
            && final(cfg).alarms == old(cfg).alarms,
        is_field_key(key) && old(cfg).alarms@.len() > 0 ==> field_outcome(*old(cfg), *final(cfg), r, selected, selected_col, key),
        key == Key::Char('a') ==> {
            &&& final(cfg).alarms@.len() == old(cfg).alarms@.len() + 1
            &&& forall|i: int| 0 <= i < old(cfg).alarms@.len() ==> #[trigger] final(cfg).alarms@[i] == old(cfg).alarms@[i]
            &&& fresh_alarm(final(cfg).alarms@.last(), today@)
            &&& r.manager == Some(old(cfg).alarms@.len() as usize)
            &&& r.selected_col == 0 && r.save && r.needs_clear && r.edit_name is None
        },
        is_delete(key) && selected >= old(cfg).alarms@.len() ==> stays(r, selected, selected_col)
            && final(cfg).alarms == old(cfg).alarms,
        is_delete(key) && selected < old(cfg).alarms@.len() ==> {
            &&& final(cfg).alarms@ == old(cfg).alarms@.remove(selected as int)
            &&& r.save && r.needs_clear && r.edit_name is None
            &&& if final(cfg).alarms@.len() == 0 {
                r.manager == Some(0usize) && r.selected_col == 0
            } else {
                let ns = min(selected as int, final(cfg).alarms@.len() - 1);
                r.manager == Some(ns as usize) && r.selected_col == col_on_row(final(cfg).alarms@, ns, selected_col as int)
            }
        },
        !handled(key) ==> stays(r, selected, selected_col) && final(cfg).alarms == old(cfg).alarms,
        r.manager matches Some(m) ==> final(cfg).alarms@.len() == 0 || m < final(cfg).alarms@.len(),
{
    let n = cfg.alarms.len();
    let stay = ManagerStep { manager: Some(selected), selected_col, needs_clear: false, save: false, edit_name: None };
    if key == Key::Esc || key == Key::Char('q') {
        return ManagerStep { manager: None, selected_col, needs_clear: true, save: false, edit_name: None };
    }
    if key == Key::Up || key == Key::Down || key == Key::Left || key == Key::Right {
        if n == 0 {
            return stay;
        }
        return nav_step(&cfg.alarms, selected, selected_col, key);
    }
    if key == Key::Char('a') {
        cfg.alarms.push(new_alarm(today));
        return ManagerStep { manager: Some(n), selected_col: 0, needs_clear: true, save: true, edit_name: None };
    }
    if key == Key::Char('d') || key == Key::Char('x') || key == Key::Backspace || key == Key::Delete {
        if selected >= n {
            return stay;
        }
        return delete_step(cfg, selected, selected_col);
    }
    if n == 0 || selected >= n {
        return stay;
    }
    field_step(cfg, selected, selected_col, key)
}

/// The face picker's answer to a key.
#[derive(Debug)]
pub struct PickerStep {
    /// The selected cell, or `None` when the picker closes.
    pub picker: Option<usize>,
    /// The face chosen with enter.
    pub chosen: Option<Face>,
    pub needs_clear: bool,
}

/// Handles a key in the face picker: arrows move the selection, enter
/// picks the selected face, esc or `q` cancel.
pub fn picker_key(selected: usize, key: Key) -> (r: PickerStep)
    requires
        selected < FACE_COUNT,
    ensures
        (key == Key::Esc || key == Key::Char('q')) ==> r.picker is None && r.chosen is None && r.needs_clear,
        key == Key::Enter ==> r.picker is None && r.chosen == Some(face_at(selected as int)) && r.needs_clear,
        key == Key::Left ==> r.picker == Some(moved_selection(selected as int, -1, 0) as usize) && r.chosen is None,
        key == Key::Right ==> r.picker == Some(moved_selection(selected as int, 1, 0) as usize) && r.chosen is None,
        key == Key::Up ==> r.picker == Some(moved_selection(selected as int, 0, -1) as usize) && r.chosen is None,
        key == Key::Down ==> r.picker == Some(moved_selection(selected as int, 0, 1) as usize) && r.chosen is None,
        !(key == Key::Esc || key == Key::Char('q') || key == Key::Enter || key == Key::Left || key == Key::Right
            || key == Key::Up || key == Key::Down) ==> r.picker == Some(selected) && r.chosen is None && !r.needs_clear,
{
    match key {
        Key::Esc | Key::Char('q') => PickerStep { picker: None, chosen: None, needs_clear: true },
        Key::Enter => PickerStep { picker: None, chosen: Some(Face::from_index(selected)), needs_clear: true },
        Key::Left => PickerStep { picker: Some(move_selection(selected, -1, 0)), chosen: None, needs_clear: false },
        Key::Right => PickerStep { picker: Some(move_selection(selected, 1, 0)), chosen: None, needs_clear: false },
        Key::Up => PickerStep { picker: Some(move_selection(selected, 0, -1)), chosen: None, needs_clear: false },
        Key::Down => PickerStep { picker: Some(move_selection(selected, 0, 1)), chosen: None, needs_clear: false },
        _ => PickerStep { picker: Some(selected), chosen: None, needs_clear: false },
    }
}

/// The color presets cycled with `c`.
pub open spec fn preset(i: int) -> Seq<char> {
    if i == 0 { "#38d9e8"@ }
    else if i == 1 { "#10b981"@ }
    else if i == 2 { "#f59e0b"@ }
    else if i == 3 { "#ef4444"@ }
    else if i == 4 { "#a855f7"@ }
    else if i == 5 { "#3b82f6"@ }
    else { "#ffffff"@ }
}

/// The position of a (trimmed, lower-cased) color among the presets; 0
/// for any other color.
pub open spec fn preset_index(l: Seq<char>) -> int {
    if l == "#38d9e8"@ { 0 }
    else if l == "#10b981"@ { 1 }
    else if l == "#f59e0b"@ { 2 }
    else if l == "#ef4444"@ { 3 }
    else if l == "#a855f7"@ { 4 }
    else if l == "#3b82f6"@ { 5 }
    else if l == "#ffffff"@ { 6 }
    else { 0 }
}

fn preset_exec(i: usize) -> (s: &'static str)
    requires
        i < 7,
    ensures
        s@ == preset(i as int),
{
    if i == 0 { "#38d9e8" }
    else if i == 1 { "#10b981" }
    else if i == 2 { "#f59e0b" }
    else if i == 3 { "#ef4444" }
    else if i == 4 { "#a855f7" }
    else if i == 5 { "#3b82f6" }
    else { "#ffffff" }
}

/// The preset after the current color.
pub fn next_preset(color: &str) -> (s: String)
    ensures
        s@ == preset((preset_index(lower(std_trim(color@))) + 1) % 7),
{
    let l = lower_chars(trim(color));
    let mut idx: usize = 0;
    if chars_eq_str(&l, "#38d9e8") { idx = 0; }
    else if chars_eq_str(&l, "#10b981") { idx = 1; }
    else if chars_eq_str(&l, "#f59e0b") { idx = 2; }
    else if chars_eq_str(&l, "#ef4444") { idx = 3; }
    else if chars_eq_str(&l, "#a855f7") { idx = 4; }
    else if chars_eq_str(&l, "#3b82f6") { idx = 5; }
    else if chars_eq_str(&l, "#ffffff") { idx = 6; }
    owned(preset_exec((idx + 1) % 7))
}

/// The size after `+`: one larger, at most `MAX_SCALE`.
pub open spec fn grown(cur: int) -> int {
    min(cur + 1, MAX_SCALE as int)
}

/// The size after `-`: one smaller, at least 1.
pub open spec fn shrunk(cur: int) -> int {
    if cur <= 1 { 1 } else { cur - 1 }
}

/// The clock's answer to a key.
#[derive(Debug)]
pub struct MainStep {
    pub quit: bool,
    /// Open the face picker with this cell selected.
    pub picker: Option<usize>,
    /// Open the alarm manager on this row.
    pub manager: Option<usize>,
    pub needs_clear: bool,
}

/// The scale on screen: the pinned one, or when auto-sizing, `fitted` (the
/// size the current terminal fits).
pub fn current_scale(cfg: &Config, fitted: u8) -> (s: u8)
    ensures
        s == (if cfg.scale != 0 { cfg.scale } else { fitted }),
{
    if !cfg.is_auto_scale() {
        cfg.scale
    } else {
        fitted
    }
}

/// Handles a key on the clock: `q`/esc/ctrl-c quit; left/right cycle the
/// face; tab opens the picker on the current face; `a` opens the alarm
/// manager; `t` toggles 12/24h; `c` cycles the color presets; `s` toggles
/// seconds; `0` returns to auto size; `+`/`=` and `-` grow or shrink the
/// size on screen (`fitted` when auto-sizing) within 1..=9.
pub fn main_key(cfg: &mut Config, key: Key, ctrl: bool, fitted: u8) -> (r: MainStep)
    requires
        (key == Key::Char('+') || key == Key::Char('=')) ==> (if old(cfg).scale != 0 { old(cfg).scale < 255 } else { fitted < 255 }),
    ensures
        r.quit == (key == Key::Char('q') || key == Key::Esc || (key == Key::Char('c') && ctrl)),
        key == Key::Char('a') ==> r.manager == Some(0usize) && r.needs_clear,
        key == Key::Left ==> final(cfg).face == prev_face(old(cfg).face) && r.needs_clear,
        key == Key::Right ==> final(cfg).face == next_face(old(cfg).face) && r.needs_clear,
        key == Key::Tab ==> r.picker == Some(face_pos(old(cfg).face) as usize) && r.needs_clear,
        key == Key::Char('t') ==> final(cfg).hour12 == !old(cfg).hour12,
        key == Key::Char('c') && !ctrl ==> final(cfg).color@ == preset((preset_index(lower(std_trim(old(cfg).color@))) + 1) % 7) && r.needs_clear,
        key == Key::Char('s') ==> final(cfg).show_seconds == !old(cfg).show_seconds && r.needs_clear,
        key == Key::Char('0') ==> final(cfg).scale == 0 && r.needs_clear,
        (key == Key::Char('+') || key == Key::Char('=')) ==> {
            final(cfg).scale == grown(if old(cfg).scale != 0 { old(cfg).scale as int } else { fitted as int })
                && r.needs_clear
        },
        key == Key::Char('-') ==> {
            final(cfg).scale == shrunk(if old(cfg).scale != 0 { old(cfg).scale as int } else { fitted as int })
                && r.needs_clear
        },
        key != Key::Left && key != Key::Right ==> final(cfg).face == old(cfg).face,
        key != Key::Char('t') ==> final(cfg).hour12 == old(cfg).hour12,
        key != Key::Char('s') ==> final(cfg).show_seconds == old(cfg).show_seconds,
        !(key == Key::Char('c') && !ctrl) ==> final(cfg).color == old(cfg).color,
        !(key == Key::Char('0') || key == Key::Char('+') || key == Key::Char('=') || key == Key::Char('-')) ==> final(cfg).scale == old(cfg).scale,
        final(cfg).alarms == old(cfg).alarms,
        final(cfg).show_date == old(cfg).show_date,
        final(cfg).blink_colon == old(cfg).blink_colon,
        final(cfg).tick_marks == old(cfg).tick_marks,
        final(cfg).accent_color == old(cfg).accent_color,
        final(cfg).ghost_segments == old(cfg).ghost_segments,
        final(cfg).second_step == old(cfg).second_step,
        final(cfg).alarm == old(cfg).alarm,
        r.needs_clear == (!r.quit && (key == Key::Left || key == Key::Right || key == Key::Tab || key == Key::Char('a')
            || key == Key::Char('c') || key == Key::Char('s') || key == Key::Char('0') || key == Key::Char('+')
            || key == Key::Char('=') || key == Key::Char('-'))),
        !(key == Key::Tab) ==> r.picker is None,
        !(key == Key::Char('a')) ==> r.manager is None,
{
    let none = MainStep { quit: false, picker: None, manager: None, needs_clear: false };
    let clear = MainStep { quit: false, picker: None, manager: None, needs_clear: true };
    match key {
        Key::Char('q') | Key::Esc => MainStep { quit: true, picker: None, manager: None, needs_clear: false },
        Key::Char('c') if ctrl => MainStep { quit: true, picker: None, manager: None, needs_clear: false },
        Key::Char('a') => MainStep { quit: false, picker: None, manager: Some(0), needs_clear: true },
        Key::Left => {
            cfg.face = cfg.face.prev();
            clear
        },
        Key::Right => {
            cfg.face = cfg.face.next();
            clear
        },
        Key::Tab => MainStep { quit: false, picker: Some(cfg.face.index()), manager: None, needs_clear: true },
        Key::Char('t') => {
            cfg.hour12 = !cfg.hour12;
            none
        },
        Key::Char('c') => {
            cfg.color = next_preset(cfg.color.as_str());
            clear
        },
        Key::Char('s') => {
            cfg.show_seconds = !cfg.show_seconds;
            clear
        },
        Key::Char('0') => {
            cfg.scale = 0;
            clear
        },
        Key::Char('+') | Key::Char('=') => {
            let cur = current_scale(cfg, fitted);
            cfg.scale = if cur + 1 < MAX_SCALE { cur + 1 } else { MAX_SCALE };
            clear
        },
        Key::Char('-') => {
            let cur = current_scale(cfg, fitted);
            cfg.scale = if cur <= 1 { 1 } else { cur - 1 };
            clear
        },
        _ => none,
    }
}

/// Dismisses the ringing alarm occurrence, if any: it is remembered as
/// dismissed, and a one-off alarm is switched off. Returns whether the
/// configuration changed and should be saved.
pub fn dismiss_alarm(cfg: &mut Config, active: Option<ActiveAlarm>, dismissed: &mut Vec<(usize, i32)>) -> (save: bool)
    requires
        active matches Some(a) ==> a.index < old(cfg).alarms@.len(),
    ensures
        match active {
            Some(a) => {
                let was = old(cfg).alarms@[a.index as int];
                &&& final(dismissed)@ == old(dismissed)@.push((a.index, a.candidate_date))
                &&& save == (was.recurrence is Once)
                &&& only_row_changed(old(cfg).alarms@, final(cfg).alarms@, a.index as int)
                &&& final(cfg).alarms@[a.index as int] == (if save { Alarm { enabled: false, ..was } } else { was })
            },
            None => !save && final(dismissed)@ == old(dismissed)@ && final(cfg).alarms == old(cfg).alarms,
        },
        same_settings(*old(cfg), *final(cfg)),
{
    match active {
        Some(a) => {
            dismissed.push((a.index, a.candidate_date));
            if cfg.alarms[a.index].recurrence == Recurrence::Once {
                let mut al = cfg.alarms.remove(a.index);
                al.enabled = false;
                cfg.alarms.insert(a.index, al);
                true
            } else {
                false
            }
        },
        None => false,
    }
}

/// Whether to sound the bell: on even seconds while an alarm rings, once
/// per second.
pub fn should_beep(alarm_active: bool, second: u32, last_beep_second: Option<u32>) -> (b: bool)
    ensures
        b == (alarm_active && second % 2 == 0 && last_beep_second != Some(second)),
{
    alarm_active && second % 2 == 0 && !(last_beep_second == Some(second))
}

/// The size auto-sizing puts on screen in a terminal `term_w` by `term_h`:
/// the largest seven-segment unit up to `MAX_SCALE` at which the time
/// `text` (sized with `":00"` added when seconds are hidden) fits the width
/// and the rows left below the chrome and the suffix and date lines; 1 when
/// none does.
pub fn fitted_scale(text: &str, has_suffix: bool, show_date: bool, show_seconds: bool, term_w: u16, term_h: u16) -> (s: u8)
    requires
        81 * (text@.len() + 3) <= usize::MAX,
    ensures
        1 <= s <= MAX_SCALE,
        largest_fit(
            fit_text(text@, show_seconds),
            s as int,
            term_w as int,
            sat(sat(term_h - CHROME_H) - ((if has_suffix { 2int } else { 0 }) + (if show_date { 2int } else { 0 }))),
            MAX_SCALE as int,
        ),
{
    let avail_h = term_h.saturating_sub(CHROME_H) as usize;
    let usable = usable_rows(avail_h, has_suffix, show_date);
    proof {
        let t = fit_text(text@, show_seconds);
        lemma_units_bounds(t);
        assert(t.len() <= text@.len() + 3);
        assert(width_spec(t, 9) <= 81 * (text@.len() + 3)) by (nonlinear_arith)
            requires
                width_spec(t, 9) == (if t.len() == 0 { 0 } else { 9 * (units(t) + t.len() - 1) }),
                units(t) <= 8 * t.len(),
                t.len() <= text@.len() + 3,
        ;
    }
    let u = fit_unit(text, show_seconds, term_w as usize, usable, MAX_SCALE as usize);
    u as u8
}

} // verus!
