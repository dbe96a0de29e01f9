//! The `alarm` subcommands: listing, adding, removing, clearing, enabling
//! and disabling alarms. The caller prints the lines and saves when told.
use crate::calendar::{chrono_date_of, parse_iso_date};
use crate::config::{recurrence_name, Alarm, Config, Recurrence};
use crate::numparse::{dec_value, is_digit};
use crate::text::{owned, push_char};
use vstd::prelude::*;
use vstd::utf8::encode_utf8;

verus! {

/// An `alarm` subcommand.
#[derive(Debug)]
pub enum AlarmAction {
    List,
    Add { time: String, name: String, recurrence: Recurrence, start_date: Option<String> },
    Remove { index: usize },
    Clear,
    Enable { index: usize },
    Disable { index: usize },
}

/// What a subcommand prints, and whether the configuration must be saved.
#[derive(Debug)]
pub struct AlarmReport {
    pub lines: Vec<String>,
    pub save: bool,
}

/// A refused subcommand, with the message shown.
#[derive(Debug)]
pub struct CliError {
    pub message: String,
}

/// The decimal digits of `n`.
pub open spec fn dec_text(n: nat) -> Seq<char>
    decreases n,
{
    if n < 10 {
        seq![(n + 48) as char]
    } else {
        dec_text(n / 10).push((n % 10 + 48) as char)
    }
}

pub open spec fn spaces(n: int) -> Seq<char> {
    Seq::new(if n < 0 { 0 } else { n as nat }, |i: int| ' ')
}

/// `{:<w}`: the text padded with spaces to width `w`.
pub open spec fn padded(t: Seq<char>, w: int) -> Seq<char> {
    t + spaces(w - t.len())
}

/// One row of the alarm table.
pub open spec fn table_row(a: Seq<char>, b: Seq<char>, c: Seq<char>, d: Seq<char>, e: Seq<char>, f: Seq<char>) -> Seq<char> {
    padded(a, 5) + " "@ + padded(b, 15) + " "@ + padded(c, 10) + " "@ + padded(d, 12) + " "@ + padded(e, 12) + " "@
        + padded(f, 8)
}

pub open spec fn status_text(enabled: bool) -> Seq<char> {
    if enabled { "Enabled"@ } else { "Disabled"@ }
}

/// The table row of alarm `i`.
pub open spec fn alarm_row(i: int, a: Alarm) -> Seq<char> {
    table_row(dec_text(i as nat), a.name@, a.time@, recurrence_name(a.recurrence), a.start_date@, status_text(a.enabled))
}

pub open spec fn count_char(s: Seq<char>, c: char) -> nat
    decreases s.len(),
{
    if s.len() == 0 {
        0
    } else {
        count_char(s.drop_last(), c) + if s.last() == c { 1nat } else { 0nat }
    }
}

/// Why a new alarm's time or start date is refused, if it is: the time
/// must be two ASCII digits, a colon and two ASCII digits, an hour 0-23
/// and a minute 0-59, and the start date, if given, a `"YYYY-MM-DD"` date.
pub open spec fn add_refusal(time: Seq<char>, start: Option<Seq<char>>) -> Option<Seq<char>> {
    if encode_utf8(time).len() != 5 || !time.contains(':') {
        Some("Time must be in \"HH:MM\" 24-hour format."@)
    } else if count_char(time, ':') != 1 || time.len() != 5 || time[2] != ':' {
        Some("Time must be in \"HH:MM\" format."@)
    } else if !(is_digit(time[0]) && is_digit(time[1])) {
        Some("Invalid hour"@)
    } else if !(is_digit(time[3]) && is_digit(time[4])) {
        Some("Invalid minute"@)
    } else if dec_value(time.subrange(0, 2)) >= 24 || dec_value(time.subrange(3, 5)) >= 60 {
        Some("Hour must be 0-23 and minute 0-59."@)
    } else if start matches Some(d) && chrono_date_of(d) is None {
        Some("Start date must be in \"YYYY-MM-DD\" format."@)
    } else {
        None
    }
}

pub open spec fn opt_seq(o: Option<String>) -> Option<Seq<char>> {
    match o {
        Some(s) => Some(s@),
        None => None,
    }
}

/// The lines `alarm list` prints for these alarms: a note when there are
/// none, else a header, a rule and one row per alarm.
pub open spec fn listing(alarms: Seq<Alarm>, v: Seq<Seq<char>>) -> bool {
    if alarms.len() == 0 {
        v == seq!["No alarms configured."@]
    } else {
        &&& v.len() == alarms.len() + 2
        &&& v[0] == table_row("ID"@, "Name"@, "Time"@, "Recurrence"@, "Start Date"@, "Status"@)
        &&& v[1] == Seq::new(65, |i: int| '-')
        &&& forall|i: int| 0 <= i < alarms.len() ==> #[trigger] v[i + 2] == alarm_row(i, alarms[i])
    }
}

pub open spec fn texts(v: Seq<String>) -> Seq<Seq<char>> {
    v.map_values(|s: String| s@)
}

/// `"Invalid alarm index: {index}."`
pub open spec fn index_error_text(index: nat) -> Seq<char> {
    "Invalid alarm index: "@ + dec_text(index) + "."@
}

/// `"Alarm {index} enabled."` or `"... disabled."`
pub open spec fn switched_text(index: nat, on: bool) -> Seq<char> {
    "Alarm "@ + dec_text(index) + if on { " enabled."@ } else { " disabled."@ }
}

/// Every setting but the alarms is as it was.
pub open spec fn settings_kept(a: Config, b: Config) -> bool {
    &&& a.face == b.face
    &&& a.hour12 == b.hour12
    &&& a.show_seconds == b.show_seconds
    &&& a.show_date == b.show_date
    &&& a.blink_colon == b.blink_colon
    &&& a.tick_marks == b.tick_marks
    &&& a.scale == b.scale
    &&& a.color == b.color
    &&& a.accent_color == b.accent_color
    &&& a.ghost_segments == b.ghost_segments
    &&& a.second_step == b.second_step
    &&& a.alarm == b.alarm
}

/// Appends the decimal digits of `n`.
pub fn push_decimal(s: &mut String, n: usize)
    ensures
        final(s)@ == old(s)@ + dec_text(n as nat),
    decreases n,
{
    if n >= 10 {
        push_decimal(s, n / 10);
    }
    let d: u8 = (n % 10) as u8 + 48;
    push_char(s, d as char);
    proof {
        if n >= 10 {
            assert(s@ =~= old(s)@ + dec_text(n as nat));
        } else {
            assert(s@ =~= old(s)@ + dec_text(n as nat));
        }
    }
}

pub(crate) fn push_padded(s: &mut String, t: &str, w: usize)
    ensures
        final(s)@ == old(s)@ + padded(t@, w as int),
{
    s.append(t);
    let n = t.unicode_len();
    let mut k = n;
    while k < w
        invariant
            n == t@.len(),
            n <= k,
            k <= w || n > w,
            n > w ==> k == n,
            s@ == old(s)@ + t@ + spaces(k - n),
        decreases w - k,
    {
        push_char(s, ' ');
        assert(spaces(k + 1 - n) =~= spaces(k - n).push(' '));
        k += 1;
    }
    if n <= w {
        assert(k == w);
    } else {
        assert(spaces(k - n) =~= Seq::<char>::empty());
        assert(spaces(w - n) =~= Seq::<char>::empty());
    }
}

fn row(a: &str, b: &str, c: &str, d: &str, e: &str, f: &str) -> (s: String)
    ensures
        s@ == table_row(a@, b@, c@, d@, e@, f@),
{
    let mut s = String::new();
    push_padded(&mut s, a, 5);
    s.append(" ");
    push_padded(&mut s, b, 15);
    s.append(" ");
    push_padded(&mut s, c, 10);
    s.append(" ");
    push_padded(&mut s, d, 12);
    s.append(" ");
    push_padded(&mut s, e, 12);
    s.append(" ");
    push_padded(&mut s, f, 8);
    assert(s@ =~= table_row(a@, b@, c@, d@, e@, f@));
    s
}

/// The lines of `alarm list`.
pub fn list_lines(cfg: &Config) -> (v: Vec<String>)
    ensures
        listing(cfg.alarms@, texts(v@)),
{
    let mut v: Vec<String> = Vec::new();
    if cfg.alarms.len() == 0 {
        v.push(owned("No alarms configured."));
        assert(texts(v@) =~= seq!["No alarms configured."@]);
        return v;
    }
    v.push(row("ID", "Name", "Time", "Recurrence", "Start Date", "Status"));
    let mut dash = String::new();
    let mut k: usize = 0;
    while k < 65
        invariant
            k <= 65,
            dash@ == Seq::new(k as nat, |i: int| '-'),
        decreases 65 - k,
    {
        push_char(&mut dash, '-');
        assert(dash@ =~= Seq::new((k + 1) as nat, |i: int| '-'));
        k += 1;
    }
    v.push(dash);
    let mut i: usize = 0;
    while i < cfg.alarms.len()
        invariant
            i <= cfg.alarms@.len(),
            v@.len() == i + 2,
            v@[0]@ == table_row("ID"@, "Name"@, "Time"@, "Recurrence"@, "Start Date"@, "Status"@),
            v@[1]@ == Seq::new(65, |i: int| '-'),
            forall|j: int| 0 <= j < i ==> (#[trigger] v@[j + 2])@ == alarm_row(j, cfg.alarms@[j]),
        decreases cfg.alarms@.len() - i,
    {
        let a = &cfg.alarms[i];
        let mut idx = String::new();
        push_decimal(&mut idx, i);
        let status = if a.enabled { "Enabled" } else { "Disabled" };
        let line = row(idx.as_str(), a.name.as_str(), a.time.as_str(), a.recurrence.name(), a.start_date.as_str(), status);
        v.push(line);
        i += 1;
    }
    assert(listing(cfg.alarms@, texts(v@)));
    v
}

fn count_colons(t: &str) -> (r: (usize, usize))
    ensures
        r.0 == count_char(t@, ':'),
        r.0 >= 1 ==> r.1 < t@.len() && t@[r.1 as int] == ':',
        r.0 == 1 ==> forall|k: int| 0 <= k < t@.len() && t@[k] == ':' ==> k == r.1,
{
    let n = t.unicode_len();
    let mut count: usize = 0;
    let mut at: usize = 0;
    let mut i: usize = 0;
    while i < n
        invariant
            n == t@.len(),
            i <= n,
            count == count_char(t@.subrange(0, i as int), ':'),
            count <= i,
            count >= 1 ==> at < i && t@[at as int] == ':',
            count >= 1 ==> forall|k: int| 0 <= k < at ==> t@[k] != ':',
            count == 1 ==> forall|k: int| 0 <= k < i && t@[k] == ':' ==> k == at,
            count == 0 ==> forall|k: int| 0 <= k < i ==> t@[k] != ':',
        decreases n - i,
    {
        assert(t@.subrange(0, i + 1).drop_last() == t@.subrange(0, i as int));
        if t.get_char(i) == ':' {
            if count == 0 {
                at = i;
            }
            count += 1;
        }
        i += 1;
    }
    assert(t@.subrange(0, n as int) == t@);
    (count, at)
}

/// Checks a new alarm's time and start date; the message when refused.
pub fn check_new_alarm(time: &str, start_date: &Option<String>) -> (r: Option<String>)
    ensures
        match r {
            Some(m) => add_refusal(time@, opt_seq(*start_date)) == Some(m@),
            None => add_refusal(time@, opt_seq(*start_date)) is None,
        },
{
    let (count, at) = count_colons(time);
    if time.as_bytes().len() != 5 || count == 0 {
        proof {
            if count == 0 {
                assert forall|k: int| 0 <= k < time@.len() implies time@[k] != ':' by {
                    lemma_count_zero(time@, ':', k);
                }
            }
        }
        return Some(owned("Time must be in \"HH:MM\" 24-hour format."));
    }
    assert(time@[at as int] == ':');
    assert(time@.contains(':'));
    assert(encode_utf8(time@).len() == 5);
    if count != 1 || time.unicode_len() != 5 || time.get_char(2) != ':' {
        return Some(owned("Time must be in \"HH:MM\" format."));
    }
    let c0 = time.get_char(0);
    let c1 = time.get_char(1);
    let c3 = time.get_char(3);
    let c4 = time.get_char(4);
    if !('0' <= c0 && c0 <= '9' && '0' <= c1 && c1 <= '9') {
        return Some(owned("Invalid hour"));
    }
    if !('0' <= c3 && c3 <= '9' && '0' <= c4 && c4 <= '9') {
        return Some(owned("Invalid minute"));
    }
    let h = (c0 as u32 - 48) * 10 + (c1 as u32 - 48);
    let m = (c3 as u32 - 48) * 10 + (c4 as u32 - 48);
    proof {
        reveal_with_fuel(dec_value, 3);
        let hs = time@.subrange(0, 2);
        let ms = time@.subrange(3, 5);
        assert(hs.last() == c1 && ms.last() == c4);
        assert(seq![c0].last() == c0 && seq![c3].last() == c3);
        assert(hs.drop_last() =~= seq![c0]);
        assert(seq![c0].drop_last() =~= Seq::<char>::empty());
        assert(ms.drop_last() =~= seq![c3]);
        assert(seq![c3].drop_last() =~= Seq::<char>::empty());
        assert(dec_value(hs) == h);
        assert(dec_value(ms) == m);
    }
    if h >= 24 || m >= 60 {
        Some(owned("Hour must be 0-23 and minute 0-59."))
    } else {
        match start_date {
            Some(d) => if parse_iso_date(d.as_str()).is_none() {
                Some(owned("Start date must be in \"YYYY-MM-DD\" format."))
            } else {
                None
            },
            None => None,
        }
    }
}

proof fn lemma_count_zero(s: Seq<char>, c: char, k: int)
    requires
        count_char(s, c) == 0,
        0 <= k < s.len(),
    ensures
        s[k] != c,
    decreases s.len(),
{
    if k < s.len() - 1 {
        assert(s.drop_last()[k] == s[k]);
        lemma_count_zero(s.drop_last(), c, k);
    }
}

/// What `alarm enable` (`on`) or `alarm disable` does: refuses an index
/// past the end, else sets that alarm's switch and reports it.
pub open spec fn switched(old: Config, new: Config, r: Result<AlarmReport, CliError>, index: usize, on: bool) -> bool {
    if index >= old.alarms@.len() {
        r matches Err(e) && e.message@ == index_error_text(index as nat) && new.alarms == old.alarms
    } else {
        &&& r matches Ok(rep) && rep.save && texts(rep.lines@) == seq![switched_text(index as nat, on)]
        &&& new.alarms@.len() == old.alarms@.len()
        &&& new.alarms@[index as int] == Alarm { enabled: on, ..old.alarms@[index as int] }
        &&& forall|i: int| 0 <= i < old.alarms@.len() && i != index ==> #[trigger] new.alarms@[i] == old.alarms@[i]
    }
}

/// Runs an `alarm` subcommand on the configuration. `today` is the start
/// date a new alarm gets when none is given. Adding checks that the time is
/// two ASCII digits, a colon and two ASCII digits, with hour 0-23 and
/// minute 0-59, and that the start date, if given, is a `"YYYY-MM-DD"`
/// date; the new alarm warns 3 minutes ahead and is enabled. An index past
/// the end is refused.
pub fn run_alarm(action: AlarmAction, cfg: &mut Config, today: &str) -> (r: Result<AlarmReport, CliError>)
    ensures
        settings_kept(*old(cfg), *final(cfg)),
        match action {
            AlarmAction::List => {
                &&& r matches Ok(rep) && !rep.save
                &&& r matches Ok(rep) && listing(old(cfg).alarms@, texts(rep.lines@))
                &&& final(cfg).alarms == old(cfg).alarms
            },
            AlarmAction::Add { time, name, recurrence, start_date } => match add_refusal(time@, opt_seq(start_date)) {
                Some(msg) => r matches Err(e) && e.message@ == msg && final(cfg).alarms == old(cfg).alarms,
                None => {
                    &&& r matches Ok(rep) && rep.save && texts(rep.lines@) == seq!["Alarm added successfully."@]
                    &&& final(cfg).alarms@.drop_last() == old(cfg).alarms@
                    &&& final(cfg).alarms@.len() == old(cfg).alarms@.len() + 1
                    &&& final(cfg).alarms@.last() == Alarm {
                        name,
                        time,
                        recurrence,
                        start_date: final(cfg).alarms@.last().start_date,
                        day_of_week: None,
                        trigger_offset_min: 3,
                        enabled: true,
                    }
                    &&& final(cfg).alarms@.last().start_date@ == (match start_date { Some(d) => d@, None => today@ })
                },
            },
            AlarmAction::Remove { index } => if index >= old(cfg).alarms@.len() {
                r matches Err(e) && e.message@ == index_error_text(index as nat) && final(cfg).alarms == old(cfg).alarms
            } else {
                &&& r matches Ok(rep) && rep.save && texts(rep.lines@) == seq!["Alarm removed."@]
                &&& final(cfg).alarms@ == old(cfg).alarms@.remove(index as int)
            },
            AlarmAction::Clear => r matches Ok(rep) && rep.save && texts(rep.lines@) == seq!["All alarms cleared."@]
                && final(cfg).alarms@.len() == 0,
            AlarmAction::Enable { index } => switched(*old(cfg), *final(cfg), r, index, true),
            AlarmAction::Disable { index } => switched(*old(cfg), *final(cfg), r, index, false),
        },
{
    match action {
        AlarmAction::List => {
            let lines = list_lines(cfg);
            Ok(AlarmReport { lines, save: false })
        },
        AlarmAction::Add { time, name, recurrence, start_date } => add_alarm(cfg, time, name, recurrence, start_date, today),
        AlarmAction::Remove { index } => {
            if index >= cfg.alarms.len() {
                return Err(CliError { message: index_error(index) });
            }
            cfg.alarms.remove(index);
            let mut lines: Vec<String> = Vec::new();
            lines.push(owned("Alarm removed."));
            assert(texts(lines@) =~= seq!["Alarm removed."@]);
            Ok(AlarmReport { lines, save: true })
        },
        AlarmAction::Clear => {
            cfg.alarms = Vec::new();
            let mut lines: Vec<String> = Vec::new();
            lines.push(owned("All alarms cleared."));
            assert(texts(lines@) =~= seq!["All alarms cleared."@]);
            Ok(AlarmReport { lines, save: true })
        },
        AlarmAction::Enable { index } => switch_alarm(cfg, index, true),
        AlarmAction::Disable { index } => switch_alarm(cfg, index, false),
    }
}

fn add_alarm(cfg: &mut Config, time: String, name: String, recurrence: Recurrence, start_date: Option<String>, today: &str) -> (r: Result<AlarmReport, CliError>)
    ensures
        settings_kept(*old(cfg), *final(cfg)),
        match add_refusal(time@, opt_seq(start_date)) {
            Some(msg) => r matches Err(e) && e.message@ == msg && final(cfg).alarms == old(cfg).alarms,
            None => {
                &&& r matches Ok(rep) && rep.save && texts(rep.lines@) == seq!["Alarm added successfully."@]
                &&& final(cfg).alarms@.drop_last() == old(cfg).alarms@
                &&& final(cfg).alarms@.len() == old(cfg).alarms@.len() + 1
                &&& final(cfg).alarms@.last() == Alarm {
                    name,
                    time,
                    recurrence,
                    start_date: final(cfg).alarms@.last().start_date,
                    day_of_week: None,
                    trigger_offset_min: 3,
                    enabled: true,
                }
                &&& final(cfg).alarms@.last().start_date@ == (match start_date { Some(d) => d@, None => today@ })
            },
        },
{
    match check_new_alarm(time.as_str(), &start_date) {
        Some(message) => Err(CliError { message }),
        None => {
            let s_date = match start_date {
                Some(d) => d,
                None => owned(today),
            };
            let alarm = Alarm { name, time, recurrence, start_date: s_date, day_of_week: None, trigger_offset_min: 3, enabled: true };
            cfg.alarms.push(alarm);
            assert(cfg.alarms@.drop_last() =~= old(cfg).alarms@);
            let mut lines: Vec<String> = Vec::new();
            lines.push(owned("Alarm added successfully."));
            assert(texts(lines@) =~= seq!["Alarm added successfully."@]);
            Ok(AlarmReport { lines, save: true })
        },
    }
}

fn switch_alarm(cfg: &mut Config, index: usize, on: bool) -> (r: Result<AlarmReport, CliError>)
    ensures
        settings_kept(*old(cfg), *final(cfg)),
        switched(*old(cfg), *final(cfg), r, index, on),
{
    if index >= cfg.alarms.len() {
        return Err(CliError { message: index_error(index) });
    }
    let mut a = cfg.alarms.remove(index);
    a.enabled = on;
    cfg.alarms.insert(index, a);
    let mut s = owned("Alarm ");
    push_decimal(&mut s, index);
    s.append(if on { " enabled." } else { " disabled." });
    assert(s@ =~= switched_text(index as nat, on));
    let mut lines: Vec<String> = Vec::new();
    lines.push(s);
    assert(texts(lines@) =~= seq![switched_text(index as nat, on)]);
    Ok(AlarmReport { lines, save: true })
}

/// `"Invalid alarm index: {index}."`
pub fn index_error(index: usize) -> (s: String)
    ensures
        s@ == "Invalid alarm index: "@ + dec_text(index as nat) + "."@,
{
    let mut s = owned("Invalid alarm index: ");
    push_decimal(&mut s, index);
    s.append(".");
    s
}

} // verus!
