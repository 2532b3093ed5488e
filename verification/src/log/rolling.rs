//! Rolling log files: when to start a new file, what it is called, how numbered
//! files shift, and which old files are removed. The file system work is the
//! caller's; this module decides.

use vstd::prelude::*;

use chrono::{Datelike, Timelike};

use crate::kv::parser::parse_value::{parse_integer, spec_parse_integer};
use crate::text::{
    decimal, first_match, has_prefix, has_suffix, matches_at, push_str, str_chars, str_contains, strip_prefix, strip_suffix, u64_to_decimal,
};

verus! {

/// How often a new file is started.
#[derive(Debug, Clone, Copy, PartialEq, Eq, Structural)]
pub enum TimePolicy {
    Minutely,
    Hourly,
    Daily,
}

/// `n` in decimal, with zeros in front up to `width` digits.
pub open spec fn zero_padded(n: nat, width: nat) -> Seq<char> {
    let d = decimal(n);
    if d.len() >= width {
        d
    } else {
        Seq::new((width - d.len()) as nat, |i: int| '0') + d
    }
}

/// A year as chrono's `%Y` writes it: at least four digits, with a sign outside 0 to 9999.
pub open spec fn year_text(y: int) -> Seq<char> {
    if 0 <= y <= 9999 {
        zero_padded(y as nat, 4)
    } else if y > 9999 {
        "+"@ + decimal(y as nat)
    } else {
        "-"@ + zero_padded((-y) as nat, 4)
    }
}

/// Whether month, day, hour and minute are those of a local date and time.
pub open spec fn valid_time_parts(month: int, day: int, hour: int, minute: int) -> bool {
    1 <= month <= 12 && 1 <= day <= 31 && 0 <= hour < 24 && 0 <= minute < 60
}

/// The date of a local time written as "%Y-%m-%d".
pub open spec fn date_text(year: int, month: int, day: int) -> Seq<char> {
    year_text(year) + "-"@ + zero_padded(month as nat, 2) + "-"@ + zero_padded(day as nat, 2)
}

/// A local time written with one of the period formats: "%Y-%m-%d-%H-%M",
/// "%Y-%m-%d-%H", or else "%Y-%m-%d".
pub open spec fn formatted_period(format: Seq<char>, year: int, month: int, day: int, hour: int, minute: int) -> Seq<char> {
    let date = date_text(year, month, day);
    if format == "%Y-%m-%d-%H-%M"@ {
        date + "-"@ + zero_padded(hour as nat, 2) + "-"@ + zero_padded(minute as nat, 2)
    } else if format == "%Y-%m-%d-%H"@ {
        date + "-"@ + zero_padded(hour as nat, 2)
    } else {
        date
    }
}

/// Whether `text` is some local date and time written with the period format `format`.
pub open spec fn is_formatted_time(format: Seq<char>, text: Seq<char>) -> bool {
    exists|year: int, month: int, day: int, hour: int, minute: int|
        valid_time_parts(month, day, hour, minute) && text == #[trigger] formatted_period(format, year, month, day, hour, minute)
}

/// `chrono::Local::now()` written with `format`, one of the period formats (chrono's
/// writing fails, and `to_string` panics, on a pattern it does not know). The time read
/// depends on the clock and the machine's time zone, so only the form of the text is
/// said: the format applied to some local date and time, each field zero-padded.
#[verifier::external_body]
fn local_now_text(format: &str) -> (r: String)
    requires
        format@ == "%Y-%m-%d-%H-%M"@ || format@ == "%Y-%m-%d-%H"@ || format@ == "%Y-%m-%d"@,
    ensures
        is_formatted_time(format@, r@),
{
    chrono::Local::now().format(format).to_string()
}

/// Whether chrono's `DateTime::from_timestamp` takes `ts` seconds since the epoch: the
/// time falls within chrono's calendar, from January 1 of the year -262143 to December
/// 31 of the year 262142 (UTC).
pub open spec fn seconds_in_range(ts: int) -> bool {
    -8334601228800 <= ts <= 8210266876799
}

/// `chrono::DateTime::<Utc>::from_timestamp(ts, 0)` in the machine's time zone, as its
/// year, month, day, hour and minute; `None` exactly when chrono's calendar does not
/// reach the time. The zone lookup behind the conversion fails only where leap-second
/// corrections overflow an `i64` or the year leaves the `i32` range, which no time of
/// chrono's calendar comes near. The parts depend on the time zone, so only their
/// ranges are said.
#[verifier::external_body]
fn local_date_time(ts: i64) -> (r: Option<(i32, u32, u32, u32, u32)>)
    ensures
        r is Some <==> seconds_in_range(ts as int),
        r matches Some(p) ==> valid_parts(p),
{
    match chrono::DateTime::<chrono::Utc>::from_timestamp(ts, 0) {
        Some(d) => {
            let l = d.with_timezone(&chrono::Local);
            Some((l.year(), l.month(), l.day(), l.hour(), l.minute()))
        },
        None => None,
    }
}

/// Whether `p`, as year, month, day, hour and minute, is a local date and time.
pub open spec fn valid_parts(p: (i32, u32, u32, u32, u32)) -> bool {
    valid_time_parts(p.1 as int, p.2 as int, p.3 as int, p.4 as int)
}

/// Whether a time given in seconds since the epoch falls on chrono's calendar.
pub fn seconds_placeable(ts: i64) -> (b: bool)
    ensures
        b == seconds_in_range(ts as int),
{
    -8334601228800 <= ts && ts <= 8210266876799
}

/// Whether two local times, as year, month, day, hour and minute, fall in one period.
pub open spec fn spec_same_period(policy: TimePolicy, a: (i32, u32, u32, u32, u32), b: (i32, u32, u32, u32, u32)) -> bool {
    let same_day = a.0 == b.0 && a.1 == b.1 && a.2 == b.2;
    match policy {
        TimePolicy::Minutely => same_day && a.3 == b.3 && a.4 == b.4,
        TimePolicy::Hourly => same_day && a.3 == b.3,
        TimePolicy::Daily => same_day,
    }
}

/// The name of the period of `policy` holding a local time: its date, then the hour
/// by the hour, then hour and minute by the minute.
pub open spec fn spec_period_text(policy: TimePolicy, year: int, month: int, day: int, hour: int, minute: int) -> Seq<char> {
    let date = date_text(year, month, day);
    match policy {
        TimePolicy::Minutely => date + "-"@ + zero_padded(hour as nat, 2) + "-"@ + zero_padded(minute as nat, 2),
        TimePolicy::Hourly => date + "-"@ + zero_padded(hour as nat, 2),
        TimePolicy::Daily => date,
    }
}

proof fn lemma_formatted_period(policy: TimePolicy, year: int, month: int, day: int, hour: int, minute: int)
    ensures
        formatted_period(policy.spec_period_format(), year, month, day, hour, minute)
            == spec_period_text(policy, year, month, day, hour, minute),
{
    reveal_strlit("%Y-%m-%d-%H-%M");
    reveal_strlit("%Y-%m-%d-%H");
    reveal_strlit("%Y-%m-%d");
    assert("%Y-%m-%d-%H"@.len() != "%Y-%m-%d-%H-%M"@.len());
    assert("%Y-%m-%d"@.len() != "%Y-%m-%d-%H-%M"@.len());
    assert("%Y-%m-%d"@.len() != "%Y-%m-%d-%H"@.len());
}

impl TimePolicy {
    /// Whether two local times fall in one period of the policy.
    pub fn same_period_parts(&self, a: (i32, u32, u32, u32, u32), b: (i32, u32, u32, u32, u32)) -> (r: bool)
        ensures
            r == spec_same_period(*self, a, b),
    {
        let same_day = a.0 == b.0 && a.1 == b.1 && a.2 == b.2;
        match self {
            TimePolicy::Minutely => same_day && a.3 == b.3 && a.4 == b.4,
            TimePolicy::Hourly => same_day && a.3 == b.3,
            TimePolicy::Daily => same_day,
        }
    }

    /// Whether two times, in seconds since the epoch and both on chrono's calendar, fall
    /// in one period of the policy in local time: what `same_period_parts` says of
    /// their local dates and times, which depend on the time zone.
    pub fn is_same_period(&self, ts1: i64, ts2: i64) -> (r: bool)
        requires
            seconds_in_range(ts1 as int),
            seconds_in_range(ts2 as int),
        ensures
            exists|a: (i32, u32, u32, u32, u32), b: (i32, u32, u32, u32, u32)|
                valid_parts(a) && valid_parts(b) && r == #[trigger] spec_same_period(*self, a, b),
    {
        let a = match local_date_time(ts1) {
            Some(p) => p,
            None => return false,
        };
        let b = match local_date_time(ts2) {
            Some(p) => p,
            None => return false,
        };
        let r = self.same_period_parts(a, b);
        assert(valid_parts(a) && valid_parts(b) && r == spec_same_period(*self, a, b));
        r
    }

    /// The `chrono` format that names a period of the policy.
    pub open spec fn spec_period_format(&self) -> Seq<char> {
        match self {
            TimePolicy::Minutely => "%Y-%m-%d-%H-%M"@,
            TimePolicy::Hourly => "%Y-%m-%d-%H"@,
            TimePolicy::Daily => "%Y-%m-%d"@,
        }
    }

    /// The `chrono` format that names a period of the policy.
    pub fn period_format(&self) -> (s: &'static str)
        ensures
            s@ == self.spec_period_format(),
    {
        match self {
            TimePolicy::Minutely => "%Y-%m-%d-%H-%M",
            TimePolicy::Hourly => "%Y-%m-%d-%H",
            TimePolicy::Daily => "%Y-%m-%d",
        }
    }

    /// The name of the current period, in local time, such as 2025-01-19-10 by the hour.
    pub fn current_period(&self) -> (r: String)
        ensures
            exists|year: int, month: int, day: int, hour: int, minute: int|
                valid_time_parts(month, day, hour, minute) && r@ == #[trigger] spec_period_text(*self, year, month, day, hour, minute),
    {
        let f = self.period_format();
        let r = local_now_text(f);
        proof {
            let (year, month, day, hour, minute) = choose|year: int, month: int, day: int, hour: int, minute: int|
                valid_time_parts(month, day, hour, minute) && r@ == #[trigger] formatted_period(f@, year, month, day, hour, minute);
            lemma_formatted_period(*self, year, month, day, hour, minute);
        }
        r
    }
}

/// Configuration of a rolling file appender.
#[derive(Debug, Clone)]
pub struct RollingFileAppenderConfig {
    /// The path of the log file.
    pub file_path: String,
    /// The largest size of a file in bytes, if files roll by size.
    pub max_size: Option<usize>,
    /// The period of a file, if files roll by time.
    pub time_policy: Option<TimePolicy>,
    /// How many old files are kept, if they are removed by number.
    pub max_files: Option<usize>,
    /// How many hours old files are kept, if they are removed by age.
    pub max_hours: Option<usize>,
    /// Whether shifted old files are compressed.
    pub compress: bool,
}

impl Default for RollingFileAppenderConfig {
    fn default() -> (c: Self)
        ensures
            c.file_path@ == "app.log"@,
            c.max_size is None,
            c.time_policy == Some(TimePolicy::Hourly),
            c.max_files is None,
            c.max_hours is None,
            !c.compress,
    {
        RollingFileAppenderConfig {
            file_path: "app.log".to_owned(),
            max_size: None,
            time_policy: Some(TimePolicy::Hourly),
            max_files: None,
            max_hours: None,
            compress: false,
        }
    }
}

/// When files roll.
#[derive(Debug, Clone, Copy, PartialEq, Eq, Structural)]
pub enum RollingMode {
    /// At a new period or when the size is reached.
    Both(TimePolicy, usize),
    /// At a new period.
    TimeOnly(TimePolicy),
    /// When the size is reached.
    SizeOnly(usize),
    /// Never.
    Off,
}

/// The rolling mode of a configuration.
pub fn rolling_mode(time_policy: Option<TimePolicy>, max_size: Option<usize>) -> (m: RollingMode)
    ensures
        m == match (time_policy, max_size) {
            (Some(p), Some(s)) => RollingMode::Both(p, s),
            (Some(p), None) => RollingMode::TimeOnly(p),
            (None, Some(s)) => RollingMode::SizeOnly(s),
            (None, None) => RollingMode::Off,
        },
{
    match (time_policy, max_size) {
        (Some(p), Some(s)) => RollingMode::Both(p, s),
        (Some(p), None) => RollingMode::TimeOnly(p),
        (None, Some(s)) => RollingMode::SizeOnly(s),
        (None, None) => RollingMode::Off,
    }
}

/// The stem the rolled files are named from: the file name without ".log".
pub open spec fn spec_file_prefix(file_name: Seq<char>) -> Seq<char> {
    if has_suffix(file_name, ".log"@) {
        file_name.take(file_name.len() - 4)
    } else {
        file_name
    }
}

/// The stem the rolled files are named from.
pub fn file_prefix(file_name: &str) -> (r: String)
    ensures
        r@ == spec_file_prefix(file_name@),
{
    proof {
        reveal_strlit(".log");
    }
    match strip_suffix(file_name, ".log") {
        Some(s) => s,
        None => file_name.to_owned(),
    }
}

/// The name of a file: "prefix.log" or "prefix.log.N" without a period,
/// "prefix.period.log" or "prefix.period.log.N" with one; N is left out when 0.
pub open spec fn spec_file_name(prefix: Seq<char>, period: Seq<char>, sequence: nat) -> Seq<char> {
    let base = if period.len() == 0 {
        prefix + ".log"@
    } else {
        prefix + "."@ + period + ".log"@
    };
    if sequence == 0 {
        base
    } else {
        base + "."@ + decimal(sequence)
    }
}

/// The name of a file for a period and a sequence number.
pub fn generate_file_name(prefix: &str, period: &str, sequence: usize) -> (r: String)
    ensures
        r@ == spec_file_name(prefix@, period@, sequence as nat),
{
    let mut r = prefix.to_owned();
    if period.is_empty() {
        push_str(&mut r, ".log");
    } else {
        push_str(&mut r, ".");
        push_str(&mut r, period);
        push_str(&mut r, ".log");
    }
    if sequence != 0 {
        push_str(&mut r, ".");
        let d = u64_to_decimal(sequence as u64);
        push_str(&mut r, d.as_str());
    }
    r
}

/// The sequence number in the name of a file that rolls by size: "prefix.log" is 0,
/// "prefix.log.N" is N, either with ".gz" after it; other names have none.
pub open spec fn spec_extract_sequence(prefix: Seq<char>, file_name: Seq<char>) -> Option<int> {
    let stem = if has_suffix(file_name, ".gz"@) {
        file_name.take(file_name.len() - 3)
    } else {
        file_name
    };
    let head = prefix + ".log."@;
    if has_prefix(stem, head) {
        spec_parse_integer(stem.skip(head.len() as int), false, 0, usize::MAX as int)
    } else if stem == prefix + ".log"@ {
        Some(0)
    } else {
        None
    }
}

/// The sequence number in the name of a file that rolls by size.
pub fn extract_sequence(prefix: &str, file_name: &str) -> (r: Option<usize>)
    ensures
        match spec_extract_sequence(prefix@, file_name@) {
            Some(n) => r == Some(n as usize),
            None => r is None,
        },
{
    proof {
        reveal_strlit(".gz");
        reveal_strlit(".log.");
        reveal_strlit(".log");
    }
    let stem = match strip_suffix(file_name, ".gz") {
        Some(s) => s,
        None => file_name.to_owned(),
    };
    let mut head = prefix.to_owned();
    push_str(&mut head, ".log.");
    match strip_prefix(stem.as_str(), head.as_str()) {
        Some(rest) => {
            let cs = str_chars(rest.as_str());
            match parse_integer(&cs, false, usize::MAX as u128, 0) {
                Ok((_, mag)) => Some(mag as usize),
                Err(_) => None,
            }
        },
        None => {
            let mut whole = prefix.to_owned();
            push_str(&mut whole, ".log");
            if crate::text::str_equal(stem.as_str(), whole.as_str()) {
                Some(0)
            } else {
                None
            }
        },
    }
}

/// Whether a write of `message_size` bytes starts a new file first: the size is
/// reached when the current size and the message together reach it.
pub open spec fn spec_should_rollover(mode: RollingMode, message_size: nat, current_size: nat, period_changed: bool) -> bool {
    match mode {
        RollingMode::Both(_, max) => message_size + current_size >= max || period_changed,
        RollingMode::TimeOnly(_) => period_changed,
        RollingMode::SizeOnly(max) => message_size + current_size >= max,
        RollingMode::Off => false,
    }
}

/// Whether a write of `message_size` bytes starts a new file first.
pub fn should_rollover(mode: RollingMode, message_size: usize, current_size: usize, period_changed: bool) -> (b: bool)
    ensures
        b == spec_should_rollover(mode, message_size as nat, current_size as nat, period_changed),
{
    let size_reached = |max: usize| -> (b: bool)
        ensures
            b == (message_size + current_size >= max),
        { current_size >= max || message_size >= max - current_size };
    match mode {
        RollingMode::Both(_, max) => size_reached(max) || period_changed,
        RollingMode::TimeOnly(_) => period_changed,
        RollingMode::SizeOnly(max) => size_reached(max),
        RollingMode::Off => false,
    }
}

/// What a roll over does.
#[derive(Debug, Clone)]
pub enum RolloverPlan {
    /// Nothing: files do not roll.
    Keep,
    /// Open `file_name` as the current file, for `period` and `sequence`; then old
    /// files are cleaned up.
    Open { period: String, sequence: usize, file_name: String },
    /// Shift the numbered files up by one (see `size_shift_plan`) and open
    /// `file_name`, the unnumbered file, again; no clean-up follows.
    ShiftAndOpen { file_name: String },
}

/// The roll over from the current period and sequence, when the period is now
/// `new_period`: by time and size, a new period starts at 0 and the same period takes
/// the next number; by time alone the new period starts at 0; by size alone the
/// numbered files shift.
pub open spec fn spec_rollover(
    mode: RollingMode,
    prefix: Seq<char>,
    current_period: Seq<char>,
    current_sequence: nat,
    new_period: Seq<char>,
) -> Option<(Seq<char>, nat, Seq<char>, bool)> {
    match mode {
        RollingMode::Both(_, _) => if new_period != current_period {
            Some((new_period, 0nat, spec_file_name(prefix, new_period, 0), false))
        } else {
            Some((current_period, current_sequence + 1, spec_file_name(prefix, current_period, current_sequence + 1), false))
        },
        RollingMode::TimeOnly(_) => Some((new_period, 0nat, spec_file_name(prefix, new_period, 0), false)),
        RollingMode::SizeOnly(_) => Some((Seq::empty(), 0nat, spec_file_name(prefix, Seq::empty(), 0), true)),
        RollingMode::Off => None,
    }
}

/// The roll over from the current period and sequence to the period `new_period`.
pub fn rollover_plan(mode: RollingMode, prefix: &str, current_period: &str, current_sequence: usize, new_period: &str) -> (r: RolloverPlan)
    requires
        mode is Both && current_period@ == new_period@ ==> current_sequence < usize::MAX,
    ensures
        match spec_rollover(mode, prefix@, current_period@, current_sequence as nat, new_period@) {
            None => r is Keep,
            Some((p, n, f, false)) => r matches RolloverPlan::Open { period, sequence, file_name } && period@ == p
                && sequence == n && file_name@ == f,
            Some((_, _, f, true)) => r matches RolloverPlan::ShiftAndOpen { file_name } && file_name@ == f,
        },
{
    match mode {
        RollingMode::Both(_, _) => {
            if !crate::text::str_equal(new_period, current_period) {
                RolloverPlan::Open {
                    period: new_period.to_owned(),
                    sequence: 0,
                    file_name: generate_file_name(prefix, new_period, 0),
                }
            } else {
                let next = current_sequence + 1;
                RolloverPlan::Open {
                    period: current_period.to_owned(),
                    sequence: next,
                    file_name: generate_file_name(prefix, current_period, next),
                }
            }
        },
        RollingMode::TimeOnly(_) => RolloverPlan::Open {
            period: new_period.to_owned(),
            sequence: 0,
            file_name: generate_file_name(prefix, new_period, 0),
        },
        RollingMode::SizeOnly(_) => {
            proof {
                reveal_strlit("");
                assert(""@ =~= Seq::<char>::empty());
            }
            RolloverPlan::ShiftAndOpen { file_name: generate_file_name(prefix, "", 0) }
        },
        RollingMode::Off => RolloverPlan::Keep,
    }
}

/// Whether `s` is ordered by its keys, largest first.
pub open spec fn sorted_desc(s: Seq<(u128, String)>) -> bool {
    forall|i: int, j: int| 0 <= i < j < s.len() ==> #[trigger] s[i].0 >= #[trigger] s[j].0
}

/// `items` ordered by key, largest first; items with equal keys keep their order, or
/// take the reverse order when `ties_later_first`.
fn sort_desc(items: &Vec<(u128, String)>, ties_later_first: bool) -> (r: Vec<(u128, String)>)
    ensures
        r@.to_multiset() == items@.to_multiset(),
        sorted_desc(r@),
{
    broadcast use vstd::seq_lib::group_to_multiset_ensures;
    let mut out: Vec<(u128, String)> = Vec::new();
    let mut i: usize = 0;
    while i < items.len()
        invariant
            i <= items@.len(),
            out@.to_multiset() == items@.take(i as int).to_multiset(),
            sorted_desc(out@),
        decreases items@.len() - i,
    {
        let key = items[i].0;
        let item = (key, items[i].1.clone());
        proof {
            assert(item == items@[i as int]);
        }
        let mut j: usize = 0;
        while j < out.len() && (out[j].0 > key || (!ties_later_first && out[j].0 == key))
            invariant
                j <= out@.len(),
                forall|k: int| 0 <= k < j ==> #[trigger] out@[k].0 >= key,
            decreases out@.len() - j,
        {
            j += 1;
        }
        proof {
            assert forall|k: int| j <= k < out@.len() implies #[trigger] out@[k].0 <= key by {
                if j < out@.len() {
                    assert(out@[j as int].0 <= key);
                    if k > j {
                        assert(out@[j as int].0 >= out@[k].0);
                    }
                }
            }
        }
        let ghost before = out@;
        out.insert(j, item);
        proof {
            vstd::seq_lib::to_multiset_insert(before, j as int, item);
            assert(items@.take(i + 1) =~= items@.take(i as int).push(items@[i as int]));
            vstd::seq_lib::to_multiset_build(items@.take(i as int), items@[i as int]);
            assert forall|a: int, b: int| 0 <= a < b < out@.len() implies #[trigger] out@[a].0 >= #[trigger] out@[b].0 by {
                if b < j {
                    assert(out@[a] == before[a] && out@[b] == before[b]);
                } else if b == j {
                    assert(out@[a] == before[a]);
                } else if a == j {
                    assert(out@[b] == before[b - 1]);
                } else if a < j {
                    assert(out@[a] == before[a] && out@[b] == before[b - 1]);
                } else {
                    assert(out@[a] == before[a - 1] && out@[b] == before[b - 1]);
                }
            }
        }
        i += 1;
    }
    proof {
        assert(items@.take(i as int) =~= items@);
    }
    out
}

/// Whether a file of the log's directory belongs to the log: its name begins with the
/// prefix and holds ".log".
pub open spec fn spec_is_log_file(prefix: Seq<char>, file_name: Seq<char>) -> bool {
    has_prefix(file_name, prefix) && first_match(file_name, ".log"@, 0) is Some
}

/// Whether a file of the log's directory belongs to the log.
pub fn is_log_file(prefix: &str, file_name: &str) -> (b: bool)
    ensures
        b == spec_is_log_file(prefix@, file_name@),
{
    proof {
        reveal_strlit(".log");
    }
    strip_prefix(file_name, prefix).is_some() && str_contains(file_name, ".log")
}

/// The position `first_match` gives holds the pattern, at or after `from`.
proof fn lemma_first_match_holds(s: Seq<char>, sep: Seq<char>, from: int)
    ensures
        first_match(s, sep, from) matches Some(k) ==> from <= k && matches_at(s, sep, k),
    decreases s.len() + 1 - from,
{
    if from >= 0 && from + sep.len() <= s.len() && !matches_at(s, sep, from) {
        lemma_first_match_holds(s, sep, from + 1);
    }
}

/// A pattern held at or after `from` is found.
proof fn lemma_first_match_finds(s: Seq<char>, sep: Seq<char>, from: int, i: int)
    requires
        0 <= from <= i,
        matches_at(s, sep, i),
    ensures
        first_match(s, sep, from) is Some,
{
    if first_match(s, sep, from) is None {
        crate::text::lemma_first_match_none(s, sep, from, i);
    }
}

/// A file of the log is one whose name begins with the prefix and holds ".log"
/// somewhere.
pub proof fn law_log_file_names(prefix: Seq<char>, file_name: Seq<char>)
    ensures
        spec_is_log_file(prefix, file_name) <==> (has_prefix(file_name, prefix) && exists|i: int|
            matches_at(file_name, ".log"@, i)),
{
    lemma_first_match_holds(file_name, ".log"@, 0);
    if exists|i: int| matches_at(file_name, ".log"@, i) {
        let i = choose|i: int| matches_at(file_name, ".log"@, i);
        lemma_first_match_finds(file_name, ".log"@, 0, i);
    }
}

/// Every name the appender gives its files, with a period or not, numbered or not,
/// and compressed or not, is a name of a file of the log, so clean-ups find it.
pub proof fn law_generated_names_are_log_files(prefix: Seq<char>, period: Seq<char>, sequence: nat)
    ensures
        spec_is_log_file(prefix, spec_file_name(prefix, period, sequence)),
        spec_is_log_file(prefix, spec_file_name(prefix, period, sequence) + ".gz"@),
{
    reveal_strlit(".log");
    reveal_strlit(".");
    reveal_strlit(".gz");
    let name = spec_file_name(prefix, period, sequence);
    let gz = name + ".gz"@;
    let p: int = if period.len() == 0 {
        prefix.len() as int
    } else {
        (prefix.len() + 1 + period.len()) as int
    };
    let base = if period.len() == 0 {
        prefix + ".log"@
    } else {
        prefix + "."@ + period + ".log"@
    };
    assert(base.len() == p + 4);
    assert(base.subrange(p, p + 4) =~= ".log"@);
    assert(base.take(prefix.len() as int) =~= prefix);
    if sequence == 0 {
        assert(name == base);
    } else {
        assert(name == base + "."@ + decimal(sequence));
        assert(name.subrange(p, p + 4) =~= base.subrange(p, p + 4));
        assert(name.take(prefix.len() as int) =~= base.take(prefix.len() as int));
    }
    assert(name.subrange(p, p + 4) =~= ".log"@);
    assert(matches_at(name, ".log"@, p));
    assert(gz.subrange(p, p + 4) =~= name.subrange(p, p + 4));
    assert(matches_at(gz, ".log"@, p));
    assert(gz.take(prefix.len() as int) =~= name.take(prefix.len() as int));
    lemma_first_match_finds(name, ".log"@, 0, p);
    lemma_first_match_finds(gz, ".log"@, 0, p);
}

/// The files of `names` that carry a sequence number, with it, in order.
pub open spec fn numbered_files(prefix: Seq<char>, names: Seq<String>) -> Seq<(u128, String)>
    decreases names.len(),
{
    if names.len() == 0 {
        Seq::empty()
    } else {
        let rest = numbered_files(prefix, names.drop_last());
        match spec_extract_sequence(prefix, names.last()@) {
            Some(n) => rest.push((n as u128, names.last())),
            None => rest,
        }
    }
}

/// One file to rename when numbered files shift.
#[derive(Debug, Clone)]
pub struct FileRename {
    /// The number the file has.
    pub sequence: usize,
    pub from: String,
    /// The name with the next number.
    pub to: String,
    /// Whether the renamed file is then compressed.
    pub compress: bool,
}

/// The renames that shift the numbered files among `file_names` up by one, the
/// highest number first so that no file is overwritten before it moved.
pub fn size_shift_plan(prefix: &str, file_names: &Vec<String>, compress: bool) -> (r: Vec<FileRename>)
    requires
        forall|i: int| 0 <= i < file_names@.len() ==> spec_extract_sequence(prefix@, #[trigger] file_names@[i]@) != Some(
            usize::MAX as int,
        ),
    ensures
        r@.map_values(|x: FileRename| (x.sequence as u128, x.from)).to_multiset() == numbered_files(prefix@, file_names@).to_multiset(),
        forall|i: int, j: int| 0 <= i < j < r@.len() ==> #[trigger] r@[i].sequence >= #[trigger] r@[j].sequence,
        forall|i: int| 0 <= i < r@.len() ==> {
            &&& (#[trigger] r@[i]).to@ == spec_file_name(prefix@, Seq::empty(), (r@[i].sequence + 1) as nat)
            &&& r@[i].compress == compress
        },
        forall|i: int, j: int| 0 <= i <= j < r@.len() ==> #[trigger] r@[i].to@ != #[trigger] r@[j].from@,
{
    let mut items: Vec<(u128, String)> = Vec::new();
    let mut i: usize = 0;
    while i < file_names.len()
        invariant
            i <= file_names@.len(),
            items@ == numbered_files(prefix@, file_names@.take(i as int)),
            forall|k: int| 0 <= k < items@.len() ==> (#[trigger] items@[k]).0 < usize::MAX,
            forall|k: int| 0 <= k < file_names@.len() ==> spec_extract_sequence(prefix@, #[trigger] file_names@[k]@) != Some(
                usize::MAX as int,
            ),
        decreases file_names@.len() - i,
    {
        proof {
            assert(file_names@.take(i + 1).drop_last() =~= file_names@.take(i as int));
            assert(file_names@.take(i + 1).last() == file_names@[i as int]);
        }
        match extract_sequence(prefix, file_names[i].as_str()) {
            Some(n) => {
                items.push((n as u128, file_names[i].clone()));
            },
            None => {},
        }
        i += 1;
    }
    proof {
        assert(file_names@.take(i as int) =~= file_names@);
    }
    let sorted = sort_desc(&items, false);
    proof {
        assert forall|k: int| 0 <= k < sorted@.len() implies (#[trigger] sorted@[k]).0 < usize::MAX by {
            vstd::seq_lib::to_multiset_contains(sorted@, sorted@[k]);
            vstd::seq_lib::to_multiset_contains(items@, sorted@[k]);
            assert(sorted@.contains(sorted@[k]));
            assert(items@.contains(sorted@[k]));
            let w = choose|w: int| 0 <= w < items@.len() && items@[w] == sorted@[k];
            assert(items@[w].0 < usize::MAX);
        }
    }
    let mut out: Vec<FileRename> = Vec::new();
    let mut j: usize = 0;
    while j < sorted.len()
        invariant
            j <= sorted@.len(),
            out@.len() == j,
            forall|k: int| 0 <= k < sorted@.len() ==> (#[trigger] sorted@[k]).0 < usize::MAX,
            forall|k: int| 0 <= k < j ==> {
                &&& (#[trigger] out@[k]).sequence as u128 == sorted@[k].0
                &&& out@[k].from == sorted@[k].1
                &&& out@[k].to@ == spec_file_name(prefix@, Seq::empty(), (out@[k].sequence + 1) as nat)
                &&& out@[k].compress == compress
            },
        decreases sorted@.len() - j,
    {
        let seq = sorted[j].0 as usize;
        let next = seq + 1;
        proof {
            reveal_strlit("");
            assert(""@ =~= Seq::<char>::empty());
        }
        let to = generate_file_name(prefix, "", next);
        out.push(FileRename { sequence: seq, from: sorted[j].1.clone(), to, compress });
        j += 1;
    }
    proof {
        assert(out@.map_values(|x: FileRename| (x.sequence as u128, x.from)) =~= sorted@);
        assert forall|a: int, b: int| 0 <= a < b < out@.len() implies #[trigger] out@[a].sequence >= #[trigger] out@[b].sequence by {
            assert(sorted@[a].0 >= sorted@[b].0);
        }
        lemma_numbered_files_sequences(prefix@, file_names@);
        assert forall|a: int, b: int| 0 <= a <= b < out@.len() implies #[trigger] out@[a].to@ != #[trigger] out@[b].from@ by {
            vstd::seq_lib::to_multiset_contains(sorted@, sorted@[b]);
            assert(sorted@.contains(sorted@[b]));
            assert(items@.to_multiset().count(sorted@[b]) > 0);
            vstd::seq_lib::to_multiset_contains(items@, sorted@[b]);
            let w = choose|w: int| 0 <= w < items@.len() && items@[w] == sorted@[b];
            assert(spec_extract_sequence(prefix@, out@[b].from@) == Some(out@[b].sequence as int));
            law_sequence_name_round_trip(prefix@, (out@[a].sequence + 1) as usize);
            if a < b {
                assert(sorted@[a].0 >= sorted@[b].0);
            }
        }
    }
    out
}

/// Every file `numbered_files` lists carries the number it is listed with.
proof fn lemma_numbered_files_sequences(prefix: Seq<char>, names: Seq<String>)
    ensures
        forall|k: int| 0 <= k < numbered_files(prefix, names).len() ==> spec_extract_sequence(
            prefix,
            (#[trigger] numbered_files(prefix, names)[k]).1@,
        ) == Some(numbered_files(prefix, names)[k].0 as int),
    decreases names.len(),
{
    if names.len() > 0 {
        lemma_numbered_files_sequences(prefix, names.drop_last());
    }
}

/// The files of `files` other than `current`, in order.
pub open spec fn other_files(files: Seq<(u128, String)>, current: Seq<char>) -> Seq<(u128, String)>
    decreases files.len(),
{
    if files.len() == 0 {
        Seq::empty()
    } else {
        let rest = other_files(files.drop_last(), current);
        if files.last().1@ != current {
            rest.push(files.last())
        } else {
            rest
        }
    }
}

/// Which old files a clean-up by number keeps and removes.
#[derive(Debug, Clone)]
pub struct CountCleanup {
    /// The newest files, at most the allowed number.
    pub keep: Vec<(u128, String)>,
    /// The rest, to be removed.
    pub remove: Vec<(u128, String)>,
}

/// The clean-up by number of `files`, each with the time it was last modified: the
/// current file is left out, the newest `max_files` others are kept and the rest are
/// removed.
pub fn cleanup_by_count_plan(files: &Vec<(u128, String)>, current: &str, max_files: usize) -> (r: CountCleanup)
    ensures
        ({
            let others = other_files(files@, current@);
            &&& r.keep@.len() == if others.len() < max_files {
                others.len()
            } else {
                max_files as nat
            }
            &&& (r.keep@ + r.remove@).to_multiset() == others.to_multiset()
            &&& forall|i: int, j: int| 0 <= i < r.keep@.len() && 0 <= j < r.remove@.len() ==> #[trigger] r.keep@[i].0 >= #[trigger] r.remove@[j].0
        }),
{
    let mut others: Vec<(u128, String)> = Vec::new();
    let mut i: usize = 0;
    while i < files.len()
        invariant
            i <= files@.len(),
            others@ == other_files(files@.take(i as int), current@),
        decreases files@.len() - i,
    {
        proof {
            assert(files@.take(i + 1).drop_last() =~= files@.take(i as int));
            assert(files@.take(i + 1).last() == files@[i as int]);
        }
        if !crate::text::str_equal(files[i].1.as_str(), current) {
            let item = (files[i].0, files[i].1.clone());
            proof {
                assert(item == files@[i as int]);
            }
            others.push(item);
        }
        i += 1;
    }
    proof {
        assert(files@.take(i as int) =~= files@);
    }
    let sorted = sort_desc(&others, true);
    let n = sorted.len();
    let m = if n < max_files {
        n
    } else {
        max_files
    };
    let mut keep: Vec<(u128, String)> = Vec::new();
    let mut remove: Vec<(u128, String)> = Vec::new();
    let mut j: usize = 0;
    while j < n
        invariant
            j <= n,
            n == sorted@.len(),
            m <= n,
            j <= m ==> keep@ == sorted@.take(j as int) && remove@.len() == 0,
            j > m ==> keep@ == sorted@.take(m as int) && remove@ == sorted@.subrange(m as int, j as int),
        decreases n - j,
    {
        let item = (sorted[j].0, sorted[j].1.clone());
        proof {
            assert(item == sorted@[j as int]);
        }
        if j < m {
            keep.push(item);
            proof {
                assert(keep@ =~= sorted@.take(j + 1));
            }
        } else {
            remove.push(item);
            proof {
                assert(remove@ =~= sorted@.subrange(m as int, j + 1));
            }
        }
        j += 1;
    }
    proof {
        assert(keep@ + remove@ =~= sorted@);
        assert forall|a: int, b: int| 0 <= a < keep@.len() && 0 <= b < remove@.len() implies #[trigger] keep@[a].0 >= #[trigger] remove@[b].0 by {
            assert(keep@[a] == sorted@[a]);
            assert(remove@[b] == sorted@[m + b]);
        }
        assert((keep@ + remove@).to_multiset() == others@.to_multiset());
        assert(keep@.len() == m);
        assert(others@ == other_files(files@, current@));
        vstd::seq_lib::to_multiset_len(sorted@);
        vstd::seq_lib::to_multiset_len(others@);
        assert(sorted@.len() == others@.len());
    }
    CountCleanup { keep, remove }
}

/// The oldest time a file may have been modified and still be kept, `max_hours`
/// before `now` (both in nanoseconds since the epoch), and never before the epoch.
pub open spec fn spec_cutoff(now: u128, max_hours: nat) -> int {
    let age = max_hours * 3600 * 1_000_000_000;
    if now >= age {
        now - age
    } else {
        0
    }
}

/// The files of `files` last modified before the cut-off, in order; a file whose time
/// is unknown is kept.
pub open spec fn expired_files(files: Seq<(Option<u128>, String)>, cutoff: int) -> Seq<String>
    decreases files.len(),
{
    if files.len() == 0 {
        Seq::empty()
    } else {
        let rest = expired_files(files.drop_last(), cutoff);
        match files.last().0 {
            Some(t) => if t < cutoff {
                rest.push(files.last().1)
            } else {
                rest
            },
            None => rest,
        }
    }
}

/// The files a clean-up by age removes: those last modified more than `max_hours`
/// before `now`.
pub fn cleanup_by_time_plan(files: &Vec<(Option<u128>, String)>, now: u128, max_hours: usize) -> (r: Vec<String>)
    requires
        max_hours * 3600 <= u64::MAX,
    ensures
        r@ == expired_files(files@, spec_cutoff(now, max_hours as nat)),
{
    let hours = max_hours as u128;
    let age: u128 = hours * 3600 * 1_000_000_000;
    let cutoff: u128 = if now >= age {
        now - age
    } else {
        0
    };
    let mut out: Vec<String> = Vec::new();
    let mut i: usize = 0;
    while i < files.len()
        invariant
            i <= files@.len(),
            cutoff == spec_cutoff(now, max_hours as nat),
            out@ == expired_files(files@.take(i as int), cutoff as int),
        decreases files@.len() - i,
    {
        proof {
            assert(files@.take(i + 1).drop_last() =~= files@.take(i as int));
            assert(files@.take(i + 1).last() == files@[i as int]);
        }
        match files[i].0 {
            Some(t) => {
                if t < cutoff {
                    out.push(files[i].1.clone());
                }
            },
            None => {},
        }
        i += 1;
    }
    proof {
        assert(files@.take(i as int) =~= files@);
    }
    out
}

/// The state of a rolling log file: its naming, its period and number, and how many
/// bytes it holds. The file itself is the caller's.
pub struct RollingFileAppender {
    config: RollingFileAppenderConfig,
    mode: RollingMode,
    file_prefix: String,
    period: String,
    sequence: usize,
    size: usize,
}

impl RollingFileAppender {
    /// The state at start: `file_name` is the last part of the configured path, and
    /// `existing_size` the size of the file already there; the period is the current
    /// one when files roll by time.
    pub fn new(config: RollingFileAppenderConfig, file_name: &str, existing_size: usize) -> (a: Self)
        ensures
            a.spec_config() == config,
            a.spec_mode() == match (config.time_policy, config.max_size) {
                (Some(p), Some(s)) => RollingMode::Both(p, s),
                (Some(p), None) => RollingMode::TimeOnly(p),
                (None, Some(s)) => RollingMode::SizeOnly(s),
                (None, None) => RollingMode::Off,
            },
            a.spec_prefix() == spec_file_prefix(file_name@),
            config.time_policy is None ==> a.spec_period() == Seq::<char>::empty(),
            a.spec_sequence() == 0,
            a.spec_size() == existing_size,
    {
        let mode = rolling_mode(config.time_policy, config.max_size);
        let period = match config.time_policy {
            Some(p) => p.current_period(),
            None => String::new(),
        };
        RollingFileAppender { config, mode, file_prefix: file_prefix(file_name), period, sequence: 0, size: existing_size }
    }

    pub closed spec fn spec_config(&self) -> RollingFileAppenderConfig {
        self.config
    }

    pub closed spec fn spec_mode(&self) -> RollingMode {
        self.mode
    }

    pub closed spec fn spec_prefix(&self) -> Seq<char> {
        self.file_prefix@
    }

    pub closed spec fn spec_period(&self) -> Seq<char> {
        self.period@
    }

    pub closed spec fn spec_sequence(&self) -> usize {
        self.sequence
    }

    pub closed spec fn spec_size(&self) -> usize {
        self.size
    }

    /// The configuration.
    pub fn config(&self) -> (c: &RollingFileAppenderConfig)
        ensures
            *c == self.spec_config(),
    {
        &self.config
    }

    /// When files roll.
    pub fn mode(&self) -> (m: RollingMode)
        ensures
            m == self.spec_mode(),
    {
        self.mode
    }

    /// The stem the files are named from.
    pub fn file_prefix(&self) -> (p: &str)
        ensures
            p@ == self.spec_prefix(),
    {
        self.file_prefix.as_str()
    }

    /// The period of the current file.
    pub fn period(&self) -> (p: &str)
        ensures
            p@ == self.spec_period(),
    {
        self.period.as_str()
    }

    /// The number of the current file.
    pub fn sequence(&self) -> (n: usize)
        ensures
            n == self.spec_sequence(),
    {
        self.sequence
    }

    /// The bytes in the current file.
    pub fn size(&self) -> (n: usize)
        ensures
            n == self.spec_size(),
    {
        self.size
    }

    /// Whether writing `message_size` bytes starts a new file first, the period now
    /// being `period_now`.
    pub fn needs_rollover(&self, message_size: usize, period_now: &str) -> (b: bool)
        ensures
            b == spec_should_rollover(self.spec_mode(), message_size as nat, self.spec_size() as nat, period_now@ != self.spec_period()),
    {
        let changed = !crate::text::str_equal(period_now, self.period.as_str());
        should_rollover(self.mode, message_size, self.size, changed)
    }

    /// The roll over to the period `new_period`.
    pub fn rollover(&self, new_period: &str) -> (r: RolloverPlan)
        requires
            self.spec_mode() is Both && self.spec_period() == new_period@ ==> self.spec_sequence() < usize::MAX,
        ensures
            match spec_rollover(self.spec_mode(), self.spec_prefix(), self.spec_period(), self.spec_sequence() as nat, new_period@) {
                None => r is Keep,
                Some((p, n, f, false)) => r matches RolloverPlan::Open { period, sequence, file_name } && period@ == p
                    && sequence == n && file_name@ == f,
                Some((_, _, f, true)) => r matches RolloverPlan::ShiftAndOpen { file_name } && file_name@ == f,
            },
    {
        rollover_plan(self.mode, self.file_prefix.as_str(), self.period.as_str(), self.sequence, new_period)
    }

    /// A new, empty current file was opened for `period` and `sequence`.
    pub fn opened(&mut self, period: String, sequence: usize)
        ensures
            final(self).spec_period() == period@,
            final(self).spec_sequence() == sequence,
            final(self).spec_size() == 0,
            final(self).spec_mode() == old(self).spec_mode(),
            final(self).spec_prefix() == old(self).spec_prefix(),
            final(self).spec_config() == old(self).spec_config(),
    {
        self.period = period;
        self.sequence = sequence;
        self.size = 0;
    }

    /// `message_size` more bytes were written to the current file.
    pub fn wrote(&mut self, message_size: usize)
        requires
            old(self).spec_size() + message_size <= usize::MAX,
        ensures
            final(self).spec_size() == old(self).spec_size() + message_size,
            final(self).spec_period() == old(self).spec_period(),
            final(self).spec_sequence() == old(self).spec_sequence(),
            final(self).spec_mode() == old(self).spec_mode(),
            final(self).spec_prefix() == old(self).spec_prefix(),
            final(self).spec_config() == old(self).spec_config(),
    {
        self.size = self.size + message_size;
    }
}

/// The decimal text of a number is digits only, and spells the number.
pub proof fn lemma_decimal_digits(n: nat)
    ensures
        decimal(n).len() > 0,
        crate::text::all_digits(decimal(n)),
        crate::text::digits_value(decimal(n)) == n,
        crate::text::is_digit(decimal(n).last()),
    decreases n,
{
    let d = (n % 10) as nat;
    assert(crate::text::digit_value(crate::text::digit_char(d)) == d);
    if n >= 10 {
        lemma_decimal_digits(n / 10);
        let s = decimal(n / 10);
        assert(decimal(n).drop_last() =~= s);
        assert(crate::text::digits_value(decimal(n)) == crate::text::digits_value(s) * 10 + d);
        assert((n / 10) * 10 + n % 10 == n) by (nonlinear_arith);
        assert(crate::text::digits_value(s) == n / 10);
        assert(crate::text::digits_value(decimal(n)) == n);
    } else {
        assert(decimal(n) == seq![crate::text::digit_char(n)]);
        assert(decimal(n).drop_last() =~= Seq::<char>::empty());
        assert(decimal(n).last() == crate::text::digit_char(n));
        assert(d == n);
        assert(crate::text::digits_value(decimal(n).drop_last()) == 0);
        assert(crate::text::digits_value(decimal(n)) == n);
    }
}

/// Reading the number back from the name of a numbered file gives the number it was
/// named with.
pub proof fn law_sequence_name_round_trip(prefix: Seq<char>, n: usize)
    ensures
        spec_extract_sequence(prefix, spec_file_name(prefix, Seq::empty(), n as nat)) == Some(n as int),
{
    reveal_strlit(".gz");
    reveal_strlit(".log.");
    reveal_strlit(".log");
    reveal_strlit(".");
    let name = spec_file_name(prefix, Seq::empty(), n as nat);
    let head = prefix + ".log."@;
    if n == 0 {
        assert(name == prefix + ".log"@);
        assert(name.last() == 'g');
        assert(!has_suffix(name, ".gz"@)) by {
            if has_suffix(name, ".gz"@) {
                assert(name.skip(name.len() - 3).last() == 'z');
            }
        }
        assert(!has_prefix(name, head)) by {
            if has_prefix(name, head) {
                assert(name.len() >= head.len());
            }
        }
    } else {
        lemma_decimal_digits(n as nat);
        let d = decimal(n as nat);
        assert(name == prefix + ".log"@ + "."@ + d);
        assert(name =~= head + d);
        assert(name.last() == d.last());
        assert(!has_suffix(name, ".gz"@)) by {
            if has_suffix(name, ".gz"@) {
                assert(name.skip(name.len() - 3).last() == 'z');
            }
        }
        assert(name.take(head.len() as int) =~= head);
        assert(name.skip(head.len() as int) =~= d);
        assert(d[0] != '+' && d[0] != '-') by {
            assert(crate::text::is_digit(d[0]));
        }
    }
}

/// The gzip stream flate2's `GzEncoder` writes for `data` at the default level: its
/// header holds no file name, a zero time and a fixed system byte, so the stream
/// depends on `data` alone.
pub uninterp spec fn gzip_of(data: Seq<u8>) -> Seq<u8>;

/// `flate2::write::GzEncoder` at the default level over `content`, written into memory;
/// on success the bytes are the gzip stream of `content`, a failure carries the error's
/// text.
#[verifier::external_body]
fn gzip_bytes(content: &[u8]) -> (r: Result<Vec<u8>, String>)
    ensures
        r matches Ok(z) ==> z@ == gzip_of(content@),
{
    let mut encoder = flate2::write::GzEncoder::new(Vec::new(), flate2::Compression::default());
    if let Err(e) = std::io::Write::write_all(&mut encoder, content) {
        return Err(e.to_string());
    }
    match encoder.finish() {
        Ok(z) => Ok(z),
        Err(e) => Err(e.to_string()),
    }
}

/// The compressed form of the rolled file at `path` holding `content`: the path with
/// ".gz" added, and the gzip stream of the content; a failure of the encoder is
/// returned as its text.
pub fn compress_file(path: &str, content: &[u8]) -> (r: Result<(String, Vec<u8>), String>)
    ensures
        r matches Ok((p, z)) ==> p@ == path@ + ".gz"@ && z@ == gzip_of(content@),
{
    let z = match gzip_bytes(content) {
        Ok(z) => z,
        Err(e) => return Err(e),
    };
    let mut p = path.to_owned();
    push_str(&mut p, ".gz");
    Ok((p, z))
}

} // verus!
