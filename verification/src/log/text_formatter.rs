//! The text form of log records: one readable line per record.

use vstd::prelude::*;

use crate::text::{decimal, matches_at, push_char, push_str, u64_to_decimal};
use super::level::LogLevel;
use super::rolling::{date_text, zero_padded};
use super::record::{LogRecord, MetadataValue};

verus! {

/// Configuration of a `TextFormatter`.
#[derive(Debug, Clone, PartialEq, Eq, Structural)]
pub struct TextFormatterConfig {
    /// Whether the line carries the terminal's color codes.
    pub colored: bool,
}

impl Default for TextFormatterConfig {
    fn default() -> (c: Self)
        ensures
            !c.colored,
    {
        TextFormatterConfig { colored: false }
    }
}

/// Whether `chrono` can place a time given in milliseconds since the epoch on its
/// calendar: the whole seconds fall from January 1 of the year -262143 to December 31
/// of the year 262142 (UTC).
pub open spec fn timestamp_in_range(ms: int) -> bool {
    -8334601228800000 <= ms <= 8210266876799999
}

/// Whether a record's time can be written: it falls on chrono's calendar.
pub fn timestamp_placeable(ms: i64) -> (b: bool)
    ensures
        b == timestamp_in_range(ms as int),
{
    -8334601228800000 <= ms && ms <= 8210266876799999
}

/// The pattern of the times in log lines, such as 2025-01-19T12:34:56.789Z.
pub open spec fn iso8601_pattern() -> Seq<char> {
    "%Y-%m-%dT%H:%M:%S%.3fZ"@
}

/// The date, in the proleptic Gregorian calendar, of the day `days` days after
/// 1970-01-01: year, month and day of the month. Days are counted in eras of 400
/// years from 0000-03-01, each year starting in March so that the leap day ends it.
pub open spec fn civil_date(days: int) -> (int, int, int) {
    let z = days + 719468;
    let era = z / 146097;
    let doe = z - era * 146097;
    let yoe = (doe - doe / 1460 + doe / 36524 - doe / 146096) / 365;
    let doy = doe - (365 * yoe + yoe / 4 - yoe / 100);
    let mp = (5 * doy + 2) / 153;
    let day = doy - (153 * mp + 2) / 5 + 1;
    let month = if mp < 10 { mp + 3 } else { mp - 9 };
    let year = yoe + era * 400 + if month <= 2 { 1int } else { 0int };
    (year, month, day)
}

/// The time given in milliseconds since the epoch, as log lines write it: the UTC date
/// and time in the pattern of log lines, each field zero-padded, the year as `%Y`
/// writes it, then the milliseconds and "Z".
pub open spec fn iso8601_millis(ms: int) -> Seq<char> {
    let secs = ms / 1000;
    let day_secs = secs % 86400;
    let (year, month, day) = civil_date(secs / 86400);
    date_text(year, month, day) + "T"@ + zero_padded((day_secs / 3600) as nat, 2) + ":"@ + zero_padded(
        (day_secs % 3600 / 60) as nat,
        2,
    ) + ":"@ + zero_padded((day_secs % 60) as nat, 2) + "."@ + zero_padded((ms % 1000) as nat, 3) + "Z"@
}

/// `chrono::DateTime::from_timestamp_millis`, then `format` with `pattern`, the
/// pattern of log lines (chrono's writing fails, and `to_string` panics, on a pattern
/// it does not know): `None` exactly when the time is off chrono's calendar, otherwise
/// the UTC date and time in that pattern, as chrono writes `%Y`, the zero-padded
/// fields and `%.3f`.
#[verifier::external_body]
fn format_timestamp(ms: i64, pattern: &str) -> (r: Option<String>)
    requires
        pattern@ == iso8601_pattern(),
    ensures
        r is Some <==> timestamp_in_range(ms as int),
        r matches Some(s) ==> s@ == iso8601_millis(ms as int),
{
    match chrono::DateTime::from_timestamp_millis(ms) {
        Some(d) => Some(d.format(pattern).to_string()),
        None => None,
    }
}

/// The terminal's reset sequence, which ends a colored piece.
pub open spec fn color_reset() -> Seq<char> {
    "\u{1b}[0m"@
}

/// Whether `r` is `s` as `colored` renders it with the style `code`: `s` itself when
/// colors are off; otherwise `s` between "ESC[code m" and the reset sequence, where a
/// reset inside `s` is followed again by the style.
pub open spec fn painted(r: Seq<char>, s: Seq<char>, code: Seq<char>) -> bool {
    let start = "\u{1b}["@ + code + "m"@;
    ||| r == s
    ||| (!(exists|i: int| matches_at(s, color_reset(), i)) && r == start + s + color_reset())
    ||| ((exists|i: int| matches_at(s, color_reset(), i)) && r.len() >= start.len() + color_reset().len()
        && r.take(start.len() as int) == start && r.skip(r.len() - color_reset().len()) == color_reset())
}

/// `colored::Colorize::dimmed`, rendered: `s`, dimmed (style 2) when colors are on,
/// which depends on the environment.
#[verifier::external_body]
fn dimmed_text(s: &str) -> (r: String)
    ensures
        painted(r@, s@, "2"@),
{
    colored::Colorize::dimmed(s).to_string()
}

/// `colored::Colorize::white`, rendered: `s`, white (color 37) when colors are on,
/// which depends on the environment.
#[verifier::external_body]
fn white_text(s: &str) -> (r: String)
    ensures
        painted(r@, s@, "37"@),
{
    colored::Colorize::white(s).to_string()
}

/// `colored::Colorize::cyan`, rendered: `s`, cyan (color 36) when colors are on,
/// which depends on the environment.
#[verifier::external_body]
fn cyan_text(s: &str) -> (r: String)
    ensures
        painted(r@, s@, "36"@),
{
    colored::Colorize::cyan(s).to_string()
}

/// The source position part of a line: "[file:line] " when both are known, else " ".
pub open spec fn location_text(file: Option<Seq<char>>, line: Option<u32>) -> Seq<char> {
    match (file, line) {
        (Some(f), Some(l)) => "["@ + f + ":"@ + decimal(l as nat) + "] "@,
        _ => " "@,
    }
}

/// " key=value" for each pair, in order.
pub open spec fn metadata_pairs_text(keys: Seq<Seq<char>>, values: Seq<Seq<char>>) -> Seq<char>
    decreases keys.len(),
{
    if keys.len() == 0 {
        Seq::empty()
    } else {
        metadata_pairs_text(keys.drop_last(), values.take(keys.len() - 1)) + " "@ + keys.last() + "="@ + values[keys.len() - 1]
    }
}

/// The attached values part of a line: nothing when there are none, else " |" and the pairs.
pub open spec fn metadata_text(keys: Seq<Seq<char>>, values: Seq<Seq<char>>) -> Seq<char> {
    if keys.len() == 0 {
        Seq::empty()
    } else {
        " |"@ + metadata_pairs_text(keys, values)
    }
}

/// A line made of its parts: "[time] [thread] LEVEL" then the position, the message
/// and the attached values.
pub open spec fn text_line(
    ts: Seq<char>,
    thread: Seq<char>,
    level: Seq<char>,
    file: Option<Seq<char>>,
    line: Option<u32>,
    message: Seq<char>,
    keys: Seq<Seq<char>>,
    values: Seq<Seq<char>>,
) -> Seq<char> {
    "["@ + ts + "] ["@ + thread + "] "@ + level + location_text(file, line) + message + metadata_text(keys, values)
}

/// The keys of attached values, in order.
pub open spec fn metadata_keys(md: Seq<(String, MetadataValue)>) -> Seq<Seq<char>> {
    md.map_values(|p: (String, MetadataValue)| p.0@)
}

/// The texts of attached values, in order.
pub open spec fn metadata_values(md: Seq<(String, MetadataValue)>) -> Seq<Seq<char>> {
    md.map_values(|p: (String, MetadataValue)| p.1.spec_text())
}

/// The source file of a record, as text.
pub open spec fn file_text(file: Option<String>) -> Option<Seq<char>> {
    match file {
        Some(f) => Some(f@),
        None => None,
    }
}

/// The uncolored line of `record`, its time written as `ts`.
pub open spec fn plain_text_line(record: LogRecord, ts: Seq<char>) -> Seq<char> {
    text_line(
        ts,
        record.thread_id@,
        record.level.spec_name(),
        file_text(record.file),
        record.line,
        record.message@,
        metadata_keys(record.metadata@),
        metadata_values(record.metadata@),
    )
}

/// Puts a line together from its parts.
pub fn compose_text_line(
    ts: &str,
    thread: &str,
    level: &str,
    file: &Option<String>,
    line: Option<u32>,
    message: &str,
    keys: &Vec<String>,
    values: &Vec<String>,
) -> (r: String)
    requires
        keys@.len() == values@.len(),
    ensures
        r@ == text_line(
            ts@,
            thread@,
            level@,
            file_text(*file),
            line,
            message@,
            keys@.map_values(|k: String| k@),
            values@.map_values(|v: String| v@),
        ),
{
    let mut r = String::new();
    push_char(&mut r, '[');
    push_str(&mut r, ts);
    push_str(&mut r, "] [");
    push_str(&mut r, thread);
    push_str(&mut r, "] ");
    push_str(&mut r, level);
    match (file, line) {
        (Some(f), Some(l)) => {
            push_char(&mut r, '[');
            push_str(&mut r, f.as_str());
            push_char(&mut r, ':');
            let d = u64_to_decimal(l as u64);
            push_str(&mut r, d.as_str());
            push_str(&mut r, "] ");
        },
        _ => {
            push_char(&mut r, ' ');
        },
    }
    push_str(&mut r, message);
    let ghost head = r@;
    let ghost ks = keys@.map_values(|k: String| k@);
    let ghost vs = values@.map_values(|v: String| v@);
    proof {
        reveal_strlit("] [");
        reveal_strlit("] ");
        reveal_strlit(":");
        reveal_strlit(" ");
        reveal_strlit("[");
        assert(head =~= "["@ + ts@ + "] ["@ + thread@ + "] "@ + level@ + location_text(file_text(*file), line) + message@);
    }
    if keys.len() > 0 {
        push_str(&mut r, " |");
        let ghost start = r@;
        let mut i: usize = 0;
        proof {
            assert(ks.take(0) =~= Seq::<Seq<char>>::empty());
            assert(start =~= start + metadata_pairs_text(ks.take(0), vs.take(0)));
        }
        while i < keys.len()
            invariant
                keys@.len() == values@.len(),
                i <= keys@.len(),
                ks == keys@.map_values(|k: String| k@),
                vs == values@.map_values(|v: String| v@),
                r@ == start + metadata_pairs_text(ks.take(i as int), vs.take(i as int)),
            decreases keys@.len() - i,
        {
            push_char(&mut r, ' ');
            push_str(&mut r, keys[i].as_str());
            push_char(&mut r, '=');
            push_str(&mut r, values[i].as_str());
            proof {
                reveal_strlit(" ");
                reveal_strlit("=");
                let k1 = ks.take(i + 1);
                let v1 = vs.take(i + 1);
                assert(k1.drop_last() =~= ks.take(i as int));
                assert(v1.take(k1.len() - 1) =~= vs.take(i as int));
                assert(k1.last() == keys@[i as int]@);
                assert(v1[k1.len() - 1] == values@[i as int]@);
                assert(r@ =~= start + metadata_pairs_text(k1, v1));
            }
            i += 1;
        }
        proof {
            assert(ks.take(i as int) =~= ks);
            assert(vs.take(i as int) =~= vs);
        }
    }
    r
}

/// Writes log records as readable lines.
pub struct TextFormatter {
    config: TextFormatterConfig,
}

impl TextFormatter {
    /// A formatter with the given configuration.
    pub fn new(config: TextFormatterConfig) -> (f: Self)
        ensures
            f.spec_config() == config,
    {
        TextFormatter { config }
    }

    pub closed spec fn spec_config(&self) -> TextFormatterConfig {
        self.config
    }

    /// The configuration.
    pub fn config(&self) -> (c: &TextFormatterConfig)
        ensures
            *c == self.spec_config(),
    {
        &self.config
    }

    /// The line of `record`: "[time] [thread] LEVEL", then "[file:line] " when both are
    /// known (else one space), the message, and " |" with " key=value" for each attached
    /// value when there are any. Colored, the time, thread and file are dimmed, the
    /// level takes its color, the message is white and the keys cyan. The record's
    /// time must fall on chrono's calendar.
    pub fn format(&self, record: &LogRecord) -> (r: Result<String, String>)
        requires
            timestamp_in_range(record.timestamp_ms as int),
        ensures
            r is Ok,
            !self.spec_config().colored ==> (r matches Ok(s) ==> s@ == plain_text_line(
                *record,
                iso8601_millis(record.timestamp_ms as int),
            )),
            self.spec_config().colored ==> (r matches Ok(s) ==> exists|
                ts: Seq<char>,
                th: Seq<char>,
                f: Option<Seq<char>>,
                m: Seq<char>,
                ks: Seq<Seq<char>>,
            |
                painted(ts, iso8601_millis(record.timestamp_ms as int), "2"@) && painted(th, record.thread_id@, "2"@)
                    && (match (f, record.file) {
                    (Some(x), Some(y)) => painted(x, y@, "2"@),
                    (None, None) => true,
                    _ => false,
                }) && painted(m, record.message@, "37"@) && ks.len() == record.metadata@.len() && (forall|i: int|
                    0 <= i < ks.len() ==> painted(#[trigger] ks[i], metadata_keys(record.metadata@)[i], "36"@))
                    && s@ == #[trigger] text_line(
                    ts,
                    th,
                    record.level.spec_colored_name(),
                    f,
                    record.line,
                    m,
                    ks,
                    metadata_values(record.metadata@),
                )),
    {
        let ts = match format_timestamp(record.timestamp_ms, "%Y-%m-%dT%H:%M:%S%.3fZ") {
            Some(t) => t,
            None => return Err("timestamp out of range".to_owned()),
        };
        let colored = self.config.colored;
        let ts_piece = if colored {
            dimmed_text(ts.as_str())
        } else {
            ts
        };
        let thread_piece = if colored {
            dimmed_text(record.thread_id.as_str())
        } else {
            record.thread_id.clone()
        };
        let level_piece = if colored {
            record.level.colored_name().to_owned()
        } else {
            record.level.to_string()
        };
        let file_piece = match &record.file {
            Some(f) => Some(
                if colored {
                    dimmed_text(f.as_str())
                } else {
                    f.clone()
                },
            ),
            None => None,
        };
        let message_piece = if colored {
            white_text(record.message.as_str())
        } else {
            record.message.clone()
        };
        let mut keys: Vec<String> = Vec::new();
        let mut values: Vec<String> = Vec::new();
        let n = record.metadata.len();
        let mut i: usize = 0;
        while i < n
            invariant
                n == record.metadata@.len(),
                i <= n,
                keys@.len() == i,
                values@.len() == i,
                !colored ==> keys@.map_values(|k: String| k@) == metadata_keys(record.metadata@).take(i as int),
                colored ==> forall|k: int| 0 <= k < i ==> painted(#[trigger] keys@[k]@, metadata_keys(record.metadata@)[k], "36"@),
                values@.map_values(|v: String| v@) == metadata_values(record.metadata@).take(i as int),
            decreases n - i,
        {
            let (k, v) = &record.metadata[i];
            let key_piece = if colored {
                cyan_text(k.as_str())
            } else {
                k.clone()
            };
            let value_text = v.to_string();
            let ghost old_keys = keys@;
            let ghost old_values = values@;
            keys.push(key_piece);
            values.push(value_text);
            proof {
                assert(values@.map_values(|v: String| v@) =~= metadata_values(record.metadata@).take(i + 1));
                if !colored {
                    assert(keys@.map_values(|k: String| k@) =~= metadata_keys(record.metadata@).take(i + 1));
                }
            }
            i += 1;
        }
        proof {
            assert(metadata_values(record.metadata@).take(n as int) =~= metadata_values(record.metadata@));
            assert(metadata_keys(record.metadata@).take(n as int) =~= metadata_keys(record.metadata@));
        }
        let line = compose_text_line(
            ts_piece.as_str(),
            thread_piece.as_str(),
            level_piece.as_str(),
            &file_piece,
            record.line,
            message_piece.as_str(),
            &keys,
            &values,
        );
        Ok(line)
    }
}

impl From<TextFormatterConfig> for TextFormatter {
    /// The formatter `new` makes for `config`.
    fn from(config: TextFormatterConfig) -> (f: Self)
        ensures
            f.spec_config() == config,
    {
        TextFormatter { config }
    }
}

impl vstd::std_specs::convert::FromSpecImpl<TextFormatterConfig> for TextFormatter {
    closed spec fn obeys_from_spec() -> bool {
        true
    }

    closed spec fn from_spec(config: TextFormatterConfig) -> Self {
        TextFormatter { config }
    }
}

/// A formatter made with `from` keeps the configuration it was made from.
pub proof fn lemma_from_config(config: TextFormatterConfig)
    ensures
        <TextFormatter as vstd::std_specs::convert::FromSpec<TextFormatterConfig>>::obeys_from_spec(),
        <TextFormatter as vstd::std_specs::convert::FromSpec<TextFormatterConfig>>::from_spec(config).spec_config() == config,
{
}

} // verus!
