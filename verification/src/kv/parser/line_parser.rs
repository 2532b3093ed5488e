//! Records written as `key<separator>value[<separator>change]` on one line.

use vstd::prelude::*;
use vstd::utf8::{decode_utf8, valid_utf8};

use crate::text::{
    all_ascii, ascii_lowercase, decode_utf8_text, find_from, first_match, lowercase, matches_at, push_str, str_chars, str_equal, string_of_range,
    to_lowercase,
};
use super::core_types::{ChangeType, Parser, ParserError};
use super::parse_value::{spec_parse_integer, ParseValue};

verus! {

/// Configuration of a `LineParser`.
#[derive(Debug, Clone)]
pub struct LineParserConfig {
    /// The text between the fields.
    pub separator: String,
}

/// The separator used when none is configured: a tab.
pub fn default_separator() -> (s: String)
    ensures
        s@ == seq!['\t'],
{
    proof { reveal_strlit("\t"); }
    "\t".to_owned()
}

/// The parts of `s` split at the first two occurrences of `sep`, the third part
/// being the rest of `s`; an empty `sep` occurs before every character.
pub open spec fn split_three(s: Seq<char>, sep: Seq<char>) -> Seq<Seq<char>> {
    if sep.len() == 0 {
        if s.len() == 0 {
            seq![Seq::<char>::empty(), Seq::<char>::empty()]
        } else {
            seq![Seq::<char>::empty(), s.take(1), s.skip(1)]
        }
    } else {
        match first_match(s, sep, 0) {
            None => seq![s],
            Some(i) => {
                let j = i + sep.len();
                match first_match(s, sep, j) {
                    None => seq![s.take(i), s.skip(j)],
                    Some(i2) => seq![s.take(i), s.subrange(j, i2), s.skip(i2 + sep.len())],
                }
            },
        }
    }
}

/// The change kind a text names: 1, 2, 3 as an integer, or "add", "update",
/// "delete" in any case; anything else is unknown.
pub open spec fn spec_change_type(s: Seq<char>) -> ChangeType {
    change_type_lowered(s, lowercase(s))
}

/// The change kind `s` names, with `l` as its lower case.
pub open spec fn change_type_lowered(s: Seq<char>, l: Seq<char>) -> ChangeType {
    match spec_parse_integer(s, true, i32::MIN as int, i32::MAX as int) {
        Some(n) => if n == 1 {
            ChangeType::Add
        } else if n == 2 {
            ChangeType::Update
        } else if n == 3 {
            ChangeType::Delete
        } else {
            ChangeType::Unknown
        },
        None => if l == "add"@ {
            ChangeType::Add
        } else if l == "update"@ {
            ChangeType::Update
        } else if l == "delete"@ {
            ChangeType::Delete
        } else {
            ChangeType::Unknown
        },
    }
}

/// Reads the change kind a text names.
pub fn parse_change_type(s: &str) -> (r: Result<ChangeType, ParserError>)
    ensures
        r == Ok::<ChangeType, ParserError>(spec_change_type(s@)),
        all_ascii(s@) ==> r == Ok::<ChangeType, ParserError>(change_type_lowered(s@, ascii_lowercase(s@))),
{
    match <i32 as ParseValue>::parse_value(s) {
        Ok(n) => {
            let ct = if n == 1 {
                ChangeType::Add
            } else if n == 2 {
                ChangeType::Update
            } else if n == 3 {
                ChangeType::Delete
            } else {
                ChangeType::Unknown
            };
            Ok(ct)
        },
        Err(_) => {
            let l = to_lowercase(s);
            let ct = if str_equal(l.as_str(), "add") {
                ChangeType::Add
            } else if str_equal(l.as_str(), "update") {
                ChangeType::Update
            } else if str_equal(l.as_str(), "delete") {
                ChangeType::Delete
            } else {
                ChangeType::Unknown
            };
            Ok(ct)
        },
    }
}

/// The record the characters `s` hold when split at `sep`.
pub open spec fn spec_parse_line<K: ParseValue, V: ParseValue>(s: Seq<char>, sep: Seq<char>) -> Option<(ChangeType, K::V, V::V)> {
    let parts = split_three(s, sep);
    if parts.len() < 2 {
        match (K::spec_parse_value(Seq::<char>::empty()), V::spec_parse_value(Seq::<char>::empty())) {
            (Some(k), Some(v)) => Some((ChangeType::Unknown, k, v)),
            _ => None,
        }
    } else {
        match (K::spec_parse_value(parts[0]), V::spec_parse_value(parts[1])) {
            (Some(k), Some(v)) => {
                let ct = if parts.len() >= 3 && parts[2].len() > 0 {
                    spec_change_type(parts[2])
                } else {
                    ChangeType::Add
                };
                Some((ct, k, v))
            },
            _ => None,
        }
    }
}

/// Parses records of the form `key<separator>value[<separator>change]`.
pub struct LineParser<K, V> {
    separator: String,
    _phantom: std::marker::PhantomData<(K, V)>,
}

impl<K, V> LineParser<K, V> {
    /// Creates a parser splitting at the configured separator.
    pub fn new(config: LineParserConfig) -> (p: Self)
        ensures
            p.separator() == config.separator@,
    {
        LineParser { separator: config.separator, _phantom: std::marker::PhantomData }
    }

    /// The separator the parser splits at.
    pub closed spec fn separator(&self) -> Seq<char> {
        self.separator@
    }
}

impl<K, V> From<LineParserConfig> for LineParser<K, V> {
    /// The parser `new` makes for `config`.
    fn from(config: LineParserConfig) -> (p: Self)
        ensures
            p.separator() == config.separator@,
    {
        LineParser { separator: config.separator, _phantom: std::marker::PhantomData }
    }
}

impl<K, V> vstd::std_specs::convert::FromSpecImpl<LineParserConfig> for LineParser<K, V> {
    closed spec fn obeys_from_spec() -> bool {
        true
    }

    closed spec fn from_spec(config: LineParserConfig) -> Self {
        LineParser { separator: config.separator, _phantom: std::marker::PhantomData }
    }
}

/// The positions where the parts of `s` begin and end.
fn split_bounds(s: &Vec<char>, sep: &Vec<char>) -> (r: Vec<(usize, usize)>)
    ensures
        r@.len() == split_three(s@, sep@).len(),
        forall|i: int| 0 <= i < r@.len() ==> {
            &&& #[trigger] r@[i].0 <= r@[i].1 <= s@.len()
            &&& s@.subrange(r@[i].0 as int, r@[i].1 as int) == split_three(s@, sep@)[i]
        },
{
    let n = s.len();
    let mut r: Vec<(usize, usize)> = Vec::new();
    if sep.len() == 0 {
        if n == 0 {
            r.push((0, 0));
            r.push((0, 0));
        } else {
            r.push((0, 0));
            r.push((0, 1));
            r.push((1, n));
        }
        proof {
            assert(s@.subrange(0, 0) =~= Seq::<char>::empty());
            if n > 0 {
                assert(s@.subrange(0, 1) =~= s@.take(1));
                assert(s@.subrange(1, n as int) =~= s@.skip(1));
            }
        }
        return r;
    }
    match find_from(s, sep, 0) {
        None => {
            r.push((0, n));
            proof { assert(s@.subrange(0, n as int) =~= s@); }
        },
        Some(i) => {
            let j = i + sep.len();
            match find_from(s, sep, j) {
                None => {
                    r.push((0, i));
                    r.push((j, n));
                    proof {
                        assert(s@.subrange(0, i as int) =~= s@.take(i as int));
                        assert(s@.subrange(j as int, n as int) =~= s@.skip(j as int));
                    }
                },
                Some(i2) => {
                    r.push((0, i));
                    r.push((j, i2));
                    r.push((i2 + sep.len(), n));
                    proof {
                        assert(s@.subrange(0, i as int) =~= s@.take(i as int));
                        assert(s@.subrange(i2 + sep@.len(), n as int) =~= s@.skip(i2 + sep@.len()));
                    }
                },
            }
        },
    }
    r
}

impl<K: ParseValue, V: ParseValue> LineParser<K, V> {
    /// Parses the characters of one line.
    fn parse_chars(&self, s: &Vec<char>) -> (r: Result<(ChangeType, K, V), ParserError>)
        ensures
            match r {
                Ok((ct, k, v)) => spec_parse_line::<K, V>(s@, self.separator@) == Some((ct, k@, v@)),
                Err(_) => spec_parse_line::<K, V>(s@, self.separator@) is None,
            },
    {
        let sep = str_chars(self.separator.as_str());
        let bounds = split_bounds(s, &sep);
        let ghost parts = split_three(s@, self.separator@);
        if bounds.len() < 2 {
            proof {
                reveal_strlit("");
                assert(""@ =~= Seq::<char>::empty());
                assert(parts.len() < 2);
            }
            let k = match K::parse_value("") {
                Ok(k) => k,
                Err(e) => return Err(e),
            };
            let v = match V::parse_value("") {
                Ok(v) => v,
                Err(e) => return Err(e),
            };
            return Ok((ChangeType::Unknown, k, v));
        }
        let (a0, b0) = bounds[0];
        let (a1, b1) = bounds[1];
        let key_text = string_of_range(s, a0, b0);
        let value_text = string_of_range(s, a1, b1);
        let key = match K::parse_value(key_text.as_str()) {
            Ok(k) => k,
            Err(e) => return Err(wrap_error("failed to parse key: ", e)),
        };
        let value = match V::parse_value(value_text.as_str()) {
            Ok(v) => v,
            Err(e) => return Err(wrap_error("failed to parse value: ", e)),
        };
        let ct = if bounds.len() >= 3 && bounds[2].0 < bounds[2].1 {
            let (a2, b2) = bounds[2];
            let change_text = string_of_range(s, a2, b2);
            match parse_change_type(change_text.as_str()) {
                Ok(c) => c,
                Err(e) => return Err(e),
            }
        } else {
            ChangeType::Add
        };
        Ok((ct, key, value))
    }
}

/// An error that adds `context` before the text of `e`.
fn wrap_error(context: &str, e: ParserError) -> (r: ParserError)
    ensures
        r matches ParserError::ParseFailed(m) && m@ == context@ + e.spec_message(),
{
    let mut s = context.to_owned();
    let t = e.message();
    push_str(&mut s, t.as_str());
    ParserError::ParseFailed(s)
}

impl<K: ParseValue, V: ParseValue> Parser<K, V> for LineParser<K, V> {
    open spec fn spec_parse(&self, buf: Seq<u8>) -> Option<(ChangeType, K::V, V::V)> {
        if valid_utf8(buf) {
            spec_parse_line::<K, V>(decode_utf8(buf), self.separator())
        } else {
            None
        }
    }

    fn parse(&self, buf: &[u8]) -> (r: Result<(ChangeType, K, V), ParserError>) {
        let line = match decode_utf8_text(buf) {
            Ok(l) => l,
            Err(m) => {
                let mut s = "invalid UTF-8: ".to_owned();
                push_str(&mut s, m.as_str());
                return Err(ParserError::ParseFailed(s));
            },
        };
        let chars = str_chars(line);
        self.parse_chars(&chars)
    }
}

/// The first occurrence of a one-character separator at or after `from` is the first
/// position holding that character.
proof fn lemma_single_char_match(s: Seq<char>, c: char, from: int, j: int)
    requires
        0 <= from <= j < s.len(),
        s[j] == c,
        forall|i: int| from <= i < j ==> s[i] != c,
    ensures
        first_match(s, seq![c], from) == Some(j),
    decreases j - from,
{
    if from < j {
        assert(!matches_at(s, seq![c], from)) by {
            assert(s.subrange(from, from + 1)[0] == s[from]);
        }
        lemma_single_char_match(s, c, from + 1, j);
    } else {
        assert(s.subrange(j, j + 1) =~= seq![c]);
    }
}

/// Without the character at or after `from`, the one-character separator does not occur there.
proof fn lemma_single_char_none(s: Seq<char>, c: char, from: int)
    requires
        0 <= from,
        forall|i: int| from <= i < s.len() ==> s[i] != c,
    ensures
        first_match(s, seq![c], from) is None,
    decreases s.len() - from,
{
    if from + 1 <= s.len() {
        assert(!matches_at(s, seq![c], from)) by {
            assert(s.subrange(from, from + 1)[0] == s[from]);
        }
        lemma_single_char_none(s, c, from + 1);
    }
}

/// A record written as key, separator, value, with a one-character separator found
/// in neither, is read back as that key and value, added.
pub proof fn law_line_round_trip(key: Seq<char>, value: Seq<char>, c: char)
    requires
        forall|i: int| 0 <= i < key.len() ==> key[i] != c,
        forall|i: int| 0 <= i < value.len() ==> value[i] != c,
    ensures
        spec_parse_line::<String, String>(key + seq![c] + value, seq![c]) == Some((ChangeType::Add, key, value)),
{
    let line = key + seq![c] + value;
    let k = key.len() as int;
    assert forall|i: int| 0 <= i < k implies line[i] != c by {
        assert(line[i] == key[i]);
    }
    assert(line[k] == c);
    lemma_single_char_match(line, c, 0, k);
    assert forall|i: int| k + 1 <= i < line.len() implies line[i] != c by {
        assert(line[i] == value[i - k - 1]);
    }
    lemma_single_char_none(line, c, k + 1);
    assert(line.take(k) =~= key);
    assert(line.skip(k + 1) =~= value);
}

/// A record written as key, separator, value is read back as that key and value,
/// added, whenever the separator occurs first where it was written and not in the value.
pub proof fn law_line_round_trip_any_separator(key: Seq<char>, value: Seq<char>, sep: Seq<char>)
    requires
        sep.len() > 0,
        first_match(key + sep + value, sep, 0) == Some(key.len() as int),
        first_match(key + sep + value, sep, (key.len() + sep.len()) as int) is None,
    ensures
        spec_parse_line::<String, String>(key + sep + value, sep) == Some((ChangeType::Add, key, value)),
{
    let line = key + sep + value;
    assert(line.take(key.len() as int) =~= key);
    assert(line.skip((key.len() + sep.len()) as int) =~= value);
}

impl<K, V> LineParser<K, V> {
    /// A parser made with `from` splits at the configured separator.
    pub proof fn lemma_from_config(config: LineParserConfig)
        ensures
            <LineParser<K, V> as vstd::std_specs::convert::FromSpec<LineParserConfig>>::obeys_from_spec(),
            <LineParser<K, V> as vstd::std_specs::convert::FromSpec<LineParserConfig>>::from_spec(config).separator()
                == config.separator@,
    {
    }
}

} // verus!
