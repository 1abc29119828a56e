//! Recognition of one log line: `HH:MM:SS.mmm LEVEL [module] - message`.
//!
//! The shape is searched for anywhere in the line, and the leftmost start
//! wins. Digits and word characters are Unicode ones, as the `regex` crates
//! define the classes `\d` and `\w`.

use vstd::prelude::*;
use crate::text::{chars_of, string_of, trim, trim_end_index, trim_start_index};

verus! {

/// Whether the class `\d` of the `regex` crate holds `c` (`\p{Nd}`).
pub uninterp spec fn digit_class_of(c: char) -> bool;

/// Whether regex-syntax counts `c` as a word character, the class `\w`.
pub uninterp spec fn word_class_of(c: char) -> bool;

/// A decimal digit.
pub open spec fn is_digit(c: char) -> bool {
    digit_class_of(c)
}

/// A word character: a letter, a mark, a decimal digit or a connector.
pub open spec fn is_word_char(c: char) -> bool {
    word_class_of(c)
}

/// `s[i..i + 12]` reads `HH:MM:SS.mmm`.
pub open spec fn timestamp_at(s: Seq<char>, i: int) -> bool {
    &&& 0 <= i
    &&& i + 12 <= s.len()
    &&& is_digit(s[i]) && is_digit(s[i + 1]) && s[i + 2] == ':'
    &&& is_digit(s[i + 3]) && is_digit(s[i + 4]) && s[i + 5] == ':'
    &&& is_digit(s[i + 6]) && is_digit(s[i + 7]) && s[i + 8] == '.'
    &&& is_digit(s[i + 9]) && is_digit(s[i + 10]) && is_digit(s[i + 11])
}

/// The end of the run of word characters that starts at `j`.
pub open spec fn word_end(s: Seq<char>, j: int) -> int
    decreases s.len() - j,
{
    if 0 <= j < s.len() && is_word_char(s[j]) {
        word_end(s, j + 1)
    } else {
        j
    }
}

/// `"] - "` stands at `k`.
pub open spec fn separator_at(s: Seq<char>, k: int) -> bool {
    0 <= k && k + 4 <= s.len() && s[k] == ']' && s[k + 1] == ' ' && s[k + 2] == '-' && s[k + 3]
        == ' '
}

/// The first position from `k` on where `"] - "` stands.
pub open spec fn find_separator(s: Seq<char>, k: int) -> Option<int>
    decreases s.len() - k,
{
    if k < 0 || k + 4 > s.len() {
        None
    } else if separator_at(s, k) {
        Some(k)
    } else {
        find_separator(s, k + 1)
    }
}

/// Where the parts of a line lie: the timestamp at `ts`, the module between
/// `module_start` and `sep`, the message from `sep + 4` to the end.
pub struct Span {
    pub ts: int,
    pub module_start: int,
    pub sep: int,
}

/// The match of the line shape that starts at `i`, if there is one.
pub open spec fn match_at(s: Seq<char>, i: int) -> Option<Span> {
    if timestamp_at(s, i) && i + 13 <= s.len() && s[i + 12] == ' ' {
        let j = word_end(s, i + 13);
        if j > i + 13 && j + 2 <= s.len() && s[j] == ' ' && s[j + 1] == '[' {
            match find_separator(s, j + 2) {
                Some(k) => Some(Span { ts: i, module_start: j + 2, sep: k }),
                None => None,
            }
        } else {
            None
        }
    } else {
        None
    }
}

/// The leftmost match of the line shape at or after `i`.
pub open spec fn find_match(s: Seq<char>, i: int) -> Option<Span>
    decreases s.len() - i,
{
    if i < 0 || i >= s.len() {
        None
    } else {
        match match_at(s, i) {
            Some(m) => Some(m),
            None => find_match(s, i + 1),
        }
    }
}

/// The parts of a line, module and message trimmed, as plain sequences.
pub struct LineParts {
    pub timestamp: Seq<char>,
    pub module: Seq<char>,
    pub message: Seq<char>,
}

/// What a line holds, or `None` where it does not have the log line shape.
pub open spec fn parse_spec(s: Seq<char>) -> Option<LineParts> {
    match find_match(s, 0) {
        Some(m) => Some(
            LineParts {
                timestamp: s.subrange(m.ts, m.ts + 12),
                module: trim(s.subrange(m.module_start, m.sep)),
                message: trim(s.subrange(m.sep + 4, s.len() as int)),
            },
        ),
        None => None,
    }
}

/// One recognised log line: its timestamp, and its module and message trimmed.
pub struct LogLine {
    pub timestamp: String,
    pub module: String,
    pub message: String,
}

impl LogLine {
    /// The line's parts as plain sequences.
    pub open spec fn parts(&self) -> LineParts {
        LineParts { timestamp: self.timestamp@, module: self.module@, message: self.message@ }
    }
}

/// Relies on `regex::Regex::new` and `Regex::is_match`: whether `\d` matches
/// the one character `c`. The pattern is valid, so the error arm is not taken.
#[verifier::external_body]
fn is_digit_char(c: char) -> (r: bool)
    ensures
        r == digit_class_of(c),
{
    let mut buf = [0u8; 4];
    match regex::Regex::new(r"\A\d\z") {
        Ok(re) => re.is_match(c.encode_utf8(&mut buf)),
        Err(_) => false,
    }
}

/// Relies on `regex_syntax::try_is_word_character`: whether `c` is a Unicode
/// word character. Its error comes only without the `unicode-perl` feature,
/// which this crate builds with.
#[verifier::external_body]
fn is_word(c: char) -> (r: bool)
    ensures
        r == word_class_of(c),
{
    match regex_syntax::try_is_word_character(c) {
        Ok(b) => b,
        Err(_) => false,
    }
}

fn has_timestamp_at(s: &Vec<char>, i: usize) -> (r: bool)
    ensures
        r == timestamp_at(s@, i as int),
{
    if i > s.len() || s.len() - i < 12 {
        return false;
    }
    s[i + 2] == ':' && s[i + 5] == ':' && s[i + 8] == '.' && is_digit_char(s[i])
        && is_digit_char(s[i + 1]) && is_digit_char(s[i + 3]) && is_digit_char(s[i + 4])
        && is_digit_char(s[i + 6]) && is_digit_char(s[i + 7]) && is_digit_char(s[i + 9])
        && is_digit_char(s[i + 10]) && is_digit_char(s[i + 11])
}

fn word_end_exec(s: &Vec<char>, j: usize) -> (r: usize)
    requires
        j <= s.len(),
    ensures
        r as int == word_end(s@, j as int),
        j <= r <= s.len(),
{
    let mut k: usize = j;
    while k < s.len() && is_word(s[k])
        invariant
            j <= k <= s.len(),
            word_end(s@, k as int) == word_end(s@, j as int),
        decreases s.len() - k,
    {
        k = k + 1;
    }
    k
}

fn find_separator_exec(s: &Vec<char>, k0: usize) -> (r: Option<usize>)
    requires
        k0 <= s.len(),
    ensures
        match r {
            Some(k) => find_separator(s@, k0 as int) == Some(k as int),
            None => find_separator(s@, k0 as int) is None,
        },
{
    let mut k: usize = k0;
    while s.len() - k >= 4
        invariant
            k0 <= k <= s.len(),
            find_separator(s@, k as int) == find_separator(s@, k0 as int),
        decreases s.len() - k,
    {
        if s[k] == ']' && s[k + 1] == ' ' && s[k + 2] == '-' && s[k + 3] == ' ' {
            return Some(k);
        }
        k = k + 1;
    }
    None
}

/// The match that starts at `i`, as `(module start, separator)`.
fn match_at_exec(s: &Vec<char>, i: usize) -> (r: Option<(usize, usize)>)
    requires
        i <= s.len(),
    ensures
        match r {
            Some((a, k)) => match_at(s@, i as int) == Some(
                Span { ts: i as int, module_start: a as int, sep: k as int },
            ),
            None => match_at(s@, i as int) is None,
        },
        r matches Some((a, k)) ==> a <= k && k + 4 <= s.len(),
{
    if !has_timestamp_at(s, i) || s.len() - i < 13 || s[i + 12] != ' ' {
        return None;
    }
    let j = word_end_exec(s, i + 13);
    if j <= i + 13 || s.len() - j < 2 || s[j] != ' ' || s[j + 1] != '[' {
        return None;
    }
    match find_separator_exec(s, j + 2) {
        Some(k) => {
            proof {
                lemma_find_separator_bounds(s@, (j + 2) as int);
            }
            Some((j + 2, k))
        },
        None => None,
    }
}

proof fn lemma_find_separator_bounds(s: Seq<char>, k: int)
    ensures
        find_separator(s, k) matches Some(p) ==> k <= p && separator_at(s, p),
    decreases s.len() - k,
{
    if k < 0 || k + 4 > s.len() {
    } else if separator_at(s, k) {
    } else {
        lemma_find_separator_bounds(s, k + 1);
    }
}

/// Where the parts of a recognised line lie in `s`: the timestamp start, the
/// trimmed module's bounds and the trimmed message's bounds.
pub(crate) fn locate(s: &Vec<char>) -> (r: Option<(usize, usize, usize, usize, usize)>)
    ensures
        match r {
            Some((ts, ma, mb, ga, gb)) => {
                &&& ts + 12 <= s.len()
                &&& ma <= mb <= s.len()
                &&& ga <= gb <= s.len()
                &&& parse_spec(s@) == Some(
                    LineParts {
                        timestamp: s@.subrange(ts as int, ts + 12),
                        module: s@.subrange(ma as int, mb as int),
                        message: s@.subrange(ga as int, gb as int),
                    },
                )
            },
            None => parse_spec(s@) is None,
        },
{
    let mut i: usize = 0;
    while i < s.len()
        invariant
            i <= s.len(),
            find_match(s@, i as int) == find_match(s@, 0),
        decreases s.len() - i,
    {
        match match_at_exec(s, i) {
            Some((a, k)) => {
                let ma = trim_start_index(s, a, k);
                let mb = trim_end_index(s, ma, k);
                let ga = trim_start_index(s, k + 4, s.len());
                let gb = trim_end_index(s, ga, s.len());
                return Some((i, ma, mb, ga, gb));
            },
            None => {},
        }
        i = i + 1;
    }
    None
}

/// Recognises one line. `None` where the line does not have the log line shape.
pub fn parse_chars(s: &Vec<char>) -> (r: Option<LogLine>)
    ensures
        match r {
            Some(l) => parse_spec(s@) == Some(l.parts()),
            None => parse_spec(s@) is None,
        },
{
    match locate(s) {
        Some((ts, ma, mb, ga, gb)) => {
            let timestamp = string_of(&s.as_slice()[ts..ts + 12]);
            let module = string_of(&s.as_slice()[ma..mb]);
            let message = string_of(&s.as_slice()[ga..gb]);
            Some(LogLine { timestamp, module, message })
        },
        None => None,
    }
}

/// Recognises one line of text.
pub fn parse_line(line: &str) -> (r: Option<LogLine>)
    ensures
        match r {
            Some(l) => parse_spec(line@) == Some(l.parts()),
            None => parse_spec(line@) is None,
        },
{
    parse_chars(&chars_of(line))
}

} // verus!
