//! The filtering pass: a fold over the lines of the text that keeps the
//! module of the last kept line and the output built so far.

use vstd::prelude::*;
use crate::line::{locate, parse_spec};
use crate::message::{format_range, format_spec, push_range, strip_annotation_index, strip_annotation_spec};
use crate::rules::{starts_with_any, RuleSet, RuleSetView};
use crate::text::{chars_of, string_of};

verus! {

/// `l` without one carriage return at its end.
pub open spec fn without_cr(l: Seq<char>) -> Seq<char> {
    if l.len() > 0 && l.last() == '\r' {
        l.drop_last()
    } else {
        l
    }
}

/// The lines finished so far and the line being read.
pub struct LineSplit {
    pub done: Seq<Seq<char>>,
    pub current: Seq<char>,
}

/// The state of the line split once `s` has been read.
pub open spec fn split_prefix(s: Seq<char>) -> LineSplit
    decreases s.len(),
{
    if s.len() == 0 {
        LineSplit { done: Seq::empty(), current: Seq::empty() }
    } else {
        let p = split_prefix(s.drop_last());
        if s.last() == '\n' {
            LineSplit { done: p.done.push(without_cr(p.current)), current: Seq::empty() }
        } else {
            LineSplit { done: p.done, current: p.current.push(s.last()) }
        }
    }
}

/// The lines of `s`: cut at each `'\n'`, which ends a line, with the `'\r'` of a
/// `"\r\n"` dropped. A final newline opens no further line.
pub open spec fn split_lines(s: Seq<char>) -> Seq<Seq<char>> {
    let p = split_prefix(s);
    if p.current.len() > 0 {
        p.done.push(p.current)
    } else {
        p.done
    }
}

/// What is left of a line once the rules have been applied: its timestamp,
/// module and cleaned message, or `None` where nothing of it is kept.
pub open spec fn kept_line(line: Seq<char>, rules: RuleSetView) -> Option<
    (Seq<char>, Seq<char>, Seq<char>),
> {
    match parse_spec(line) {
        None => None,
        Some(p) => if rules.modules.contains(p.module) || starts_with_any(
            rules.phrases,
            p.message,
        ) {
            None
        } else {
            Some((p.timestamp, p.module, strip_annotation_spec(p.message)))
        },
    }
}

/// The module of the last kept line (empty before any) and the output so far.
pub struct FilterState {
    pub previous: Seq<char>,
    pub out: Seq<Seq<char>>,
}

/// The state before any line: no module yet and no output.
pub open spec fn initial_state() -> FilterState {
    FilterState { previous: Seq::empty(), out: Seq::empty() }
}

/// One line's effect on the state: a dropped line leaves it as it is; a kept
/// line is preceded by one empty line where it changes the module.
pub open spec fn step(st: FilterState, line: Seq<char>, rules: RuleSetView) -> FilterState {
    match kept_line(line, rules) {
        None => st,
        Some((ts, module, msg)) => {
            let out = if st.previous.len() > 0 && st.previous != module {
                st.out.push(Seq::empty())
            } else {
                st.out
            };
            FilterState { previous: module, out: out.push(format_spec(ts, module, msg)) }
        },
    }
}

/// The state after every line of `lines`, in order.
pub open spec fn run(lines: Seq<Seq<char>>, rules: RuleSetView) -> FilterState
    decreases lines.len(),
{
    if lines.len() == 0 {
        initial_state()
    } else {
        step(run(lines.drop_last(), rules), lines.last(), rules)
    }
}

/// The output for a sequence of lines.
pub open spec fn filter_lines_spec(lines: Seq<Seq<char>>, rules: RuleSetView) -> Seq<Seq<char>> {
    run(lines, rules).out
}

/// The output for a text.
pub open spec fn filter_spec(text: Seq<char>, rules: RuleSetView) -> Seq<Seq<char>> {
    filter_lines_spec(split_lines(text), rules)
}

/// The character sequences of a sequence of character vectors.
pub open spec fn char_views(v: Seq<Vec<char>>) -> Seq<Seq<char>> {
    v.map_values(|l: Vec<char>| l@)
}

/// The character sequences of a sequence of strings.
pub open spec fn string_views(v: Seq<String>) -> Seq<Seq<char>> {
    v.map_values(|l: String| l@)
}

/// Cuts `s` into its lines.
pub fn split_line_chars(s: &Vec<char>) -> (r: Vec<Vec<char>>)
    ensures
        char_views(r@) == split_lines(s@),
{
    let mut done: Vec<Vec<char>> = Vec::new();
    let mut current: Vec<char> = Vec::new();
    let mut i: usize = 0;
    while i < s.len()
        invariant
            i <= s.len(),
            char_views(done@) == split_prefix(s@.take(i as int)).done,
            current@ == split_prefix(s@.take(i as int)).current,
        decreases s.len() - i,
    {
        assert(s@.take(i + 1).drop_last() =~= s@.take(i as int));
        let ghost before = char_views(done@);
        if s[i] == '\n' {
            if current.len() > 0 && current[current.len() - 1] == '\r' {
                current.pop();
            }
            let line = current;
            done.push(line);
            current = Vec::new();
            assert(char_views(done@) =~= before.push(line@));
        } else {
            current.push(s[i]);
        }
        i = i + 1;
    }
    assert(s@.take(s.len() as int) =~= s@);
    if current.len() > 0 {
        let ghost before = char_views(done@);
        let ghost cv = current@;
        done.push(current);
        assert(char_views(done@) =~= before.push(cv));
    }
    done
}

/// Applies one line to the state held in `previous` and `out`.
fn process_line(line: &Vec<char>, rules: &RuleSet, previous: &mut String, out: &mut Vec<String>)
    ensures
        step(FilterState { previous: old(previous)@, out: string_views(old(out)@) }, line@, rules@)
            == (FilterState { previous: final(previous)@, out: string_views(final(out)@) }),
{
    match locate(line) {
        None => {},
        Some((ts, ma, mb, ga, gb)) => {
            let module = string_of(&line.as_slice()[ma..mb]);
            if rules.excludes_module(&module) {
                return;
            }
            if rules.excludes_range(line, ga, gb) {
                return;
            }
            let ge = strip_annotation_index(line, ga, gb);
            let ghost out0 = string_views(out@);
            if !previous.as_str().is_empty() && *previous != module {
                out.push(String::new());
                assert(string_views(out@) =~= out0.push(Seq::empty()));
            }
            let ghost out1 = string_views(out@);
            let formatted = format_range(line, ts, ma, mb, ga, ge);
            out.push(formatted);
            assert(string_views(out@) =~= out1.push(formatted@));
            *previous = module;
        },
    }
}

/// Filters and reformats a sequence of lines.
pub fn filter_line_chars(lines: &Vec<Vec<char>>, rules: &RuleSet) -> (r: Vec<String>)
    ensures
        string_views(r@) == filter_lines_spec(char_views(lines@), rules@),
{
    let mut out: Vec<String> = Vec::new();
    let mut previous = String::new();
    let mut i: usize = 0;
    assert(char_views(lines@).take(0) =~= Seq::<Seq<char>>::empty());
    assert(string_views(out@) =~= Seq::<Seq<char>>::empty());
    while i < lines.len()
        invariant
            i <= lines.len(),
            run(char_views(lines@).take(i as int), rules@) == (FilterState {
                previous: previous@,
                out: string_views(out@),
            }),
        decreases lines.len() - i,
    {
        assert(char_views(lines@).take(i + 1).drop_last() =~= char_views(lines@).take(i as int));
        process_line(&lines[i], rules, &mut previous, &mut out);
        i = i + 1;
    }
    assert(char_views(lines@).take(lines.len() as int) =~= char_views(lines@));
    out
}

/// Filters and reformats each line of `lines`.
pub fn filter_lines(lines: &Vec<String>, rules: &RuleSet) -> (r: Vec<String>)
    ensures
        string_views(r@) == filter_lines_spec(string_views(lines@), rules@),
{
    let mut chars: Vec<Vec<char>> = Vec::new();
    let mut i: usize = 0;
    while i < lines.len()
        invariant
            i <= lines.len(),
            char_views(chars@) == string_views(lines@).take(i as int),
        decreases lines.len() - i,
    {
        let ghost before = char_views(chars@);
        let c = chars_of(lines[i].as_str());
        let ghost cv = c@;
        chars.push(c);
        assert(char_views(chars@) =~= before.push(cv));
        assert(string_views(lines@).take(i + 1) =~= string_views(lines@).take(i as int).push(
            lines@[i as int]@,
        ));
        i = i + 1;
    }
    assert(string_views(lines@).take(lines.len() as int) =~= string_views(lines@));
    filter_line_chars(&chars, rules)
}

/// Filters and reformats the log text `raw`: the cleaned lines in order, with
/// one empty line wherever the module changes.
pub fn filter(raw: &str, rules: &RuleSet) -> (r: Vec<String>)
    ensures
        string_views(r@) == filter_spec(raw@, rules@),
{
    let s = chars_of(raw);
    let lines = split_line_chars(&s);
    filter_line_chars(&lines, rules)
}

} // verus!
