//! Properties of the filtering pass, proved over its specification.

use vstd::prelude::*;
use crate::filter::{
    filter_spec, kept_line, run, split_lines, split_prefix, without_cr, LineSplit,
};
use crate::line::parse_spec;
use crate::message::{last_open, strip_annotation_spec};
use crate::text::{is_ws, trim_end};
use crate::rules::{starts_with_any, RuleSetView};

verus! {

/// A line that the rules drop can be inserted anywhere among other lines
/// without changing the output or the module-grouping state.
pub proof fn lemma_dropped_line_invisible(
    before: Seq<Seq<char>>,
    line: Seq<char>,
    after: Seq<Seq<char>>,
    rules: RuleSetView,
)
    requires
        kept_line(line, rules) is None,
    ensures
        run(before + seq![line] + after, rules) == run(before + after, rules),
    decreases after.len(),
{
    if after.len() == 0 {
        assert(before + seq![line] + after =~= before.push(line));
        assert(before + after =~= before);
        assert((before + seq![line] + after).drop_last() =~= before);
    } else {
        lemma_dropped_line_invisible(before, line, after.drop_last(), rules);
        assert((before + seq![line] + after).drop_last() =~= before + seq![line]
            + after.drop_last());
        assert((before + after).drop_last() =~= before + after.drop_last());
        assert((before + seq![line] + after).last() == after.last());
        assert((before + after).last() == after.last());
    }
}

/// Reading `x` after a text whose last line is finished adds the lines of `x`
/// on their own.
proof fn lemma_split_prefix_append(a: Seq<char>, x: Seq<char>)
    requires
        split_prefix(a).current.len() == 0,
    ensures
        split_prefix(a + x) == (LineSplit {
            done: split_prefix(a).done + split_prefix(x).done,
            current: split_prefix(x).current,
        }),
    decreases x.len(),
{
    if x.len() == 0 {
        assert(a + x =~= a);
        assert(split_prefix(a).done + split_prefix(x).done =~= split_prefix(a).done);
    } else {
        lemma_split_prefix_append(a, x.drop_last());
        assert((a + x).drop_last() =~= a + x.drop_last());
        assert((a + x).last() == x.last());
        let da = split_prefix(a).done;
        let px = split_prefix(x.drop_last());
        assert((da + px.done).push(without_cr(px.current)) =~= da + px.done.push(
            without_cr(px.current),
        ));
    }
}

/// A text without a newline is one unfinished line.
proof fn lemma_split_prefix_no_newline(l: Seq<char>)
    requires
        !l.contains('\n'),
    ensures
        split_prefix(l) == (LineSplit { done: Seq::empty(), current: l }),
    decreases l.len(),
{
    if l.len() > 0 {
        assert(l.drop_last() =~= l.subrange(0, l.len() - 1));
        assert(!l.drop_last().contains('\n')) by {
            if l.drop_last().contains('\n') {
                let k = choose|k: int| 0 <= k < l.drop_last().len() && l.drop_last()[k] == '\n';
                assert(l[k] == '\n');
            }
        }
        lemma_split_prefix_no_newline(l.drop_last());
        assert(l[l.len() - 1] != '\n');
        assert(l.drop_last().push(l.last()) =~= l);
    } else {
        assert(l =~= Seq::<char>::empty());
    }
}

/// Whether `a` is empty or ends with a newline.
pub open spec fn ends_line(a: Seq<char>) -> bool {
    a.len() == 0 || a.last() == '\n'
}

/// The lines of `a`, then `l` as one line, then the lines of `b`.
proof fn lemma_split_around_line(a: Seq<char>, l: Seq<char>, b: Seq<char>)
    requires
        ends_line(a),
        !l.contains('\n'),
    ensures
        split_lines(a + l + seq!['\n'] + b) == split_lines(a) + seq![without_cr(l)] + split_lines(
            b,
        ),
        split_lines(a + b) == split_lines(a) + split_lines(b),
{
    let e = Seq::<char>::empty();
    if a.len() > 0 {
        assert(split_prefix(a).current.len() == 0);
    } else {
        assert(split_prefix(a).current =~= e);
    }
    lemma_split_prefix_no_newline(l);
    assert((l + seq!['\n']).drop_last() =~= l);
    assert(split_prefix(seq!['\n']).current.len() == 0) by {
        assert(seq!['\n'].drop_last() =~= e);
    }
    lemma_split_prefix_append(a, l + seq!['\n']);
    let al = a + (l + seq!['\n']);
    assert(split_prefix(al).current.len() == 0);
    lemma_split_prefix_append(al, b);
    lemma_split_prefix_append(a, b);
    assert(a + l + seq!['\n'] + b =~= al + b);
    let da = split_prefix(a).done;
    let pb = split_prefix(b);
    assert(split_prefix(l + seq!['\n']).done =~= seq![without_cr(l)]);
    if pb.current.len() > 0 {
        assert((da + seq![without_cr(l)] + pb.done).push(pb.current) =~= da + seq![
            without_cr(l),
        ] + pb.done.push(pb.current));
        assert((da + pb.done).push(pb.current) =~= da + pb.done.push(pb.current));
    }
}

/// A dropped line, newline-terminated, inserted into a text at the start of a
/// line changes neither the output nor the module-grouping state.
proof fn lemma_dropped_text_line(a: Seq<char>, l: Seq<char>, b: Seq<char>, rules: RuleSetView)
    requires
        ends_line(a),
        !l.contains('\n'),
        kept_line(without_cr(l), rules) is None,
    ensures
        filter_spec(a + l + seq!['\n'] + b, rules) == filter_spec(a + b, rules),
{
    lemma_split_around_line(a, l, b);
    lemma_dropped_line_invisible(split_lines(a), without_cr(l), split_lines(b), rules);
}

/// A line without the log line shape, put into a text as a line of its own,
/// adds no output and leaves the module grouping of the other lines as it was.
pub proof fn lemma_unmatched_line_ignored(
    a: Seq<char>,
    l: Seq<char>,
    b: Seq<char>,
    rules: RuleSetView,
)
    requires
        ends_line(a),
        !l.contains('\n'),
        parse_spec(without_cr(l)) is None,
    ensures
        filter_spec(a + l + seq!['\n'] + b, rules) == filter_spec(a + b, rules),
{
    lemma_dropped_text_line(a, l, b, rules);
}

/// A well-formed line whose trimmed module is excluded, put into a text as a
/// line of its own, adds no output and leaves the grouping as it was, whatever
/// its message.
pub proof fn lemma_excluded_module_ignored(
    a: Seq<char>,
    l: Seq<char>,
    b: Seq<char>,
    rules: RuleSetView,
)
    requires
        ends_line(a),
        !l.contains('\n'),
        parse_spec(without_cr(l)) matches Some(p) && rules.modules.contains(p.module),
    ensures
        filter_spec(a + l + seq!['\n'] + b, rules) == filter_spec(a + b, rules),
{
    lemma_dropped_text_line(a, l, b, rules);
}

/// A well-formed line whose trimmed message starts with an excluded phrase,
/// put into a text as a line of its own, adds no output and leaves the
/// grouping as it was.
pub proof fn lemma_excluded_phrase_ignored(
    a: Seq<char>,
    l: Seq<char>,
    b: Seq<char>,
    rules: RuleSetView,
)
    requires
        ends_line(a),
        !l.contains('\n'),
        parse_spec(without_cr(l)) matches Some(p) && starts_with_any(rules.phrases, p.message),
    ensures
        filter_spec(a + l + seq!['\n'] + b, rules) == filter_spec(a + b, rules),
{
    lemma_dropped_text_line(a, l, b, rules);
}

/// Trailing whitespace does not change what `trim_end` leaves.
proof fn lemma_trim_end_ws_suffix(t: Seq<char>, w: Seq<char>)
    requires
        forall|i: int| 0 <= i < w.len() ==> is_ws(#[trigger] w[i]),
    ensures
        trim_end(t + w) == trim_end(t),
    decreases w.len(),
{
    if w.len() == 0 {
        assert(t + w =~= t);
    } else {
        assert((t + w).drop_last() =~= t + w.drop_last());
        assert(is_ws(w[w.len() - 1]));
        lemma_trim_end_ws_suffix(t, w.drop_last());
    }
}

/// With no `"[["` after `base` up to `q`, the last one at or before `q` is at `base`.
proof fn lemma_last_open_at(t: Seq<char>, q: int, base: int)
    requires
        0 <= base <= q,
        t[base] == '[' && t[base + 1] == '[',
        forall|k: int| base < k <= q ==> !(#[trigger] t[k] == '[' && t[k + 1] == '['),
    ensures
        last_open(t, q) == base,
    decreases q,
{
    if q > base {
        lemma_last_open_at(t, q - 1, base);
    }
}

/// A message made of `p`, an annotation `[[c]]` and trailing whitespace `w`
/// is cleaned to `p` without its trailing whitespace, where `c` neither starts
/// with `[` nor holds `[[` (so that `[[c]]` is the shortest annotation ending
/// the message).
pub proof fn lemma_strip_trailing_annotation(p: Seq<char>, c: Seq<char>, w: Seq<char>)
    requires
        forall|i: int| 0 <= i < w.len() ==> is_ws(#[trigger] w[i]),
        forall|j: int|
            0 <= j < c.len() ==> !(#[trigger] (seq!['['] + c)[j] == '[' && (seq!['['] + c)[j + 1]
                == '['),
    ensures
        strip_annotation_spec(p + seq!['[', '['] + c + seq![']', ']'] + w) == trim_end(p),
{
    let t = p + seq!['[', '['] + c + seq![']', ']'];
    let u = seq!['['] + c;
    let n = t.len() as int;
    lemma_trim_end_ws_suffix(t, w);
    assert(!is_ws(t.last()));
    assert(trim_end(t) == t);
    assert forall|k: int| p.len() < k <= n - 4 implies !(#[trigger] t[k] == '[' && t[k + 1]
        == '[') by {
        let j = k - p.len() - 1;
        assert(t[k] == u[j]);
        assert(t[k + 1] == u[j + 1]);
    }
    lemma_last_open_at(t, n - 4, p.len() as int);
    assert(t.subrange(0, p.len() as int) =~= p);
}

} // verus!
