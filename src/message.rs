//! Message cleanup and the layout of an output line.

use vstd::prelude::*;
use crate::text::{chars_of, string_of, trim_end, trim_end_index};

verus! {

/// The width that a module name is padded to in an output line.
pub const MODULE_WIDTH: usize = 25;

/// The last position at or before `q` where `"[["` starts, or -1.
pub open spec fn last_open(t: Seq<char>, q: int) -> int
    decreases q + 1,
{
    if q < 0 {
        -1
    } else if t[q] == '[' && t[q + 1] == '[' {
        q
    } else {
        last_open(t, q - 1)
    }
}

/// `s` with its trailing `[[...]]` annotation removed, along with the
/// whitespace around it. The shortest annotation that ends the text is the one
/// removed; text without one is left as it is.
pub open spec fn strip_annotation_spec(s: Seq<char>) -> Seq<char> {
    let t = trim_end(s);
    let n = t.len() as int;
    if n >= 4 && t[n - 1] == ']' && t[n - 2] == ']' && last_open(t, n - 4) >= 0 {
        trim_end(t.subrange(0, last_open(t, n - 4)))
    } else {
        s
    }
}

/// `m` padded with spaces on the right to `w` characters; never cut.
pub open spec fn pad_spec(m: Seq<char>, w: nat) -> Seq<char> {
    if m.len() >= w {
        m
    } else {
        m + Seq::new((w - m.len()) as nat, |_i: int| ' ')
    }
}

/// `<timestamp> [<module padded>] - <message>`.
pub open spec fn format_spec(ts: Seq<char>, module: Seq<char>, msg: Seq<char>) -> Seq<char> {
    ts + seq![' ', '['] + pad_spec(module, MODULE_WIDTH as nat) + seq![']', ' ', '-', ' '] + msg
}

/// The end of `s[lo..hi]` once its trailing annotation is stripped.
pub fn strip_annotation_index(s: &Vec<char>, lo: usize, hi: usize) -> (r: usize)
    requires
        lo <= hi <= s.len(),
    ensures
        lo <= r <= hi,
        s@.subrange(lo as int, r as int) == strip_annotation_spec(
            s@.subrange(lo as int, hi as int),
        ),
{
    let ghost whole = s@.subrange(lo as int, hi as int);
    let e = trim_end_index(s, lo, hi);
    let ghost t = s@.subrange(lo as int, e as int);
    let n = e - lo;
    if n < 4 || s[e - 1] != ']' || s[e - 2] != ']' {
        return hi;
    }
    let mut q: usize = n - 3;
    while q > 0
        invariant
            q <= n - 3,
            n == e - lo,
            n >= 4,
            s[e - 1] == ']' && s[e - 2] == ']',
            lo <= e <= hi <= s.len(),
            t == s@.subrange(lo as int, e as int),
            t == trim_end(whole),
            whole == s@.subrange(lo as int, hi as int),
            last_open(t, n - 4) == last_open(t, q - 1),
        decreases q,
    {
        if s[lo + q - 1] == '[' && s[lo + q] == '[' {
            let r = trim_end_index(s, lo, lo + q - 1);
            assert(t[q - 1] == '[' && t[q as int] == '[');
            assert(last_open(t, q - 1) == q - 1);
            assert(t[n - 1] == ']' && t[n - 2] == ']');
            assert(t.subrange(0, q - 1) =~= s@.subrange(lo as int, lo + q - 1));
            return r;
        }
        q = q - 1;
    }
    hi
}

/// `message` with its trailing `[[...]]` annotation removed.
pub fn strip_annotation(message: &str) -> (r: String)
    ensures
        r@ == strip_annotation_spec(message@),
{
    let s = chars_of(message);
    let e = strip_annotation_index(&s, 0, s.len());
    assert(s@.subrange(0, s.len() as int) =~= s@);
    string_of(&s.as_slice()[0..e])
}

/// Whether `p` is a prefix of `s[lo..hi]`.
pub fn has_prefix(p: &Vec<char>, s: &Vec<char>, lo: usize, hi: usize) -> (r: bool)
    requires
        lo <= hi <= s.len(),
    ensures
        r == p@.is_prefix_of(s@.subrange(lo as int, hi as int)),
{
    if p.len() > hi - lo {
        return false;
    }
    let mut i: usize = 0;
    while i < p.len()
        invariant
            i <= p.len() <= hi - lo,
            lo <= hi <= s.len(),
            forall|k: int| 0 <= k < i ==> p@[k] == s@[lo + k],
        decreases p.len() - i,
    {
        if p[i] != s[lo + i] {
            assert(p@[i as int] != s@.subrange(lo as int, hi as int).subrange(
                0,
                p.len() as int,
            )[i as int]);
            return false;
        }
        i = i + 1;
    }
    assert(p@ =~= s@.subrange(lo as int, hi as int).subrange(0, p.len() as int));
    true
}

/// Appends `s[lo..hi]` to `out`.
pub(crate) fn push_range(out: &mut Vec<char>, s: &Vec<char>, lo: usize, hi: usize)
    requires
        lo <= hi <= s.len(),
    ensures
        final(out)@ == old(out)@ + s@.subrange(lo as int, hi as int),
{
    let mut i: usize = lo;
    while i < hi
        invariant
            lo <= i <= hi <= s.len(),
            out@ == old(out)@ + s@.subrange(lo as int, i as int),
        decreases hi - i,
    {
        out.push(s[i]);
        assert(s@.subrange(lo as int, i + 1) =~= s@.subrange(lo as int, i as int).push(
            s@[i as int],
        ));
        i = i + 1;
    }
}

/// The output line for a timestamp `s[ts..ts + 12]`, a module `s[ma..mb]` and
/// a cleaned message `s[ga..gb]`, all taken from one line `s`.
pub fn format_range(s: &Vec<char>, ts: usize, ma: usize, mb: usize, ga: usize, gb: usize) -> (r:
    String)
    requires
        ts + 12 <= s.len(),
        ma <= mb <= s.len(),
        ga <= gb <= s.len(),
    ensures
        r@ == format_spec(
            s@.subrange(ts as int, ts + 12),
            s@.subrange(ma as int, mb as int),
            s@.subrange(ga as int, gb as int),
        ),
{
    let mut out: Vec<char> = Vec::new();
    push_range(&mut out, s, ts, ts + 12);
    out.push(' ');
    out.push('[');
    push_range(&mut out, s, ma, mb);
    let ghost before_pad = out@;
    let mut k: usize = mb - ma;
    while k < MODULE_WIDTH
        invariant
            mb - ma <= k <= MODULE_WIDTH || (mb - ma >= MODULE_WIDTH && k == mb - ma),
            out@ == before_pad + Seq::new((k - (mb - ma)) as nat, |_i: int| ' '),
        decreases MODULE_WIDTH - k,
    {
        out.push(' ');
        assert(Seq::new((k + 1 - (mb - ma)) as nat, |_i: int| ' ') =~= Seq::new(
            (k - (mb - ma)) as nat,
            |_i: int| ' ',
        ).push(' '));
        k = k + 1;
    }
    proof {
        let m = s@.subrange(ma as int, mb as int);
        if m.len() >= MODULE_WIDTH {
            assert(Seq::new((k - (mb - ma)) as nat, |_i: int| ' ') =~= Seq::<char>::empty());
        }
    }
    out.push(']');
    out.push(' ');
    out.push('-');
    out.push(' ');
    push_range(&mut out, s, ga, gb);
    let ghost ts_s = s@.subrange(ts as int, ts + 12);
    let ghost m_s = s@.subrange(ma as int, mb as int);
    let ghost g_s = s@.subrange(ga as int, gb as int);
    assert(out@ =~= format_spec(ts_s, m_s, g_s));
    string_of(out.as_slice())
}

} // verus!
