//! The rules that decide which log lines are dropped.

use vstd::prelude::*;
use crate::message::has_prefix;
use crate::text::chars_of;

verus! {

/// The character sequences of a sequence of strings.
pub open spec fn views(v: Seq<String>) -> Seq<Seq<char>> {
    v.map_values(|s: String| s@)
}

/// Whether some phrase of `phrases` starts `msg`.
pub open spec fn starts_with_any(phrases: Seq<Seq<char>>, msg: Seq<char>) -> bool {
    exists|i: int| 0 <= i < phrases.len() && #[trigger] phrases[i].is_prefix_of(msg)
}

/// The rules as plain values.
pub struct RuleSetView {
    /// Modules whose lines are dropped.
    pub modules: Set<Seq<char>>,
    /// Message openings whose lines are dropped.
    pub phrases: Seq<Seq<char>>,
    /// Where the cleaned log is written.
    pub output_path: Seq<char>,
}

/// Modules to drop, message openings to drop, and the output destination.
pub struct RuleSet {
    excluded_modules: Vec<String>,
    excluded_start_phrases: Vec<String>,
    output_path: String,
}

impl View for RuleSet {
    type V = RuleSetView;

    closed spec fn view(&self) -> RuleSetView {
        RuleSetView {
            modules: views(self.excluded_modules@).to_set(),
            phrases: views(self.excluded_start_phrases@),
            output_path: self.output_path@,
        }
    }
}

/// Whether `v` holds a string equal to `s`.
fn contains_string(v: &Vec<String>, s: &String) -> (r: bool)
    ensures
        r == views(v@).contains(s@),
{
    let mut i: usize = 0;
    while i < v.len()
        invariant
            i <= v.len(),
            forall|k: int| 0 <= k < i ==> v@[k]@ != s@,
        decreases v.len() - i,
    {
        if v[i] == *s {
            assert(views(v@)[i as int] == s@);
            return true;
        }
        i = i + 1;
    }
    assert forall|k: int| 0 <= k < views(v@).len() implies views(v@)[k] != s@ by {
        assert(v@[k]@ != s@);
    }
    false
}

impl RuleSet {
    /// Each excluded module is listed once.
    pub closed spec fn wf(&self) -> bool {
        views(self.excluded_modules@).no_duplicates()
    }

    /// Rules from the modules to drop (repeats are ignored), the message
    /// openings to drop, and the output path.
    pub fn new(modules: Vec<String>, phrases: Vec<String>, output_path: String) -> (r: RuleSet)
        ensures
            r.wf(),
            r@.modules == views(modules@).to_set(),
            r@.phrases == views(phrases@),
            r@.output_path == output_path@,
    {
        let mut kept: Vec<String> = Vec::new();
        let mut i: usize = 0;
        while i < modules.len()
            invariant
                i <= modules.len(),
                views(kept@).no_duplicates(),
                forall|x: Seq<char>|
                    views(kept@).contains(x) <==> views(modules@).take(i as int).contains(x),
            decreases modules.len() - i,
        {
            let ghost before = views(kept@);
            let ghost mi = modules@[i as int]@;
            let present = contains_string(&kept, &modules[i]);
            if !present {
                kept.push(modules[i].clone());
                assert(views(kept@) =~= before.push(mi));
            }
            assert forall|x: Seq<char>|
                views(kept@).contains(x) <==> (before.contains(x) || x == mi) by {
                if views(kept@).contains(x) && !present {
                    let k = choose|k: int| 0 <= k < views(kept@).len() && views(kept@)[k] == x;
                    if k < before.len() {
                        assert(before[k] == x);
                    }
                }
                if before.contains(x) && !present {
                    let k = choose|k: int| 0 <= k < before.len() && before[k] == x;
                    assert(views(kept@)[k] == x);
                }
                if x == mi && !present {
                    assert(views(kept@)[before.len() as int] == x);
                }
            }
            let ghost t0 = views(modules@).take(i as int);
            let ghost t1 = views(modules@).take(i + 1);
            assert(t1 =~= t0.push(mi));
            assert forall|x: Seq<char>| t1.contains(x) <==> (t0.contains(x) || x == mi) by {
                if t1.contains(x) {
                    let k = choose|k: int| 0 <= k < t1.len() && t1[k] == x;
                    if k < i {
                        assert(t0[k] == x);
                    }
                }
                if t0.contains(x) {
                    let k = choose|k: int| 0 <= k < t0.len() && t0[k] == x;
                    assert(t1[k] == x);
                }
                if x == mi {
                    assert(t1[i as int] == x);
                }
            }
            assert forall|x: Seq<char>| views(kept@).contains(x) <==> t1.contains(x) by {
                assert(before.contains(x) <==> t0.contains(x));
            }
            i = i + 1;
        }
        assert(views(modules@).take(modules.len() as int) =~= views(modules@));
        assert(views(kept@).to_set() =~= views(modules@).to_set());
        RuleSet { excluded_modules: kept, excluded_start_phrases: phrases, output_path }
    }

    /// The modules whose lines are dropped, each once.
    pub fn excluded_modules(&self) -> (r: &Vec<String>)
        ensures
            views(r@).to_set() == self@.modules,
    {
        &self.excluded_modules
    }

    /// The message openings whose lines are dropped.
    pub fn excluded_start_phrases(&self) -> (r: &Vec<String>)
        ensures
            views(r@) == self@.phrases,
    {
        &self.excluded_start_phrases
    }

    /// Where the cleaned log is written.
    pub fn output_path(&self) -> (r: &String)
        ensures
            r@ == self@.output_path,
    {
        &self.output_path
    }

    /// Whether lines of `module` are dropped.
    pub fn excludes_module(&self, module: &String) -> (r: bool)
        ensures
            r == self@.modules.contains(module@),
    {
        contains_string(&self.excluded_modules, module)
    }

    /// Whether `s[lo..hi]` starts with one of the excluded phrases.
    pub(crate) fn excludes_range(&self, s: &Vec<char>, lo: usize, hi: usize) -> (r: bool)
        requires
            lo <= hi <= s.len(),
        ensures
            r == starts_with_any(self@.phrases, s@.subrange(lo as int, hi as int)),
    {
        let ghost msg = s@.subrange(lo as int, hi as int);
        let mut i: usize = 0;
        while i < self.excluded_start_phrases.len()
            invariant
                i <= self.excluded_start_phrases.len(),
                lo <= hi <= s.len(),
                msg == s@.subrange(lo as int, hi as int),
                forall|k: int| 0 <= k < i ==> !(#[trigger] self@.phrases[k]).is_prefix_of(msg),
            decreases self.excluded_start_phrases.len() - i,
        {
            let p = chars_of(self.excluded_start_phrases[i].as_str());
            if has_prefix(&p, s, lo, hi) {
                assert(self@.phrases[i as int].is_prefix_of(msg));
                return true;
            }
            i = i + 1;
        }
        false
    }

    /// Whether `message` starts with one of the excluded phrases.
    pub fn excludes_message(&self, message: &str) -> (r: bool)
        ensures
            r == starts_with_any(self@.phrases, message@),
    {
        let s = chars_of(message);
        assert(s@.subrange(0, s.len() as int) =~= s@);
        self.excludes_range(&s, 0, s.len())
    }
}

} // verus!
