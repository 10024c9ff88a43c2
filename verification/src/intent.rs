//! Intents: the normalized descriptor of what panel a request asks for, and
//! the normal form of the term lists it carries.

use vstd::prelude::*;
use crate::text::{
    append, comes_before, join, joined, lemma_text_lt_total, lemma_text_lt_transitive, owned,
    same_text, text_lt, trim, trimmed, views,
};

verus! {

/// A normalized descriptor of the panel a request asks for.
#[derive(Debug, Clone, PartialEq, Eq)]
pub struct UiIntent {
    pub primary: String,
    pub operations: Vec<String>,
    pub tags: Vec<String>,
}

/// The mathematical value of a [`UiIntent`].
pub struct IntentModel {
    pub primary: Seq<char>,
    pub operations: Seq<Seq<char>>,
    pub tags: Seq<Seq<char>>,
}

impl View for UiIntent {
    type V = IntentModel;

    open spec fn view(&self) -> IntentModel {
        IntentModel {
            primary: self.primary@,
            operations: views(self.operations@),
            tags: views(self.tags@),
        }
    }
}

/// `x` put into the ascending list `s`, unless it is there already.
pub open spec fn with_term(s: Seq<Seq<char>>, x: Seq<char>) -> Seq<Seq<char>>
    decreases s.len(),
{
    if s.len() > 0 && text_lt(x, s.last()) {
        with_term(s.drop_last(), x).push(s.last())
    } else if s.len() > 0 && s.last() == x {
        s
    } else {
        s.push(x)
    }
}

/// The normal form of a list of terms: every term trimmed, empty terms
/// dropped, each term once, in ascending order.
pub open spec fn normalized(terms: Seq<Seq<char>>) -> Seq<Seq<char>>
    decreases terms.len(),
{
    if terms.len() == 0 {
        Seq::empty()
    } else if trimmed(terms.last()).len() == 0 {
        normalized(terms.drop_last())
    } else {
        with_term(normalized(terms.drop_last()), trimmed(terms.last()))
    }
}

/// Each term comes strictly before the next: the list is sorted and holds
/// no term twice.
pub open spec fn ascending(s: Seq<Seq<char>>) -> bool {
    forall|i: int, j: int| 0 <= i < j < s.len() ==> text_lt(s[i], s[j])
}

/// A list of terms is in normal form: ascending, without empty terms.
pub open spec fn is_normal(s: Seq<Seq<char>>) -> bool {
    ascending(s) && forall|i: int| 0 <= i < s.len() ==> (#[trigger] s[i]).len() > 0
}

/// Where `x` lands in an ascending list.
pub proof fn lemma_with_term_at(s: Seq<Seq<char>>, x: Seq<char>, p: int)
    requires
        0 <= p <= s.len(),
        forall|j: int| p <= j < s.len() ==> text_lt(x, s[j]),
        p > 0 ==> !text_lt(x, s[p - 1]),
    ensures
        with_term(s, x) == (if p > 0 && s[p - 1] == x {
            s
        } else {
            s.insert(p, x)
        }),
    decreases s.len() - p,
{
    if p == s.len() {
        assert(s.push(x) =~= s.insert(p, x));
    } else {
        lemma_with_term_at(s.drop_last(), x, p);
        if p > 0 && s[p - 1] == x {
            assert(s.drop_last().push(s.last()) =~= s);
        } else {
            assert(s.drop_last().insert(p, x).push(s.last()) =~= s.insert(p, x));
        }
    }
}

/// Putting a term into an ascending list keeps it ascending and adds just
/// that term.
pub proof fn lemma_with_term(s: Seq<Seq<char>>, x: Seq<char>)
    requires
        ascending(s),
    ensures
        ascending(with_term(s, x)),
        forall|t: Seq<char>|
            #![trigger with_term(s, x).contains(t)]
            #![trigger s.contains(t)]
            with_term(s, x).contains(t) <==> (t == x || s.contains(t)),
        with_term(s, x).contains(x),
    decreases s.len(),
{
    let r = with_term(s, x);
    if s.len() > 0 && text_lt(x, s.last()) {
        let front = s.drop_last();
        assert(ascending(front)) by {
            assert forall|i: int, j: int| 0 <= i < j < front.len() implies text_lt(
                front[i],
                front[j],
            ) by {
                assert(front[i] == s[i] && front[j] == s[j]);
            }
        }
        lemma_with_term(front, x);
        let f = with_term(front, x);
        assert forall|i: int, j: int| 0 <= i < j < r.len() implies text_lt(r[i], r[j]) by {
            if j < f.len() {
                assert(r[i] == f[i] && r[j] == f[j]);
            } else {
                assert(r[j] == s.last());
                assert(r[i] == f[i]);
                assert(f.contains(f[i]));
                if f[i] != x {
                    assert(front.contains(f[i]));
                    let k = choose|k: int| 0 <= k < front.len() && front[k] == f[i];
                    assert(s[k] == f[i]);
                    assert(text_lt(s[k], s[s.len() - 1]));
                }
            }
        }
        assert forall|t: Seq<char>|
            #![trigger r.contains(t)]
            #![trigger s.contains(t)]
            r.contains(t) <==> (t == x || s.contains(t)) by {
            if r.contains(t) {
                let k = choose|k: int| 0 <= k < r.len() && r[k] == t;
                if k < f.len() {
                    assert(f[k] == t);
                    assert(f.contains(t));
                    if t != x {
                        let m = choose|m: int| 0 <= m < front.len() && front[m] == t;
                        assert(s[m] == t);
                    }
                } else {
                    assert(s[s.len() - 1] == t);
                }
            }
            if t == x || s.contains(t) {
                if t == x {
                    assert(f.contains(x));
                    let k = choose|k: int| 0 <= k < f.len() && f[k] == x;
                    assert(r[k] == x);
                } else {
                    let m = choose|m: int| 0 <= m < s.len() && s[m] == t;
                    if m < front.len() {
                        assert(front[m] == t);
                        assert(front.contains(t));
                        assert(f.contains(t));
                        let k = choose|k: int| 0 <= k < f.len() && f[k] == t;
                        assert(r[k] == t);
                    } else {
                        assert(r[r.len() - 1] == t);
                    }
                }
            }
        }
    } else if s.len() > 0 && s.last() == x {
        assert(s[s.len() - 1] == x);
    } else {
        assert forall|i: int, j: int| 0 <= i < j < r.len() implies text_lt(r[i], r[j]) by {
            if j < s.len() {
                assert(r[i] == s[i] && r[j] == s[j]);
            } else {
                assert(r[j] == x && r[i] == s[i]);
                lemma_text_lt_total(x, s.last());
                if i < s.len() - 1 {
                    assert(text_lt(s[i], s[s.len() - 1]));
                    lemma_text_lt_transitive(s[i], s.last(), x);
                }
            }
        }
        assert(r[r.len() - 1] == x);
        assert forall|t: Seq<char>|
            #![trigger r.contains(t)]
            #![trigger s.contains(t)]
            r.contains(t) <==> (t == x || s.contains(t)) by {
            if r.contains(t) {
                let k = choose|k: int| 0 <= k < r.len() && r[k] == t;
                if k < s.len() {
                    assert(s[k] == t);
                }
            }
            if t == x {
                assert(r[r.len() - 1] == x);
            } else if s.contains(t) {
                let m = choose|m: int| 0 <= m < s.len() && s[m] == t;
                assert(r[m] == t);
            }
        }
    }
}

/// The normal form of a list is in normal form, and holds exactly the
/// non-empty trimmed terms of the list.
pub proof fn lemma_normalized(terms: Seq<Seq<char>>)
    ensures
        is_normal(normalized(terms)),
        forall|t: Seq<char>|
            #![trigger normalized(terms).contains(t)]
            normalized(terms).contains(t) <==> (t.len() > 0 && exists|i: int|
                0 <= i < terms.len() && trimmed(#[trigger] terms[i]) == t),
    decreases terms.len(),
{
    let r = normalized(terms);
    if terms.len() == 0 {
        assert forall|t: Seq<char>| !r.contains(t) by {}
    } else {
        let front = terms.drop_last();
        let x = trimmed(terms.last());
        let f = normalized(front);
        lemma_normalized(front);
        if x.len() > 0 {
            lemma_with_term(f, x);
            assert forall|i: int| 0 <= i < r.len() implies (#[trigger] r[i]).len() > 0 by {
                assert(r.contains(r[i]));
                if r[i] != x {
                    assert(f.contains(r[i]));
                    let k = choose|k: int| 0 <= k < f.len() && f[k] == r[i];
                }
            }
        }
        assert forall|t: Seq<char>|
            #![trigger r.contains(t)]
            r.contains(t) <==> (t.len() > 0 && exists|i: int|
                0 <= i < terms.len() && trimmed(#[trigger] terms[i]) == t) by {
            if r.contains(t) {
                if x.len() > 0 && t == x {
                    assert(trimmed(terms[terms.len() - 1]) == t);
                } else {
                    assert(f.contains(t));
                    let i = choose|i: int| 0 <= i < front.len() && trimmed(#[trigger] front[i]) == t;
                    assert(trimmed(terms[i]) == t);
                }
            }
            if t.len() > 0 && exists|i: int|
                0 <= i < terms.len() && trimmed(#[trigger] terms[i]) == t {
                let i = choose|i: int| 0 <= i < terms.len() && trimmed(#[trigger] terms[i]) == t;
                if i < front.len() {
                    assert(trimmed(front[i]) == t);
                    assert(f.contains(t));
                }
            }
        }
    }
}

/// The normal form of a list of terms: every term trimmed, empty terms
/// dropped, each term once, in ascending order.
pub fn normalize_terms(terms: &Vec<String>) -> (out: Vec<String>)
    ensures
        views(out@) == normalized(views(terms@)),
        is_normal(views(out@)),
        forall|t: Seq<char>|
            #![trigger views(out@).contains(t)]
            views(out@).contains(t) <==> (t.len() > 0 && exists|i: int|
                0 <= i < terms@.len() && trimmed(#[trigger] views(terms@)[i]) == t),
{
    let mut out: Vec<String> = Vec::new();
    let mut i: usize = 0;
    assert(views(terms@).take(0) =~= Seq::<Seq<char>>::empty());
    assert(views(out@) =~= Seq::<Seq<char>>::empty());
    while i < terms.len()
        invariant
            i <= terms@.len(),
            views(out@) == normalized(views(terms@).take(i as int)),
        decreases terms@.len() - i,
    {
        let term = trim(terms[i].as_str());
        proof {
            let pre = views(terms@).take(i + 1);
            assert(pre.drop_last() =~= views(terms@).take(i as int));
            assert(pre.last() == terms@[i as int]@);
        }
        if term.as_str().unicode_len() > 0 {
            let mut p: usize = out.len();
            while p > 0 && comes_before(term.as_str(), out[p - 1].as_str())
                invariant
                    p <= out@.len(),
                    forall|j: int| p <= j < out@.len() ==> text_lt(term@, #[trigger] out@[j]@),
                decreases p,
            {
                p -= 1;
            }
            let present = p > 0 && same_text(out[p - 1].as_str(), term.as_str());
            proof {
                let s = views(out@);
                assert forall|j: int| p <= j < s.len() implies text_lt(term@, s[j]) by {
                    assert(s[j] == out@[j]@);
                }
                lemma_with_term_at(s, term@, p as int);
                assert(views(out@.insert(p as int, term)) =~= s.insert(p as int, term@));
            }
            if !present {
                out.insert(p, term);
            }
        }
        i += 1;
    }
    proof {
        assert(views(terms@).take(terms@.len() as int) =~= views(terms@));
        lemma_normalized(views(terms@));
    }
    out
}

/// The text of a term list in a summary: the terms joined by commas, or a
/// dash for an empty list.
pub open spec fn terms_summary(terms: Seq<Seq<char>>) -> Seq<char> {
    if terms.len() == 0 {
        "-"@
    } else {
        joined(terms, ","@)
    }
}

/// The one-line summary of an intent.
pub open spec fn intent_summary(intent: IntentModel) -> Seq<char> {
    "primary="@ + trimmed(intent.primary) + " ops="@ + terms_summary(intent.operations)
        + " tags="@ + terms_summary(intent.tags)
}

impl UiIntent {
    /// An intent with the given primary category, and with both term lists
    /// brought into normal form.
    pub fn new(primary: &str, operations: Vec<String>, tags: Vec<String>) -> (r: UiIntent)
        ensures
            r@.primary == primary@,
            r@.operations == normalized(views(operations@)),
            r@.tags == normalized(views(tags@)),
            r.is_normal(),
    {
        UiIntent {
            primary: owned(primary),
            operations: normalize_terms(&operations),
            tags: normalize_terms(&tags),
        }
    }

    /// Both term lists are in normal form.
    pub open spec fn is_normal(&self) -> bool {
        is_normal(self@.operations) && is_normal(self@.tags)
    }

    /// A one-line summary: the trimmed primary category and the two term
    /// lists, each joined by commas or shown as a dash when empty.
    pub fn summary(&self) -> (r: String)
        ensures
            r@ == intent_summary(self@),
    {
        let mut out = owned("primary=");
        let primary = trim(self.primary.as_str());
        append(&mut out, primary.as_str());
        append(&mut out, " ops=");
        if self.operations.len() == 0 {
            append(&mut out, "-");
        } else {
            let ops = join(&self.operations, ",");
            append(&mut out, ops.as_str());
        }
        append(&mut out, " tags=");
        if self.tags.len() == 0 {
            append(&mut out, "-");
        } else {
            let tags = join(&self.tags, ",");
            append(&mut out, tags.as_str());
        }
        out
    }

    /// A copy of the intent.
    pub fn duplicate(&self) -> (r: UiIntent)
        ensures
            r@ == self@,
    {
        UiIntent {
            primary: self.primary.clone(),
            operations: copy_terms(&self.operations),
            tags: copy_terms(&self.tags),
        }
    }
}

/// A copy of a list of strings.
pub fn copy_terms(terms: &Vec<String>) -> (out: Vec<String>)
    ensures
        views(out@) == views(terms@),
{
    let mut out: Vec<String> = Vec::new();
    let mut i: usize = 0;
    while i < terms.len()
        invariant
            i <= terms@.len(),
            out@.len() == i,
            forall|k: int| 0 <= k < i ==> (#[trigger] out@[k])@ == terms@[k]@,
        decreases terms@.len() - i,
    {
        out.push(terms[i].clone());
        i += 1;
    }
    assert(views(out@) =~= views(terms@));
    out
}

} // verus!
