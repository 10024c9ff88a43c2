//! The values of a runtime's form fields, keyed by field key.

use vstd::prelude::*;
use crate::event::{FieldValueModel, UiFieldValue};
use crate::text::{
    comes_before, lemma_text_lt_asymmetric, lemma_text_lt_irreflexive, lemma_text_lt_total,
    lemma_text_lt_transitive, same_text, text_lt,
};

verus! {

/// The map that a list of entries stands for: each entry put into the map
/// in list order.
pub open spec fn entries_map(entries: Seq<(String, UiFieldValue)>) -> Map<Seq<char>, FieldValueModel>
    decreases entries.len(),
{
    if entries.len() == 0 {
        Map::empty()
    } else {
        entries_map(entries.drop_last()).insert(entries.last().0@, entries.last().1@)
    }
}

/// The keys of the entries come in strictly ascending order.
pub open spec fn keys_ascend(entries: Seq<(String, UiFieldValue)>) -> bool {
    forall|i: int, j: int| 0 <= i < j < entries.len() ==> text_lt(entries[i].0@, entries[j].0@)
}

/// With ascending keys, the map holds each entry under its key, and no
/// other key.
pub proof fn lemma_entries_map(entries: Seq<(String, UiFieldValue)>)
    requires
        keys_ascend(entries),
    ensures
        forall|i: int|
            0 <= i < entries.len() ==> entries_map(entries).contains_key(
                (#[trigger] entries[i]).0@,
            ) && entries_map(entries)[entries[i].0@] == entries[i].1@,
        forall|k: Seq<char>| #[trigger]
            entries_map(entries).contains_key(k) ==> exists|i: int|
                0 <= i < entries.len() && (#[trigger] entries[i]).0@ == k,
    decreases entries.len(),
{
    if entries.len() > 0 {
        let front = entries.drop_last();
        assert(keys_ascend(front)) by {
            assert forall|i: int, j: int| 0 <= i < j < front.len() implies text_lt(
                front[i].0@,
                front[j].0@,
            ) by {
                assert(front[i] == entries[i] && front[j] == entries[j]);
            }
        }
        lemma_entries_map(front);
        let last = entries.last();
        assert forall|i: int| 0 <= i < entries.len() implies entries_map(entries).contains_key(
            (#[trigger] entries[i]).0@,
        ) && entries_map(entries)[entries[i].0@] == entries[i].1@ by {
            if i < front.len() {
                assert(front[i] == entries[i]);
                assert(text_lt(entries[i].0@, entries[entries.len() - 1].0@));
                lemma_text_lt_irreflexive(last.0@);
            }
        }
        assert forall|k: Seq<char>| #[trigger]
            entries_map(entries).contains_key(k) implies exists|i: int|
            0 <= i < entries.len() && (#[trigger] entries[i]).0@ == k by {
            if k == last.0@ {
                assert(entries[entries.len() - 1].0@ == k);
            } else {
                assert(entries_map(front).contains_key(k));
                let i = choose|i: int| 0 <= i < front.len() && (#[trigger] front[i]).0@ == k;
                assert(entries[i].0@ == k);
            }
        }
    }
}

/// The values of form fields by field key. Each key is held once.
#[derive(Debug, PartialEq, Eq)]
pub struct FormState {
    entries: Vec<(String, UiFieldValue)>,
}

impl View for FormState {
    type V = Map<Seq<char>, FieldValueModel>;

    closed spec fn view(&self) -> Map<Seq<char>, FieldValueModel> {
        entries_map(self.entries@)
    }
}

impl FormState {
    #[verifier::type_invariant]
    spec fn ordered(&self) -> bool {
        keys_ascend(self.entries@)
    }

    /// A form state without values.
    pub fn new() -> (r: FormState)
        ensures
            r@ == Map::<Seq<char>, FieldValueModel>::empty(),
    {
        FormState { entries: Vec::new() }
    }

    /// How many keys have a value.
    pub fn len(&self) -> (r: usize)
        ensures
            r == self@.dom().len(),
            self@.dom().finite(),
    {
        proof {
            use_type_invariant(self);
            lemma_entries_dom(self.entries@);
        }
        self.entries.len()
    }

    /// The entries in ascending order of their keys.
    pub fn entries(&self) -> (r: &Vec<(String, UiFieldValue)>)
        ensures
            entries_map(r@) == self@,
            keys_ascend(r@),
    {
        proof {
            use_type_invariant(self);
        }
        &self.entries
    }

    /// The value held under `key`.
    pub fn get(&self, key: &str) -> (r: Option<&UiFieldValue>)
        ensures
            match r {
                Some(v) => self@.contains_key(key@) && self@[key@] == v@,
                None => !self@.contains_key(key@),
            },
    {
        proof {
            use_type_invariant(self);
            lemma_entries_map(self.entries@);
        }
        let mut i: usize = 0;
        while i < self.entries.len()
            invariant
                i <= self.entries@.len(),
                keys_ascend(self.entries@),
                forall|k: int| 0 <= k < i ==> (#[trigger] self.entries@[k]).0@ != key@,
            decreases self.entries@.len() - i,
        {
            if same_text(self.entries[i].0.as_str(), key) {
                proof {
                    lemma_entries_map(self.entries@);
                }
                return Some(&self.entries[i].1);
            }
            i += 1;
        }
        None
    }

    /// Puts `value` under `key`, in place of any value held there.
    pub fn insert(&mut self, key: String, value: UiFieldValue)
        ensures
            final(self)@ == old(self)@.insert(key@, value@),
    {
        proof {
            use_type_invariant(&*self);
        }
        let ghost before = self.entries@;
        let mut p: usize = self.entries.len();
        while p > 0 && comes_before(key.as_str(), self.entries[p - 1].0.as_str())
            invariant
                p <= self.entries@.len(),
                self.entries@ == before,
                forall|j: int| p <= j < before.len() ==> text_lt(key@, (#[trigger] before[j]).0@),
            decreases p,
        {
            p -= 1;
        }
        let replace = p > 0 && same_text(self.entries[p - 1].0.as_str(), key.as_str());
        let mut entries: Vec<(String, UiFieldValue)> = Vec::new();
        std::mem::swap(&mut self.entries, &mut entries);
        if replace {
            let ghost after = before.update(p - 1, (key, value));
            proof {
                lemma_replace_entry(before, p - 1, key, value);
            }
            entries.remove(p - 1);
            entries.insert(p - 1, (key, value));
            assert(entries@ =~= after);
        } else {
            proof {
                lemma_insert_entry(before, p as int, key, value);
            }
            entries.insert(p, (key, value));
        }
        std::mem::swap(&mut self.entries, &mut entries);
    }

    /// Removes every value.
    pub fn clear(&mut self)
        ensures
            final(self)@ == Map::<Seq<char>, FieldValueModel>::empty(),
    {
        let mut entries: Vec<(String, UiFieldValue)> = Vec::new();
        std::mem::swap(&mut self.entries, &mut entries);
    }

    /// A copy of the form state.
    pub fn duplicate(&self) -> (r: FormState)
        ensures
            r@ == self@,
    {
        proof {
            use_type_invariant(self);
        }
        let mut out: Vec<(String, UiFieldValue)> = Vec::new();
        let mut i: usize = 0;
        while i < self.entries.len()
            invariant
                i <= self.entries@.len(),
                out@.len() == i,
                forall|k: int|
                    0 <= k < i ==> (#[trigger] out@[k]).0@ == self.entries@[k].0@ && out@[k].1@
                        == self.entries@[k].1@,
            decreases self.entries@.len() - i,
        {
            out.push((self.entries[i].0.clone(), self.entries[i].1.duplicate()));
            i += 1;
        }
        proof {
            lemma_same_entries(out@, self.entries@);
        }
        FormState { entries: out }
    }
}

impl Clone for FormState {
    fn clone(&self) -> (r: Self)
        ensures
            r@ == self@,
    {
        self.duplicate()
    }
}

/// Lists with the same keys and values stand for the same map, and their
/// keys ascend alike.
pub proof fn lemma_same_entries(a: Seq<(String, UiFieldValue)>, b: Seq<(String, UiFieldValue)>)
    requires
        a.len() == b.len(),
        forall|k: int| 0 <= k < a.len() ==> (#[trigger] a[k]).0@ == b[k].0@ && a[k].1@ == b[k].1@,
    ensures
        entries_map(a) == entries_map(b),
        keys_ascend(b) ==> keys_ascend(a),
    decreases a.len(),
{
    if a.len() > 0 {
        assert(a.last().0@ == b.last().0@ && a.last().1@ == b.last().1@);
        assert forall|k: int| 0 <= k < a.drop_last().len() implies (#[trigger] a.drop_last()[k]).0@
            == b.drop_last()[k].0@ && a.drop_last()[k].1@ == b.drop_last()[k].1@ by {
            assert(a.drop_last()[k] == a[k] && b.drop_last()[k] == b[k]);
        }
        lemma_same_entries(a.drop_last(), b.drop_last());
    }
    if keys_ascend(b) {
        assert forall|i: int, j: int| 0 <= i < j < a.len() implies text_lt(a[i].0@, a[j].0@) by {
            assert(text_lt(b[i].0@, b[j].0@));
        }
    }
}

/// With ascending keys, the map has one key for each entry.
pub proof fn lemma_entries_dom(entries: Seq<(String, UiFieldValue)>)
    requires
        keys_ascend(entries),
    ensures
        entries_map(entries).dom().finite(),
        entries_map(entries).dom().len() == entries.len(),
    decreases entries.len(),
{
    if entries.len() > 0 {
        let front = entries.drop_last();
        assert(keys_ascend(front)) by {
            assert forall|i: int, j: int| 0 <= i < j < front.len() implies text_lt(
                front[i].0@,
                front[j].0@,
            ) by {
                assert(front[i] == entries[i] && front[j] == entries[j]);
            }
        }
        lemma_entries_dom(front);
        lemma_entries_map(front);
        let last = entries.last();
        assert(!entries_map(front).contains_key(last.0@)) by {
            if entries_map(front).contains_key(last.0@) {
                let i = choose|i: int| 0 <= i < front.len() && (#[trigger] front[i]).0@ == last.0@;
                assert(front[i] == entries[i]);
                assert(text_lt(entries[i].0@, entries[entries.len() - 1].0@));
                lemma_text_lt_irreflexive(last.0@);
            }
        }
        assert(entries_map(entries).dom() =~= entries_map(front).dom().insert(last.0@));
    } else {
        assert(entries_map(entries).dom() =~= Set::<Seq<char>>::empty());
    }
}

/// Putting an entry with a new key at its place in the order puts it into
/// the map.
pub proof fn lemma_insert_entry(
    entries: Seq<(String, UiFieldValue)>,
    p: int,
    key: String,
    value: UiFieldValue,
)
    requires
        keys_ascend(entries),
        0 <= p <= entries.len(),
        forall|j: int| p <= j < entries.len() ==> text_lt(key@, (#[trigger] entries[j]).0@),
        p > 0 ==> !text_lt(key@, entries[p - 1].0@) && entries[p - 1].0@ != key@,
    ensures
        keys_ascend(entries.insert(p, (key, value))),
        entries_map(entries.insert(p, (key, value))) == entries_map(entries).insert(key@, value@),
{
    let after = entries.insert(p, (key, value));
    assert(keys_ascend(after)) by {
        assert forall|i: int, j: int| 0 <= i < j < after.len() implies text_lt(
            after[i].0@,
            after[j].0@,
        ) by {
            if p > 0 {
                lemma_text_lt_total(key@, entries[p - 1].0@);
            }
            if i < p && j == p {
                if i < p - 1 {
                    assert(text_lt(entries[i].0@, entries[p - 1].0@));
                    lemma_text_lt_transitive(entries[i].0@, entries[p - 1].0@, key@);
                }
            } else if i < p && j > p {
                assert(after[i] == entries[i] && after[j] == entries[j - 1]);
            } else if i == p {
                assert(after[j] == entries[j - 1]);
            } else if i > p {
                assert(after[i] == entries[i - 1] && after[j] == entries[j - 1]);
            } else {
                assert(after[i] == entries[i] && after[j] == entries[j]);
            }
        }
    }
    lemma_entries_map(entries);
    lemma_entries_map(after);
    let m = entries_map(entries).insert(key@, value@);
    assert(entries_map(after) =~= m) by {
        assert forall|k: Seq<char>| entries_map(after).contains_key(k) == m.contains_key(k) by {
            if entries_map(after).contains_key(k) {
                let i = choose|i: int| 0 <= i < after.len() && (#[trigger] after[i]).0@ == k;
                if i < p {
                    assert(after[i] == entries[i]);
                } else if i > p {
                    assert(after[i] == entries[i - 1]);
                }
            }
            if entries_map(entries).contains_key(k) {
                let i = choose|i: int| 0 <= i < entries.len() && (#[trigger] entries[i]).0@ == k;
                if i < p {
                    assert(after[i] == entries[i]);
                } else {
                    assert(after[i + 1] == entries[i]);
                }
            }
            if k == key@ {
                assert(after[p].0@ == k);
            }
        }
        assert forall|k: Seq<char>| entries_map(after).contains_key(k) implies entries_map(after)[k]
            == m[k] by {
            let i = choose|i: int| 0 <= i < after.len() && (#[trigger] after[i]).0@ == k;
            if i < p {
                assert(after[i] == entries[i]);
                if k == key@ {
                    lemma_text_lt_irreflexive(key@);
                    lemma_text_lt_total(key@, entries[p - 1].0@);
                    if i < p - 1 {
                        assert(text_lt(entries[i].0@, entries[p - 1].0@));
                        lemma_text_lt_asymmetric(entries[i].0@, entries[p - 1].0@);
                    }
                }
            } else if i > p {
                assert(after[i] == entries[i - 1]);
                if k == key@ {
                    lemma_text_lt_irreflexive(key@);
                }
            }
        }
    }
}

/// Putting another value where the key stands puts it into the map.
pub proof fn lemma_replace_entry(
    entries: Seq<(String, UiFieldValue)>,
    at: int,
    key: String,
    value: UiFieldValue,
)
    requires
        keys_ascend(entries),
        0 <= at < entries.len(),
        entries[at].0@ == key@,
    ensures
        keys_ascend(entries.update(at, (key, value))),
        keys_ascend(entries.remove(at)),
        entries_map(entries.update(at, (key, value))) == entries_map(entries).insert(key@, value@),
{
    let after = entries.update(at, (key, value));
    assert(keys_ascend(after)) by {
        assert forall|i: int, j: int| 0 <= i < j < after.len() implies text_lt(
            after[i].0@,
            after[j].0@,
        ) by {
            assert(text_lt(entries[i].0@, entries[j].0@));
        }
    }
    assert(keys_ascend(entries.remove(at))) by {
        let gone = entries.remove(at);
        assert forall|i: int, j: int| 0 <= i < j < gone.len() implies text_lt(
            gone[i].0@,
            gone[j].0@,
        ) by {
            let a = if i < at {
                i
            } else {
                i + 1
            };
            let b = if j < at {
                j
            } else {
                j + 1
            };
            assert(gone[i] == entries[a] && gone[j] == entries[b]);
            assert(text_lt(entries[a].0@, entries[b].0@));
        }
    }
    lemma_entries_map(entries);
    lemma_entries_map(after);
    let m = entries_map(entries).insert(key@, value@);
    assert(entries_map(after) =~= m) by {
        assert forall|k: Seq<char>| entries_map(after).contains_key(k) == m.contains_key(k) by {
            if entries_map(after).contains_key(k) {
                let i = choose|i: int| 0 <= i < after.len() && (#[trigger] after[i]).0@ == k;
                assert(entries[i].0@ == k);
            }
            if entries_map(entries).contains_key(k) {
                let i = choose|i: int| 0 <= i < entries.len() && (#[trigger] entries[i]).0@ == k;
                assert(after[i].0@ == k);
            }
            if k == key@ {
                assert(after[at].0@ == k);
            }
        }
        assert forall|k: Seq<char>| entries_map(after).contains_key(k) implies entries_map(after)[k]
            == m[k] by {
            let i = choose|i: int| 0 <= i < after.len() && (#[trigger] after[i]).0@ == k;
            if i != at {
                assert(after[i] == entries[i]);
                if k == key@ {
                    lemma_text_lt_irreflexive(key@);
                    if i < at {
                        assert(text_lt(entries[i].0@, entries[at].0@));
                    } else {
                        assert(text_lt(entries[at].0@, entries[i].0@));
                    }
                }
            }
        }
    }
}

} // verus!
