//! Resolution candidates and the order in which they are ranked.

use std::cmp::Ordering;
use vstd::prelude::*;
use crate::catalog::CatalogSourceKind;
use crate::order::Ranked;
use crate::text::{comes_before, lemma_text_lt_order, lemma_text_lt_total, text_lt};

verus! {

/// What the resolver recorded of one template.
#[derive(Debug, Clone, PartialEq, Eq)]
pub struct ResolutionCandidate {
    pub template_id: String,
    pub provider_id: String,
    pub provider_kind: CatalogSourceKind,
    pub score: i32,
    pub operation_overlap: usize,
    pub tag_overlap: usize,
    pub excluded_reason: Option<String>,
    pub selected: bool,
}

/// The mathematical value of a [`ResolutionCandidate`].
pub struct CandidateModel {
    pub template_id: Seq<char>,
    pub provider_id: Seq<char>,
    pub provider_kind: CatalogSourceKind,
    pub score: int,
    pub operation_overlap: nat,
    pub tag_overlap: nat,
    pub excluded_reason: Option<Seq<char>>,
    pub selected: bool,
}

/// The text held by an optional string.
pub open spec fn text_of(s: Option<String>) -> Option<Seq<char>> {
    match s {
        Some(s) => Some(s@),
        None => None,
    }
}

impl View for ResolutionCandidate {
    type V = CandidateModel;

    open spec fn view(&self) -> CandidateModel {
        CandidateModel {
            template_id: self.template_id@,
            provider_id: self.provider_id@,
            provider_kind: self.provider_kind,
            score: self.score as int,
            operation_overlap: self.operation_overlap as nat,
            tag_overlap: self.tag_overlap as nat,
            excluded_reason: text_of(self.excluded_reason),
            selected: self.selected,
        }
    }
}

/// The rank order of candidates: the higher score first; among equal scores
/// the template id that comes first; among equal ids the provider id that
/// comes first.
pub open spec fn rank_before(a: CandidateModel, b: CandidateModel) -> bool {
    a.score > b.score || (a.score == b.score && (text_lt(a.template_id, b.template_id) || (
    a.template_id == b.template_id && text_lt(a.provider_id, b.provider_id))))
}

/// The two candidates have the same rank: the same score, template id and
/// provider id.
pub open spec fn same_rank(a: CandidateModel, b: CandidateModel) -> bool {
    a.score == b.score && a.template_id == b.template_id && a.provider_id == b.provider_id
}

/// The place of a source kind in the order of precedence, highest first.
pub open spec fn kind_rank(kind: CatalogSourceKind) -> int {
    match kind {
        CatalogSourceKind::Org => 0,
        CatalogSourceKind::User => 1,
        CatalogSourceKind::Builtin => 2,
    }
}

/// The order in which a trace lists its candidates: by rank, and among
/// candidates of the same rank the one whose source has precedence.
pub open spec fn listed_before(a: CandidateModel, b: CandidateModel) -> bool {
    rank_before(a, b) || (same_rank(a, b) && kind_rank(a.provider_kind) < kind_rank(
        b.provider_kind,
    ))
}

/// The rank order is a strict order in which any two candidates of different
/// rank are ordered.
pub proof fn lemma_rank_order(a: CandidateModel, b: CandidateModel, c: CandidateModel)
    ensures
        !rank_before(a, a),
        rank_before(a, b) ==> !rank_before(b, a),
        rank_before(a, b) && rank_before(b, c) ==> rank_before(a, c),
        rank_before(a, b) || rank_before(b, a) || same_rank(a, b),
        !rank_before(a, b) && !rank_before(b, c) ==> !rank_before(a, c),
{
    lemma_text_lt_order(a.template_id, b.template_id, c.template_id);
    lemma_text_lt_order(a.provider_id, b.provider_id, c.provider_id);
}

/// Compares two candidates by rank: the higher score first, then the
/// template id ascending, then the provider id ascending.
pub fn rank_candidates(left: &ResolutionCandidate, right: &ResolutionCandidate) -> (r: Ordering)
    ensures
        (r == Ordering::Less) == rank_before(left@, right@),
        (r == Ordering::Greater) == rank_before(right@, left@),
        (r == Ordering::Equal) == same_rank(left@, right@),
{
    proof {
        lemma_rank_order(left@, right@, left@);
    }
    if left.score > right.score {
        Ordering::Less
    } else if left.score < right.score {
        Ordering::Greater
    } else if comes_before(left.template_id.as_str(), right.template_id.as_str()) {
        Ordering::Less
    } else if comes_before(right.template_id.as_str(), left.template_id.as_str()) {
        Ordering::Greater
    } else if comes_before(left.provider_id.as_str(), right.provider_id.as_str()) {
        proof {
            lemma_text_lt_total(left@.template_id, right@.template_id);
        }
        Ordering::Less
    } else if comes_before(right.provider_id.as_str(), left.provider_id.as_str()) {
        proof {
            lemma_text_lt_total(left@.template_id, right@.template_id);
        }
        Ordering::Greater
    } else {
        proof {
            lemma_text_lt_total(left@.template_id, right@.template_id);
            lemma_text_lt_total(left@.provider_id, right@.provider_id);
        }
        Ordering::Equal
    }
}

/// The first position of `kind` in `precedence`, if it stands there.
pub open spec fn position_of(kind: CatalogSourceKind, precedence: Seq<CatalogSourceKind>) -> Option<
    int,
>
    decreases precedence.len(),
{
    if precedence.len() == 0 {
        None
    } else if position_of(kind, precedence.drop_last()).is_some() {
        position_of(kind, precedence.drop_last())
    } else if precedence.last() == kind {
        Some(precedence.len() - 1)
    } else {
        None
    }
}

/// The first position of `kind` in `precedence`, or the largest index value
/// for a kind that does not stand there.
pub fn precedence_index(kind: CatalogSourceKind, precedence: &Vec<CatalogSourceKind>) -> (r: usize)
    ensures
        match position_of(kind, precedence@) {
            Some(p) => r == p,
            None => r == usize::MAX,
        },
{
    let mut i: usize = 0;
    assert(precedence@.take(0) =~= Seq::<CatalogSourceKind>::empty());
    while i < precedence.len()
        invariant
            i <= precedence@.len(),
            position_of(kind, precedence@.take(i as int)).is_none(),
        decreases precedence@.len() - i,
    {
        proof {
            assert(precedence@.take(i + 1).drop_last() =~= precedence@.take(i as int));
        }
        if precedence[i] == kind {
            proof {
                lemma_position_extends(kind, precedence@, i + 1);
            }
            return i;
        }
        i += 1;
    }
    assert(precedence@.take(precedence@.len() as int) =~= precedence@);
    usize::MAX
}

/// A position found in a prefix is the position in the whole list.
pub proof fn lemma_position_extends(
    kind: CatalogSourceKind,
    precedence: Seq<CatalogSourceKind>,
    n: int,
)
    requires
        0 <= n <= precedence.len(),
        position_of(kind, precedence.take(n)).is_some(),
    ensures
        position_of(kind, precedence) == position_of(kind, precedence.take(n)),
    decreases precedence.len() - n,
{
    if n < precedence.len() {
        assert(precedence.take(n + 1).drop_last() =~= precedence.take(n));
        lemma_position_extends(kind, precedence, n + 1);
    } else {
        assert(precedence.take(n) =~= precedence);
    }
}

impl Ranked for ResolutionCandidate {
    open spec fn before(a: CandidateModel, b: CandidateModel) -> bool {
        listed_before(a, b)
    }

    proof fn before_is_strict_weak_order(a: CandidateModel, b: CandidateModel, c: CandidateModel) {
        lemma_rank_order(a, b, c);
        lemma_rank_order(b, c, a);
        lemma_rank_order(c, a, b);
        lemma_rank_order(a, c, b);
    }

    fn goes_before(&self, other: &Self) -> (r: bool) {
        match rank_candidates(self, other) {
            Ordering::Less => true,
            Ordering::Greater => false,
            Ordering::Equal => kind_position(self.provider_kind) < kind_position(
                other.provider_kind,
            ),
        }
    }
}

/// The place of a source kind in the order of precedence, highest first.
pub fn kind_position(kind: CatalogSourceKind) -> (r: u8)
    ensures
        r == kind_rank(kind),
{
    match kind {
        CatalogSourceKind::Org => 0,
        CatalogSourceKind::User => 1,
        CatalogSourceKind::Builtin => 2,
    }
}

} // verus!
