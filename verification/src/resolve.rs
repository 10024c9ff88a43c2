//! Resolving an intent to the template that wins it.
//!
//! A template *contends* for an intent when its source's tier takes part
//! and its primary category is the intent's. Among the contenders the winner
//! is the one that no other contender beats: a higher tier beats a lower one
//! whatever the scores, and inside a tier the rank order decides. Where two
//! contenders are equal in all of that, the one that stands first in the
//! index wins.

use vstd::prelude::*;
use crate::catalog::{
    kind_name, overlap, score_secondary, score_value, CatalogSourceKind, CatalogTemplate,
    TemplateModel,
};
use crate::intent::{intent_summary, IntentModel, UiIntent};
use crate::order::{in_order, lemma_sorted, sorted, views_of};
use crate::ranking::{lemma_rank_order, rank_before, text_of, CandidateModel, ResolutionCandidate};
use crate::text::{
    append, comes_before, format_signed, join, joined, lemma_text_lt_total, owned, same_text,
    signed_decimal, text_le, trim, trimmed, views,
};

verus! {

/// What a resolution recorded: the intent, the tiers that took part, the
/// winner if there is one, every candidate in listing order, and the reasons
/// for a resolution without a winner.
#[derive(Debug, Clone, PartialEq, Eq)]
pub struct ResolutionTrace {
    pub intent: UiIntent,
    pub provider_precedence: Vec<CatalogSourceKind>,
    pub selected_template_id: Option<String>,
    pub selected_provider_id: Option<String>,
    pub selected_score: Option<i32>,
    pub ranked_candidates: Vec<ResolutionCandidate>,
    pub no_match_reasons: Vec<String>,
}

/// The mathematical value of a [`ResolutionTrace`].
pub struct TraceModel {
    pub intent: IntentModel,
    pub provider_precedence: Seq<CatalogSourceKind>,
    pub selected_template_id: Option<Seq<char>>,
    pub selected_provider_id: Option<Seq<char>>,
    pub selected_score: Option<int>,
    pub ranked_candidates: Seq<CandidateModel>,
    pub no_match_reasons: Seq<Seq<char>>,
}

impl View for ResolutionTrace {
    type V = TraceModel;

    open spec fn view(&self) -> TraceModel {
        TraceModel {
            intent: self.intent@,
            provider_precedence: self.provider_precedence@,
            selected_template_id: text_of(self.selected_template_id),
            selected_provider_id: text_of(self.selected_provider_id),
            selected_score: match self.selected_score {
                Some(s) => Some(s as int),
                None => None,
            },
            ranked_candidates: views_of(self.ranked_candidates@),
            no_match_reasons: views(self.no_match_reasons@),
        }
    }
}

/// The outcome of a resolution: the winning template, if any, and the trace.
#[derive(Debug, Clone, PartialEq, Eq)]
pub struct ResolutionResult {
    pub selected: Option<CatalogTemplate>,
    pub trace: ResolutionTrace,
}

/// The mathematical value of a [`ResolutionResult`].
pub struct ResolutionModel {
    pub selected: Option<TemplateModel>,
    pub trace: TraceModel,
}

impl View for ResolutionResult {
    type V = ResolutionModel;

    open spec fn view(&self) -> ResolutionModel {
        ResolutionModel {
            selected: match self.selected {
                Some(t) => Some(t@),
                None => None,
            },
            trace: self.trace@,
        }
    }
}

/// The tiers that take part in a resolution, highest precedence first.
pub open spec fn precedence_order(org_enabled: bool) -> Seq<CatalogSourceKind> {
    if org_enabled {
        seq![CatalogSourceKind::Org, CatalogSourceKind::User, CatalogSourceKind::Builtin]
    } else {
        seq![CatalogSourceKind::User, CatalogSourceKind::Builtin]
    }
}

/// The place of a kind's tier in the order of precedence, or `None` for a
/// kind whose tier takes no part.
pub open spec fn tier_of(kind: CatalogSourceKind, org_enabled: bool) -> Option<int> {
    match kind {
        CatalogSourceKind::Org => if org_enabled {
            Some(0int)
        } else {
            None
        },
        CatalogSourceKind::User => if org_enabled {
            Some(1int)
        } else {
            Some(0int)
        },
        CatalogSourceKind::Builtin => if org_enabled {
            Some(2int)
        } else {
            Some(1int)
        },
    }
}

/// The template's primary category is the intent's, both trimmed.
pub open spec fn is_match(t: TemplateModel, intent: IntentModel) -> bool {
    trimmed(t.document.match_rules.primary) == trimmed(intent.primary)
}

/// The template's tier takes part and its primary category is the intent's.
pub open spec fn contends(t: TemplateModel, org_enabled: bool, intent: IntentModel) -> bool {
    tier_of(t.source.kind, org_enabled).is_some() && is_match(t, intent)
}

/// The candidate of a template whose primary category is the intent's, as
/// it stands before a winner is known.
pub open spec fn scored(t: TemplateModel, intent: IntentModel) -> CandidateModel {
    CandidateModel {
        template_id: t.document.meta.id,
        provider_id: t.source.provider_id,
        provider_kind: t.source.kind,
        score: score_value(t.document.match_rules, intent),
        operation_overlap: overlap(t.document.match_rules.operations, intent.operations),
        tag_overlap: overlap(t.document.match_rules.tags, intent.tags),
        excluded_reason: None,
        selected: false,
    }
}

/// Contender `a` beats contender `b`: its tier has precedence, or both are
/// of one tier and `a` ranks before `b`.
pub open spec fn beats(
    a: TemplateModel,
    b: TemplateModel,
    org_enabled: bool,
    intent: IntentModel,
) -> bool {
    let ta = tier_of(a.source.kind, org_enabled).unwrap();
    let tb = tier_of(b.source.kind, org_enabled).unwrap();
    ta < tb || (ta == tb && rank_before(scored(a, intent), scored(b, intent)))
}

/// `w` is the winner among the first `n` templates of the index: it
/// contends, no contender beats it, and it beats every contender that
/// stands before it.
pub open spec fn is_winner_among(
    index: Seq<TemplateModel>,
    org_enabled: bool,
    intent: IntentModel,
    n: int,
    w: int,
) -> bool {
    &&& 0 <= w < n <= index.len()
    &&& contends(index[w], org_enabled, intent)
    &&& forall|j: int|
        0 <= j < n && contends(#[trigger] index[j], org_enabled, intent) ==> !beats(
            index[j],
            index[w],
            org_enabled,
            intent,
        )
    &&& forall|j: int|
        0 <= j < w && contends(#[trigger] index[j], org_enabled, intent) ==> beats(
            index[w],
            index[j],
            org_enabled,
            intent,
        )
}

/// `w` is the winner of the whole index.
pub open spec fn is_winner(
    index: Seq<TemplateModel>,
    org_enabled: bool,
    intent: IntentModel,
    w: int,
) -> bool {
    is_winner_among(index, org_enabled, intent, index.len() as int, w)
}

/// The position of the winner in the index, if any template contends.
pub open spec fn winner_of(
    index: Seq<TemplateModel>,
    org_enabled: bool,
    intent: IntentModel,
) -> Option<int> {
    if exists|w: int| is_winner(index, org_enabled, intent, w) {
        Some(choose|w: int| is_winner(index, org_enabled, intent, w))
    } else {
        None
    }
}

/// Why a template of another primary category is excluded.
pub open spec fn mismatch_reason(t: TemplateModel, intent: IntentModel) -> Seq<char> {
    "primary mismatch expected="@ + trimmed(t.document.match_rules.primary) + " actual="@
        + trimmed(intent.primary)
}

/// Why a contender that did not win is excluded.
pub open spec fn loser_reason(t: TemplateModel, winner: TemplateModel, org_enabled: bool) -> Seq<
    char,
> {
    if tier_of(t.source.kind, org_enabled).unwrap() > tier_of(
        winner.source.kind,
        org_enabled,
    ).unwrap() {
        "lower provider precedence than "@ + kind_name(winner.source.kind)
    } else {
        "lower score or tie-break in same tier"@
    }
}

/// The candidate that the trace holds for the template at position `j`,
/// where `w` is the winner's position.
pub open spec fn candidate_of(
    index: Seq<TemplateModel>,
    org_enabled: bool,
    intent: IntentModel,
    w: Option<int>,
    j: int,
) -> CandidateModel {
    let t = index[j];
    if !is_match(t, intent) {
        CandidateModel {
            template_id: t.document.meta.id,
            provider_id: t.source.provider_id,
            provider_kind: t.source.kind,
            score: 0,
            operation_overlap: 0,
            tag_overlap: 0,
            excluded_reason: Some(mismatch_reason(t, intent)),
            selected: false,
        }
    } else {
        CandidateModel {
            excluded_reason: match w {
                Some(w) => if w == j {
                    None
                } else {
                    Some(loser_reason(t, index[w], org_enabled))
                },
                None => None,
            },
            selected: w == Some(j),
            ..scored(t, intent)
        }
    }
}

/// The candidates of the first `n` templates of the index, in index order;
/// a template whose tier takes no part has none.
pub open spec fn candidates_upto(
    index: Seq<TemplateModel>,
    org_enabled: bool,
    intent: IntentModel,
    w: Option<int>,
    n: int,
) -> Seq<CandidateModel>
    decreases n,
{
    if n <= 0 {
        Seq::empty()
    } else {
        let before = candidates_upto(index, org_enabled, intent, w, n - 1);
        if tier_of(index[n - 1].source.kind, org_enabled).is_some() {
            before.push(candidate_of(index, org_enabled, intent, w, n - 1))
        } else {
            before
        }
    }
}

/// The line that a resolution without a winner gives for a candidate.
pub open spec fn reason_line(c: CandidateModel) -> Seq<char> {
    c.provider_id + ":"@ + c.template_id + " "@ + (match c.excluded_reason {
        Some(reason) => reason,
        None => "no ranking winner"@,
    })
}

/// The reasons that a resolution without a winner gives: one line for each
/// candidate, or a single line where there is no candidate at all.
pub open spec fn no_match_lines(ranked: Seq<CandidateModel>) -> Seq<Seq<char>> {
    if ranked.len() == 0 {
        seq!["catalog index contains no templates"@]
    } else {
        Seq::new(ranked.len(), |i: int| reason_line(ranked[i]))
    }
}

/// The resolution of an intent against an index.
pub open spec fn resolution(
    index: Seq<TemplateModel>,
    org_enabled: bool,
    intent: IntentModel,
) -> ResolutionModel {
    let w = winner_of(index, org_enabled, intent);
    let ranked = sorted::<ResolutionCandidate>(
        candidates_upto(index, org_enabled, intent, w, index.len() as int),
    );
    ResolutionModel {
        selected: match w {
            Some(w) => Some(index[w]),
            None => None,
        },
        trace: TraceModel {
            intent: intent,
            provider_precedence: precedence_order(org_enabled),
            selected_template_id: match w {
                Some(w) => Some(index[w].document.meta.id),
                None => None,
            },
            selected_provider_id: match w {
                Some(w) => Some(index[w].source.provider_id),
                None => None,
            },
            selected_score: match w {
                Some(w) => Some(score_value(index[w].document.match_rules, intent)),
                None => None,
            },
            ranked_candidates: ranked,
            no_match_reasons: match w {
                Some(_) => Seq::empty(),
                None => no_match_lines(ranked),
            },
        },
    }
}

/// Among contenders, `beats` is a strict order in which "neither beats the
/// other" is transitive too.
pub proof fn lemma_beats_order(
    a: TemplateModel,
    b: TemplateModel,
    c: TemplateModel,
    org_enabled: bool,
    intent: IntentModel,
)
    ensures
        !beats(a, a, org_enabled, intent),
        beats(a, b, org_enabled, intent) ==> !beats(b, a, org_enabled, intent),
        beats(a, b, org_enabled, intent) && beats(b, c, org_enabled, intent) ==> beats(
            a,
            c,
            org_enabled,
            intent,
        ),
        !beats(a, b, org_enabled, intent) && !beats(b, c, org_enabled, intent) ==> !beats(
            a,
            c,
            org_enabled,
            intent,
        ),
{
    lemma_rank_order(scored(a, intent), scored(b, intent), scored(c, intent));
}

/// An index has at most one winner.
pub proof fn lemma_winner_unique(
    index: Seq<TemplateModel>,
    org_enabled: bool,
    intent: IntentModel,
    v: int,
    w: int,
)
    requires
        is_winner(index, org_enabled, intent, v),
        is_winner(index, org_enabled, intent, w),
    ensures
        v == w,
{
    if v < w {
        assert(contends(index[v], org_enabled, intent));
        assert(beats(index[w], index[v], org_enabled, intent));
        assert(!beats(index[w], index[v], org_enabled, intent));
    } else if w < v {
        assert(contends(index[w], org_enabled, intent));
        assert(beats(index[v], index[w], org_enabled, intent));
        assert(!beats(index[v], index[w], org_enabled, intent));
    }
}

/// An index in which some template contends has a winner.
pub proof fn lemma_winner_exists(
    index: Seq<TemplateModel>,
    org_enabled: bool,
    intent: IntentModel,
    n: int,
)
    requires
        0 <= n <= index.len(),
    ensures
        (exists|w: int| is_winner_among(index, org_enabled, intent, n, w)) <==> (exists|j: int|
            0 <= j < n && contends(#[trigger] index[j], org_enabled, intent)),
    decreases n,
{
    if n > 0 {
        let m = n - 1;
        lemma_winner_exists(index, org_enabled, intent, m);
        let last = index[m];
        if exists|w: int| is_winner_among(index, org_enabled, intent, m, w) {
            let w = choose|w: int| is_winner_among(index, org_enabled, intent, m, w);
            lemma_winner_step(index, org_enabled, intent, m, Some(w));
            if contends(last, org_enabled, intent) && beats(last, index[w], org_enabled, intent) {
                assert(is_winner_among(index, org_enabled, intent, n, m));
            } else {
                assert(is_winner_among(index, org_enabled, intent, n, w));
            }
        } else if contends(last, org_enabled, intent) {
            assert forall|k: int| 0 <= k < m implies !contends(
                #[trigger] index[k],
                org_enabled,
                intent,
            ) by {}
            lemma_winner_step(index, org_enabled, intent, m, None);
            assert(is_winner_among(index, org_enabled, intent, n, m));
        } else {
            assert forall|w: int| !is_winner_among(index, org_enabled, intent, n, w) by {
                if is_winner_among(index, org_enabled, intent, n, w) {
                    assert(contends(index[w], org_enabled, intent));
                    assert(w < m);
                }
            }
        }
        if exists|w: int| is_winner_among(index, org_enabled, intent, n, w) {
            let w = choose|w: int| is_winner_among(index, org_enabled, intent, n, w);
            assert(contends(index[w], org_enabled, intent));
        }
    }
}

/// How the winner among the first `n` templates becomes the winner among
/// the first `n + 1`.
pub proof fn lemma_winner_step(
    index: Seq<TemplateModel>,
    org_enabled: bool,
    intent: IntentModel,
    n: int,
    best: Option<int>,
)
    requires
        0 <= n < index.len(),
        match best {
            Some(w) => is_winner_among(index, org_enabled, intent, n, w),
            None => forall|k: int| 0 <= k < n ==> !contends(#[trigger] index[k], org_enabled, intent),
        },
    ensures
        match next_best(index, org_enabled, intent, n, best) {
            Some(w) => is_winner_among(index, org_enabled, intent, n + 1, w),
            None => forall|k: int|
                0 <= k < n + 1 ==> !contends(#[trigger] index[k], org_enabled, intent),
        },
{
    let t = index[n];
    if contends(t, org_enabled, intent) {
        match best {
            Some(w) => {
                let old = index[w];
                if beats(t, old, org_enabled, intent) {
                    assert forall|j: int|
                        0 <= j < n + 1 && contends(
                            #[trigger] index[j],
                            org_enabled,
                            intent,
                        ) implies !beats(index[j], t, org_enabled, intent) by {
                        lemma_beats_order(index[j], t, old, org_enabled, intent);
                        lemma_beats_order(t, t, t, org_enabled, intent);
                    }
                    assert forall|j: int|
                        0 <= j < n && contends(#[trigger] index[j], org_enabled, intent) implies beats(
                        t,
                        index[j],
                        org_enabled,
                        intent,
                    ) by {
                        lemma_beats_order(t, index[j], old, org_enabled, intent);
                    }
                } else {
                    assert forall|j: int|
                        0 <= j < n + 1 && contends(
                            #[trigger] index[j],
                            org_enabled,
                            intent,
                        ) implies !beats(index[j], old, org_enabled, intent) by {}
                }
            },
            None => {
                lemma_beats_order(t, t, t, org_enabled, intent);
            },
        }
    } else {
        match best {
            Some(w) => {},
            None => {},
        }
    }
}

/// The winner among the first `n + 1` templates, given the winner among the
/// first `n`.
pub open spec fn next_best(
    index: Seq<TemplateModel>,
    org_enabled: bool,
    intent: IntentModel,
    n: int,
    best: Option<int>,
) -> Option<int> {
    if contends(index[n], org_enabled, intent) {
        match best {
            Some(w) => if beats(index[n], index[w], org_enabled, intent) {
                Some(n)
            } else {
                Some(w)
            },
            None => Some(n),
        }
    } else {
        best
    }
}

/// The place of a kind's tier in the order of precedence, or `None` for a
/// kind whose tier takes no part.
pub fn tier(kind: CatalogSourceKind, org_enabled: bool) -> (r: Option<usize>)
    ensures
        match r {
            Some(t) => tier_of(kind, org_enabled) == Some(t as int),
            None => tier_of(kind, org_enabled).is_none(),
        },
{
    match kind {
        CatalogSourceKind::Org => if org_enabled {
            Some(0)
        } else {
            None
        },
        CatalogSourceKind::User => if org_enabled {
            Some(1)
        } else {
            Some(0)
        },
        CatalogSourceKind::Builtin => if org_enabled {
            Some(2)
        } else {
            Some(1)
        },
    }
}

/// The tiers that take part in a resolution, highest precedence first.
pub fn precedence(org_enabled: bool) -> (r: Vec<CatalogSourceKind>)
    ensures
        r@ == precedence_order(org_enabled),
{
    let mut r: Vec<CatalogSourceKind> = Vec::new();
    if org_enabled {
        r.push(CatalogSourceKind::Org);
    }
    r.push(CatalogSourceKind::User);
    r.push(CatalogSourceKind::Builtin);
    assert(r@ =~= precedence_order(org_enabled));
    r
}

/// Whether contender `a` beats contender `b`.
fn contender_beats(a: &CatalogTemplate, b: &CatalogTemplate, org_enabled: bool, intent: &UiIntent) -> (r:
    bool)
    requires
        tier_of(a@.source.kind, org_enabled).is_some(),
        tier_of(b@.source.kind, org_enabled).is_some(),
    ensures
        r == beats(a@, b@, org_enabled, intent@),
{
    let ta = tier(a.source.kind, org_enabled).unwrap();
    let tb = tier(b.source.kind, org_enabled).unwrap();
    if ta < tb {
        return true;
    }
    if ta > tb {
        return false;
    }
    let sa = score_secondary(intent, a).total;
    let sb = score_secondary(intent, b).total;
    if sa > sb {
        return true;
    }
    if sa < sb {
        return false;
    }
    if comes_before(a.document.meta.id.as_str(), b.document.meta.id.as_str()) {
        return true;
    }
    same_text(a.document.meta.id.as_str(), b.document.meta.id.as_str()) && comes_before(
        a.source.provider_id.as_str(),
        b.source.provider_id.as_str(),
    )
}

/// The position of the winner in a list of templates, if any contends.
pub fn find_winner(templates: &Vec<CatalogTemplate>, org_enabled: bool, intent: &UiIntent) -> (best:
    Option<usize>)
    ensures
        match best {
            Some(w) => winner_of(views_of(templates@), org_enabled, intent@) == Some(w as int),
            None => winner_of(views_of(templates@), org_enabled, intent@).is_none(),
        },
        match best {
            Some(w) => is_winner(views_of(templates@), org_enabled, intent@, w as int),
            None => forall|k: int|
                0 <= k < templates@.len() ==> !contends(
                    #[trigger] views_of(templates@)[k],
                    org_enabled,
                    intent@,
                ),
        },
{
    let ghost index = views_of(templates@);
    let wanted = trim(intent.primary.as_str());
    let mut best: Option<usize> = None;
    let mut j: usize = 0;
    while j < templates.len()
        invariant
            j <= templates@.len(),
            index == views_of(templates@),
            wanted@ == trimmed(intent@.primary),
            match best {
                Some(w) => is_winner_among(index, org_enabled, intent@, j as int, w as int),
                None => forall|k: int|
                    0 <= k < j ==> !contends(#[trigger] index[k], org_enabled, intent@),
            },
        decreases templates@.len() - j,
    {
        let t = &templates[j];
        let ghost before: Option<int> = match best {
            Some(w) => Some(w as int),
            None => None,
        };
        proof {
            assert(index[j as int] == t@);
            lemma_winner_step(index, org_enabled, intent@, j as int, before);
        }
        if tier(t.source.kind, org_enabled).is_some() {
            let required = trim(t.document.match_rules.primary.as_str());
            if same_text(required.as_str(), wanted.as_str()) {
                let better = match best {
                    Some(w) => {
                        assert(index[w as int] == templates@[w as int]@);
                        contender_beats(t, &templates[w], org_enabled, intent)
                    },
                    None => true,
                };
                if better {
                    best = Some(j);
                }
            }
        }
        j += 1;
    }
    proof {
        match best {
            Some(w) => {
                assert(is_winner(index, org_enabled, intent@, w as int));
                let v = choose|v: int| is_winner(index, org_enabled, intent@, v);
                lemma_winner_unique(index, org_enabled, intent@, v, w as int);
            },
            None => {
                assert forall|v: int| !is_winner(index, org_enabled, intent@, v) by {
                    if is_winner(index, org_enabled, intent@, v) {
                        assert(contends(index[v], org_enabled, intent@));
                    }
                }
            },
        }
    }
    best
}

/// Resolving the same intent against an unchanged index gives the same
/// selected template and the same listing of candidates.
pub proof fn law_resolution_is_repeatable(
    index: Seq<TemplateModel>,
    org_enabled: bool,
    intent: IntentModel,
    first: ResolutionModel,
    second: ResolutionModel,
)
    requires
        first == resolution(index, org_enabled, intent),
        second == resolution(index, org_enabled, intent),
    ensures
        first.selected == second.selected,
        first.trace.selected_template_id == second.trace.selected_template_id,
        first.trace.ranked_candidates == second.trace.ranked_candidates,
        first == second,
{
}

/// Where any template contends, a template is selected, and it is the
/// winner of the index.
pub proof fn law_contender_gives_winner(
    index: Seq<TemplateModel>,
    org_enabled: bool,
    intent: IntentModel,
    i: int,
)
    requires
        0 <= i < index.len(),
        contends(index[i], org_enabled, intent),
    ensures
        winner_of(index, org_enabled, intent).is_some(),
        is_winner(index, org_enabled, intent, winner_of(index, org_enabled, intent).unwrap()),
        resolution(index, org_enabled, intent).selected == Some(
            index[winner_of(index, org_enabled, intent).unwrap()],
        ),
{
    lemma_winner_exists(index, org_enabled, intent, index.len() as int);
    let w = choose|w: int| is_winner_among(index, org_enabled, intent, index.len() as int, w);
    assert(is_winner(index, org_enabled, intent, w));
}

/// A contender of a tier with precedence keeps every contender of a lower
/// tier from being selected, whatever their scores: the selected template
/// is of a tier that is no lower than that of any contender.
pub proof fn law_higher_tier_wins(
    index: Seq<TemplateModel>,
    org_enabled: bool,
    intent: IntentModel,
    i: int,
)
    requires
        0 <= i < index.len(),
        contends(index[i], org_enabled, intent),
    ensures
        resolution(index, org_enabled, intent).selected.is_some(),
        tier_of(
            resolution(index, org_enabled, intent).selected.unwrap().source.kind,
            org_enabled,
        ).unwrap() <= tier_of(index[i].source.kind, org_enabled).unwrap(),
{
    law_contender_gives_winner(index, org_enabled, intent, i);
    let w = winner_of(index, org_enabled, intent).unwrap();
    assert(!beats(index[i], index[w], org_enabled, intent));
}

/// Among the contenders of the winner's tier that score as the winner does,
/// the winner has the template id that comes first, and among those with
/// its template id the provider id that comes first.
pub proof fn law_ties_resolve_by_ids(
    index: Seq<TemplateModel>,
    org_enabled: bool,
    intent: IntentModel,
    j: int,
)
    requires
        0 <= j < index.len(),
        contends(index[j], org_enabled, intent),
        resolution(index, org_enabled, intent).selected matches Some(winner) && tier_of(
            winner.source.kind,
            org_enabled,
        ) == tier_of(index[j].source.kind, org_enabled) && score_value(
            winner.document.match_rules,
            intent,
        ) == score_value(index[j].document.match_rules, intent),
    ensures
        text_le(
            resolution(index, org_enabled, intent).selected.unwrap().document.meta.id,
            index[j].document.meta.id,
        ),
        resolution(index, org_enabled, intent).selected.unwrap().document.meta.id
            == index[j].document.meta.id ==> text_le(
            resolution(index, org_enabled, intent).selected.unwrap().source.provider_id,
            index[j].source.provider_id,
        ),
{
    law_contender_gives_winner(index, org_enabled, intent, j);
    let w = winner_of(index, org_enabled, intent).unwrap();
    assert(!beats(index[j], index[w], org_enabled, intent));
    lemma_text_lt_total(index[w].document.meta.id, index[j].document.meta.id);
    lemma_text_lt_total(index[w].source.provider_id, index[j].source.provider_id);
}

/// Where no template contends, nothing is selected and the trace gives at
/// least one reason.
pub proof fn law_no_contender_no_winner(
    index: Seq<TemplateModel>,
    org_enabled: bool,
    intent: IntentModel,
)
    requires
        forall|j: int| 0 <= j < index.len() ==> !contends(#[trigger] index[j], org_enabled, intent),
    ensures
        resolution(index, org_enabled, intent).selected.is_none(),
        resolution(index, org_enabled, intent).trace.selected_template_id.is_none(),
        resolution(index, org_enabled, intent).trace.no_match_reasons.len() > 0,
{
    assert forall|w: int| !is_winner(index, org_enabled, intent, w) by {
        if is_winner(index, org_enabled, intent, w) {
            assert(contends(index[w], org_enabled, intent));
        }
    }
}

/// The listing of candidates in a trace stands in listing order, and holds
/// one candidate for each template whose tier takes part.
pub proof fn law_candidates_are_listed_in_order(
    index: Seq<TemplateModel>,
    org_enabled: bool,
    intent: IntentModel,
)
    ensures
        in_order::<ResolutionCandidate>(
            resolution(index, org_enabled, intent).trace.ranked_candidates,
        ),
        resolution(index, org_enabled, intent).trace.ranked_candidates.to_multiset()
            == candidates_upto(
            index,
            org_enabled,
            intent,
            winner_of(index, org_enabled, intent),
            index.len() as int,
        ).to_multiset(),
{
    lemma_sorted::<ResolutionCandidate>(
        candidates_upto(
            index,
            org_enabled,
            intent,
            winner_of(index, org_enabled, intent),
            index.len() as int,
        ),
    );
}

/// The diagnostic line of a trace: what was selected, from which provider
/// and with which score, or the reasons for which nothing was.
pub open spec fn trace_line(trace: TraceModel) -> Seq<char> {
    match trace.selected_template_id {
        Some(template_id) => "catalog resolve selected template="@ + template_id + " provider="@
            + (match trace.selected_provider_id {
            Some(provider) => provider,
            None => "unknown"@,
        }) + " score="@ + signed_decimal(
            match trace.selected_score {
                Some(score) => score,
                None => 0,
            },
        ) + " intent="@ + intent_summary(trace.intent),
        None => "catalog resolve no_match intent="@ + intent_summary(trace.intent) + " reasons="@
            + (if trace.no_match_reasons.len() == 0 {
            "none"@
        } else {
            joined(trace.no_match_reasons, " | "@)
        }),
    }
}

impl ResolutionTrace {
    /// The trace as diagnostic lines: one line that names what was
    /// selected, or one line that gives the reasons for which nothing was.
    pub fn diagnostic_lines(&self) -> (r: Vec<String>)
        ensures
            views(r@) == seq![trace_line(self@)],
    {
        let mut line: String;
        match &self.selected_template_id {
            Some(template_id) => {
                line = owned("catalog resolve selected template=");
                append(&mut line, template_id.as_str());
                append(&mut line, " provider=");
                match &self.selected_provider_id {
                    Some(provider) => {
                        append(&mut line, provider.as_str());
                    },
                    None => {
                        append(&mut line, "unknown");
                    },
                }
                append(&mut line, " score=");
                let score: i32 = match self.selected_score {
                    Some(score) => score,
                    None => 0,
                };
                let score_text = format_signed(score as i64);
                append(&mut line, score_text.as_str());
                append(&mut line, " intent=");
                let summary = self.intent.summary();
                append(&mut line, summary.as_str());
            },
            None => {
                line = owned("catalog resolve no_match intent=");
                let summary = self.intent.summary();
                append(&mut line, summary.as_str());
                append(&mut line, " reasons=");
                if self.no_match_reasons.len() == 0 {
                    append(&mut line, "none");
                } else {
                    let reasons = join(&self.no_match_reasons, " | ");
                    append(&mut line, reasons.as_str());
                }
            },
        }
        let mut out: Vec<String> = Vec::new();
        out.push(line);
        assert(views(out@) =~= seq![trace_line(self@)]);
        out
    }
}

} // verus!
