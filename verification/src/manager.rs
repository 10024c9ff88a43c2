//! The catalog manager: one index of templates over all providers, and the
//! resolution of intents against it.

use vstd::prelude::*;
use crate::catalog::{
    catalog_error_message, score_secondary, CatalogError, CatalogLoadDiagnostic, CatalogLoadOutput,
    CatalogSource, CatalogTemplate, DiagnosticModel, TemplateModel,
};
use crate::loading::CatalogProvider;
use crate::order::in_order;
use crate::intent::UiIntent;
use crate::order::{lemma_sorted, sort, sorted, views_of, Ranked};
use crate::ranking::{CandidateModel, ResolutionCandidate};
use crate::resolve::{
    candidate_of, candidates_upto, find_winner, is_winner, no_match_lines, precedence, reason_line,
    resolution, tier, tier_of, winner_of, ResolutionResult, ResolutionTrace,
};
use crate::text::{
    append, comes_before, lemma_text_lt_order, owned, same_text, text_lt, trim, trimmed, views,
};

verus! {

/// A position held in exec code, as a mathematical integer.
pub open spec fn position(p: Option<usize>) -> Option<int> {
    match p {
        Some(p) => Some(p as int),
        None => None,
    }
}

/// The candidate that a trace holds for the template at position `j`.
fn make_candidate(
    templates: &Vec<CatalogTemplate>,
    j: usize,
    org_enabled: bool,
    intent: &UiIntent,
    wanted: &str,
    best: Option<usize>,
) -> (c: ResolutionCandidate)
    requires
        j < templates@.len(),
        tier_of(templates@[j as int]@.source.kind, org_enabled).is_some(),
        wanted@ == trimmed(intent@.primary),
        match best {
            Some(w) => w < templates@.len() && tier_of(
                templates@[w as int]@.source.kind,
                org_enabled,
            ).is_some(),
            None => true,
        },
    ensures
        c@ == candidate_of(views_of(templates@), org_enabled, intent@, position(best), j as int),
{
    let t = &templates[j];
    let required = trim(t.document.match_rules.primary.as_str());
    if !same_text(required.as_str(), wanted) {
        let mut reason = owned("primary mismatch expected=");
        append(&mut reason, required.as_str());
        append(&mut reason, " actual=");
        append(&mut reason, wanted);
        return ResolutionCandidate {
            template_id: t.document.meta.id.clone(),
            provider_id: t.source.provider_id.clone(),
            provider_kind: t.source.kind,
            score: 0,
            operation_overlap: 0,
            tag_overlap: 0,
            excluded_reason: Some(reason),
            selected: false,
        };
    }
    let score = score_secondary(intent, t);
    let excluded_reason = match best {
        Some(w) => {
            if w == j {
                None
            } else {
                let winner = &templates[w];
                let own_tier = tier(t.source.kind, org_enabled).unwrap();
                let winner_tier = tier(winner.source.kind, org_enabled).unwrap();
                if own_tier > winner_tier {
                    let mut reason = owned("lower provider precedence than ");
                    append(&mut reason, winner.source.kind.as_str());
                    Some(reason)
                } else {
                    Some(owned("lower score or tie-break in same tier"))
                }
            }
        },
        None => None,
    };
    let selected = match best {
        Some(w) => w == j,
        None => false,
    };
    ResolutionCandidate {
        template_id: t.document.meta.id.clone(),
        provider_id: t.source.provider_id.clone(),
        provider_kind: t.source.kind,
        score: score.total,
        operation_overlap: score.operation_overlap,
        tag_overlap: score.tag_overlap,
        excluded_reason,
        selected,
    }
}

/// The candidates of all templates whose tier takes part, in index order.
fn make_candidates(
    templates: &Vec<CatalogTemplate>,
    org_enabled: bool,
    intent: &UiIntent,
    best: Option<usize>,
) -> (out: Vec<ResolutionCandidate>)
    requires
        match best {
            Some(w) => w < templates@.len() && tier_of(
                templates@[w as int]@.source.kind,
                org_enabled,
            ).is_some(),
            None => true,
        },
    ensures
        views_of(out@) == candidates_upto(
            views_of(templates@),
            org_enabled,
            intent@,
            position(best),
            templates@.len() as int,
        ),
{
    let wanted = trim(intent.primary.as_str());
    let mut out: Vec<ResolutionCandidate> = Vec::new();
    let mut j: usize = 0;
    assert(views_of(out@) =~= Seq::<CandidateModel>::empty());
    while j < templates.len()
        invariant
            j <= templates@.len(),
            wanted@ == trimmed(intent@.primary),
            match best {
                Some(w) => w < templates@.len() && tier_of(
                    templates@[w as int]@.source.kind,
                    org_enabled,
                ).is_some(),
                None => true,
            },
            views_of(out@) == candidates_upto(
                views_of(templates@),
                org_enabled,
                intent@,
                position(best),
                j as int,
            ),
        decreases templates@.len() - j,
    {
        assert(views_of(templates@)[j as int] == templates@[j as int]@);
        if tier(templates[j].source.kind, org_enabled).is_some() {
            let c = make_candidate(templates, j, org_enabled, intent, wanted.as_str(), best);
            let ghost before = views_of(out@);
            out.push(c);
            assert(views_of(out@) =~= before.push(c@));
        }
        j += 1;
    }
    out
}

/// The reasons that a resolution without a winner gives.
fn make_no_match_reasons(ranked: &Vec<ResolutionCandidate>) -> (out: Vec<String>)
    ensures
        views(out@) == no_match_lines(views_of(ranked@)),
{
    let mut out: Vec<String> = Vec::new();
    if ranked.len() == 0 {
        out.push(owned("catalog index contains no templates"));
        assert(views(out@) =~= seq!["catalog index contains no templates"@]);
        return out;
    }
    let mut i: usize = 0;
    while i < ranked.len()
        invariant
            i <= ranked@.len(),
            out@.len() == i,
            forall|k: int| 0 <= k < i ==> (#[trigger] out@[k])@ == reason_line(ranked@[k]@),
        decreases ranked@.len() - i,
    {
        let c = &ranked[i];
        let mut line = c.provider_id.clone();
        append(&mut line, ":");
        append(&mut line, c.template_id.as_str());
        append(&mut line, " ");
        match &c.excluded_reason {
            Some(reason) => {
                append(&mut line, reason.as_str());
            },
            None => {
                append(&mut line, "no ranking winner");
            },
        }
        out.push(line);
        i += 1;
    }
    assert(views(out@) =~= no_match_lines(views_of(ranked@)));
    out
}

/// One index of templates over all providers, with the diagnostics of the
/// load that built it.
pub struct CatalogManager {
    templates: Vec<CatalogTemplate>,
    load_diagnostics: Vec<CatalogLoadDiagnostic>,
    org_enabled: bool,
}

/// The mathematical value of a [`CatalogManager`].
pub struct ManagerModel {
    pub templates: Seq<TemplateModel>,
    pub diagnostics: Seq<DiagnosticModel>,
    pub org_enabled: bool,
}

impl View for CatalogManager {
    type V = ManagerModel;

    closed spec fn view(&self) -> ManagerModel {
        ManagerModel {
            templates: views_of(self.templates@),
            diagnostics: views_of(self.load_diagnostics@),
            org_enabled: self.org_enabled,
        }
    }
}

impl CatalogManager {
    /// Resolves an intent to the template that wins it, with the trace of
    /// how every candidate fared.
    pub fn resolve(&self, intent: &UiIntent) -> (result: ResolutionResult)
        ensures
            result@ == resolution(self@.templates, self@.org_enabled, intent@),
    {
        let ghost index = views_of(self.templates@);
        let best = find_winner(&self.templates, self.org_enabled, intent);
        assert(position(best) == winner_of(index, self.org_enabled, intent@));
        proof {
            match best {
                Some(w) => {
                    assert(is_winner(index, self.org_enabled, intent@, w as int));
                    assert(index[w as int] == self.templates@[w as int]@);
                },
                None => {},
            }
        }
        let candidates = make_candidates(&self.templates, self.org_enabled, intent, best);
        let ranked = sort(candidates);
        let (selected, selected_template_id, selected_provider_id, selected_score) = match best {
            Some(w) => {
                let t = &self.templates[w];
                (
                    Some(t.duplicate()),
                    Some(t.document.meta.id.clone()),
                    Some(t.source.provider_id.clone()),
                    Some(score_secondary(intent, t).total),
                )
            },
            None => (None, None, None, None),
        };
        let no_match_reasons = match best {
            Some(_) => {
                let none: Vec<String> = Vec::new();
                assert(views(none@) =~= Seq::<Seq<char>>::empty());
                none
            },
            None => make_no_match_reasons(&ranked),
        };
        ResolutionResult {
            selected,
            trace: ResolutionTrace {
                intent: intent.duplicate(),
                provider_precedence: precedence(self.org_enabled),
                selected_template_id,
                selected_provider_id,
                selected_score,
                ranked_candidates: ranked,
                no_match_reasons,
            },
        }
    }

    /// The diagnostics of the load that built the index.
    pub fn load_diagnostics(&self) -> (r: &Vec<CatalogLoadDiagnostic>)
        ensures
            views_of(r@) == self@.diagnostics,
    {
        &self.load_diagnostics
    }

    /// The templates of the index, in index order.
    pub fn templates(&self) -> (r: &Vec<CatalogTemplate>)
        ensures
            views_of(r@) == self@.templates,
    {
        &self.templates
    }

    /// Whether the organization tier takes part in resolutions.
    pub fn org_enabled(&self) -> (r: bool)
        ensures
            r == self@.org_enabled,
    {
        self.org_enabled
    }
}

/// What one provider gave when it was asked for its templates.
pub struct ProviderLoad {
    pub source: CatalogSource,
    pub outcome: Result<CatalogLoadOutput, CatalogError>,
}

impl ProviderLoad {
    /// Asks a provider for its source and its templates: the load holds
    /// what the provider's `source` and `load_templates` gave, and so
    /// whatever these two promise of their results.
    pub fn from_provider<P: CatalogProvider>(provider: &P) -> (r: ProviderLoad)
        ensures
            call_ensures(P::source, (provider,), r.source),
            call_ensures(P::load_templates, (provider,), r.outcome),
    {
        ProviderLoad { source: provider.source(), outcome: provider.load_templates() }
    }
}

impl Ranked for CatalogTemplate {
    /// Templates stand in the index by provider id, and among those of one
    /// provider by template id.
    open spec fn before(a: TemplateModel, b: TemplateModel) -> bool {
        text_lt(a.source.provider_id, b.source.provider_id) || (a.source.provider_id
            == b.source.provider_id && text_lt(a.document.meta.id, b.document.meta.id))
    }

    proof fn before_is_strict_weak_order(a: TemplateModel, b: TemplateModel, c: TemplateModel) {
        lemma_text_lt_order(a.source.provider_id, b.source.provider_id, c.source.provider_id);
        lemma_text_lt_order(a.document.meta.id, b.document.meta.id, c.document.meta.id);
    }

    fn goes_before(&self, other: &Self) -> (r: bool) {
        if comes_before(self.source.provider_id.as_str(), other.source.provider_id.as_str()) {
            true
        } else {
            same_text(self.source.provider_id.as_str(), other.source.provider_id.as_str())
                && comes_before(self.document.meta.id.as_str(), other.document.meta.id.as_str())
        }
    }
}

/// The templates that a list of loads gave, in the order of the loads.
pub open spec fn gathered_templates(loads: Seq<ProviderLoad>) -> Seq<TemplateModel>
    decreases loads.len(),
{
    if loads.len() == 0 {
        Seq::empty()
    } else {
        gathered_templates(loads.drop_last()) + (match loads.last().outcome {
            Ok(output) => views_of(output.templates@),
            Err(_) => Seq::empty(),
        })
    }
}

/// The diagnostic of a provider whose load failed as a whole.
pub open spec fn provider_failure(source: CatalogSource, error: CatalogError) -> DiagnosticModel {
    DiagnosticModel {
        provider_id: source.provider_id@,
        template_ref: "provider"@,
        reason: catalog_error_message(error),
    }
}

/// The diagnostics that a list of loads gave, in the order of the loads: a
/// provider's own diagnostics, or one diagnostic for a provider whose load
/// failed as a whole.
pub open spec fn gathered_diagnostics(loads: Seq<ProviderLoad>) -> Seq<DiagnosticModel>
    decreases loads.len(),
{
    if loads.len() == 0 {
        Seq::empty()
    } else {
        gathered_diagnostics(loads.drop_last()) + (match loads.last().outcome {
            Ok(output) => views_of(output.diagnostics@),
            Err(error) => seq![provider_failure(loads.last().source, error)],
        })
    }
}

impl CatalogManager {
    /// A manager over what the providers gave: see `reload`.
    pub fn new(loads: Vec<ProviderLoad>, org_enabled: bool) -> (r: CatalogManager)
        ensures
            r@.templates == sorted::<CatalogTemplate>(gathered_templates(loads@)),
            r@.diagnostics == gathered_diagnostics(loads@),
            r@.org_enabled == org_enabled,
            in_order::<CatalogTemplate>(r@.templates),
    {
        let mut manager = CatalogManager {
            templates: Vec::new(),
            load_diagnostics: Vec::new(),
            org_enabled,
        };
        manager.reload(loads);
        manager
    }

    /// Rebuilds the index from what the providers gave, in provider order.
    /// The index holds the templates of all providers, sorted by provider
    /// id and template id; the diagnostics are those of all providers, with
    /// one diagnostic for each provider whose load failed as a whole. A
    /// failed provider takes nothing from the others.
    pub fn reload(&mut self, loads: Vec<ProviderLoad>)
        ensures
            final(self)@.templates == sorted::<CatalogTemplate>(gathered_templates(loads@)),
            final(self)@.diagnostics == gathered_diagnostics(loads@),
            final(self)@.org_enabled == old(self)@.org_enabled,
            in_order::<CatalogTemplate>(final(self)@.templates),
    {
        let ghost all = loads@;
        let mut rest = loads;
        let mut templates: Vec<CatalogTemplate> = Vec::new();
        let mut diagnostics: Vec<CatalogLoadDiagnostic> = Vec::new();
        let ghost mut done: int = 0;
        assert(all.take(0) =~= Seq::<ProviderLoad>::empty());
        assert(views_of(templates@) =~= Seq::<TemplateModel>::empty());
        assert(views_of(diagnostics@) =~= Seq::<DiagnosticModel>::empty());
        while rest.len() > 0
            invariant
                0 <= done <= all.len(),
                rest@ == all.skip(done),
                views_of(templates@) == gathered_templates(all.take(done)),
                views_of(diagnostics@) == gathered_diagnostics(all.take(done)),
            decreases rest@.len(),
        {
            let load = rest.remove(0);
            let ghost before_templates = views_of(templates@);
            let ghost before_diagnostics = views_of(diagnostics@);
            proof {
                assert(all.take(done + 1).drop_last() =~= all.take(done));
                assert(all.take(done + 1).last() == load);
                assert(rest@ =~= all.skip(done + 1));
                done = done + 1;
            }
            match load.outcome {
                Ok(output) => {
                    let mut output = output;
                    let ghost given_templates = views_of(output.templates@);
                    let ghost given_diagnostics = views_of(output.diagnostics@);
                    templates.append(&mut output.templates);
                    diagnostics.append(&mut output.diagnostics);
                    assert(views_of(templates@) =~= before_templates + given_templates);
                    assert(views_of(diagnostics@) =~= before_diagnostics + given_diagnostics);
                },
                Err(error) => {
                    let diagnostic = CatalogLoadDiagnostic {
                        provider_id: load.source.provider_id,
                        template_ref: owned("provider"),
                        reason: error.message(),
                    };
                    diagnostics.push(diagnostic);
                    assert(views_of(diagnostics@) =~= before_diagnostics + seq![diagnostic@]);
                    assert(views_of(templates@) =~= before_templates
                        + Seq::<TemplateModel>::empty());
                },
            }
        }
        assert(all.take(done) =~= all);
        self.templates = sort(templates);
        self.load_diagnostics = diagnostics;
    }
}

/// A reload keeps every template that the providers gave, and the index
/// stands in order.
pub proof fn law_index_is_sorted(loads: Seq<ProviderLoad>)
    ensures
        in_order::<CatalogTemplate>(sorted::<CatalogTemplate>(gathered_templates(loads))),
        sorted::<CatalogTemplate>(gathered_templates(loads)).to_multiset() == gathered_templates(
            loads,
        ).to_multiset(),
{
    lemma_sorted::<CatalogTemplate>(gathered_templates(loads));
}

} // verus!
