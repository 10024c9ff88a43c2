//! The template catalog: its documents, their sources, and how a template's
//! match rules are scored against an intent.

use vstd::prelude::*;
use crate::intent::{copy_terms, IntentModel, UiIntent};
use crate::json::{JsonModel, JsonValue};
use crate::text::{append, owned, same_text, views};

verus! {

/// Identity and metadata of a template.
#[derive(Debug, Clone, PartialEq, Eq)]
pub struct TemplateMeta {
    pub id: String,
    pub title: String,
    pub version: String,
    pub tags: Vec<String>,
}

/// The mathematical value of a [`TemplateMeta`].
pub struct MetaModel {
    pub id: Seq<char>,
    pub title: Seq<char>,
    pub version: Seq<char>,
    pub tags: Seq<Seq<char>>,
}

impl View for TemplateMeta {
    type V = MetaModel;

    open spec fn view(&self) -> MetaModel {
        MetaModel {
            id: self.id@,
            title: self.title@,
            version: self.version@,
            tags: views(self.tags@),
        }
    }
}

/// The rules by which a template is ranked against an intent.
#[derive(Debug, Clone, PartialEq, Eq)]
pub struct TemplateMatch {
    pub primary: String,
    pub operations: Vec<String>,
    pub tags: Vec<String>,
}

/// The mathematical value of a [`TemplateMatch`].
pub struct MatchModel {
    pub primary: Seq<char>,
    pub operations: Seq<Seq<char>>,
    pub tags: Seq<Seq<char>>,
}

impl View for TemplateMatch {
    type V = MatchModel;

    open spec fn view(&self) -> MatchModel {
        MatchModel {
            primary: self.primary@,
            operations: views(self.operations@),
            tags: views(self.tags@),
        }
    }
}

/// A catalog entry: metadata, match rules and the schema document, which is
/// carried as it was read and validated where it is loaded.
#[derive(Debug, Clone, PartialEq, Eq)]
pub struct TemplateDocument {
    pub meta: TemplateMeta,
    pub match_rules: TemplateMatch,
    pub schema: JsonValue,
}

/// The mathematical value of a [`TemplateDocument`].
pub struct DocumentModel {
    pub meta: MetaModel,
    pub match_rules: MatchModel,
    pub schema: JsonModel,
}

impl View for TemplateDocument {
    type V = DocumentModel;

    open spec fn view(&self) -> DocumentModel {
        DocumentModel { meta: self.meta@, match_rules: self.match_rules@, schema: self.schema@ }
    }
}

impl TemplateMeta {
    /// A copy of the metadata.
    pub fn duplicate(&self) -> (r: TemplateMeta)
        ensures
            r@ == self@,
    {
        TemplateMeta {
            id: self.id.clone(),
            title: self.title.clone(),
            version: self.version.clone(),
            tags: copy_terms(&self.tags),
        }
    }
}

impl TemplateMatch {
    /// A copy of the match rules.
    pub fn duplicate(&self) -> (r: TemplateMatch)
        ensures
            r@ == self@,
    {
        TemplateMatch {
            primary: self.primary.clone(),
            operations: copy_terms(&self.operations),
            tags: copy_terms(&self.tags),
        }
    }
}

impl TemplateDocument {
    /// A copy of the document.
    pub fn duplicate(&self) -> (r: TemplateDocument)
        ensures
            r@ == self@,
    {
        TemplateDocument {
            meta: self.meta.duplicate(),
            match_rules: self.match_rules.duplicate(),
            schema: self.schema.duplicate(),
        }
    }
}

/// The precedence tier of a catalog source. The variants stand in order of
/// precedence, highest first.
#[derive(Debug, Clone, Copy, PartialEq, Eq, Structural, PartialOrd, Ord)]
pub enum CatalogSourceKind {
    Org,
    User,
    Builtin,
}

/// The lower-case name of a source kind.
pub open spec fn kind_name(kind: CatalogSourceKind) -> Seq<char> {
    match kind {
        CatalogSourceKind::Org => "org"@,
        CatalogSourceKind::User => "user"@,
        CatalogSourceKind::Builtin => "builtin"@,
    }
}

impl CatalogSourceKind {
    /// The lower-case name of the kind.
    pub fn as_str(&self) -> (r: &'static str)
        ensures
            r@ == kind_name(*self),
    {
        match self {
            CatalogSourceKind::Org => "org",
            CatalogSourceKind::User => "user",
            CatalogSourceKind::Builtin => "builtin",
        }
    }
}

/// Where a template was loaded from.
#[derive(Debug, Clone, PartialEq, Eq)]
pub struct CatalogSource {
    pub provider_id: String,
    pub kind: CatalogSourceKind,
    pub read_only: bool,
}

/// The mathematical value of a [`CatalogSource`].
pub struct SourceModel {
    pub provider_id: Seq<char>,
    pub kind: CatalogSourceKind,
    pub read_only: bool,
}

impl View for CatalogSource {
    type V = SourceModel;

    open spec fn view(&self) -> SourceModel {
        SourceModel { provider_id: self.provider_id@, kind: self.kind, read_only: self.read_only }
    }
}

impl CatalogSource {
    /// A copy of the source.
    pub fn duplicate(&self) -> (r: CatalogSource)
        ensures
            r@ == self@,
    {
        CatalogSource {
            provider_id: self.provider_id.clone(),
            kind: self.kind,
            read_only: self.read_only,
        }
    }
}

/// A template document bound to the source it was loaded from.
#[derive(Debug, Clone, PartialEq, Eq)]
pub struct CatalogTemplate {
    pub document: TemplateDocument,
    pub source: CatalogSource,
}

/// The mathematical value of a [`CatalogTemplate`].
pub struct TemplateModel {
    pub document: DocumentModel,
    pub source: SourceModel,
}

impl View for CatalogTemplate {
    type V = TemplateModel;

    open spec fn view(&self) -> TemplateModel {
        TemplateModel { document: self.document@, source: self.source@ }
    }
}

impl CatalogTemplate {
    /// The template's id.
    pub fn template_id(&self) -> (r: &str)
        ensures
            r@ == self@.document.meta.id,
    {
        self.document.meta.id.as_str()
    }

    /// The template's schema document.
    pub fn schema_value(&self) -> (r: &JsonValue)
        ensures
            r@ == self@.document.schema,
    {
        &self.document.schema
    }

    /// A copy of the template.
    pub fn duplicate(&self) -> (r: CatalogTemplate)
        ensures
            r@ == self@,
    {
        CatalogTemplate { document: self.document.duplicate(), source: self.source.duplicate() }
    }
}

/// Why a document was left out when a provider's templates were loaded.
#[derive(Debug, Clone, PartialEq, Eq)]
pub struct CatalogLoadDiagnostic {
    pub provider_id: String,
    pub template_ref: String,
    pub reason: String,
}

/// The mathematical value of a [`CatalogLoadDiagnostic`].
pub struct DiagnosticModel {
    pub provider_id: Seq<char>,
    pub template_ref: Seq<char>,
    pub reason: Seq<char>,
}

impl View for CatalogLoadDiagnostic {
    type V = DiagnosticModel;

    open spec fn view(&self) -> DiagnosticModel {
        DiagnosticModel {
            provider_id: self.provider_id@,
            template_ref: self.template_ref@,
            reason: self.reason@,
        }
    }
}

/// The log line of a load diagnostic.
pub open spec fn diagnostic_line(d: DiagnosticModel) -> Seq<char> {
    "catalog load rejected provider="@ + d.provider_id + " template_ref="@ + d.template_ref
        + " reason="@ + d.reason
}

impl CatalogLoadDiagnostic {
    /// The diagnostic as one log line.
    pub fn to_log_line(&self) -> (r: String)
        ensures
            r@ == diagnostic_line(self@),
    {
        let mut out = owned("catalog load rejected provider=");
        append(&mut out, self.provider_id.as_str());
        append(&mut out, " template_ref=");
        append(&mut out, self.template_ref.as_str());
        append(&mut out, " reason=");
        append(&mut out, self.reason.as_str());
        out
    }
}

/// What a provider hands back from a load: the templates it accepted and a
/// diagnostic for each document it left out.
#[derive(Debug, Clone, PartialEq, Eq)]
pub struct CatalogLoadOutput {
    pub templates: Vec<CatalogTemplate>,
    pub diagnostics: Vec<CatalogLoadDiagnostic>,
}

/// How a catalog operation failed.
#[derive(Debug, Clone, PartialEq, Eq)]
pub enum CatalogError {
    ReadOnlyProvider { provider_id: String },
    Io { provider_id: String, path: String, message: String },
    Serialize(String),
}

/// The message of a catalog error.
pub open spec fn catalog_error_message(e: CatalogError) -> Seq<char> {
    match e {
        CatalogError::ReadOnlyProvider { provider_id } => "provider "@ + provider_id@
            + " is read-only"@,
        CatalogError::Io { provider_id, path, message } => "provider "@ + provider_id@
            + " io error at "@ + path@ + ": "@ + message@,
        CatalogError::Serialize(message) => "template serialization error: "@ + message@,
    }
}

impl CatalogError {
    /// The message of the error.
    pub fn message(&self) -> (r: String)
        ensures
            r@ == catalog_error_message(*self),
    {
        match self {
            CatalogError::ReadOnlyProvider { provider_id } => {
                let mut out = owned("provider ");
                append(&mut out, provider_id.as_str());
                append(&mut out, " is read-only");
                out
            },
            CatalogError::Io { provider_id, path, message } => {
                let mut out = owned("provider ");
                append(&mut out, provider_id.as_str());
                append(&mut out, " io error at ");
                append(&mut out, path.as_str());
                append(&mut out, ": ");
                append(&mut out, message.as_str());
                out
            },
            CatalogError::Serialize(message) => {
                let mut out = owned("template serialization error: ");
                append(&mut out, message.as_str());
                out
            },
        }
    }
}

/// How many distinct terms two lists share.
pub open spec fn overlap(a: Seq<Seq<char>>, b: Seq<Seq<char>>) -> nat {
    a.to_set().intersect(b.to_set()).len()
}

/// The two lists hold the same set of terms, and it is not empty.
pub open spec fn same_terms(a: Seq<Seq<char>>, b: Seq<Seq<char>>) -> bool {
    a.len() > 0 && a.to_set() == b.to_set()
}

/// The secondary score of match rules against an intent, before it is cut
/// to the range of the score field: ten for each shared operation, four for
/// each shared tag, two more where the operation sets are equal and not
/// empty, one more where the tag sets are.
pub open spec fn raw_score(rules: MatchModel, intent: IntentModel) -> int {
    10 * overlap(rules.operations, intent.operations) + 4 * overlap(rules.tags, intent.tags) + (
    if same_terms(rules.operations, intent.operations) {
        2int
    } else {
        0int
    }) + (if same_terms(rules.tags, intent.tags) {
        1int
    } else {
        0int
    })
}

/// The secondary score as the score field holds it: the raw score, or the
/// field's largest value where the raw score is beyond it.
pub open spec fn score_value(rules: MatchModel, intent: IntentModel) -> int {
    if raw_score(rules, intent) > i32::MAX {
        i32::MAX as int
    } else {
        raw_score(rules, intent)
    }
}

/// Whether `s` is one of the items of `list`.
pub fn list_has(list: &Vec<String>, s: &str) -> (r: bool)
    ensures
        r == views(list@).contains(s@),
{
    let mut i: usize = 0;
    while i < list.len()
        invariant
            i <= list@.len(),
            forall|k: int| 0 <= k < i ==> views(list@)[k] != s@,
        decreases list@.len() - i,
    {
        if same_text(list[i].as_str(), s) {
            assert(views(list@)[i as int] == s@);
            return true;
        }
        i += 1;
    }
    false
}

/// Whether `s` is one of the first `upto` items of `list`.
fn list_has_before(list: &Vec<String>, upto: usize, s: &str) -> (r: bool)
    requires
        upto <= list@.len(),
    ensures
        r == views(list@).take(upto as int).contains(s@),
{
    let mut i: usize = 0;
    while i < upto
        invariant
            i <= upto <= list@.len(),
            forall|k: int| 0 <= k < i ==> views(list@)[k] != s@,
        decreases upto - i,
    {
        if same_text(list[i].as_str(), s) {
            assert(views(list@).take(upto as int)[i as int] == s@);
            return true;
        }
        i += 1;
    }
    assert forall|k: int| 0 <= k < upto implies views(list@).take(upto as int)[k] != s@ by {
        assert(views(list@).take(upto as int)[k] == views(list@)[k]);
    }
    false
}

/// How many distinct terms the two lists share.
pub fn count_overlap(a: &Vec<String>, b: &Vec<String>) -> (n: usize)
    ensures
        n == overlap(views(a@), views(b@)),
{
    let ghost va = views(a@);
    let ghost vb = views(b@);
    let mut n: usize = 0;
    let mut i: usize = 0;
    assert(va.take(0).to_set() =~= Set::<Seq<char>>::empty());
    assert(va.take(0).to_set().intersect(vb.to_set()) =~= Set::<Seq<char>>::empty());
    while i < a.len()
        invariant
            va == views(a@),
            vb == views(b@),
            i <= a@.len(),
            n <= i,
            n == va.take(i as int).to_set().intersect(vb.to_set()).len(),
        decreases a@.len() - i,
    {
        let term = a[i].as_str();
        let shared = list_has(b, term);
        let seen = list_has_before(a, i, term);
        proof {
            let x = va[i as int];
            let before = va.take(i as int).to_set();
            let next = va.take(i + 1);
            let prev = va.take(i as int);
            let after = next.to_set();
            assert(next =~= prev.push(x));
            assert(after =~= before.insert(x)) by {
                assert forall|t: Seq<char>| after.contains(t) <==> before.insert(x).contains(
                    t,
                ) by {
                    if next.contains(t) {
                        let k = choose|k: int| 0 <= k < next.len() && next[k] == t;
                        if k < i {
                            assert(prev[k] == t);
                        }
                    }
                    if prev.contains(t) {
                        let k = choose|k: int| 0 <= k < prev.len() && prev[k] == t;
                        assert(next[k] == t);
                    }
                    if t == x {
                        assert(next[i as int] == x);
                    }
                }
            }
            vstd::seq_lib::seq_to_set_is_finite(va.take(i as int));
            vstd::seq_lib::seq_to_set_is_finite(vb);
            let common = before.intersect(vb.to_set());
            assert(common.finite());
            if shared && !seen {
                assert(after.intersect(vb.to_set()) =~= common.insert(x));
                assert(!common.contains(x));
            } else {
                assert(after.intersect(vb.to_set()) =~= common);
            }
        }
        if shared && !seen {
            n += 1;
        }
        i += 1;
    }
    assert(va.take(a@.len() as int) =~= va);
    n
}

/// Whether every term of `a` is a term of `b`.
fn all_in(a: &Vec<String>, b: &Vec<String>) -> (r: bool)
    ensures
        r == views(a@).to_set().subset_of(views(b@).to_set()),
{
    let mut i: usize = 0;
    while i < a.len()
        invariant
            i <= a@.len(),
            forall|k: int| 0 <= k < i ==> views(b@).contains(#[trigger] views(a@)[k]),
        decreases a@.len() - i,
    {
        if !list_has(b, a[i].as_str()) {
            assert(views(a@).contains(views(a@)[i as int]));
            assert(views(a@).to_set().contains(views(a@)[i as int]));
            assert(!views(b@).to_set().contains(views(a@)[i as int]));
            return false;
        }
        i += 1;
    }
    assert forall|t: Seq<char>| views(a@).to_set().contains(t) implies views(b@).to_set().contains(
        t,
    ) by {
        let k = choose|k: int| 0 <= k < views(a@).len() && views(a@)[k] == t;
        assert(views(b@).contains(views(a@)[k]));
    }
    true
}

/// Whether the two lists hold the same set of terms, and it is not empty.
pub fn has_same_terms(a: &Vec<String>, b: &Vec<String>) -> (r: bool)
    ensures
        r == same_terms(views(a@), views(b@)),
{
    if a.len() == 0 {
        return false;
    }
    let r = all_in(a, b) && all_in(b, a);
    proof {
        if r {
            assert(views(a@).to_set() =~= views(b@).to_set());
        }
    }
    r
}

/// The secondary score of a template against an intent, with the two
/// overlap counts it was computed from.
#[derive(Debug, Clone, Copy)]
pub struct SecondaryScore {
    pub total: i32,
    pub operation_overlap: usize,
    pub tag_overlap: usize,
}

/// Scores a template's match rules against an intent.
pub fn score_secondary(intent: &UiIntent, template: &CatalogTemplate) -> (r: SecondaryScore)
    ensures
        r.total == score_value(template@.document.match_rules, intent@),
        r.operation_overlap == overlap(
            template@.document.match_rules.operations,
            intent@.operations,
        ),
        r.tag_overlap == overlap(template@.document.match_rules.tags, intent@.tags),
{
    let rules = &template.document.match_rules;
    let operation_overlap = count_overlap(&rules.operations, &intent.operations);
    let tag_overlap = count_overlap(&rules.tags, &intent.tags);
    let mut raw: u128 = (operation_overlap as u128) * 10 + (tag_overlap as u128) * 4;
    if has_same_terms(&rules.operations, &intent.operations) {
        raw = raw + 2;
    }
    if has_same_terms(&rules.tags, &intent.tags) {
        raw = raw + 1;
    }
    let total: i32 = if raw > 0x7fff_ffff {
        0x7fff_ffff
    } else {
        raw as i32
    };
    SecondaryScore { total, operation_overlap, tag_overlap }
}

} // verus!
