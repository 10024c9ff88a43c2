//! Loading template documents: from text to a catalog template that is fit
//! for the index, and the providers that the library brings along.

use vstd::prelude::*;
use crate::catalog::{
    CatalogError, CatalogLoadDiagnostic, CatalogLoadOutput, CatalogSource, CatalogSourceKind,
    CatalogTemplate, DiagnosticModel, DocumentModel, MatchModel, MetaModel, SourceModel,
    TemplateDocument, TemplateModel,
};
use crate::decode::{decode_document, decode_schema};
use crate::intent::{is_normal, normalize_terms, normalized};
use crate::json::{parsed_json, JsonModel, JsonValue};
use crate::order::{sort, sorted, views_of};
use crate::registry::{standard_allowed, ComponentRegistry};
use crate::schema::{error_message, UiSchema};
use crate::text::{
    append, char_is_ascii_alnum, chars_of, decimal, ends_with, format_unsigned, is_ascii_alnum,
    occurs_at, owned, push_char, trim, trimmed,
};
use crate::validate::{schema_error, validate_schema};

verus! {

/// The document with its texts trimmed and its term lists in normal form.
pub open spec fn normal_document(d: DocumentModel) -> DocumentModel {
    DocumentModel {
        meta: MetaModel {
            id: trimmed(d.meta.id),
            title: trimmed(d.meta.title),
            version: trimmed(d.meta.version),
            tags: normalized(d.meta.tags),
        },
        match_rules: MatchModel {
            primary: trimmed(d.match_rules.primary),
            operations: normalized(d.match_rules.operations),
            tags: normalized(d.match_rules.tags),
        },
        schema: d.schema,
    }
}

/// Trims the texts of a document and brings its term lists into normal
/// form.
pub fn normalize_document(document: &mut TemplateDocument)
    ensures
        final(document)@ == normal_document(old(document)@),
        is_normal(final(document)@.meta.tags),
        is_normal(final(document)@.match_rules.operations),
        is_normal(final(document)@.match_rules.tags),
{
    document.meta.id = trim(document.meta.id.as_str());
    document.meta.title = trim(document.meta.title.as_str());
    document.meta.version = trim(document.meta.version.as_str());
    document.meta.tags = normalize_terms(&document.meta.tags);
    document.match_rules.primary = trim(document.match_rules.primary.as_str());
    document.match_rules.operations = normalize_terms(&document.match_rules.operations);
    document.match_rules.tags = normalize_terms(&document.match_rules.tags);
}

/// The first text that a document lacks, by the message that names it.
pub open spec fn missing_text(d: DocumentModel) -> Option<Seq<char>> {
    if trimmed(d.meta.id).len() == 0 {
        Some("meta.id is required"@)
    } else if trimmed(d.meta.title).len() == 0 {
        Some("meta.title is required"@)
    } else if trimmed(d.meta.version).len() == 0 {
        Some("meta.version is required"@)
    } else if trimmed(d.match_rules.primary).len() == 0 {
        Some("match.primary is required"@)
    } else {
        None
    }
}

/// How the load of a template text ends.
pub enum LoadOutcome {
    /// The text is no JSON document; the parser's message is given.
    NoJson(Seq<char>),
    /// The JSON document does not have the shape of a template document.
    NoDocument,
    /// The document lacks a text; the message names it.
    MissingText(Seq<char>),
    /// The schema of the document does not have the shape of a schema.
    NoSchema,
    /// The schema did not pass validation; the message of the validation
    /// error is given.
    InvalidSchema(Seq<char>),
    /// The template is accepted, in normal form.
    Accepted(DocumentModel),
}

/// How the load of a template ends, given what the JSON parser made of its
/// text.
pub open spec fn load_outcome(parsed: Result<JsonModel, Seq<char>>) -> LoadOutcome {
    match parsed {
        Err(message) => LoadOutcome::NoJson(message),
        Ok(value) => match decode_document(value) {
            None => LoadOutcome::NoDocument,
            Some(d) => match missing_text(d) {
                Some(message) => LoadOutcome::MissingText(message),
                None => match decode_schema(d.schema) {
                    None => LoadOutcome::NoSchema,
                    Some(schema) => match schema_error(standard_allowed(), schema) {
                        Some(e) => LoadOutcome::InvalidSchema(error_message(e)),
                        None => LoadOutcome::Accepted(normal_document(d)),
                    },
                },
            },
        },
    }
}

/// The text in front of the message of a text that is no template document.
pub open spec fn parse_failure_prefix(template_ref: Seq<char>) -> Seq<char> {
    "template parse failed ("@ + template_ref + "): "@
}

/// What the load of a template gives for an outcome: the template bound to
/// its source, or the message of the refusal. Where the JSON document has
/// not the shape that is asked for, the message starts as stated and goes on
/// with what the document lacks.
pub open spec fn load_gives(
    outcome: LoadOutcome,
    source: SourceModel,
    template_ref: Seq<char>,
    r: Result<TemplateModel, Seq<char>>,
) -> bool {
    match outcome {
        LoadOutcome::NoJson(message) => r == Err::<TemplateModel, Seq<char>>(
            parse_failure_prefix(template_ref) + message,
        ),
        LoadOutcome::NoDocument => r is Err && occurs_at(
            r->Err_0,
            parse_failure_prefix(template_ref),
            0,
        ),
        LoadOutcome::MissingText(message) => r == Err::<TemplateModel, Seq<char>>(message),
        LoadOutcome::NoSchema => r is Err && occurs_at(r->Err_0, "schema deserialize error: "@, 0),
        LoadOutcome::InvalidSchema(message) => r == Err::<TemplateModel, Seq<char>>(
            "schema validation error: "@ + message,
        ),
        LoadOutcome::Accepted(document) => r == Ok::<TemplateModel, Seq<char>>(
            TemplateModel { document, source },
        ),
    }
}

/// The mathematical value of the result of a load.
pub open spec fn load_result(r: Result<CatalogTemplate, String>) -> Result<TemplateModel, Seq<char>> {
    match r {
        Ok(t) => Ok(t@),
        Err(m) => Err(m@),
    }
}

/// Turns what the JSON parser made of a template text into a catalog
/// template: the document is read, brought into normal form and checked for
/// the texts it must have, and its schema is read and validated against the
/// standard registry.
pub fn validate_parsed_template(
    parsed: Result<JsonValue, String>,
    source: &CatalogSource,
    template_ref: &str,
) -> (r: Result<CatalogTemplate, String>)
    ensures
        load_gives(
            load_outcome(
                match parsed {
                    Ok(v) => Ok(v@),
                    Err(m) => Err(m@),
                },
            ),
            source@,
            template_ref@,
            load_result(r),
        ),
        r matches Ok(t) ==> is_normal(t@.document.meta.tags) && is_normal(
            t@.document.match_rules.operations,
        ) && is_normal(t@.document.match_rules.tags),
{
    let mut prefix = owned("template parse failed (");
    append(&mut prefix, template_ref);
    append(&mut prefix, "): ");
    let value = match parsed {
        Ok(value) => value,
        Err(message) => {
            let mut out = prefix;
            append(&mut out, message.as_str());
            return Err(out);
        },
    };
    let mut document = match TemplateDocument::from_json(&value) {
        Ok(document) => document,
        Err(message) => {
            let mut out = prefix;
            append(&mut out, message.as_str());
            assert(out@.subrange(0, prefix@.len() as int) =~= prefix@);
            return Err(out);
        },
    };
    let ghost read = document@;
    normalize_document(&mut document);
    if document.meta.id.as_str().unicode_len() == 0 {
        return Err(owned("meta.id is required"));
    }
    if document.meta.title.as_str().unicode_len() == 0 {
        return Err(owned("meta.title is required"));
    }
    if document.meta.version.as_str().unicode_len() == 0 {
        return Err(owned("meta.version is required"));
    }
    if document.match_rules.primary.as_str().unicode_len() == 0 {
        return Err(owned("match.primary is required"));
    }
    let schema = match UiSchema::from_json(&document.schema) {
        Ok(schema) => schema,
        Err(message) => {
            let mut out = owned("schema deserialize error: ");
            let ghost head = out@;
            append(&mut out, message.as_str());
            assert(out@.subrange(0, head.len() as int) =~= head);
            return Err(out);
        },
    };
    let registry = ComponentRegistry::new();
    match validate_schema(&schema, &registry) {
        Ok(_) => {},
        Err(e) => {
            let mut out = owned("schema validation error: ");
            let message = e.message();
            append(&mut out, message.as_str());
            return Err(out);
        },
    }
    Ok(CatalogTemplate { document, source: source.duplicate() })
}

/// Loads a template from its text: the text is parsed as JSON, and the
/// document that it writes is turned into a catalog template.
pub fn parse_and_validate_template(
    raw_template: &str,
    source: &CatalogSource,
    template_ref: &str,
) -> (r: Result<CatalogTemplate, String>)
    ensures
        load_gives(
            load_outcome(parsed_json(raw_template@)),
            source@,
            template_ref@,
            load_result(r),
        ),
        r matches Ok(t) ==> is_normal(t@.document.meta.tags) && is_normal(
            t@.document.match_rules.operations,
        ) && is_normal(t@.document.match_rules.tags),
{
    validate_parsed_template(JsonValue::parse(raw_template), source, template_ref)
}

/// The file name under which a template id is kept: the id with every
/// character that is no ASCII letter, digit, underscore, hyphen or dot
/// replaced by an underscore, or `template` where nothing but underscores
/// is left.
pub open spec fn sanitized(raw: Seq<char>) -> Seq<char> {
    let mapped = raw.map_values(|c: char| keep_or_underscore(c));
    if forall|i: int| 0 <= i < mapped.len() ==> mapped[i] == '_' {
        "template"@
    } else {
        mapped
    }
}

/// `c` where a file name may hold it, else an underscore.
pub open spec fn keep_or_underscore(c: char) -> char {
    if is_ascii_alnum(c) || c == '_' || c == '-' || c == '.' {
        c
    } else {
        '_'
    }
}

/// The file name under which a template id is kept.
pub fn sanitize_filename(raw: &str) -> (out: String)
    ensures
        out@ == sanitized(raw@),
{
    let chars = chars_of(raw);
    let ghost mapped = raw@.map_values(|c: char| keep_or_underscore(c));
    let mut out = String::new();
    let mut only_underscores = true;
    let mut i: usize = 0;
    while i < chars.len()
        invariant
            chars@ == raw@,
            mapped == raw@.map_values(|c: char| keep_or_underscore(c)),
            i <= chars@.len(),
            out@ =~= mapped.take(i as int),
            only_underscores == (forall|k: int| 0 <= k < i ==> mapped[k] == '_'),
        decreases chars@.len() - i,
    {
        let c = chars[i];
        let kept = if char_is_ascii_alnum(c) || c == '_' || c == '-' || c == '.' {
            c
        } else {
            '_'
        };
        if kept != '_' {
            only_underscores = false;
            assert(mapped[i as int] != '_');
        }
        push_char(&mut out, kept);
        i += 1;
    }
    assert(mapped.take(raw@.len() as int) =~= mapped);
    if only_underscores {
        owned("template")
    } else {
        out
    }
}

/// The JSON text of the built-in template for code reviews.
pub const BUILTIN_CODE_REVIEW_TEMPLATE: &'static str =
    "{\"meta\":{\"id\":\"builtin.code_review.default\",\"title\":\"Code Review\",\"version\":\"1.0.0\",\"tags\":[\"review\",\"code\"]},\"match\":{\"primary\":\"code_review\",\"operations\":[\"approve\",\"reject\",\"review\"],\"tags\":[\"diff\",\"security\",\"spec\"]},\"schema\":{\"schema_version\":1,\"outputs\":[{\"component_id\":\"approve_btn\",\"event_id\":\"review.approved\"},{\"component_id\":\"reject_btn\",\"event_id\":\"review.rejected\"}],\"components\":[{\"id\":\"review_intro\",\"kind\":\"markdown\",\"text\":\"### Code Review\\nRead the change, then record your decision.\"},{\"id\":\"review_diff\",\"kind\":\"diff\",\"lines\":[{\"kind\":\"context\",\"text\":\"fn main() {\"},{\"kind\":\"removed\",\"text\":\"    old_call();\"},{\"kind\":\"added\",\"text\":\"    new_call();\"},{\"kind\":\"context\",\"text\":\"}\"}]},{\"id\":\"review_form\",\"kind\":\"form\",\"title\":\"Decision\",\"fields\":[{\"id\":\"decision\",\"label\":\"Decision\",\"kind\":\"select\",\"options\":[\"approve\",\"needs-changes\",\"reject\"],\"default\":\"approve\"},{\"id\":\"notes\",\"label\":\"Notes\",\"kind\":\"text\",\"default\":\"\"},{\"id\":\"blocking\",\"label\":\"Blocking\",\"kind\":\"checkbox\",\"default\":false}]},{\"id\":\"approve_btn\",\"kind\":\"button\",\"label\":\"Approve\",\"variant\":\"primary\"},{\"id\":\"reject_btn\",\"kind\":\"button\",\"label\":\"Reject\",\"variant\":\"secondary\"}]}}";

/// The JSON text of the built-in template for plan reviews.
pub const BUILTIN_PLAN_REVIEW_TEMPLATE: &'static str =
    "{\"meta\":{\"id\":\"builtin.plan_review.default\",\"title\":\"Plan Review\",\"version\":\"1.0.0\",\"tags\":[\"plan\"]},\"match\":{\"primary\":\"plan_review\",\"operations\":[\"approve\",\"revise\"],\"tags\":[\"plan\"]},\"schema\":{\"schema_version\":1,\"outputs\":[{\"component_id\":\"accept_plan_btn\",\"event_id\":\"plan.accepted\"}],\"components\":[{\"id\":\"plan_intro\",\"kind\":\"markdown\",\"text\":\"### Plan Review\\nCheck the milestones, then accept the plan or ask for changes.\"},{\"id\":\"plan_form\",\"kind\":\"form\",\"title\":\"Feedback\",\"fields\":[{\"id\":\"priority\",\"label\":\"Priority\",\"kind\":\"number\",\"default\":1},{\"id\":\"feedback\",\"label\":\"Feedback\",\"kind\":\"text\"}]},{\"id\":\"accept_plan_btn\",\"kind\":\"button\",\"label\":\"Accept plan\",\"variant\":\"primary\"}]}}";

/// A source of templates. A provider that cannot be written to keeps the
/// two writing operations as they are given here: they refuse with the
/// read-only error, which names the provider by the id that its `source`
/// gives.
pub trait CatalogProvider {
    /// Where the provider's templates come from.
    fn source(&self) -> (r: CatalogSource);

    /// Loads the provider's templates. A document that cannot be accepted
    /// is left out and reported as a diagnostic; the others are loaded.
    fn load_templates(&self) -> (r: Result<CatalogLoadOutput, CatalogError>);

    /// Writes a template to the provider.
    fn upsert_template(&self, template: &TemplateDocument) -> (r: Result<(), CatalogError>)
        default_ensures
            exists|source: CatalogSource| #[trigger]
                call_ensures(Self::source, (self,), source) && r == Err::<(), CatalogError>(
                    CatalogError::ReadOnlyProvider { provider_id: source.provider_id },
                ),
    {
        let source = self.source();
        Err(CatalogError::ReadOnlyProvider { provider_id: source.provider_id })
    }

    /// Deletes a template from the provider.
    fn delete_template(&self, template_id: &str) -> (r: Result<(), CatalogError>)
        default_ensures
            exists|source: CatalogSource| #[trigger]
                call_ensures(Self::source, (self,), source) && r == Err::<(), CatalogError>(
                    CatalogError::ReadOnlyProvider { provider_id: source.provider_id },
                ),
    {
        let source = self.source();
        Err(CatalogError::ReadOnlyProvider { provider_id: source.provider_id })
    }
}

/// What a load over a list of texts gives for its first `n` texts, each
/// with the reference under which it is reported: every text is loaded on
/// its own; an accepted template joins the templates, a refused one leaves
/// a diagnostic with its reference and the message of the refusal.
pub open spec fn loads_as(
    entries: Seq<(Seq<char>, Seq<char>)>,
    source: SourceModel,
    templates: Seq<TemplateModel>,
    diagnostics: Seq<DiagnosticModel>,
    n: int,
) -> bool
    decreases n,
{
    if n <= 0 {
        templates.len() == 0 && diagnostics.len() == 0
    } else {
        let reference = entries[n - 1].0;
        let outcome = load_outcome(parsed_json(entries[n - 1].1));
        match outcome {
            LoadOutcome::Accepted(document) => {
                &&& templates.len() > 0
                &&& templates.last() == (TemplateModel { document, source })
                &&& loads_as(entries, source, templates.drop_last(), diagnostics, n - 1)
            },
            _ => {
                &&& diagnostics.len() > 0
                &&& diagnostics.last().provider_id == source.provider_id
                &&& diagnostics.last().template_ref == reference
                &&& load_gives(
                    outcome,
                    source,
                    reference,
                    Err::<TemplateModel, Seq<char>>(diagnostics.last().reason),
                )
                &&& loads_as(entries, source, templates, diagnostics.drop_last(), n - 1)
            },
        }
    }
}

/// The references and texts of a list of entries.
pub open spec fn entry_texts(entries: Seq<(String, String)>) -> Seq<(Seq<char>, Seq<char>)> {
    Seq::new(entries.len(), |i: int| (entries[i].0@, entries[i].1@))
}

/// Loads each text of the list on its own, in list order. Each entry is the
/// reference under which a text is reported, and the text.
pub fn load_texts(source: &CatalogSource, entries: &Vec<(String, String)>) -> (out: CatalogLoadOutput)
    ensures
        loads_as(
            entry_texts(entries@),
            source@,
            views_of(out.templates@),
            views_of(out.diagnostics@),
            entries@.len() as int,
        ),
{
    let ghost all = entry_texts(entries@);
    let mut templates: Vec<CatalogTemplate> = Vec::new();
    let mut diagnostics: Vec<CatalogLoadDiagnostic> = Vec::new();
    let mut i: usize = 0;
    assert(views_of(templates@) =~= Seq::<TemplateModel>::empty());
    assert(views_of(diagnostics@) =~= Seq::<DiagnosticModel>::empty());
    while i < entries.len()
        invariant
            i <= entries@.len(),
            all == entry_texts(entries@),
            loads_as(all, source@, views_of(templates@), views_of(diagnostics@), i as int),
        decreases entries@.len() - i,
    {
        let reference = entries[i].0.as_str();
        let ghost before_templates = views_of(templates@);
        let ghost before_diagnostics = views_of(diagnostics@);
        match parse_and_validate_template(entries[i].1.as_str(), source, reference) {
            Ok(template) => {
                templates.push(template);
                assert(views_of(templates@).drop_last() =~= before_templates);
                assert(views_of(templates@).last() == template@);
            },
            Err(reason) => {
                let diagnostic = CatalogLoadDiagnostic {
                    provider_id: source.provider_id.clone(),
                    template_ref: owned(reference),
                    reason,
                };
                diagnostics.push(diagnostic);
                assert(views_of(diagnostics@).drop_last() =~= before_diagnostics);
                assert(views_of(diagnostics@).last() == diagnostic@);
            },
        }
        i += 1;
    }
    CatalogLoadOutput { templates, diagnostics }
}

/// The reference under which the embedded template at a position is
/// reported.
pub open spec fn embedded_ref(position: nat) -> Seq<char> {
    "embedded:"@ + decimal(position)
}

/// The references and texts of a list of embedded templates.
pub open spec fn embedded_entries(texts: Seq<&'static str>) -> Seq<(Seq<char>, Seq<char>)> {
    Seq::new(texts.len(), |i: int| (embedded_ref(i as nat), texts[i]@))
}

/// The provider of the templates that the library brings along. It cannot
/// be written to.
pub struct BuiltinCatalogProvider {
    source: CatalogSource,
    embedded_templates: Vec<&'static str>,
}

impl BuiltinCatalogProvider {
    /// The built-in provider under the given provider id.
    pub fn new(provider_id: &str) -> (r: BuiltinCatalogProvider)
        ensures
            r.source_model() == (SourceModel {
                provider_id: provider_id@,
                kind: CatalogSourceKind::Builtin,
                read_only: true,
            }),
            r.embedded() == seq![BUILTIN_CODE_REVIEW_TEMPLATE, BUILTIN_PLAN_REVIEW_TEMPLATE],
    {
        let mut embedded_templates: Vec<&'static str> = Vec::new();
        embedded_templates.push(BUILTIN_CODE_REVIEW_TEMPLATE);
        embedded_templates.push(BUILTIN_PLAN_REVIEW_TEMPLATE);
        assert(embedded_templates@ =~= seq![
            BUILTIN_CODE_REVIEW_TEMPLATE,
            BUILTIN_PLAN_REVIEW_TEMPLATE,
        ]);
        BuiltinCatalogProvider {
            source: CatalogSource {
                provider_id: owned(provider_id),
                kind: CatalogSourceKind::Builtin,
                read_only: true,
            },
            embedded_templates,
        }
    }

    /// The texts of the embedded templates.
    pub closed spec fn embedded(&self) -> Seq<&'static str> {
        self.embedded_templates@
    }

    /// Where the provider's templates come from.
    pub closed spec fn source_model(&self) -> SourceModel {
        self.source@
    }

    /// Loads the embedded templates, each reported under its position.
    pub fn load_embedded(&self) -> (out: CatalogLoadOutput)
        ensures
            loads_as(
                embedded_entries(self.embedded()),
                self.source_model(),
                views_of(out.templates@),
                views_of(out.diagnostics@),
                self.embedded().len() as int,
            ),
    {
        let mut entries: Vec<(String, String)> = Vec::new();
        let mut i: usize = 0;
        while i < self.embedded_templates.len()
            invariant
                i <= self.embedded_templates@.len(),
                entries@.len() == i,
                forall|k: int|
                    0 <= k < i ==> (#[trigger] entries@[k]).0@ == embedded_ref(k as nat)
                        && entries@[k].1@ == self.embedded_templates@[k]@,
            decreases self.embedded_templates@.len() - i,
        {
            let mut reference = owned("embedded:");
            let position = format_unsigned(i as u128);
            append(&mut reference, position.as_str());
            entries.push((reference, owned(self.embedded_templates[i])));
            i += 1;
        }
        assert(entry_texts(entries@) =~= embedded_entries(self.embedded()));
        load_texts(&self.source, &entries)
    }
}

impl CatalogProvider for BuiltinCatalogProvider {
    fn source(&self) -> (r: CatalogSource)
        ensures
            r@ == self.source_model(),
    {
        self.source.duplicate()
    }

    fn load_templates(&self) -> (r: Result<CatalogLoadOutput, CatalogError>)
        ensures
            r matches Ok(out) && loads_as(
                embedded_entries(self.embedded()),
                self.source_model(),
                views_of(out.templates@),
                views_of(out.diagnostics@),
                self.embedded().len() as int,
            ),
    {
        Ok(self.load_embedded())
    }
}

impl Default for BuiltinCatalogProvider {
    /// The built-in provider under the id `builtin-default`.
    fn default() -> (r: BuiltinCatalogProvider)
        ensures
            r.source_model() == (SourceModel {
                provider_id: "builtin-default"@,
                kind: CatalogSourceKind::Builtin,
                read_only: true,
            }),
            r.embedded() == seq![BUILTIN_CODE_REVIEW_TEMPLATE, BUILTIN_PLAN_REVIEW_TEMPLATE],
    {
        BuiltinCatalogProvider::new("builtin-default")
    }
}

/// Whether a file of this name holds a template: the name ends in `.json`,
/// after at least one other character.
pub open spec fn names_template(name: Seq<char>) -> bool {
    name.len() > ".json"@.len() && occurs_at(name, ".json"@, name.len() - ".json"@.len())
}

/// Whether a file of this name holds a template.
pub fn is_template_file(name: &str) -> (r: bool)
    ensures
        r == names_template(name@),
{
    proof {
        reveal_strlit(".json");
    }
    name.unicode_len() > 5 && ends_with(name, ".json")
}

/// The names of a list that name a template, in list order.
pub open spec fn template_names(names: Seq<Seq<char>>) -> Seq<Seq<char>>
    decreases names.len(),
{
    if names.len() == 0 {
        Seq::empty()
    } else if names_template(names.last()) {
        template_names(names.drop_last()).push(names.last())
    } else {
        template_names(names.drop_last())
    }
}

/// The provider of the templates that a user keeps in a directory, one
/// file for each template. Reading and writing the files is left to the
/// caller; the provider decides under which name a template is kept and
/// what the files that were read give.
pub struct UserCatalogProvider {
    source: CatalogSource,
    root_dir: String,
}

impl UserCatalogProvider {
    /// The user provider under the given provider id, over the given
    /// directory.
    pub fn new(provider_id: &str, root_dir: &str) -> (r: UserCatalogProvider)
        ensures
            r.source_model() == (SourceModel {
                provider_id: provider_id@,
                kind: CatalogSourceKind::User,
                read_only: false,
            }),
            r.root()@ == root_dir@,
    {
        UserCatalogProvider {
            source: CatalogSource {
                provider_id: owned(provider_id),
                kind: CatalogSourceKind::User,
                read_only: false,
            },
            root_dir: owned(root_dir),
        }
    }

    /// Where the provider's templates come from.
    pub closed spec fn source_model(&self) -> SourceModel {
        self.source@
    }

    /// The directory of the provider.
    pub closed spec fn root(&self) -> String {
        self.root_dir
    }

    /// Where the provider's templates come from.
    pub fn source(&self) -> (r: CatalogSource)
        ensures
            r@ == self.source_model(),
    {
        self.source.duplicate()
    }

    /// The directory of the provider.
    pub fn root_dir(&self) -> (r: &str)
        ensures
            r@ == self.root()@,
    {
        self.root_dir.as_str()
    }

    /// The name of the file under which a template id is kept.
    pub fn template_file_name(&self, template_id: &str) -> (r: String)
        ensures
            r@ == sanitized(template_id@) + ".json"@,
    {
        let mut out = sanitize_filename(template_id);
        append(&mut out, ".json");
        out
    }

    /// Which files of the directory are loaded, and in which order: those
    /// whose names name a template, by name ascending.
    pub fn files_to_load(&self, names: Vec<String>) -> (out: Vec<String>)
        ensures
            views_of(out@) == sorted::<String>(template_names(views_of(names@))),
    {
        let mut kept: Vec<String> = Vec::new();
        let mut i: usize = 0;
        assert(views_of(names@).take(0) =~= Seq::<Seq<char>>::empty());
        assert(views_of(kept@) =~= Seq::<Seq<char>>::empty());
        while i < names.len()
            invariant
                i <= names@.len(),
                views_of(kept@) == template_names(views_of(names@).take(i as int)),
            decreases names@.len() - i,
        {
            let ghost before = views_of(kept@);
            let ghost next = views_of(names@).take(i + 1);
            assert(next.drop_last() =~= views_of(names@).take(i as int));
            assert(next.last() == names@[i as int]@);
            if is_template_file(names[i].as_str()) {
                kept.push(names[i].clone());
                assert(views_of(kept@) =~= before.push(names@[i as int]@));
            }
            i += 1;
        }
        assert(views_of(names@).take(i as int) =~= views_of(names@));
        sort(kept)
    }

    /// What the files of the directory give: each entry is the name of a
    /// file and its text, and the files are loaded in the order given.
    pub fn load_from_files(&self, files: &Vec<(String, String)>) -> (out: CatalogLoadOutput)
        ensures
            loads_as(
                entry_texts(files@),
                self.source_model(),
                views_of(out.templates@),
                views_of(out.diagnostics@),
                files@.len() as int,
            ),
    {
        load_texts(&self.source, files)
    }
}

} // verus!
