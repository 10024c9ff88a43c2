//! Schema documents: the raw component tree as it is read, the validated
//! tree that a successful validation yields, and the errors of a failed one.

use vstd::prelude::*;
use crate::json::{JsonModel, JsonValue};
use crate::text::{append, decimal, format_unsigned, owned, views};

verus! {

/// The largest number of components a schema may hold, over its whole tree.
pub const MAX_COMPONENTS: usize = 64;

/// The deepest level at which a component may stand; top-level components
/// stand at level one.
pub const MAX_DEPTH: usize = 4;

/// The kind of a component. A kind that is not one of the closed set is kept
/// with its name, so that validation can refuse it by name.
#[derive(Debug, Clone, PartialEq, Eq, Hash)]
pub enum ComponentKind {
    Markdown,
    Form,
    Code,
    Diff,
    Button,
    Unknown(String),
}

/// The mathematical value of a [`ComponentKind`].
pub enum KindModel {
    Markdown,
    Form,
    Code,
    Diff,
    Button,
    Unknown(Seq<char>),
}

impl View for ComponentKind {
    type V = KindModel;

    open spec fn view(&self) -> KindModel {
        match self {
            ComponentKind::Markdown => KindModel::Markdown,
            ComponentKind::Form => KindModel::Form,
            ComponentKind::Code => KindModel::Code,
            ComponentKind::Diff => KindModel::Diff,
            ComponentKind::Button => KindModel::Button,
            ComponentKind::Unknown(name) => KindModel::Unknown(name@),
        }
    }
}

impl KindModel {
    /// The name of the kind as documents write it.
    pub open spec fn name(self) -> Seq<char> {
        match self {
            KindModel::Markdown => "markdown"@,
            KindModel::Form => "form"@,
            KindModel::Code => "code"@,
            KindModel::Diff => "diff"@,
            KindModel::Button => "button"@,
            KindModel::Unknown(name) => name,
        }
    }

    /// Components of this kind emit interaction events, and so need an id
    /// of their own.
    pub open spec fn actionable(self) -> bool {
        self is Form || self is Button
    }
}

impl ComponentKind {
    /// The name of the kind as documents write it.
    pub fn as_str(&self) -> (r: &str)
        ensures
            r@ == self@.name(),
    {
        match self {
            ComponentKind::Markdown => "markdown",
            ComponentKind::Form => "form",
            ComponentKind::Code => "code",
            ComponentKind::Diff => "diff",
            ComponentKind::Button => "button",
            ComponentKind::Unknown(kind) => kind.as_str(),
        }
    }

    /// Whether components of this kind emit interaction events.
    pub fn is_actionable(&self) -> (r: bool)
        ensures
            r == self@.actionable(),
    {
        match self {
            ComponentKind::Form => true,
            ComponentKind::Button => true,
            _ => false,
        }
    }

    /// Whether the kind is outside the closed set.
    pub fn is_unknown(&self) -> (r: bool)
        ensures
            r == (self@ is Unknown),
    {
        match self {
            ComponentKind::Unknown(_) => true,
            _ => false,
        }
    }
}

/// The kind of a form field.
#[derive(Debug, Clone, PartialEq, Eq)]
pub enum FormFieldKind {
    Text,
    Number,
    Select,
    Checkbox,
    Unknown(String),
}

/// The mathematical value of a [`FormFieldKind`].
pub enum FieldKindModel {
    Text,
    Number,
    Select,
    Checkbox,
    Unknown(Seq<char>),
}

impl View for FormFieldKind {
    type V = FieldKindModel;

    open spec fn view(&self) -> FieldKindModel {
        match self {
            FormFieldKind::Text => FieldKindModel::Text,
            FormFieldKind::Number => FieldKindModel::Number,
            FormFieldKind::Select => FieldKindModel::Select,
            FormFieldKind::Checkbox => FieldKindModel::Checkbox,
            FormFieldKind::Unknown(name) => FieldKindModel::Unknown(name@),
        }
    }
}

impl FieldKindModel {
    /// The name of the kind as documents write it.
    pub open spec fn name(self) -> Seq<char> {
        match self {
            FieldKindModel::Text => "text"@,
            FieldKindModel::Number => "number"@,
            FieldKindModel::Select => "select"@,
            FieldKindModel::Checkbox => "checkbox"@,
            FieldKindModel::Unknown(name) => name,
        }
    }
}

impl FormFieldKind {
    /// The name of the kind as documents write it.
    pub fn as_str(&self) -> (r: &str)
        ensures
            r@ == self@.name(),
    {
        match self {
            FormFieldKind::Text => "text",
            FormFieldKind::Number => "number",
            FormFieldKind::Select => "select",
            FormFieldKind::Checkbox => "checkbox",
            FormFieldKind::Unknown(kind) => kind.as_str(),
        }
    }
}

/// How a button is styled.
#[derive(Debug, Clone, Copy, PartialEq, Eq, Structural)]
pub enum ButtonStyle {
    Primary,
    Secondary,
}

/// What a line of a diff is.
#[derive(Debug, Clone, Copy, PartialEq, Eq, Structural)]
pub enum DiffLineKind {
    Added,
    Removed,
    Context,
}

/// The event that a button emits, by the button's component id.
#[derive(Debug, Clone, PartialEq, Eq)]
pub struct OutputContract {
    pub component_id: String,
    pub event_id: String,
}

/// The mathematical value of an [`OutputContract`].
pub struct OutputModel {
    pub component_id: Seq<char>,
    pub event_id: Seq<char>,
}

impl View for OutputContract {
    type V = OutputModel;

    open spec fn view(&self) -> OutputModel {
        OutputModel { component_id: self.component_id@, event_id: self.event_id@ }
    }
}

/// One line of a diff.
#[derive(Debug, Clone, PartialEq, Eq)]
pub struct DiffLine {
    pub kind: DiffLineKind,
    pub text: String,
}

/// The mathematical value of a [`DiffLine`].
pub struct DiffLineModel {
    pub kind: DiffLineKind,
    pub text: Seq<char>,
}

impl View for DiffLine {
    type V = DiffLineModel;

    open spec fn view(&self) -> DiffLineModel {
        DiffLineModel { kind: self.kind, text: self.text@ }
    }
}

/// A form field as a document declares it.
#[derive(Debug, Clone, PartialEq, Eq)]
pub struct RawFormField {
    pub id: String,
    pub label: String,
    pub kind: FormFieldKind,
    pub options: Vec<String>,
    pub default: JsonValue,
}

/// The mathematical value of a [`RawFormField`].
pub struct RawFieldModel {
    pub id: Seq<char>,
    pub label: Seq<char>,
    pub kind: FieldKindModel,
    pub options: Seq<Seq<char>>,
    pub default: JsonModel,
}

impl View for RawFormField {
    type V = RawFieldModel;

    open spec fn view(&self) -> RawFieldModel {
        RawFieldModel {
            id: self.id@,
            label: self.label@,
            kind: self.kind@,
            options: views(self.options@),
            default: self.default@,
        }
    }
}

/// A component as a document declares it: its kind, the fields that the
/// kinds use, and its children.
#[derive(Debug, PartialEq, Eq)]
pub struct RawComponent {
    pub id: String,
    pub kind: ComponentKind,
    pub title: Option<String>,
    pub text: Option<String>,
    pub fields: Vec<RawFormField>,
    pub language: Option<String>,
    pub code: Option<String>,
    pub lines: Vec<DiffLine>,
    pub label: Option<String>,
    pub variant: Option<ButtonStyle>,
    pub children: Vec<RawComponent>,
}

/// The mathematical value of a [`RawComponent`].
pub struct RawComponentModel {
    pub id: Seq<char>,
    pub kind: KindModel,
    pub title: Option<Seq<char>>,
    pub text: Option<Seq<char>>,
    pub fields: Seq<RawFieldModel>,
    pub language: Option<Seq<char>>,
    pub code: Option<Seq<char>>,
    pub lines: Seq<DiffLineModel>,
    pub label: Option<Seq<char>>,
    pub variant: Option<ButtonStyle>,
    pub children: Seq<RawComponentModel>,
}

/// The text held by an optional string.
pub open spec fn opt_text(s: Option<String>) -> Option<Seq<char>> {
    match s {
        Some(s) => Some(s@),
        None => None,
    }
}

/// The mathematical value of `c`.
pub open spec fn raw_model(c: RawComponent) -> RawComponentModel
    decreases c,
{
    RawComponentModel {
        id: c.id@,
        kind: c.kind@,
        title: opt_text(c.title),
        text: opt_text(c.text),
        fields: Seq::new(c.fields@.len(), |i: int| c.fields@[i]@),
        language: opt_text(c.language),
        code: opt_text(c.code),
        lines: Seq::new(c.lines@.len(), |i: int| c.lines@[i]@),
        label: opt_text(c.label),
        variant: c.variant,
        children: Seq::new(
            c.children@.len(),
            |i: int|
                if 0 <= i < c.children@.len() {
                    raw_model(c.children@[i])
                } else {
                    arbitrary()
                },
        ),
    }
}

/// The mathematical values of a list of raw components.
pub open spec fn raw_models(list: Seq<RawComponent>) -> Seq<RawComponentModel> {
    Seq::new(list.len(), |i: int| raw_model(list[i]))
}

impl View for RawComponent {
    type V = RawComponentModel;

    open spec fn view(&self) -> RawComponentModel {
        raw_model(*self)
    }
}

/// A schema document as it is read.
#[derive(Debug, PartialEq, Eq)]
pub struct UiSchema {
    pub schema_version: u32,
    pub outputs: Vec<OutputContract>,
    pub components: Vec<RawComponent>,
}

/// The mathematical value of a [`UiSchema`].
pub struct SchemaModel {
    pub schema_version: u32,
    pub outputs: Seq<OutputModel>,
    pub components: Seq<RawComponentModel>,
}

impl View for UiSchema {
    type V = SchemaModel;

    open spec fn view(&self) -> SchemaModel {
        SchemaModel {
            schema_version: self.schema_version,
            outputs: Seq::new(self.outputs@.len(), |i: int| self.outputs@[i]@),
            components: raw_models(self.components@),
        }
    }
}

/// A validated text field.
#[derive(Debug, Clone, PartialEq, Eq)]
pub struct TextField {
    pub id: String,
    pub label: String,
    pub default: String,
}

/// A validated number field. The default is held as the IEEE-754 bit
/// pattern of a double.
#[derive(Debug, Clone, PartialEq, Eq)]
pub struct NumberField {
    pub id: String,
    pub label: String,
    pub default_bits: u64,
}

/// A validated select field.
#[derive(Debug, Clone, PartialEq, Eq)]
pub struct SelectField {
    pub id: String,
    pub label: String,
    pub options: Vec<String>,
    pub default: String,
}

/// A validated checkbox field.
#[derive(Debug, Clone, PartialEq, Eq)]
pub struct CheckboxField {
    pub id: String,
    pub label: String,
    pub default: bool,
}

/// A validated form field, with a default of the type that its kind calls
/// for.
#[derive(Debug, Clone, PartialEq, Eq)]
pub enum ValidatedFormField {
    Text(TextField),
    Number(NumberField),
    Select(SelectField),
    Checkbox(CheckboxField),
}

/// The mathematical value of a [`ValidatedFormField`].
pub enum FieldModel {
    Text { id: Seq<char>, label: Seq<char>, default: Seq<char> },
    Number { id: Seq<char>, label: Seq<char>, default_bits: u64 },
    Select { id: Seq<char>, label: Seq<char>, options: Seq<Seq<char>>, default: Seq<char> },
    Checkbox { id: Seq<char>, label: Seq<char>, default: bool },
}

impl View for ValidatedFormField {
    type V = FieldModel;

    open spec fn view(&self) -> FieldModel {
        match self {
            ValidatedFormField::Text(f) => FieldModel::Text {
                id: f.id@,
                label: f.label@,
                default: f.default@,
            },
            ValidatedFormField::Number(f) => FieldModel::Number {
                id: f.id@,
                label: f.label@,
                default_bits: f.default_bits,
            },
            ValidatedFormField::Select(f) => FieldModel::Select {
                id: f.id@,
                label: f.label@,
                options: views(f.options@),
                default: f.default@,
            },
            ValidatedFormField::Checkbox(f) => FieldModel::Checkbox {
                id: f.id@,
                label: f.label@,
                default: f.default,
            },
        }
    }
}

impl FieldModel {
    /// The id of the field.
    pub open spec fn id(self) -> Seq<char> {
        match self {
            FieldModel::Text { id, .. } => id,
            FieldModel::Number { id, .. } => id,
            FieldModel::Select { id, .. } => id,
            FieldModel::Checkbox { id, .. } => id,
        }
    }
}

impl ValidatedFormField {
    /// The id of the field.
    pub fn id(&self) -> (r: &str)
        ensures
            r@ == self@.id(),
    {
        match self {
            ValidatedFormField::Text(field) => field.id.as_str(),
            ValidatedFormField::Number(field) => field.id.as_str(),
            ValidatedFormField::Select(field) => field.id.as_str(),
            ValidatedFormField::Checkbox(field) => field.id.as_str(),
        }
    }
}

/// A validated markdown component.
#[derive(Debug, PartialEq, Eq)]
pub struct MarkdownComponent {
    pub id: String,
    pub text: String,
    pub children: Vec<ValidatedComponent>,
}

/// A validated form component.
#[derive(Debug, PartialEq, Eq)]
pub struct FormComponent {
    pub id: String,
    pub title: Option<String>,
    pub fields: Vec<ValidatedFormField>,
    pub children: Vec<ValidatedComponent>,
}

/// A validated code component.
#[derive(Debug, PartialEq, Eq)]
pub struct CodeComponent {
    pub id: String,
    pub language: Option<String>,
    pub code: String,
    pub children: Vec<ValidatedComponent>,
}

/// A validated diff component.
#[derive(Debug, PartialEq, Eq)]
pub struct DiffComponent {
    pub id: String,
    pub lines: Vec<DiffLine>,
    pub children: Vec<ValidatedComponent>,
}

/// A validated button component, with the event it emits.
#[derive(Debug, PartialEq, Eq)]
pub struct ButtonComponent {
    pub id: String,
    pub label: String,
    pub output_event_id: String,
    pub variant: ButtonStyle,
    pub children: Vec<ValidatedComponent>,
}

/// A validated component. Each component owns its children.
#[derive(Debug, PartialEq, Eq)]
pub enum ValidatedComponent {
    Markdown(MarkdownComponent),
    Form(FormComponent),
    Code(CodeComponent),
    Diff(DiffComponent),
    Button(ButtonComponent),
}

/// The mathematical value of a [`ValidatedComponent`].
pub enum ComponentModel {
    Markdown { id: Seq<char>, text: Seq<char>, children: Seq<ComponentModel> },
    Form {
        id: Seq<char>,
        title: Option<Seq<char>>,
        fields: Seq<FieldModel>,
        children: Seq<ComponentModel>,
    },
    Code {
        id: Seq<char>,
        language: Option<Seq<char>>,
        code: Seq<char>,
        children: Seq<ComponentModel>,
    },
    Diff { id: Seq<char>, lines: Seq<DiffLineModel>, children: Seq<ComponentModel> },
    Button {
        id: Seq<char>,
        label: Seq<char>,
        output_event_id: Seq<char>,
        variant: ButtonStyle,
        children: Seq<ComponentModel>,
    },
}

impl ComponentModel {
    /// The children of the component.
    pub open spec fn children(self) -> Seq<ComponentModel> {
        match self {
            ComponentModel::Markdown { children, .. } => children,
            ComponentModel::Form { children, .. } => children,
            ComponentModel::Code { children, .. } => children,
            ComponentModel::Diff { children, .. } => children,
            ComponentModel::Button { children, .. } => children,
        }
    }

    /// The id of the component.
    pub open spec fn id(self) -> Seq<char> {
        match self {
            ComponentModel::Markdown { id, .. } => id,
            ComponentModel::Form { id, .. } => id,
            ComponentModel::Code { id, .. } => id,
            ComponentModel::Diff { id, .. } => id,
            ComponentModel::Button { id, .. } => id,
        }
    }

    /// The component emits interaction events.
    pub open spec fn actionable(self) -> bool {
        self is Form || self is Button
    }
}

/// The children of `c` as the component holds them.
pub open spec fn children_of(c: ValidatedComponent) -> Vec<ValidatedComponent> {
    match c {
        ValidatedComponent::Markdown(m) => m.children,
        ValidatedComponent::Form(f) => f.children,
        ValidatedComponent::Code(k) => k.children,
        ValidatedComponent::Diff(d) => d.children,
        ValidatedComponent::Button(b) => b.children,
    }
}

/// The mathematical values of the items of `list`.
pub open spec fn component_models(list: Seq<ValidatedComponent>) -> Seq<ComponentModel>
    decreases list,
{
    Seq::new(
        list.len(),
        |i: int|
            if 0 <= i < list.len() {
                component_model(list[i])
            } else {
                arbitrary()
            },
    )
}

/// The mathematical value of `c`.
pub open spec fn component_model(c: ValidatedComponent) -> ComponentModel
    decreases c,
{
    match c {
        ValidatedComponent::Markdown(m) => ComponentModel::Markdown {
            id: m.id@,
            text: m.text@,
            children: component_models(m.children@),
        },
        ValidatedComponent::Form(f) => ComponentModel::Form {
            id: f.id@,
            title: opt_text(f.title),
            fields: Seq::new(f.fields@.len(), |i: int| f.fields@[i]@),
            children: component_models(f.children@),
        },
        ValidatedComponent::Code(k) => ComponentModel::Code {
            id: k.id@,
            language: opt_text(k.language),
            code: k.code@,
            children: component_models(k.children@),
        },
        ValidatedComponent::Diff(d) => ComponentModel::Diff {
            id: d.id@,
            lines: Seq::new(d.lines@.len(), |i: int| d.lines@[i]@),
            children: component_models(d.children@),
        },
        ValidatedComponent::Button(b) => ComponentModel::Button {
            id: b.id@,
            label: b.label@,
            output_event_id: b.output_event_id@,
            variant: b.variant,
            children: component_models(b.children@),
        },
    }
}

impl View for ValidatedComponent {
    type V = ComponentModel;

    open spec fn view(&self) -> ComponentModel {
        component_model(*self)
    }
}

impl ValidatedComponent {
    /// The children of the component.
    pub fn children(&self) -> (r: &Vec<ValidatedComponent>)
        ensures
            *r == children_of(*self),
            component_models(r@) == self@.children(),
    {
        match self {
            ValidatedComponent::Markdown(component) => &component.children,
            ValidatedComponent::Form(component) => &component.children,
            ValidatedComponent::Code(component) => &component.children,
            ValidatedComponent::Diff(component) => &component.children,
            ValidatedComponent::Button(component) => &component.children,
        }
    }
}

/// A schema that passed validation.
#[derive(Debug, PartialEq, Eq)]
pub struct ValidatedSchema {
    pub schema_version: u32,
    pub components: Vec<ValidatedComponent>,
}

/// The mathematical value of a [`ValidatedSchema`].
pub struct ValidatedModel {
    pub schema_version: u32,
    pub components: Seq<ComponentModel>,
}

impl View for ValidatedSchema {
    type V = ValidatedModel;

    open spec fn view(&self) -> ValidatedModel {
        ValidatedModel {
            schema_version: self.schema_version,
            components: component_models(self.components@),
        }
    }
}

/// Why a schema was refused.
#[derive(Debug, Clone, PartialEq, Eq)]
pub enum ValidationError {
    UnknownComponent { component_id: String, kind: String },
    UnsupportedFieldType { form_id: String, field_id: String, kind: String },
    MissingRequiredField { component_id: String, field: &'static str },
    TooManyComponents { max: usize, actual: usize },
    NestingTooDeep { max: usize, actual: usize, component_id: String },
    DuplicateActionableId { component_id: String },
    MissingButtonOutputContract { button_id: String },
}

/// The mathematical value of a [`ValidationError`].
pub enum ErrorModel {
    UnknownComponent { component_id: Seq<char>, kind: Seq<char> },
    UnsupportedFieldType { form_id: Seq<char>, field_id: Seq<char>, kind: Seq<char> },
    MissingRequiredField { component_id: Seq<char>, field: Seq<char> },
    TooManyComponents { max: nat, actual: nat },
    NestingTooDeep { max: nat, actual: nat, component_id: Seq<char> },
    DuplicateActionableId { component_id: Seq<char> },
    MissingButtonOutputContract { button_id: Seq<char> },
}

impl View for ValidationError {
    type V = ErrorModel;

    open spec fn view(&self) -> ErrorModel {
        match self {
            ValidationError::UnknownComponent { component_id, kind } => {
                ErrorModel::UnknownComponent { component_id: component_id@, kind: kind@ }
            },
            ValidationError::UnsupportedFieldType { form_id, field_id, kind } => {
                ErrorModel::UnsupportedFieldType {
                    form_id: form_id@,
                    field_id: field_id@,
                    kind: kind@,
                }
            },
            ValidationError::MissingRequiredField { component_id, field } => {
                ErrorModel::MissingRequiredField { component_id: component_id@, field: field@ }
            },
            ValidationError::TooManyComponents { max, actual } => ErrorModel::TooManyComponents {
                max: *max as nat,
                actual: *actual as nat,
            },
            ValidationError::NestingTooDeep { max, actual, component_id } => {
                ErrorModel::NestingTooDeep {
                    max: *max as nat,
                    actual: *actual as nat,
                    component_id: component_id@,
                }
            },
            ValidationError::DuplicateActionableId { component_id } => {
                ErrorModel::DuplicateActionableId { component_id: component_id@ }
            },
            ValidationError::MissingButtonOutputContract { button_id } => {
                ErrorModel::MissingButtonOutputContract { button_id: button_id@ }
            },
        }
    }
}

/// The key under which a form field's value is kept: the form's id, a colon,
/// the field's id.
pub open spec fn field_key_of(form_id: Seq<char>, field_id: Seq<char>) -> Seq<char> {
    form_id + ":"@ + field_id
}

/// The key under which a form field's value is kept.
pub fn field_key(form_id: &str, field_id: &str) -> (r: String)
    ensures
        r@ == field_key_of(form_id@, field_id@),
{
    let mut out = owned(form_id);
    append(&mut out, ":");
    append(&mut out, field_id);
    out
}

/// The kinds that a registry supports.
pub struct Allowed {
    pub components: Set<KindModel>,
    pub field_kinds: Set<FieldKindModel>,
}

/// The capability that decides which kinds the rendering layer supports.
pub trait SchemaRegistry {
    /// The kinds that the registry supports.
    spec fn allowed(&self) -> Allowed;

    /// Whether the registry supports components of this kind.
    fn supports_component(&self, kind: &ComponentKind) -> (r: bool)
        ensures
            r == self.allowed().components.contains(kind@),
    ;

    /// Whether the registry supports form fields of this kind.
    fn supports_field_kind(&self, kind: &FormFieldKind) -> (r: bool)
        ensures
            r == self.allowed().field_kinds.contains(kind@),
    ;
}

/// The message of a validation error.
pub open spec fn error_message(e: ErrorModel) -> Seq<char> {
    match e {
        ErrorModel::UnknownComponent { component_id, kind } => "unknown component kind `"@ + kind
            + "` for component `"@ + component_id + "`"@,
        ErrorModel::UnsupportedFieldType { form_id, field_id, kind } => {
            "unsupported field kind `"@ + kind + "` for form `"@ + form_id + "` field `"@
                + field_id + "`"@
        },
        ErrorModel::MissingRequiredField { component_id, field } => "missing required field `"@
            + field + "` for component `"@ + component_id + "`"@,
        ErrorModel::TooManyComponents { max, actual } => "component count "@ + decimal(actual)
            + " exceeds max "@ + decimal(max),
        ErrorModel::NestingTooDeep { max, actual, component_id } => "component `"@ + component_id
            + "` nesting depth "@ + decimal(actual) + " exceeds max "@ + decimal(max),
        ErrorModel::DuplicateActionableId { component_id } => {
            "duplicate actionable component id `"@ + component_id + "`"@
        },
        ErrorModel::MissingButtonOutputContract { button_id } => "button `"@ + button_id
            + "` missing output contract mapping"@,
    }
}

impl ValidationError {
    /// The message of the error.
    pub fn message(&self) -> (r: String)
        ensures
            r@ == error_message(self@),
    {
        match self {
            ValidationError::UnknownComponent { component_id, kind } => {
                let mut out = owned("unknown component kind `");
                append(&mut out, kind.as_str());
                append(&mut out, "` for component `");
                append(&mut out, component_id.as_str());
                append(&mut out, "`");
                out
            },
            ValidationError::UnsupportedFieldType { form_id, field_id, kind } => {
                let mut out = owned("unsupported field kind `");
                append(&mut out, kind.as_str());
                append(&mut out, "` for form `");
                append(&mut out, form_id.as_str());
                append(&mut out, "` field `");
                append(&mut out, field_id.as_str());
                append(&mut out, "`");
                out
            },
            ValidationError::MissingRequiredField { component_id, field } => {
                let mut out = owned("missing required field `");
                append(&mut out, field);
                append(&mut out, "` for component `");
                append(&mut out, component_id.as_str());
                append(&mut out, "`");
                out
            },
            ValidationError::TooManyComponents { max, actual } => {
                let mut out = owned("component count ");
                let actual_text = format_unsigned(*actual as u128);
                append(&mut out, actual_text.as_str());
                append(&mut out, " exceeds max ");
                let max_text = format_unsigned(*max as u128);
                append(&mut out, max_text.as_str());
                out
            },
            ValidationError::NestingTooDeep { max, actual, component_id } => {
                let mut out = owned("component `");
                append(&mut out, component_id.as_str());
                append(&mut out, "` nesting depth ");
                let actual_text = format_unsigned(*actual as u128);
                append(&mut out, actual_text.as_str());
                append(&mut out, " exceeds max ");
                let max_text = format_unsigned(*max as u128);
                append(&mut out, max_text.as_str());
                out
            },
            ValidationError::DuplicateActionableId { component_id } => {
                let mut out = owned("duplicate actionable component id `");
                append(&mut out, component_id.as_str());
                append(&mut out, "`");
                out
            },
            ValidationError::MissingButtonOutputContract { button_id } => {
                let mut out = owned("button `");
                append(&mut out, button_id.as_str());
                append(&mut out, "` missing output contract mapping");
                out
            },
        }
    }
}

} // verus!
