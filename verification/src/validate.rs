//! Validation of schema documents.
//!
//! A schema is walked depth first, left to right. The walk counts every
//! component it meets and remembers the ids of the actionable ones; the
//! first component that breaks a rule ends the walk with that rule's error.
//! For each component the rules come in this order: the component budget,
//! the nesting budget, the kind, the uniqueness of an actionable id, then
//! everything below the component, and last the fields that the
//! component's own kind requires.

use vstd::prelude::*;
use crate::catalog::list_has;
use crate::intent::copy_terms;
use crate::ranking::text_of;
use crate::schema::{
    component_model, component_models, opt_text, raw_model, raw_models, ButtonComponent,
    ButtonStyle, CheckboxField, CodeComponent, ComponentKind, ComponentModel, DiffComponent,
    DiffLine, ErrorModel, FieldKindModel, FieldModel, FormComponent, FormFieldKind, KindModel,
    MarkdownComponent, NumberField, OutputContract, OutputModel, RawComponent, RawComponentModel,
    RawFieldModel, RawFormField, SchemaModel, SchemaRegistry, Allowed, SelectField, TextField,
    UiSchema, ValidatedComponent, ValidatedFormField, ValidatedModel, ValidatedSchema,
    ValidationError, MAX_COMPONENTS, MAX_DEPTH,
};
use crate::text::{owned, same_text, views};

verus! {

/// What a walk has seen so far: how many components, and the ids of the
/// actionable ones in the order in which they were met.
pub struct WalkState {
    pub count: nat,
    pub seen: Seq<Seq<char>>,
}

/// The event that the output contracts give for a component id: that of the
/// last contract for the id.
pub open spec fn output_event(outputs: Seq<OutputModel>, id: Seq<char>) -> Option<Seq<char>>
    decreases outputs.len(),
{
    if outputs.len() == 0 {
        None
    } else if outputs.last().component_id == id {
        Some(outputs.last().event_id)
    } else {
        output_event(outputs.drop_last(), id)
    }
}

/// The error of a form field whose kind is not supported.
pub open spec fn field_error(
    allowed: Allowed,
    form_id: Seq<char>,
    field: RawFieldModel,
) -> Option<ErrorModel> {
    if field.kind is Unknown || !allowed.field_kinds.contains(field.kind) {
        Some(
            ErrorModel::UnsupportedFieldType {
                form_id,
                field_id: field.id,
                kind: field.kind.name(),
            },
        )
    } else {
        None
    }
}

/// The error of the first field of a form whose kind is not supported.
pub open spec fn fields_error(
    allowed: Allowed,
    form_id: Seq<char>,
    fields: Seq<RawFieldModel>,
) -> Option<ErrorModel>
    decreases fields.len(),
{
    if fields.len() == 0 {
        None
    } else if field_error(allowed, form_id, fields[0]).is_some() {
        field_error(allowed, form_id, fields[0])
    } else {
        fields_error(allowed, form_id, fields.drop_first())
    }
}

/// The validated form of a field of a supported kind: the declared default
/// where it has the shape that the kind calls for, else the kind's own
/// default. That is the empty text for a text field, zero for a number, the
/// first option (or the empty text) for a select, and `false` for a checkbox.
pub open spec fn convert_field(field: RawFieldModel) -> FieldModel {
    match field.kind {
        FieldKindModel::Text => FieldModel::Text {
            id: field.id,
            label: field.label,
            default: match field.default.text() {
                Some(s) => s,
                None => Seq::empty(),
            },
        },
        FieldKindModel::Number => FieldModel::Number {
            id: field.id,
            label: field.label,
            default_bits: match field.default.number() {
                Some(n) => n.float_bits,
                None => 0,
            },
        },
        FieldKindModel::Select => FieldModel::Select {
            id: field.id,
            label: field.label,
            options: field.options,
            default: match field.default.text() {
                Some(s) => s,
                None => if field.options.len() > 0 {
                    field.options[0]
                } else {
                    Seq::empty()
                },
            },
        },
        FieldKindModel::Checkbox => FieldModel::Checkbox {
            id: field.id,
            label: field.label,
            default: match field.default.boolean() {
                Some(b) => b,
                None => false,
            },
        },
        FieldKindModel::Unknown(_) => arbitrary(),
    }
}

/// The validated forms of a form's fields.
pub open spec fn convert_fields(fields: Seq<RawFieldModel>) -> Seq<FieldModel> {
    Seq::new(fields.len(), |i: int| convert_field(fields[i]))
}

/// The error of a component over the fields that its own kind requires:
/// a markdown needs its text, a code block its code, a button an output
/// contract and a label, and each field of a form a supported kind.
pub open spec fn own_error(
    allowed: Allowed,
    c: RawComponentModel,
    outputs: Seq<OutputModel>,
) -> Option<ErrorModel> {
    match c.kind {
        KindModel::Markdown => if c.text.is_none() {
            Some(ErrorModel::MissingRequiredField { component_id: c.id, field: "text"@ })
        } else {
            None
        },
        KindModel::Form => fields_error(allowed, c.id, c.fields),
        KindModel::Code => if c.code.is_none() {
            Some(ErrorModel::MissingRequiredField { component_id: c.id, field: "code"@ })
        } else {
            None
        },
        KindModel::Diff => None,
        KindModel::Button => if output_event(outputs, c.id).is_none() {
            Some(ErrorModel::MissingButtonOutputContract { button_id: c.id })
        } else if c.label.is_none() {
            Some(ErrorModel::MissingRequiredField { component_id: c.id, field: "label"@ })
        } else {
            None
        },
        KindModel::Unknown(name) => Some(
            ErrorModel::UnknownComponent { component_id: c.id, kind: name },
        ),
    }
}

/// The walk over one component at nesting level `depth`: the first error
/// met, if any, and what the walk has seen when it ends.
pub open spec fn check_component(
    allowed: Allowed,
    c: RawComponentModel,
    outputs: Seq<OutputModel>,
    depth: nat,
    st: WalkState,
) -> (Option<ErrorModel>, WalkState)
    decreases c,
{
    let counted = WalkState { count: st.count + 1, seen: st.seen };
    if counted.count > MAX_COMPONENTS {
        (
            Some(
                ErrorModel::TooManyComponents { max: MAX_COMPONENTS as nat, actual: counted.count },
            ),
            counted,
        )
    } else if depth > MAX_DEPTH {
        (
            Some(
                ErrorModel::NestingTooDeep {
                    max: MAX_DEPTH as nat,
                    actual: depth,
                    component_id: c.id,
                },
            ),
            counted,
        )
    } else if c.kind is Unknown || !allowed.components.contains(c.kind) {
        (Some(ErrorModel::UnknownComponent { component_id: c.id, kind: c.kind.name() }), counted)
    } else if c.kind.actionable() && st.seen.contains(c.id) {
        (Some(ErrorModel::DuplicateActionableId { component_id: c.id }), counted)
    } else {
        let entered = WalkState {
            count: counted.count,
            seen: if c.kind.actionable() {
                st.seen.push(c.id)
            } else {
                st.seen
            },
        };
        let below = check_list(allowed, c.children, outputs, depth + 1, entered);
        if below.0.is_some() {
            below
        } else {
            (own_error(allowed, c, outputs), below.1)
        }
    }
}

/// The walk over a list of components that stand at nesting level `depth`.
pub open spec fn check_list(
    allowed: Allowed,
    list: Seq<RawComponentModel>,
    outputs: Seq<OutputModel>,
    depth: nat,
    st: WalkState,
) -> (Option<ErrorModel>, WalkState)
    decreases list,
{
    if list.len() == 0 {
        (None, st)
    } else {
        let first = check_component(allowed, list[0], outputs, depth, st);
        if first.0.is_some() {
            first
        } else {
            check_list(allowed, list.drop_first(), outputs, depth, first.1)
        }
    }
}

/// The validated form of a component that passed the walk.
pub open spec fn convert_component(c: RawComponentModel, outputs: Seq<OutputModel>) -> ComponentModel
    decreases c,
{
    match c.kind {
        KindModel::Markdown => ComponentModel::Markdown {
            id: c.id,
            text: c.text.unwrap(),
            children: convert_list(c.children, outputs),
        },
        KindModel::Form => ComponentModel::Form {
            id: c.id,
            title: c.title,
            fields: convert_fields(c.fields),
            children: convert_list(c.children, outputs),
        },
        KindModel::Code => ComponentModel::Code {
            id: c.id,
            language: c.language,
            code: c.code.unwrap(),
            children: convert_list(c.children, outputs),
        },
        KindModel::Diff => ComponentModel::Diff {
            id: c.id,
            lines: c.lines,
            children: convert_list(c.children, outputs),
        },
        KindModel::Button => ComponentModel::Button {
            id: c.id,
            label: c.label.unwrap(),
            output_event_id: output_event(outputs, c.id).unwrap(),
            variant: match c.variant {
                Some(v) => v,
                None => ButtonStyle::Secondary,
            },
            children: convert_list(c.children, outputs),
        },
        KindModel::Unknown(_) => arbitrary(),
    }
}

/// The validated forms of a list of components that passed the walk.
pub open spec fn convert_list(list: Seq<RawComponentModel>, outputs: Seq<OutputModel>) -> Seq<
    ComponentModel,
>
    decreases list,
{
    Seq::new(
        list.len(),
        |i: int|
            if 0 <= i < list.len() {
                convert_component(list[i], outputs)
            } else {
                arbitrary()
            },
    )
}

/// The error with which a schema is refused, if it is.
pub open spec fn schema_error(allowed: Allowed, schema: SchemaModel) -> Option<
    ErrorModel,
> {
    check_list(
        allowed,
        schema.components,
        schema.outputs,
        1,
        WalkState { count: 0, seen: Seq::empty() },
    ).0
}

/// The validated form of a schema that is not refused.
pub open spec fn validated(schema: SchemaModel) -> ValidatedModel {
    ValidatedModel {
        schema_version: schema.schema_version,
        components: convert_list(schema.components, schema.outputs),
    }
}

/// The mathematical values of a list of output contracts.
pub open spec fn output_models(outputs: Seq<OutputContract>) -> Seq<OutputModel> {
    Seq::new(outputs.len(), |i: int| outputs[i]@)
}

/// The mathematical values of a list of raw form fields.
pub open spec fn field_models(fields: Seq<RawFormField>) -> Seq<RawFieldModel> {
    Seq::new(fields.len(), |i: int| fields[i]@)
}

/// The mathematical values of a list of validated form fields.
pub open spec fn field_views(fields: Seq<ValidatedFormField>) -> Seq<FieldModel> {
    Seq::new(fields.len(), |i: int| fields[i]@)
}

/// The event that the output contracts give for a component id.
fn lookup_output(outputs: &Vec<OutputContract>, id: &str) -> (r: Option<String>)
    ensures
        text_of(r) == output_event(output_models(outputs@), id@),
{
    let ghost all = output_models(outputs@);
    let mut i: usize = outputs.len();
    assert(all.take(i as int) =~= all);
    while i > 0
        invariant
            i <= outputs@.len(),
            all == output_models(outputs@),
            output_event(all, id@) == output_event(all.take(i as int), id@),
        decreases i,
    {
        i -= 1;
        proof {
            assert(all.take(i + 1).drop_last() =~= all.take(i as int));
            assert(all.take(i + 1).last() == outputs@[i as int]@);
        }
        if same_text(outputs[i].component_id.as_str(), id) {
            return Some(outputs[i].event_id.clone());
        }
    }
    None
}

/// A copy of a list of diff lines.
fn copy_lines(lines: &Vec<DiffLine>) -> (out: Vec<DiffLine>)
    ensures
        out@.len() == lines@.len(),
        forall|k: int| 0 <= k < lines@.len() ==> (#[trigger] out@[k])@ == lines@[k]@,
{
    let mut out: Vec<DiffLine> = Vec::new();
    let mut i: usize = 0;
    while i < lines.len()
        invariant
            i <= lines@.len(),
            out@.len() == i,
            forall|k: int| 0 <= k < i ==> (#[trigger] out@[k])@ == lines@[k]@,
        decreases lines@.len() - i,
    {
        out.push(DiffLine { kind: lines[i].kind, text: lines[i].text.clone() });
        i += 1;
    }
    out
}

/// A copy of an optional string.
fn copy_text(s: &Option<String>) -> (r: Option<String>)
    ensures
        opt_text(r) == opt_text(*s),
{
    match s {
        Some(s) => Some(s.clone()),
        None => None,
    }
}

/// Validates the fields of a form: every field must be of a supported kind,
/// and gets a default of the type that its kind calls for.
pub fn validate_form_fields<R: SchemaRegistry>(
    form_id: &str,
    raw_fields: &Vec<RawFormField>,
    registry: &R,
) -> (r: Result<Vec<ValidatedFormField>, ValidationError>)
    ensures
        match r {
            Ok(fields) => fields_error(registry.allowed(), form_id@, field_models(raw_fields@)).is_none()
                && field_views(fields@) == convert_fields(field_models(raw_fields@)),
            Err(e) => fields_error(registry.allowed(), form_id@, field_models(raw_fields@)) == Some(e@),
        },
{
    let ghost all = field_models(raw_fields@);
    let mut fields: Vec<ValidatedFormField> = Vec::new();
    let mut i: usize = 0;
    assert(all.skip(0) =~= all);
    while i < raw_fields.len()
        invariant
            i <= raw_fields@.len(),
            all == field_models(raw_fields@),
            fields@.len() == i,
            forall|k: int| 0 <= k < i ==> (#[trigger] fields@[k])@ == convert_field(all[k]),
            fields_error(registry.allowed(), form_id@, all) == fields_error(
                registry.allowed(),
                form_id@,
                all.skip(i as int),
            ),
        decreases raw_fields@.len() - i,
    {
        let field = &raw_fields[i];
        proof {
            assert(all.skip(i as int)[0] == field@);
            assert(all.skip(i as int).drop_first() =~= all.skip(i + 1));
        }
        let unknown = match &field.kind {
            FormFieldKind::Unknown(_) => true,
            _ => false,
        };
        if unknown || !registry.supports_field_kind(&field.kind) {
            return Err(
                ValidationError::UnsupportedFieldType {
                    form_id: owned(form_id),
                    field_id: field.id.clone(),
                    kind: owned(field.kind.as_str()),
                },
            );
        }
        let validated = match &field.kind {
            FormFieldKind::Text => ValidatedFormField::Text(
                TextField {
                    id: field.id.clone(),
                    label: field.label.clone(),
                    default: match field.default.as_text() {
                        Some(s) => owned(s),
                        None => String::new(),
                    },
                },
            ),
            FormFieldKind::Number => ValidatedFormField::Number(
                NumberField {
                    id: field.id.clone(),
                    label: field.label.clone(),
                    default_bits: match field.default.as_number() {
                        Some(n) => n.float_bits,
                        None => 0,
                    },
                },
            ),
            FormFieldKind::Select => {
                let default = match field.default.as_text() {
                    Some(s) => owned(s),
                    None => if field.options.len() > 0 {
                        field.options[0].clone()
                    } else {
                        String::new()
                    },
                };
                ValidatedFormField::Select(
                    SelectField {
                        id: field.id.clone(),
                        label: field.label.clone(),
                        options: copy_terms(&field.options),
                        default,
                    },
                )
            },
            FormFieldKind::Checkbox => ValidatedFormField::Checkbox(
                CheckboxField {
                    id: field.id.clone(),
                    label: field.label.clone(),
                    default: match field.default.as_bool() {
                        Some(b) => b,
                        None => false,
                    },
                },
            ),
            FormFieldKind::Unknown(kind) => {
                return Err(
                    ValidationError::UnsupportedFieldType {
                        form_id: owned(form_id),
                        field_id: field.id.clone(),
                        kind: kind.clone(),
                    },
                );
            },
        };
        fields.push(validated);
        i += 1;
    }
    assert(field_views(fields@) =~= convert_fields(all));
    Ok(fields)
}

/// Walks a list of components that stand at nesting level `depth`, and
/// yields their validated forms or the first error met.
fn validate_components<R: SchemaRegistry>(
    raw_components: &Vec<RawComponent>,
    registry: &R,
    outputs: &Vec<OutputContract>,
    depth: usize,
    component_counter: &mut usize,
    actionable_ids: &mut Vec<String>,
) -> (r: Result<Vec<ValidatedComponent>, ValidationError>)
    requires
        depth <= MAX_DEPTH + 1,
        *old(component_counter) <= MAX_COMPONENTS,
    ensures
        ({
            let walk = check_list(
                registry.allowed(),
                raw_models(raw_components@),
                output_models(outputs@),
                depth as nat,
                WalkState {
                    count: *old(component_counter) as nat,
                    seen: views(old(actionable_ids)@),
                },
            );
            match r {
                Ok(list) => {
                    &&& walk.0.is_none()
                    &&& component_models(list@) == convert_list(
                        raw_models(raw_components@),
                        output_models(outputs@),
                    )
                    &&& *final(component_counter) == walk.1.count
                    &&& *final(component_counter) <= MAX_COMPONENTS
                    &&& views(final(actionable_ids)@) == walk.1.seen
                },
                Err(e) => walk.0 == Some(e@),
            }
        }),
    decreases raw_components,
{
    let ghost all = raw_models(raw_components@);
    let ghost outs = output_models(outputs@);
    let ghost start = WalkState {
        count: *old(component_counter) as nat,
        seen: views(old(actionable_ids)@),
    };
    let mut validated: Vec<ValidatedComponent> = Vec::new();
    let mut i: usize = 0;
    assert(all.skip(0) =~= all);
    while i < raw_components.len()
        invariant
            i <= raw_components@.len(),
            depth <= MAX_DEPTH + 1,
            *component_counter <= MAX_COMPONENTS,
            all == raw_models(raw_components@),
            outs == output_models(outputs@),
            start == (WalkState {
                count: *old(component_counter) as nat,
                seen: views(old(actionable_ids)@),
            }),
            validated@.len() == i,
            forall|k: int|
                0 <= k < i ==> component_model(#[trigger] validated@[k]) == convert_component(
                    all[k],
                    outs,
                ),
            check_list(registry.allowed(), all, outs, depth as nat, start) == check_list(
                registry.allowed(),
                all.skip(i as int),
                outs,
                depth as nat,
                WalkState { count: *component_counter as nat, seen: views(actionable_ids@) },
            ),
        decreases raw_components@.len() - i,
    {
        let raw = &raw_components[i];
        let ghost c = raw_model(*raw);
        let ghost st = WalkState {
            count: *component_counter as nat,
            seen: views(actionable_ids@),
        };
        proof {
            reveal_with_fuel(check_list, 2);
            reveal_with_fuel(check_component, 2);
            assert(all.skip(i as int)[0] == c);
            assert(all.skip(i as int).drop_first() =~= all.skip(i + 1));
            assert(c.children =~= raw_models(raw.children@));
            assert(c.fields =~= field_models(raw.fields@));
        }
        *component_counter += 1;
        if *component_counter > MAX_COMPONENTS {
            return Err(
                ValidationError::TooManyComponents {
                    max: MAX_COMPONENTS,
                    actual: *component_counter,
                },
            );
        }
        if depth > MAX_DEPTH {
            return Err(
                ValidationError::NestingTooDeep {
                    max: MAX_DEPTH,
                    actual: depth,
                    component_id: raw.id.clone(),
                },
            );
        }
        if raw.kind.is_unknown() || !registry.supports_component(&raw.kind) {
            return Err(
                ValidationError::UnknownComponent {
                    component_id: raw.id.clone(),
                    kind: owned(raw.kind.as_str()),
                },
            );
        }
        if raw.kind.is_actionable() {
            if list_has(actionable_ids, raw.id.as_str()) {
                return Err(
                    ValidationError::DuplicateActionableId { component_id: raw.id.clone() },
                );
            }
            let ghost before = views(actionable_ids@);
            actionable_ids.push(raw.id.clone());
            assert(views(actionable_ids@) =~= before.push(raw.id@));
        }
        proof {
            assert(decreases_to!(*raw_components => raw_components[i as int]));
            assert(decreases_to!(raw_components[i as int] => raw_components[i as int].children));
        }
        let children = match validate_components(
            &raw.children,
            registry,
            outputs,
            depth + 1,
            component_counter,
            actionable_ids,
        ) {
            Ok(children) => children,
            Err(e) => {
                return Err(e);
            },
        };
        let component = match &raw.kind {
            ComponentKind::Markdown => {
                let text = match &raw.text {
                    Some(text) => text.clone(),
                    None => {
                        return Err(
                            ValidationError::MissingRequiredField {
                                component_id: raw.id.clone(),
                                field: "text",
                            },
                        );
                    },
                };
                ValidatedComponent::Markdown(MarkdownComponent { id: raw.id.clone(), text, children })
            },
            ComponentKind::Form => {
                let fields = match validate_form_fields(raw.id.as_str(), &raw.fields, registry) {
                    Ok(fields) => fields,
                    Err(e) => {
                        return Err(e);
                    },
                };
                let form = FormComponent {
                    id: raw.id.clone(),
                    title: copy_text(&raw.title),
                    fields,
                    children,
                };
                assert(component_model(ValidatedComponent::Form(form))->Form_fields
                    =~= convert_fields(c.fields));
                ValidatedComponent::Form(form)
            },
            ComponentKind::Code => {
                let code = match &raw.code {
                    Some(code) => code.clone(),
                    None => {
                        return Err(
                            ValidationError::MissingRequiredField {
                                component_id: raw.id.clone(),
                                field: "code",
                            },
                        );
                    },
                };
                ValidatedComponent::Code(
                    CodeComponent {
                        id: raw.id.clone(),
                        language: copy_text(&raw.language),
                        code,
                        children,
                    },
                )
            },
            ComponentKind::Diff => {
                let diff = DiffComponent {
                    id: raw.id.clone(),
                    lines: copy_lines(&raw.lines),
                    children,
                };
                assert(component_model(ValidatedComponent::Diff(diff))->Diff_lines =~= c.lines);
                ValidatedComponent::Diff(diff)
            },
            ComponentKind::Button => {
                let output_event_id = match lookup_output(outputs, raw.id.as_str()) {
                    Some(event) => event,
                    None => {
                        return Err(
                            ValidationError::MissingButtonOutputContract {
                                button_id: raw.id.clone(),
                            },
                        );
                    },
                };
                let label = match &raw.label {
                    Some(label) => label.clone(),
                    None => {
                        return Err(
                            ValidationError::MissingRequiredField {
                                component_id: raw.id.clone(),
                                field: "label",
                            },
                        );
                    },
                };
                ValidatedComponent::Button(
                    ButtonComponent {
                        id: raw.id.clone(),
                        label,
                        output_event_id,
                        variant: match raw.variant {
                            Some(v) => v,
                            None => ButtonStyle::Secondary,
                        },
                        children,
                    },
                )
            },
            ComponentKind::Unknown(kind) => {
                return Err(
                    ValidationError::UnknownComponent {
                        component_id: raw.id.clone(),
                        kind: kind.clone(),
                    },
                );
            },
        };
        assert(component_model(component) == convert_component(c, outs));
        validated.push(component);
        i += 1;
    }
    assert(component_models(validated@) =~= convert_list(all, outs));
    Ok(validated)
}

/// Validates a schema: on success the validated tree, else the first error
/// that the walk over the schema's components meets.
pub fn validate_schema<R: SchemaRegistry>(schema: &UiSchema, registry: &R) -> (r: Result<
    ValidatedSchema,
    ValidationError,
>)
    ensures
        match r {
            Ok(v) => schema_error(registry.allowed(), schema@).is_none() && v@ == validated(schema@)
                && well_formed(v@, schema@.outputs),
            Err(e) => schema_error(registry.allowed(), schema@) == Some(e@),
        },
{
    proof {
        if schema_error(registry.allowed(), schema@).is_none() {
            law_validated_schema_is_well_formed(registry.allowed(), schema@);
        }
    }
    let mut component_counter: usize = 0;
    let mut actionable_ids: Vec<String> = Vec::new();
    assert(views(actionable_ids@) =~= Seq::<Seq<char>>::empty());
    assert(schema@.outputs =~= output_models(schema.outputs@));
    match validate_components(
        &schema.components,
        registry,
        &schema.outputs,
        1,
        &mut component_counter,
        &mut actionable_ids,
    ) {
        Ok(components) => Ok(ValidatedSchema { schema_version: schema.schema_version, components }),
        Err(e) => Err(e),
    }
}

/// How many components a list of validated components holds, with all that
/// stands below them.
pub open spec fn node_count(list: Seq<ComponentModel>) -> nat
    decreases list,
{
    if list.len() == 0 {
        0
    } else {
        node_count_of(list[0]) + node_count(list.drop_first())
    }
}

/// How many components stand at and below `c`.
pub open spec fn node_count_of(c: ComponentModel) -> nat
    decreases c,
{
    match c {
        ComponentModel::Markdown { children, .. } => 1 + node_count(children),
        ComponentModel::Form { children, .. } => 1 + node_count(children),
        ComponentModel::Code { children, .. } => 1 + node_count(children),
        ComponentModel::Diff { children, .. } => 1 + node_count(children),
        ComponentModel::Button { children, .. } => 1 + node_count(children),
    }
}

/// The list and all that stands below it fit into `levels` nesting levels.
pub open spec fn within_levels(list: Seq<ComponentModel>, levels: nat) -> bool
    decreases list,
{
    if list.len() == 0 {
        true
    } else {
        levels > 0 && fits_levels(list[0], levels) && within_levels(list.drop_first(), levels)
    }
}

/// `c` and all that stands below it fit into `levels` nesting levels, of
/// which `c` itself takes the first.
pub open spec fn fits_levels(c: ComponentModel, levels: nat) -> bool
    decreases c,
{
    levels > 0 && match c {
        ComponentModel::Markdown { children, .. } => within_levels(children, (levels - 1) as nat),
        ComponentModel::Form { children, .. } => within_levels(children, (levels - 1) as nat),
        ComponentModel::Code { children, .. } => within_levels(children, (levels - 1) as nat),
        ComponentModel::Diff { children, .. } => within_levels(children, (levels - 1) as nat),
        ComponentModel::Button { children, .. } => within_levels(children, (levels - 1) as nat),
    }
}

/// The ids of the actionable components of a list and of all that stands
/// below it, in the order of a walk.
pub open spec fn actionable_ids(list: Seq<ComponentModel>) -> Seq<Seq<char>>
    decreases list,
{
    if list.len() == 0 {
        Seq::empty()
    } else {
        actionable_ids_of(list[0]) + actionable_ids(list.drop_first())
    }
}

/// The ids of the actionable components at and below `c`.
pub open spec fn actionable_ids_of(c: ComponentModel) -> Seq<Seq<char>>
    decreases c,
{
    match c {
        ComponentModel::Markdown { children, .. } => actionable_ids(children),
        ComponentModel::Form { id, children, .. } => seq![id] + actionable_ids(children),
        ComponentModel::Code { children, .. } => actionable_ids(children),
        ComponentModel::Diff { children, .. } => actionable_ids(children),
        ComponentModel::Button { id, children, .. } => seq![id] + actionable_ids(children),
    }
}

/// Every button of the list, and of all that stands below it, emits the
/// event that the output contracts give for its id.
pub open spec fn buttons_bound(list: Seq<ComponentModel>, outputs: Seq<OutputModel>) -> bool
    decreases list,
{
    if list.len() == 0 {
        true
    } else {
        button_bound(list[0], outputs) && buttons_bound(list.drop_first(), outputs)
    }
}

/// Every button at and below `c` emits the event that the output contracts
/// give for its id.
pub open spec fn button_bound(c: ComponentModel, outputs: Seq<OutputModel>) -> bool
    decreases c,
{
    match c {
        ComponentModel::Markdown { children, .. } => buttons_bound(children, outputs),
        ComponentModel::Form { children, .. } => buttons_bound(children, outputs),
        ComponentModel::Code { children, .. } => buttons_bound(children, outputs),
        ComponentModel::Diff { children, .. } => buttons_bound(children, outputs),
        ComponentModel::Button { id, output_event_id, children, .. } => output_event(outputs, id)
            == Some(output_event_id) && buttons_bound(children, outputs),
    }
}

/// A validated schema is well formed against the output contracts it was
/// validated with: it holds no more components than the budget allows, no
/// component stands deeper than the nesting budget allows, no two
/// actionable components share an id, and every button emits the event that
/// the contracts give for its id.
pub open spec fn well_formed(v: ValidatedModel, outputs: Seq<OutputModel>) -> bool {
    &&& node_count(v.components) <= MAX_COMPONENTS
    &&& within_levels(v.components, MAX_DEPTH as nat)
    &&& actionable_ids(v.components).no_duplicates()
    &&& buttons_bound(v.components, outputs)
}

/// What a walk without an error has seen, and what it shows of the
/// validated components.
pub proof fn lemma_walk_of_list(
    allowed: Allowed,
    list: Seq<RawComponentModel>,
    outputs: Seq<OutputModel>,
    depth: nat,
    st: WalkState,
)
    requires
        check_list(allowed, list, outputs, depth, st).0.is_none(),
        1 <= depth <= MAX_DEPTH + 1,
        st.seen.no_duplicates(),
    ensures
        ({
            let end = check_list(allowed, list, outputs, depth, st).1;
            let out = convert_list(list, outputs);
            &&& end.count == st.count + node_count(out)
            &&& end.count <= MAX_COMPONENTS || list.len() == 0
            &&& end.seen == st.seen + actionable_ids(out)
            &&& end.seen.no_duplicates()
            &&& within_levels(out, (MAX_DEPTH + 1 - depth) as nat)
            &&& buttons_bound(out, outputs)
        }),
    decreases list, 0nat,
{
    let out = convert_list(list, outputs);
    if list.len() == 0 {
        assert(out =~= Seq::<ComponentModel>::empty());
        assert(st.seen + Seq::<Seq<char>>::empty() =~= st.seen);
    } else {
        let first = check_component(allowed, list[0], outputs, depth, st);
        lemma_walk_of_component(allowed, list[0], outputs, depth, st);
        lemma_walk_of_list(allowed, list.drop_first(), outputs, depth, first.1);
        assert(out[0] == convert_component(list[0], outputs));
        assert(out.drop_first() =~= convert_list(list.drop_first(), outputs));
        let rest = convert_list(list.drop_first(), outputs);
        assert(st.seen + (actionable_ids_of(out[0]) + actionable_ids(rest)) =~= (st.seen
            + actionable_ids_of(out[0])) + actionable_ids(rest));
    }
}

/// What the walk over one component without an error has seen, and what it
/// shows of the validated component.
pub proof fn lemma_walk_of_component(
    allowed: Allowed,
    c: RawComponentModel,
    outputs: Seq<OutputModel>,
    depth: nat,
    st: WalkState,
)
    requires
        check_component(allowed, c, outputs, depth, st).0.is_none(),
        1 <= depth <= MAX_DEPTH + 1,
        st.seen.no_duplicates(),
    ensures
        ({
            let end = check_component(allowed, c, outputs, depth, st).1;
            let out = convert_component(c, outputs);
            &&& depth <= MAX_DEPTH
            &&& end.count == st.count + node_count_of(out)
            &&& end.count <= MAX_COMPONENTS
            &&& end.seen == st.seen + actionable_ids_of(out)
            &&& end.seen.no_duplicates()
            &&& fits_levels(out, (MAX_DEPTH + 1 - depth) as nat)
            &&& button_bound(out, outputs)
        }),
    decreases c, 1nat,
{
    let entered = WalkState {
        count: st.count + 1,
        seen: if c.kind.actionable() {
            st.seen.push(c.id)
        } else {
            st.seen
        },
    };
    assert(entered.seen.no_duplicates()) by {
        if c.kind.actionable() {
            assert forall|i: int, j: int|
                0 <= i < entered.seen.len() && 0 <= j < entered.seen.len() && i != j implies entered.seen[i]
                != entered.seen[j] by {
                if i < st.seen.len() && j < st.seen.len() {
                    assert(st.seen[i] != st.seen[j]);
                } else if i < st.seen.len() {
                    assert(st.seen.contains(st.seen[i]));
                } else {
                    assert(st.seen.contains(st.seen[j]));
                }
            }
        }
    }
    lemma_walk_of_list(allowed, c.children, outputs, depth + 1, entered);
    let below = check_list(allowed, c.children, outputs, depth + 1, entered);
    let kids = convert_list(c.children, outputs);
    let out = convert_component(c, outputs);
    assert(below.1.count <= MAX_COMPONENTS) by {
        if c.children.len() == 0 {
            assert(kids =~= Seq::<ComponentModel>::empty());
        }
    }
    if c.kind.actionable() {
        assert(st.seen.push(c.id) + actionable_ids(kids) =~= st.seen + (seq![c.id]
            + actionable_ids(kids)));
    }
}

/// A schema that is not refused gives a well-formed validated schema.
pub proof fn law_validated_schema_is_well_formed(
    allowed: Allowed,
    schema: SchemaModel,
)
    requires
        schema_error(allowed, schema).is_none(),
    ensures
        well_formed(validated(schema), schema.outputs),
{
    let st = WalkState { count: 0, seen: Seq::empty() };
    lemma_walk_of_list(allowed, schema.components, schema.outputs, 1, st);
    let out = convert_list(schema.components, schema.outputs);
    assert(Seq::<Seq<char>>::empty() + actionable_ids(out) =~= actionable_ids(out));
    if schema.components.len() == 0 {
        assert(out =~= Seq::<ComponentModel>::empty());
    }
}

} // verus!
