//! The UI runtime: one validated schema at a time, the values of its form
//! fields, and the log of the interactions it has seen.
//!
//! A runtime is empty, loaded or in error. Every load first clears the
//! schema, the error and the form values that a former load left, so a
//! runtime never holds a schema and an error at once.

use vstd::prelude::*;
use crate::decode::decode_schema;
use crate::event::{
    event_models, EventModel, FieldValueModel, UiEvent, UiEventLog, UiFieldValue,
};
use crate::form_state::FormState;
use crate::json::{parsed_json, JsonModel, JsonValue};
use crate::registry::{standard_allowed, ComponentRegistry};
use crate::schema::{
    component_model, component_models, error_message, field_key, field_key_of, Allowed,
    ButtonComponent, SchemaRegistry,
    ComponentModel, FieldModel, SchemaModel, UiSchema, ValidatedComponent, ValidatedFormField,
    ValidatedModel, ValidatedSchema,
};
use crate::text::{append, owned, same_text};
use crate::validate::{field_views, schema_error, validate_schema, validated, well_formed};

verus! {

/// Why a load failed: the document did not have the shape of a schema, or
/// it had and the schema did not pass validation.
#[derive(Debug, Clone, PartialEq, Eq)]
pub enum RuntimeError {
    Deserialize(String),
    Validation(String),
}

/// The mathematical value of a [`RuntimeError`].
pub enum RuntimeErrorModel {
    Deserialize(Seq<char>),
    Validation(Seq<char>),
}

impl View for RuntimeError {
    type V = RuntimeErrorModel;

    open spec fn view(&self) -> RuntimeErrorModel {
        match self {
            RuntimeError::Deserialize(m) => RuntimeErrorModel::Deserialize(m@),
            RuntimeError::Validation(m) => RuntimeErrorModel::Validation(m@),
        }
    }
}

/// The message of a runtime error.
pub open spec fn runtime_error_message(e: RuntimeErrorModel) -> Seq<char> {
    match e {
        RuntimeErrorModel::Deserialize(m) => "schema deserialize error: "@ + m,
        RuntimeErrorModel::Validation(m) => "schema validation error: "@ + m,
    }
}

impl RuntimeError {
    /// The message of the error.
    pub fn message(&self) -> (r: String)
        ensures
            r@ == runtime_error_message(self@),
    {
        match self {
            RuntimeError::Deserialize(m) => {
                let mut out = owned("schema deserialize error: ");
                append(&mut out, m.as_str());
                out
            },
            RuntimeError::Validation(m) => {
                let mut out = owned("schema validation error: ");
                append(&mut out, m.as_str());
                out
            },
        }
    }

    /// A copy of the error.
    pub fn duplicate(&self) -> (r: RuntimeError)
        ensures
            r@ == self@,
    {
        match self {
            RuntimeError::Deserialize(m) => RuntimeError::Deserialize(m.clone()),
            RuntimeError::Validation(m) => RuntimeError::Validation(m.clone()),
        }
    }
}

/// The value with which a field starts.
pub open spec fn default_value_of(field: FieldModel) -> FieldValueModel {
    match field {
        FieldModel::Text { default, .. } => FieldValueModel::Text(default),
        FieldModel::Number { default_bits, .. } => FieldValueModel::Number(default_bits),
        FieldModel::Select { default, .. } => FieldValueModel::Select(default),
        FieldModel::Checkbox { default, .. } => FieldValueModel::Checkbox(default),
    }
}

/// The value with which a field starts.
pub fn default_value(field: &ValidatedFormField) -> (r: UiFieldValue)
    ensures
        r@ == default_value_of(field@),
{
    match field {
        ValidatedFormField::Text(f) => UiFieldValue::Text { value: f.default.clone() },
        ValidatedFormField::Number(f) => UiFieldValue::Number { bits: f.default_bits },
        ValidatedFormField::Select(f) => UiFieldValue::Select { value: f.default.clone() },
        ValidatedFormField::Checkbox(f) => UiFieldValue::Checkbox { value: f.default },
    }
}

/// The form values `m` with the defaults of a form's fields put in, field
/// by field.
pub open spec fn with_fields(
    m: Map<Seq<char>, FieldValueModel>,
    form_id: Seq<char>,
    fields: Seq<FieldModel>,
) -> Map<Seq<char>, FieldValueModel>
    decreases fields.len(),
{
    if fields.len() == 0 {
        m
    } else {
        with_fields(m, form_id, fields.drop_last()).insert(
            field_key_of(form_id, fields.last().id()),
            default_value_of(fields.last()),
        )
    }
}

/// The form values `m` with the defaults of every form of the list put in,
/// in the order of a walk: a component before what stands below it, the
/// components of a list from left to right.
pub open spec fn seeded(m: Map<Seq<char>, FieldValueModel>, list: Seq<ComponentModel>) -> Map<
    Seq<char>,
    FieldValueModel,
>
    decreases list,
{
    if list.len() == 0 {
        m
    } else {
        seeded(seeded_by(m, list[0]), list.drop_first())
    }
}

/// The form values `m` with the defaults of `c` and of every form below it
/// put in.
pub open spec fn seeded_by(m: Map<Seq<char>, FieldValueModel>, c: ComponentModel) -> Map<
    Seq<char>,
    FieldValueModel,
>
    decreases c,
{
    match c {
        ComponentModel::Markdown { children, .. } => seeded(m, children),
        ComponentModel::Form { id, fields, children, .. } => seeded(
            with_fields(m, id, fields),
            children,
        ),
        ComponentModel::Code { children, .. } => seeded(m, children),
        ComponentModel::Diff { children, .. } => seeded(m, children),
        ComponentModel::Button { children, .. } => seeded(m, children),
    }
}

/// The id and the event of the first button with the given id that a walk
/// over the list meets. The walk does not look below a button that it
/// takes.
pub open spec fn first_button(list: Seq<ComponentModel>, button_id: Seq<char>) -> Option<
    (Seq<char>, Seq<char>),
>
    decreases list,
{
    if list.len() == 0 {
        None
    } else {
        match first_button_in(list[0], button_id) {
            Some(found) => Some(found),
            None => first_button(list.drop_first(), button_id),
        }
    }
}

/// The id and the event of the first button with the given id at or below
/// `c`.
pub open spec fn first_button_in(c: ComponentModel, button_id: Seq<char>) -> Option<
    (Seq<char>, Seq<char>),
>
    decreases c,
{
    match c {
        ComponentModel::Markdown { children, .. } => first_button(children, button_id),
        ComponentModel::Form { children, .. } => first_button(children, button_id),
        ComponentModel::Code { children, .. } => first_button(children, button_id),
        ComponentModel::Diff { children, .. } => first_button(children, button_id),
        ComponentModel::Button { id, output_event_id, children, .. } => if id == button_id {
            Some((id, output_event_id))
        } else {
            first_button(children, button_id)
        },
    }
}

/// Puts the defaults of a form's fields into the form values.
fn seed_fields(form_state: &mut FormState, form_id: &str, fields: &Vec<ValidatedFormField>)
    ensures
        final(form_state)@ == with_fields(old(form_state)@, form_id@, field_views(fields@)),
{
    let ghost all = field_views(fields@);
    let mut i: usize = 0;
    assert(all.take(0) =~= Seq::<FieldModel>::empty());
    while i < fields.len()
        invariant
            i <= fields@.len(),
            all == field_views(fields@),
            form_state@ == with_fields(old(form_state)@, form_id@, all.take(i as int)),
        decreases fields@.len() - i,
    {
        proof {
            assert(all.take(i + 1).drop_last() =~= all.take(i as int));
            assert(all.take(i + 1).last() == fields@[i as int]@);
        }
        let field = &fields[i];
        form_state.insert(field_key(form_id, field.id()), default_value(field));
        i += 1;
    }
    assert(all.take(fields@.len() as int) =~= all);
}

/// Puts the defaults of every form of the list into the form values.
fn seed_form_state(form_state: &mut FormState, components: &Vec<ValidatedComponent>)
    ensures
        final(form_state)@ == seeded(old(form_state)@, component_models(components@)),
    decreases components,
{
    let ghost all = component_models(components@);
    let mut i: usize = 0;
    assert(all.skip(0) =~= all);
    while i < components.len()
        invariant
            i <= components@.len(),
            all == component_models(components@),
            seeded(old(form_state)@, all) == seeded(form_state@, all.skip(i as int)),
        decreases components@.len() - i,
    {
        let component = &components[i];
        proof {
            reveal_with_fuel(seeded, 2);
            reveal_with_fuel(seeded_by, 2);
            assert(all.skip(i as int)[0] == component_model(*component));
            assert(all.skip(i as int).drop_first() =~= all.skip(i + 1));
            assert(decreases_to!(*components => components[i as int]));
        }
        match component {
            ValidatedComponent::Form(form) => {
                assert(component_model(*component)->Form_fields =~= field_views(form.fields@));
                seed_fields(form_state, form.id.as_str(), &form.fields);
                proof {
                    assert(decreases_to!(components[i as int] => components[i as int]->Form_0));
                    assert(decreases_to!(*form => form.children));
                }
                seed_form_state(form_state, &form.children);
            },
            ValidatedComponent::Markdown(c) => {
                proof {
                    assert(decreases_to!(components[i as int] => components[i as int]->Markdown_0));
                    assert(decreases_to!(*c => c.children));
                }
                seed_form_state(form_state, &c.children);
            },
            ValidatedComponent::Code(c) => {
                proof {
                    assert(decreases_to!(components[i as int] => components[i as int]->Code_0));
                    assert(decreases_to!(*c => c.children));
                }
                seed_form_state(form_state, &c.children);
            },
            ValidatedComponent::Diff(c) => {
                proof {
                    assert(decreases_to!(components[i as int] => components[i as int]->Diff_0));
                    assert(decreases_to!(*c => c.children));
                }
                seed_form_state(form_state, &c.children);
            },
            ValidatedComponent::Button(c) => {
                proof {
                    assert(decreases_to!(components[i as int] => components[i as int]->Button_0));
                    assert(decreases_to!(*c => c.children));
                }
                seed_form_state(form_state, &c.children);
            },
        }
        i += 1;
    }
}

/// The first button with the given id that a walk over the list meets.
fn find_button<'a>(components: &'a Vec<ValidatedComponent>, button_id: &str) -> (r: Option<
    &'a ButtonComponent,
>)
    ensures
        match r {
            Some(b) => first_button(component_models(components@), button_id@) == Some(
                (b.id@, b.output_event_id@),
            ),
            None => first_button(component_models(components@), button_id@).is_none(),
        },
    decreases components,
{
    let ghost all = component_models(components@);
    let mut i: usize = 0;
    assert(all.skip(0) =~= all);
    while i < components.len()
        invariant
            i <= components@.len(),
            all == component_models(components@),
            first_button(all, button_id@) == first_button(all.skip(i as int), button_id@),
        decreases components@.len() - i,
    {
        let component = &components[i];
        proof {
            reveal_with_fuel(first_button, 2);
            reveal_with_fuel(first_button_in, 2);
            assert(all.skip(i as int)[0] == component_model(*component));
            assert(all.skip(i as int).drop_first() =~= all.skip(i + 1));
            assert(decreases_to!(*components => components[i as int]));
        }
        let found = match component {
            ValidatedComponent::Button(button) => {
                if same_text(button.id.as_str(), button_id) {
                    return Some(button);
                }
                proof {
                    assert(decreases_to!(components[i as int] => components[i as int]->Button_0));
                    assert(decreases_to!(*button => button.children));
                }
                find_button(&button.children, button_id)
            },
            ValidatedComponent::Markdown(c) => {
                proof {
                    assert(decreases_to!(components[i as int] => components[i as int]->Markdown_0));
                    assert(decreases_to!(*c => c.children));
                }
                find_button(&c.children, button_id)
            },
            ValidatedComponent::Form(c) => {
                proof {
                    assert(decreases_to!(components[i as int] => components[i as int]->Form_0));
                    assert(decreases_to!(*c => c.children));
                }
                find_button(&c.children, button_id)
            },
            ValidatedComponent::Code(c) => {
                proof {
                    assert(decreases_to!(components[i as int] => components[i as int]->Code_0));
                    assert(decreases_to!(*c => c.children));
                }
                find_button(&c.children, button_id)
            },
            ValidatedComponent::Diff(c) => {
                proof {
                    assert(decreases_to!(components[i as int] => components[i as int]->Diff_0));
                    assert(decreases_to!(*c => c.children));
                }
                find_button(&c.children, button_id)
            },
        };
        if found.is_some() {
            return found;
        }
        i += 1;
    }
    None
}

/// One runtime: the schema it holds, the error of a failed load, the values
/// of its form fields and the log of its events.
pub struct UiRuntime {
    registry: ComponentRegistry,
    validated_schema: Option<ValidatedSchema>,
    runtime_error: Option<RuntimeError>,
    form_state: FormState,
    event_log: UiEventLog,
}

/// The mathematical value of a [`UiRuntime`].
pub struct RuntimeModel {
    /// The kinds that the runtime's registry supports.
    pub allowed: Allowed,
    pub schema: Option<ValidatedModel>,
    pub error: Option<RuntimeErrorModel>,
    pub form_state: Map<Seq<char>, FieldValueModel>,
    pub events: Seq<EventModel>,
}

/// The state of a runtime after the load of a schema: loaded with the
/// validated schema and the defaults of its forms, or in error with the
/// message of the validation error and without form values. The log of
/// events is as it was.
pub open spec fn loaded(before: RuntimeModel, schema: SchemaModel) -> RuntimeModel {
    match schema_error(before.allowed, schema) {
        None => RuntimeModel {
            allowed: before.allowed,
            schema: Some(validated(schema)),
            error: None,
            form_state: seeded(Map::empty(), validated(schema).components),
            events: before.events,
        },
        Some(e) => RuntimeModel {
            allowed: before.allowed,
            schema: None,
            error: Some(RuntimeErrorModel::Validation(error_message(e))),
            form_state: Map::empty(),
            events: before.events,
        },
    }
}

/// The state of a runtime after a load that failed before validation.
pub open spec fn failed(before: RuntimeModel, error: RuntimeErrorModel) -> RuntimeModel {
    RuntimeModel {
        allowed: before.allowed,
        schema: None,
        error: Some(error),
        form_state: Map::empty(),
        events: before.events,
    }
}

/// The state of a runtime after its form values were replaced.
pub open spec fn restored(
    before: RuntimeModel,
    state: Map<Seq<char>, FieldValueModel>,
) -> RuntimeModel {
    RuntimeModel { form_state: state, ..before }
}

/// The state of a runtime after a click on the button with the given id:
/// the click is logged where the schema holds such a button, else nothing
/// changes.
pub open spec fn clicked(before: RuntimeModel, button_id: Seq<char>) -> RuntimeModel {
    match before.schema {
        Some(schema) => match first_button(schema.components, button_id) {
            Some((id, event)) => RuntimeModel {
                events: before.events.push(
                    EventModel::ButtonClicked { component_id: id, output_event_id: event },
                ),
                ..before
            },
            None => before,
        },
        None => before,
    }
}

/// The state of a runtime after a value was committed to a form field: the
/// value is kept under the field's key, and the commit is logged.
pub open spec fn committed(
    before: RuntimeModel,
    form_id: Seq<char>,
    field_id: Seq<char>,
    value: FieldValueModel,
) -> RuntimeModel {
    RuntimeModel {
        form_state: before.form_state.insert(field_key_of(form_id, field_id), value),
        events: before.events.push(
            EventModel::FormFieldCommitted { component_id: form_id, form_id, field_id, value },
        ),
        ..before
    }
}

impl View for UiRuntime {
    type V = RuntimeModel;

    closed spec fn view(&self) -> RuntimeModel {
        RuntimeModel {
            allowed: self.registry.allowed(),
            schema: match self.validated_schema {
                Some(s) => Some(s@),
                None => None,
            },
            error: match self.runtime_error {
                Some(e) => Some(e@),
                None => None,
            },
            form_state: self.form_state@,
            events: self.event_log@,
        }
    }
}

impl UiRuntime {
    /// An empty runtime with the standard registry.
    pub fn new() -> (r: UiRuntime)
        ensures
            r@.schema.is_none(),
            r@.error.is_none(),
            r@.form_state == Map::<Seq<char>, FieldValueModel>::empty(),
            r@.events == Seq::<EventModel>::empty(),
            r@.allowed == standard_allowed(),
    {
        UiRuntime {
            registry: ComponentRegistry::new(),
            validated_schema: None,
            runtime_error: None,
            form_state: FormState::new(),
            event_log: UiEventLog::new(),
        }
    }

    /// Loads a schema: validates it, and on success seeds the form values
    /// with the default of every field of every form. Whatever a former
    /// load left is cleared first.
    pub fn load_schema(&mut self, schema: UiSchema) -> (r: Result<(), RuntimeError>)
        ensures
            final(self)@ == loaded(old(self)@, schema@),
            match r {
                Ok(()) => final(self)@.error.is_none() && final(self)@.schema.is_some(),
                Err(e) => final(self)@.error == Some(e@) && final(self)@.schema.is_none(),
            },
            final(self)@.schema matches Some(v) ==> well_formed(v, schema@.outputs),
    {
        self.validated_schema = None;
        self.runtime_error = None;
        self.form_state = FormState::new();
        match validate_schema(&schema, &self.registry) {
            Ok(validated) => {
                seed_form_state(&mut self.form_state, &validated.components);
                self.validated_schema = Some(validated);
                Ok(())
            },
            Err(err) => {
                let error = RuntimeError::Validation(err.message());
                self.runtime_error = Some(error.duplicate());
                Err(error)
            },
        }
    }

    /// Puts the runtime in error for a document that did not have the shape
    /// of a schema. Whatever a former load left is cleared.
    pub fn fail_load(&mut self, message: String) -> (r: RuntimeError)
        ensures
            r@ == RuntimeErrorModel::Deserialize(message@),
            final(self)@ == failed(old(self)@, r@),
    {
        self.validated_schema = None;
        self.form_state = FormState::new();
        let error = RuntimeError::Deserialize(message);
        self.runtime_error = Some(error.duplicate());
        error
    }

    /// Whether the runtime holds a schema.
    pub fn has_schema(&self) -> (r: bool)
        ensures
            r == self@.schema.is_some(),
    {
        self.validated_schema.is_some()
    }

    /// The schema that the runtime holds.
    pub fn schema(&self) -> (r: Option<&ValidatedSchema>)
        ensures
            match r {
                Some(s) => self@.schema == Some(s@),
                None => self@.schema.is_none(),
            },
    {
        self.validated_schema.as_ref()
    }

    /// The error of the last load, if it failed.
    pub fn runtime_error(&self) -> (r: Option<&RuntimeError>)
        ensures
            match r {
                Some(e) => self@.error == Some(e@),
                None => self@.error.is_none(),
            },
    {
        self.runtime_error.as_ref()
    }

    /// The log of the runtime's events, oldest first.
    pub fn event_log(&self) -> (r: &Vec<UiEvent>)
        ensures
            event_models(r@) == self@.events,
    {
        self.event_log.entries()
    }

    /// The form values of the runtime.
    pub fn form_state(&self) -> (r: &FormState)
        ensures
            r@ == self@.form_state,
    {
        &self.form_state
    }

    /// A copy of the form values, to be kept outside the runtime.
    pub fn form_state_snapshot(&self) -> (r: FormState)
        ensures
            r@ == self@.form_state,
    {
        self.form_state.duplicate()
    }

    /// Replaces the form values by values that were kept outside the
    /// runtime. Schema, error and log stay as they are.
    pub fn restore_form_state(&mut self, state: FormState)
        ensures
            final(self)@ == restored(old(self)@, state@),
    {
        self.form_state = state;
    }

    /// Adds an event at the end of the log.
    pub fn emit(&mut self, event: UiEvent)
        ensures
            final(self)@ == (RuntimeModel { events: old(self)@.events.push(event@), ..old(self)@ }),
    {
        self.event_log.push(event);
    }

    /// Keeps a value under a form field's key, without logging anything.
    pub fn set_field(&mut self, form_id: &str, field_id: &str, value: UiFieldValue)
        ensures
            final(self)@ == restored(
                old(self)@,
                old(self)@.form_state.insert(field_key_of(form_id@, field_id@), value@),
            ),
    {
        self.form_state.insert(field_key(form_id, field_id), value);
    }

    /// Logs a click on the button with the given id, where the schema holds
    /// such a button.
    pub fn simulate_button_click(&mut self, button_id: &str)
        ensures
            final(self)@ == clicked(old(self)@, button_id@),
    {
        let event = match &self.validated_schema {
            Some(schema) => match find_button(&schema.components, button_id) {
                Some(button) => Some(
                    UiEvent::ButtonClicked {
                        component_id: button.id.clone(),
                        output_event_id: button.output_event_id.clone(),
                    },
                ),
                None => None,
            },
            None => None,
        };
        match event {
            Some(event) => {
                self.event_log.push(event);
            },
            None => {},
        }
    }

    /// Commits a value to a form field: the value is kept under the
    /// field's key, and the commit is logged.
    pub fn simulate_form_commit(&mut self, form_id: &str, field_id: &str, value: UiFieldValue)
        ensures
            final(self)@ == committed(old(self)@, form_id@, field_id@, value@),
    {
        self.form_state.insert(field_key(form_id, field_id), value.duplicate());
        self.event_log.push(
            UiEvent::FormFieldCommitted {
                component_id: owned(form_id),
                form_id: owned(form_id),
                field_id: owned(field_id),
                value,
            },
        );
    }
}

/// The state of a runtime after the load of a JSON document: that of the
/// load of the schema that the document writes, or an error state where
/// the document writes no schema.
pub open spec fn loaded_value(before: RuntimeModel, document: JsonModel, after: RuntimeModel) -> bool {
    match decode_schema(document) {
        Some(schema) => after == loaded(before, schema),
        None => after.error matches Some(RuntimeErrorModel::Deserialize(_)) && after == failed(
            before,
            after.error.unwrap(),
        ),
    }
}

impl UiRuntime {
    /// Loads the schema that a JSON document writes. A document that
    /// writes no schema puts the runtime in error, with a message that
    /// tells what the document lacks.
    pub fn load_schema_value(&mut self, raw_schema: &JsonValue) -> (r: Result<(), RuntimeError>)
        ensures
            loaded_value(old(self)@, raw_schema@, final(self)@),
            match r {
                Ok(()) => final(self)@.error.is_none() && final(self)@.schema.is_some(),
                Err(e) => final(self)@.error == Some(e@) && final(self)@.schema.is_none(),
            },
    {
        match UiSchema::from_json(raw_schema) {
            Ok(schema) => self.load_schema(schema),
            Err(message) => Err(self.fail_load(message)),
        }
    }

    /// Loads the schema that a JSON text writes. A text that is no JSON
    /// puts the runtime in error with the parser's message.
    pub fn load_schema_json(&mut self, raw_schema: &str) -> (r: Result<(), RuntimeError>)
        ensures
            match parsed_json(raw_schema@) {
                Ok(document) => loaded_value(old(self)@, document, final(self)@),
                Err(message) => final(self)@ == failed(
                    old(self)@,
                    RuntimeErrorModel::Deserialize(message),
                ),
            },
            match r {
                Ok(()) => final(self)@.error.is_none() && final(self)@.schema.is_some(),
                Err(e) => final(self)@.error == Some(e@) && final(self)@.schema.is_none(),
            },
    {
        match JsonValue::parse(raw_schema) {
            Ok(document) => self.load_schema_value(&document),
            Err(message) => Err(self.fail_load(message)),
        }
    }
}

/// Form values that were taken from a runtime and put back leave the
/// runtime as it was.
pub proof fn law_snapshot_restore_round_trip(runtime: RuntimeModel)
    ensures
        restored(runtime, runtime.form_state) == runtime,
{
}

/// Form values that are put into a runtime are the values that a snapshot
/// taken right after gives back, and nothing else of the runtime changes.
pub proof fn law_restore_then_snapshot(
    runtime: RuntimeModel,
    state: Map<Seq<char>, FieldValueModel>,
)
    ensures
        restored(runtime, state).form_state == state,
        restored(runtime, state).schema == runtime.schema,
        restored(runtime, state).error == runtime.error,
        restored(runtime, state).events == runtime.events,
{
}

/// A load leaves the runtime either loaded or in error, never both, and
/// keeps the log of events.
pub proof fn law_load_is_loaded_or_error(before: RuntimeModel, schema: SchemaModel)
    ensures
        loaded(before, schema).schema.is_some() != loaded(before, schema).error.is_some(),
        loaded(before, schema).events == before.events,
{
}

/// No step of a runtime drops an event from its log or changes one: the
/// log before a step is the start of the log after it.
pub proof fn law_events_are_only_appended(
    before: RuntimeModel,
    schema: SchemaModel,
    error: RuntimeErrorModel,
    state: Map<Seq<char>, FieldValueModel>,
    button_id: Seq<char>,
    form_id: Seq<char>,
    field_id: Seq<char>,
    value: FieldValueModel,
)
    ensures
        before.events.is_prefix_of(loaded(before, schema).events),
        before.events.is_prefix_of(failed(before, error).events),
        before.events.is_prefix_of(restored(before, state).events),
        before.events.is_prefix_of(clicked(before, button_id).events),
        before.events.is_prefix_of(committed(before, form_id, field_id, value).events),
{
}

} // verus!
