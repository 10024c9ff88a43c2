//! Interaction events and the append-only log that keeps them.

use vstd::prelude::*;
use crate::ranking::text_of;
use crate::text::{append, owned, replace_char, replaced};
use crate::workspace::{CanvasBlockActionStatus, CanvasBlockActionType, CanvasBlockActor};

verus! {

/// The value of a form field. A number is held as the IEEE-754 bit pattern
/// of a double.
#[derive(Debug, Clone, PartialEq, Eq)]
pub enum UiFieldValue {
    Text { value: String },
    Number { bits: u64 },
    Select { value: String },
    Checkbox { value: bool },
}

/// The mathematical value of a [`UiFieldValue`].
pub enum FieldValueModel {
    Text(Seq<char>),
    Number(u64),
    Select(Seq<char>),
    Checkbox(bool),
}

impl View for UiFieldValue {
    type V = FieldValueModel;

    open spec fn view(&self) -> FieldValueModel {
        match self {
            UiFieldValue::Text { value } => FieldValueModel::Text(value@),
            UiFieldValue::Number { bits } => FieldValueModel::Number(*bits),
            UiFieldValue::Select { value } => FieldValueModel::Select(value@),
            UiFieldValue::Checkbox { value } => FieldValueModel::Checkbox(*value),
        }
    }
}

/// The text that shows a field value, where `number_text` is the text of
/// the double that a number holds.
pub open spec fn display_text(value: FieldValueModel, number_text: Seq<char>) -> Seq<char> {
    match value {
        FieldValueModel::Text(s) => s,
        FieldValueModel::Number(_) => number_text,
        FieldValueModel::Select(s) => s,
        FieldValueModel::Checkbox(b) => if b {
            "true"@
        } else {
            "false"@
        },
    }
}

impl UiFieldValue {
    /// The text that shows the value. The text of a number is the caller's
    /// to give, as `number_text`: it is the decimal text of the double
    /// whose bit pattern the value holds.
    pub fn display_value(&self, number_text: &str) -> (r: String)
        ensures
            r@ == display_text(self@, number_text@),
    {
        match self {
            UiFieldValue::Text { value } => value.clone(),
            UiFieldValue::Number { .. } => owned(number_text),
            UiFieldValue::Select { value } => value.clone(),
            UiFieldValue::Checkbox { value } => if *value {
                owned("true")
            } else {
                owned("false")
            },
        }
    }

    /// A copy of the value.
    pub fn duplicate(&self) -> (r: UiFieldValue)
        ensures
            r@ == self@,
    {
        match self {
            UiFieldValue::Text { value } => UiFieldValue::Text { value: value.clone() },
            UiFieldValue::Number { bits } => UiFieldValue::Number { bits: *bits },
            UiFieldValue::Select { value } => UiFieldValue::Select { value: value.clone() },
            UiFieldValue::Checkbox { value } => UiFieldValue::Checkbox { value: *value },
        }
    }
}

/// Something that happened on the canvas.
#[derive(Debug, Clone, PartialEq, Eq)]
pub enum UiEvent {
    ButtonClicked { component_id: String, output_event_id: String },
    FormFieldCommitted { component_id: String, form_id: String, field_id: String, value: UiFieldValue },
    CanvasBlockLifecycle {
        action: CanvasBlockActionType,
        actor: CanvasBlockActor,
        status: CanvasBlockActionStatus,
        block_id: Option<String>,
        message: Option<String>,
    },
}

/// The mathematical value of a [`UiEvent`].
pub enum EventModel {
    ButtonClicked { component_id: Seq<char>, output_event_id: Seq<char> },
    FormFieldCommitted {
        component_id: Seq<char>,
        form_id: Seq<char>,
        field_id: Seq<char>,
        value: FieldValueModel,
    },
    CanvasBlockLifecycle {
        action: CanvasBlockActionType,
        actor: CanvasBlockActor,
        status: CanvasBlockActionStatus,
        block_id: Option<Seq<char>>,
        message: Option<Seq<char>>,
    },
}

impl View for UiEvent {
    type V = EventModel;

    open spec fn view(&self) -> EventModel {
        match self {
            UiEvent::ButtonClicked { component_id, output_event_id } => EventModel::ButtonClicked {
                component_id: component_id@,
                output_event_id: output_event_id@,
            },
            UiEvent::FormFieldCommitted { component_id, form_id, field_id, value } => {
                EventModel::FormFieldCommitted {
                    component_id: component_id@,
                    form_id: form_id@,
                    field_id: field_id@,
                    value: value@,
                }
            },
            UiEvent::CanvasBlockLifecycle { action, actor, status, block_id, message } => {
                EventModel::CanvasBlockLifecycle {
                    action: *action,
                    actor: *actor,
                    status: *status,
                    block_id: text_of(*block_id),
                    message: text_of(*message),
                }
            },
        }
    }
}

/// The log line of an event, where `number_text` is the text of the double
/// that a committed number holds.
pub open spec fn event_line(event: EventModel, number_text: Seq<char>) -> Seq<char> {
    match event {
        EventModel::ButtonClicked { component_id, output_event_id } => {
            "button_clicked component_id="@ + component_id + " output="@ + output_event_id
        },
        EventModel::FormFieldCommitted { component_id, form_id, field_id, value } => {
            "form_field_committed component_id="@ + component_id + " form_id="@ + form_id
                + " field_id="@ + field_id + " value="@ + display_text(value, number_text)
        },
        EventModel::CanvasBlockLifecycle { action, actor, status, block_id, message } => {
            "canvas_block_lifecycle action="@ + action.name() + " actor="@ + actor.name()
                + " status="@ + status.name() + " block_id="@ + (match block_id {
                Some(id) => id,
                None => "-"@,
            }) + (match message {
                Some(m) => " message="@ + m,
                None => Seq::empty(),
            })
        },
    }
}

/// The line that the diagnostics get for a lifecycle event: action, actor,
/// status and block id, and the message, if any, on one line. An event of
/// another kind has no such line.
pub open spec fn lifecycle_line(event: EventModel) -> Option<Seq<char>> {
    match event {
        EventModel::CanvasBlockLifecycle { action, actor, status, block_id, message } => Some(
            "canvas lifecycle action="@ + action.name() + " actor="@ + actor.name() + " status="@
                + status.name() + " block_id="@ + (match block_id {
                Some(id) => id,
                None => "-"@,
            }) + (match message {
                Some(m) => " message="@ + replaced(m, '\n', ' '),
                None => Seq::empty(),
            }),
        ),
        _ => None,
    }
}

impl UiEvent {
    /// The event as one log line. `number_text` is used where the event
    /// commits a number: it is the decimal text of that number.
    pub fn to_log_line(&self, number_text: &str) -> (r: String)
        ensures
            r@ == event_line(self@, number_text@),
    {
        match self {
            UiEvent::ButtonClicked { component_id, output_event_id } => {
                let mut out = owned("button_clicked component_id=");
                append(&mut out, component_id.as_str());
                append(&mut out, " output=");
                append(&mut out, output_event_id.as_str());
                out
            },
            UiEvent::FormFieldCommitted { component_id, form_id, field_id, value } => {
                let mut out = owned("form_field_committed component_id=");
                append(&mut out, component_id.as_str());
                append(&mut out, " form_id=");
                append(&mut out, form_id.as_str());
                append(&mut out, " field_id=");
                append(&mut out, field_id.as_str());
                append(&mut out, " value=");
                let shown = value.display_value(number_text);
                append(&mut out, shown.as_str());
                out
            },
            UiEvent::CanvasBlockLifecycle { action, actor, status, block_id, message } => {
                let mut out = owned("canvas_block_lifecycle action=");
                append(&mut out, action.as_str());
                append(&mut out, " actor=");
                append(&mut out, actor.as_str());
                append(&mut out, " status=");
                append(&mut out, status.as_str());
                append(&mut out, " block_id=");
                match block_id {
                    Some(id) => {
                        append(&mut out, id.as_str());
                    },
                    None => {
                        append(&mut out, "-");
                    },
                }
                match message {
                    Some(m) => {
                        append(&mut out, " message=");
                        append(&mut out, m.as_str());
                        assert(out@ =~= event_line(self@, number_text@));
                    },
                    None => {
                        assert(out@ =~= event_line(self@, number_text@));
                    },
                }
                out
            },
        }
    }

    /// The diagnostic line of a lifecycle event; an event of another kind
    /// has none.
    pub fn lifecycle_diagnostic(&self) -> (r: Option<String>)
        ensures
            text_of(r) == lifecycle_line(self@),
    {
        match self {
            UiEvent::CanvasBlockLifecycle { action, actor, status, block_id, message } => {
                let mut out = owned("canvas lifecycle action=");
                append(&mut out, action.as_str());
                append(&mut out, " actor=");
                append(&mut out, actor.as_str());
                append(&mut out, " status=");
                append(&mut out, status.as_str());
                append(&mut out, " block_id=");
                match block_id {
                    Some(id) => {
                        append(&mut out, id.as_str());
                    },
                    None => {
                        append(&mut out, "-");
                    },
                }
                match message {
                    Some(m) => {
                        append(&mut out, " message=");
                        let flat = replace_char(m.as_str(), '\n', ' ');
                        append(&mut out, flat.as_str());
                        assert(Some(out@) =~= lifecycle_line(self@));
                    },
                    None => {
                        assert(Some(out@) =~= lifecycle_line(self@));
                    },
                }
                Some(out)
            },
            _ => None,
        }
    }

    /// A copy of the event.
    pub fn duplicate(&self) -> (r: UiEvent)
        ensures
            r@ == self@,
    {
        match self {
            UiEvent::ButtonClicked { component_id, output_event_id } => UiEvent::ButtonClicked {
                component_id: component_id.clone(),
                output_event_id: output_event_id.clone(),
            },
            UiEvent::FormFieldCommitted { component_id, form_id, field_id, value } => {
                UiEvent::FormFieldCommitted {
                    component_id: component_id.clone(),
                    form_id: form_id.clone(),
                    field_id: field_id.clone(),
                    value: value.duplicate(),
                }
            },
            UiEvent::CanvasBlockLifecycle { action, actor, status, block_id, message } => {
                UiEvent::CanvasBlockLifecycle {
                    action: *action,
                    actor: *actor,
                    status: *status,
                    block_id: match block_id {
                        Some(id) => Some(id.clone()),
                        None => None,
                    },
                    message: match message {
                        Some(m) => Some(m.clone()),
                        None => None,
                    },
                }
            },
        }
    }
}

/// The mathematical values of a list of events.
pub open spec fn event_models(events: Seq<UiEvent>) -> Seq<EventModel> {
    Seq::new(events.len(), |i: int| events[i]@)
}

/// A log of events. Entries are only ever added at the end.
#[derive(Debug, Default, Clone, PartialEq, Eq)]
pub struct UiEventLog {
    entries: Vec<UiEvent>,
}

impl View for UiEventLog {
    type V = Seq<EventModel>;

    closed spec fn view(&self) -> Seq<EventModel> {
        event_models(self.entries@)
    }
}

impl UiEventLog {
    /// An empty log.
    pub fn new() -> (r: UiEventLog)
        ensures
            r@ == Seq::<EventModel>::empty(),
    {
        let log = UiEventLog { entries: Vec::new() };
        assert(log@ =~= Seq::<EventModel>::empty());
        log
    }

    /// The entries of the log, oldest first.
    pub fn entries(&self) -> (r: &Vec<UiEvent>)
        ensures
            event_models(r@) == self@,
    {
        &self.entries
    }

    /// Adds an event at the end of the log; the entries before it stay as
    /// they are.
    pub fn push(&mut self, event: UiEvent)
        ensures
            final(self)@ == old(self)@.push(event@),
    {
        self.entries.push(event);
        assert(self@ =~= old(self)@.push(event@));
    }

    /// How many entries the log holds.
    pub fn len(&self) -> (r: usize)
        ensures
            r == self@.len(),
    {
        self.entries.len()
    }
}

} // verus!
