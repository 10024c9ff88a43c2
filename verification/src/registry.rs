//! The registry of the kinds that the rendering layer supports.

use vstd::prelude::*;
use crate::catalog::list_has;
use crate::schema::{
    Allowed, ComponentKind, FieldKindModel, FormFieldKind, KindModel, SchemaRegistry,
};
use crate::text::{owned, views};

verus! {

/// The names of the component kinds that the standard registry supports.
pub open spec fn standard_components() -> Seq<Seq<char>> {
    seq!["markdown"@, "form"@, "code"@, "diff"@, "button"@]
}

/// The names of the field kinds that the standard registry supports.
pub open spec fn standard_field_kinds() -> Seq<Seq<char>> {
    seq!["text"@, "number"@, "select"@, "checkbox"@]
}

/// An allow-list of component kinds and of form field kinds, by name.
#[derive(Debug, Clone, PartialEq, Eq)]
pub struct ComponentRegistry {
    pub allowed_components: Vec<String>,
    pub allowed_field_kinds: Vec<String>,
}

impl ComponentRegistry {
    /// The standard registry: it supports the five component kinds and the
    /// four field kinds of the closed set.
    pub fn new() -> (r: ComponentRegistry)
        ensures
            views(r.allowed_components@) == standard_components(),
            views(r.allowed_field_kinds@) == standard_field_kinds(),
            r.allowed() == standard_allowed(),
    {
        let mut allowed_components: Vec<String> = Vec::new();
        allowed_components.push(owned("markdown"));
        allowed_components.push(owned("form"));
        allowed_components.push(owned("code"));
        allowed_components.push(owned("diff"));
        allowed_components.push(owned("button"));
        let mut allowed_field_kinds: Vec<String> = Vec::new();
        allowed_field_kinds.push(owned("text"));
        allowed_field_kinds.push(owned("number"));
        allowed_field_kinds.push(owned("select"));
        allowed_field_kinds.push(owned("checkbox"));
        assert(views(allowed_components@) =~= standard_components());
        assert(views(allowed_field_kinds@) =~= standard_field_kinds());
        ComponentRegistry { allowed_components, allowed_field_kinds }
    }
}

/// The kinds whose names stand in the given lists.
pub open spec fn allowed_by(components: Seq<Seq<char>>, field_kinds: Seq<Seq<char>>) -> Allowed {
    Allowed {
        components: Set::new(|kind: KindModel| components.contains(kind.name())),
        field_kinds: Set::new(|kind: FieldKindModel| field_kinds.contains(kind.name())),
    }
}

/// The kinds that the standard registry supports.
pub open spec fn standard_allowed() -> Allowed {
    allowed_by(standard_components(), standard_field_kinds())
}

impl SchemaRegistry for ComponentRegistry {
    open spec fn allowed(&self) -> Allowed {
        allowed_by(views(self.allowed_components@), views(self.allowed_field_kinds@))
    }

    fn supports_component(&self, kind: &ComponentKind) -> (r: bool) {
        list_has(&self.allowed_components, kind.as_str())
    }

    fn supports_field_kind(&self, kind: &FormFieldKind) -> (r: bool) {
        list_has(&self.allowed_field_kinds, kind.as_str())
    }
}

} // verus!
