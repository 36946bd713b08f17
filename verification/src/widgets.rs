//! Identifiers and parameter bindings of the declarative widget framework.

use vstd::prelude::*;

verus! {

/// Identifier of a widget.
#[derive(Debug, Clone, Hash)]
pub struct WidgetId(String);

impl WidgetId {
    /// The identifier's text.
    pub closed spec fn view(&self) -> Seq<char> {
        self.0@
    }

    /// An identifier with the given text.
    pub fn new(id: String) -> (w: Self)
        ensures
            w.view() == id@,
    {
        Self(id)
    }

    /// The identifier's text.
    pub fn as_str(&self) -> (s: &str)
        ensures
            s@ == self.view(),
    {
        self.0.as_str()
    }
}

impl PartialEq for WidgetId {
    fn eq(&self, other: &Self) -> (r: bool) {
        self.0 == other.0
    }
}

impl Eq for WidgetId {}

impl vstd::std_specs::cmp::PartialEqSpecImpl for WidgetId {
    open spec fn obeys_eq_spec() -> bool {
        true
    }

    open spec fn eq_spec(&self, other: &Self) -> bool {
        self.view() == other.view()
    }
}

/// The parameter a widget is bound to.
#[derive(Debug, Clone)]
pub struct WidgetBinding {
    parameter: String,
}

impl WidgetBinding {
    /// The bound parameter's key.
    pub closed spec fn view(&self) -> Seq<char> {
        self.parameter@
    }

    /// A binding to the parameter with key `parameter`.
    pub fn new(parameter: String) -> (b: Self)
        ensures
            b.view() == parameter@,
    {
        Self { parameter }
    }

    /// The bound parameter's key.
    pub fn parameter(&self) -> (s: &str)
        ensures
            s@ == self.view(),
    {
        self.parameter.as_str()
    }
}

/// A toggle widget's access to the boolean it edits.
pub struct ToggleParameter<'a> {
    value: &'a mut bool,
}

impl<'a> ToggleParameter<'a> {
    /// The reference to the edited boolean.
    pub closed spec fn target(&self) -> &'a mut bool {
        self.value
    }

    /// Wraps the boolean to edit.
    pub fn new(value: &'a mut bool) -> (t: Self)
        ensures
            *t.target() == *old(value),
            *final(t.target()) == *final(value),
    {
        Self { value }
    }

    /// The boolean being edited; writes through it reach the bound value.
    pub fn value(&mut self) -> (v: &mut bool)
        ensures
            *v == *old(self).target(),
            *final(self).target() == *final(v),
            *final(final(self).target()) == *final(old(self).target()),
    {
        self.value
    }
}

/// Once a `ToggleParameter` is no longer used, the boolean it was bound to holds
/// what was last written through it.
pub proof fn law_toggle_write_persists<'a>(t: ToggleParameter<'a>)
    requires
        has_resolved(t),
    ensures
        *t.target() == *final(t.target()),
{
}

} // verus!
