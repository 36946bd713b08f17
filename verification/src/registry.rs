//! What every native plugin offers the host about its parameters.

use vstd::prelude::*;

use crate::parameters::{
    accepts, definition_with_id, refusal, ParameterId, ParameterLayout, ParameterSet, ParameterValue,
    PluginParameterError,
};

verus! {

/// A plugin whose parameters the host reads and sets.
///
/// Implementations keep their parameter values in a `ParameterSet` and hand it out
/// by `parameters` and `parameters_mut`; `on_parameter_changed` lets a plugin react
/// to (or refuse) a change before it is stored, as `accepts_change` and
/// `change_error` describe.
pub trait NativePlugin {
    /// The parameter set the plugin holds.
    spec fn parameter_state(&self) -> ParameterSet;

    /// Whether the plugin, in its present state, lets parameter `id` take `value`
    /// (what `on_parameter_changed` answers).
    spec fn accepts_change(&self, id: &ParameterId, value: &ParameterValue) -> bool;

    /// The error with which the plugin, in its present state, refuses to let `id`
    /// take `value`.
    spec fn change_error(&self, id: &ParameterId, value: &ParameterValue) -> PluginParameterError;

    /// The plugin's parameter set.
    fn parameters(&self) -> (r: &ParameterSet)
        ensures
            *r == self.parameter_state(),
    ;

    /// The plugin's parameter set, for changing it: what is written through the
    /// reference is what the plugin then holds.
    fn parameters_mut(&mut self) -> (r: &mut ParameterSet)
        ensures
            *r == old(self).parameter_state(),
            final(self).parameter_state() == *final(r),
    ;

    /// The layout of the plugin's parameters.
    fn parameter_layout(&self) -> (r: &ParameterLayout)
        ensures
            *r == self.parameter_state().layout_spec(),
    {
        self.parameters().layout()
    }

    /// The current value of parameter `id`, or `UnknownParameter` when it has none.
    fn parameter_value(&self, id: &ParameterId) -> (r: Result<ParameterValue, PluginParameterError>)
        ensures
            match r {
                Ok(v) => self.parameter_state()@.contains_key(id@) && self.parameter_state()@[id@] == v,
                Err(e) => !self.parameter_state()@.contains_key(id@) && (e matches PluginParameterError::UnknownParameter(
                    p,
                ) && p@ == id@),
            },
    {
        match self.parameters().get(id) {
            Some(v) => Ok(*v),
            None => Err(PluginParameterError::UnknownParameter(id.clone())),
        }
    }

    /// Sets parameter `id` to `value`. A parameter the layout does not define, or a
    /// value its first definition does not accept, is refused (with the error of
    /// `ParameterSet::set`) before anything changes, and the plugin is not asked.
    /// Otherwise the plugin is asked by `on_parameter_changed`: when it refuses, its
    /// error is passed on and the parameters stay as they were; when it agrees, the
    /// value is stored and the other parameters keep their values.
    fn set_parameter(&mut self, id: &ParameterId, value: ParameterValue) -> (r: Result<(), PluginParameterError>)
        ensures
            match definition_with_id(old(self).parameter_state().layout_spec().definitions(), id@) {
                None => (r matches Err(PluginParameterError::UnknownParameter(e)) && e@ == id@) && final(self).parameter_state()
                    == old(self).parameter_state(),
                Some(d) => if accepts(d.kind, value) {
                    &&& (r is Ok) <==> old(self).accepts_change(id, &value)
                    &&& r is Ok ==> final(self).parameter_state()@ == old(self).parameter_state()@.insert(id@, value)
                    &&& r matches Err(e) ==> e == old(self).change_error(id, &value)
                        && final(self).parameter_state() == old(self).parameter_state()
                } else {
                    (r matches Err(e) && refusal(e, d.kind, id@, value)) && final(self).parameter_state() == old(self).parameter_state()
                },
            },
    {
        match self.parameters().layout().find(id) {
            Some(definition) => {
                match definition.kind.validate(id, &value) {
                    Ok(()) => {},
                    Err(e) => {
                        return Err(e);
                    },
                }
            },
            None => {
                return Err(PluginParameterError::UnknownParameter(id.clone()));
            },
        }
        match self.on_parameter_changed(id, &value) {
            Ok(()) => {},
            Err(e) => {
                return Err(e);
            },
        }
        let parameters = self.parameters_mut();
        match parameters.set(id, value) {
            Ok(()) => Ok(()),
            Err(e) => Err(e),
        }
    }

    /// Called before a validated value is stored: answers whether the plugin lets
    /// `id` take `value` (an error stops the change); the parameter set is left
    /// as it is.
    fn on_parameter_changed(&mut self, id: &ParameterId, value: &ParameterValue) -> (r: Result<(), PluginParameterError>)
        ensures
            (r is Ok) <==> old(self).accepts_change(id, value),
            r matches Err(e) ==> e == old(self).change_error(id, value),
            final(self).parameter_state() == old(self).parameter_state(),
    ;
}

} // verus!
