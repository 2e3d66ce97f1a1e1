//! Plain configuration value holders handed to settings-driven callers.
//!
//! These carry optional values only; interpreting them (sliders, toggles,
//! UI binding) is the business of the caller.

use vstd::prelude::*;

verus! {

/// Optional initial value, bounds and increment for one numeric
/// configuration field.
#[derive(Clone)]
pub struct FieldConfig<T> {
    pub value: Option<T>,
    pub min: Option<T>,
    pub max: Option<T>,
    pub inc: Option<T>,
}

impl<T> Default for FieldConfig<T> {
    /// A field configuration with nothing set.
    fn default() -> (r: Self)
        ensures
            r.value is None,
            r.min is None,
            r.max is None,
            r.inc is None,
    {
        Self { value: None, min: None, max: None, inc: None }
    }
}

/// Optional initial value for one configuration field.
#[derive(Clone)]
pub struct DefaultConfig<T> {
    pub value: Option<T>,
}

impl<T> Default for DefaultConfig<T> {
    /// A field configuration with no value set.
    fn default() -> (r: Self)
        ensures
            r.value is None,
    {
        Self { value: None }
    }
}

} // verus!
