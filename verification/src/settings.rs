//! Settings manager.

use vstd::prelude::*;
use crate::errors::SettingError;
use crate::value::Value;

verus! {

/// The settings of an application: values that a configuration sets by
/// name.
pub trait Settings {
    /// The settings that can be asked for, one variant each.
    type VariantGet;

    /// The settings that can be set, one variant each, with the new value.
    type VariantSet: Clone;

    /// The value of the setting of a name, if there is such a setting.
    fn get(&self, name: &str) -> Option<Value>;

    /// Sets a setting to the value that the variant holds.
    fn set_value(&mut self, value: Self::VariantSet);

    /// The variant that sets the setting of a name to a value: an error if
    /// there is no such setting, if the value has another type than the
    /// setting, or if it is none of the setting's choices.
    fn to_variant(name: &str, value: Value) -> Result<Self::VariantSet, SettingError>;
}

} // verus!
