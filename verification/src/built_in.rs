use vstd::prelude::*;
use crate::plugin::Constructor;
use crate::plugin::Initializer;
use crate::plugin::Plugin;

verus! {

/// The descriptor of the built-in age property: a required, enabled
/// plugin whose constructor registers it and whose default age is 42.
pub fn age_plugin() -> (plugin: Plugin)
    ensures
        plugin.name@ == "Age"@,
        plugin.description@ == "Age of the person"@,
        plugin.required,
        plugin.enabled,
        plugin.initializer.default_value == 42,
        plugin.registers(),
{
    Plugin {
        name: "Age",
        description: "Age of the person",
        required: true,
        enabled: true,
        initializer: Initializer { default_value: 42 },
        constructor: Constructor::RegisterSelf,
    }
}

} // verus!
