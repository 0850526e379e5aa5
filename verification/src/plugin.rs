use vstd::prelude::*;
use crate::context::Context;

verus! {

/// The effect a descriptor's constructor has on the context's bookkeeping
/// when the context is built. By convention a constructor records the
/// plugin once; one that skips the call leaves the bookkeeping without an
/// entry for its plugin, and no error is raised.
pub enum Constructor {
    /// Record the plugin's own name in the context, once.
    RegisterSelf,
    /// Perform module setup without recording the plugin.
    Silent,
}

/// The first value a plugin assigns to an entity that does not have one
/// yet. The value does not depend on which entity is asked about.
pub struct Initializer {
    pub default_value: i64,
}

impl Initializer {
    /// Compute the first value for one entity. The value depends neither
    /// on the context nor on which entity is asked about.
    pub fn initial_value(&self, _context: &Context, _person_id: usize) -> (value: i64)
        ensures
            value == self.default_value,
    {
        self.default_value
    }
}

/// A statically declared plugin descriptor: metadata, the first value the
/// plugin assigns to a fresh entity, and the constructor run once while a
/// context is built.
pub struct Plugin {
    pub name: &'static str,
    pub description: &'static str,
    /// Required means every entity must have a value; advisory only, the
    /// context does not enforce it.
    pub required: bool,
    /// Enabled means this property is active in a context; advisory only.
    pub enabled: bool,
    /// The first value assigned to an entity for this property.
    pub initializer: Initializer,
    pub constructor: Constructor,
}

impl Plugin {
    /// Whether this descriptor's constructor records the plugin.
    pub open spec fn registers(self) -> bool {
        self.constructor is RegisterSelf
    }

    /// The names this descriptor's constructor appends to a context.
    pub open spec fn effect(self) -> Seq<Seq<char>> {
        if self.registers() {
            seq![self.name@]
        } else {
            seq![]
        }
    }

    /// Run this descriptor's constructor against the context being built.
    pub fn init(&self, context: &mut Context)
        ensures
            final(context).names() == old(context).names() + self.effect(),
    {
        match self.constructor {
            Constructor::RegisterSelf => {
                context.register_plugin(self);
                proof {
                    assert(final(context).names() =~= old(context).names() + self.effect());
                }
            },
            Constructor::Silent => {
                proof {
                    assert(final(context).names() =~= old(context).names() + self.effect());
                }
            },
        }
    }
}

} // verus!
