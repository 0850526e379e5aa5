use vstd::prelude::*;
use crate::plugin::Plugin;

verus! {

/// The names a registry's constructors record, in registry order: each
/// descriptor contributes its own name if it registers, nothing otherwise.
pub open spec fn registered_names(registry: Seq<Plugin>) -> Seq<Seq<char>>
    decreases registry.len(),
{
    if registry.len() == 0 {
        seq![]
    } else {
        registered_names(registry.drop_last()) + registry.last().effect()
    }
}

/// A per-run context. Each plugin's constructor may append its name to
/// `plugins` while the context is being built; afterwards the sequence
/// lists, in construction order, exactly the plugins that registered.
pub struct Context {
    pub plugins: Vec<&'static str>,
}

impl Context {
    /// The recorded plugin names, as character sequences.
    pub open spec fn names(self) -> Seq<Seq<char>> {
        self.plugins@.map_values(|s: &'static str| s@)
    }

    /// Build a context from a registry of descriptors: run every
    /// descriptor's constructor, once each, in registry order. The result
    /// records exactly the names of the descriptors that registered.
    pub fn new(registry: &Vec<Plugin>) -> (context: Context)
        ensures
            context.names() == registered_names(registry@),
    {
        let mut context = Context::default();
        let mut i: usize = 0;
        while i < registry.len()
            invariant
                i <= registry.len(),
                context.names() == registered_names(registry@.take(i as int)),
            decreases registry.len() - i,
        {
            registry[i].init(&mut context);
            proof {
                assert(registry@.take(i + 1).drop_last() =~= registry@.take(i as int));
                assert(registry@.take(i + 1).last() == registry@[i as int]);
            }
            i += 1;
        }
        proof {
            assert(registry@.take(registry@.len() as int) =~= registry@);
        }
        context
    }

    /// Append the descriptor's name to the record of registered plugins.
    /// Registering twice yields two entries: duplicates are not detected.
    pub fn register_plugin(&mut self, plugin: &Plugin)
        ensures
            final(self).plugins@ == old(self).plugins@.push(plugin.name),
            final(self).names() == old(self).names().push(plugin.name@),
    {
        self.plugins.push(plugin.name);
        proof {
            assert(final(self).names() =~= old(self).names().push(plugin.name@));
        }
    }
}

impl Default for Context {
    /// A context with no plugins recorded yet.
    fn default() -> (context: Context)
        ensures
            context.plugins@.len() == 0,
            context.names() == Seq::<Seq<char>>::empty(),
    {
        let context = Context { plugins: Vec::new() };
        proof {
            assert(context.names() =~= Seq::<Seq<char>>::empty());
        }
        context
    }
}

} // verus!
