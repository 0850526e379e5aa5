//! Compile-time plugin registration and one-shot context initialization.
//!
//! Independently authored modules each declare one [`Plugin`] descriptor:
//! metadata, the first value the plugin assigns to an entity, and a
//! constructor run once while a context is built. A host gathers the
//! descriptors of every linked module into one registry, in no particular
//! order, and builds a [`Context`] from it exactly once per run: every
//! descriptor's constructor is invoked, and the context records the names
//! of the plugins whose constructors registered themselves.

pub mod built_in;
pub mod context;
pub mod laws;
pub mod plugin;

pub use context::Context;
pub use context::registered_names;
pub use plugin::Constructor;
pub use plugin::Initializer;
pub use plugin::Plugin;
