//! How a field's resolver is found.
use vstd::prelude::*;

verus! {

/// Where the resolver of a field is looked up: on the object being
/// resolved, on an instance of the type's definition class, or on that
/// class itself.
#[derive(Clone, Copy, Debug, PartialEq, Eq, Structural)]
pub enum ResolverStrategy {
    Object,
    DefinitionInstance,
    DefinitionClass,
}

impl Default for ResolverStrategy {
    /// Resolvers are looked up on the object unless a schema says otherwise.
    fn default() -> (r: Self)
        ensures
            r == ResolverStrategy::Object,
    {
        ResolverStrategy::Object
    }
}

} // verus!
