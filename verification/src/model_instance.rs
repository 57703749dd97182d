//! The configuration of one model.

use crate::feature_transform::TransformNamespaces;
use vstd::prelude::*;

verus! {

/// What the graph builders and the feature transforms read of a model's
/// configuration.
pub struct ModelInstance {
    pub transform_namespaces: TransformNamespaces,
}

impl ModelInstance {
    /// A configuration without transforms.
    pub fn new_empty() -> (mi: ModelInstance)
        ensures
            mi.transform_namespaces@ == Seq::<crate::feature_transform::NamespaceTransform>::empty(),
    {
        ModelInstance { transform_namespaces: TransformNamespaces::new() }
    }
}

} // verus!
