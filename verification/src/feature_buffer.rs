//! The hashed, weighted features of one example, as the feature layer
//! hands them to the graph.

use crate::scalar::Scalar;
use vstd::prelude::*;

verus! {

/// A hashed feature with its weight.
#[derive(Clone, Copy, Debug, PartialEq, Eq, Structural)]
pub struct HashAndValue {
    pub hash: u32,
    pub value: Scalar,
}

/// A hashed feature with its weight and the field it belongs to.
#[derive(Clone, Copy, Debug, PartialEq, Eq, Structural)]
pub struct HashAndValueAndSeq {
    pub hash: u32,
    pub value: Scalar,
    pub contra_field_index: u32,
}

/// One example, ready for the graph. The graph reads it and never changes it.
#[derive(Clone, Debug)]
pub struct FeatureBuffer {
    pub label: Scalar,
    pub example_importance: Scalar,
    pub example_number: u64,
    pub lr_buffer: Vec<HashAndValue>,
    pub ffm_buffer: Vec<HashAndValueAndSeq>,
    pub ffm_fields_count: u32,
}

} // verus!
