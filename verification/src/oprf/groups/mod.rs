//! Prime-order groups: the record that names a group, and the one group that
//! is bound to it, ristretto255.

pub mod ristretto;
pub mod scalar;

use vstd::prelude::*;
use crate::oprf::groups::ristretto::GroupElement;

verus! {

/// A prime-order group: its generator and the length of an encoded element.
/// The operations of the group are its methods.
#[derive(Clone, Copy, Debug)]
pub struct PrimeOrderGroup {
    /// The fixed base point.
    pub generator: GroupElement,
    /// The length in bytes of an encoded element, and of scalar material.
    pub byte_length: usize,
}

} // verus!
