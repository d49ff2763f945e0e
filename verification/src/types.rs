//! Where the variables of a compiled model live: the kind of array and the
//! slice of it that a variable occupies.

use vstd::prelude::*;
use crate::ast::Expression;

verus! {

/// The arrays that hold the values of a compiled model.
#[derive(Clone, Copy, Debug, PartialEq, Eq, Structural)]
pub enum ArrayType {
    State,
    Discrete,
    Parameter,
    Output,
    Derivative,
}

/// The place of a variable: its array, first index and number of elements.
#[derive(Clone, Copy, Debug, PartialEq, Eq, Structural)]
pub struct ArrayInfo {
    pub array_type: ArrayType,
    pub start_index: usize,
    pub size: usize,
}

/// An indexed access to an array variable.
pub struct ArrayAccessInfo<'a> {
    pub info: &'a ArrayInfo,
    pub index_expr: &'a Expression,
}

} // verus!
