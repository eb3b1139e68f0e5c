use vstd::prelude::*;

verus! {

/// Why an operation was refused.
#[derive(Clone, Copy, Debug, PartialEq, Eq, Structural)]
pub enum NetError {
    /// The dimensions of an operand or an input do not fit the operation.
    Shape,
    /// A layer-size sequence is invalid, or parameters do not fit it.
    Config,
}

} // verus!
