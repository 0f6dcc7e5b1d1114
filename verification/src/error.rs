use vstd::prelude::*;

verus! {

/// Error taxonomy shared by every pool operation.
///
/// Every error aborts the requested operation as a whole: a function that
/// returns one of these leaves the pool it was given untouched.
#[derive(Clone, Copy, Debug, PartialEq, Eq, Structural)]
pub enum AmmError {
    /// A zero or otherwise disallowed input quantity.
    InvalidAmount,
    /// A widened multiply or an add exceeded the representable range, or
    /// narrowing a widened intermediate back would lose information.
    ArithmeticOverflow,
    /// A reserve used as a divisor was zero.
    DivisionByZero,
    /// A swap's computed output would meet or exceed the output reserve.
    InsufficientLiquidity,
    /// An invariant expected to hold of the pool record was found violated,
    /// such as a zero reserve while LP shares are outstanding.
    InternalInconsistency,
}

} // verus!
