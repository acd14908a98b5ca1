//! Error types, one per subsystem: `EvaluationError` for the expression
//! evaluator and column operations, `ProofError` for the provable plan
//! layer. Errors are always returned, never swallowed, and a child failure
//! is propagated unchanged to preserve the root cause.

use vstd::prelude::*;

verus! {

/// The reasons an expression cannot be evaluated over a table.
#[derive(Debug, PartialEq, Eq)]
pub enum EvaluationError {
    /// The expression referenced a column identifier absent from the table.
    ColumnNotFound { error: String },
    /// The expression form is outside the supported subset.
    Unsupported { expression: String },
    /// An element-wise operation was applied to operand types it is not
    /// defined for.
    IncompatibleTypes,
    /// A decimal literal carried a precision outside the valid range.
    InvalidPrecision { precision: u8 },
    /// A decimal literal's significand lies outside the range the field
    /// encodes losslessly (or outside its own declared precision).
    DecimalOutOfRange { significand: i128 },
    /// An element-wise division met a zero-valued divisor element.
    DivisionByZero,
    /// An element-wise integer operation left the representable range.
    IntegerOverflow,
}

/// The ghost mirror of `EvaluationError`: the kind of a failure together
/// with the data the contracts pin down: the missing column's name, the
/// offending significand, and the rendering an unsupported expression is
/// reported with.
pub enum ErrV {
    ColumnNotFound(Seq<char>),
    Unsupported(Seq<char>),
    IncompatibleTypes,
    InvalidPrecision(u8),
    DecimalOutOfRange(i128),
    DivisionByZero,
    IntegerOverflow,
}

/// Whether the executable error `e` denotes the modelled error `m`.
pub open spec fn err_matches(e: EvaluationError, m: ErrV) -> bool {
    match m {
        ErrV::ColumnNotFound(name) => e matches EvaluationError::ColumnNotFound {
            error,
        } && error@ == name,
        ErrV::Unsupported(text) => e matches EvaluationError::Unsupported {
            expression,
        } && expression@ == text,
        ErrV::IncompatibleTypes => e is IncompatibleTypes,
        ErrV::InvalidPrecision(p) => e matches EvaluationError::InvalidPrecision {
            precision,
        } && precision == p,
        ErrV::DecimalOutOfRange(x) => e matches EvaluationError::DecimalOutOfRange {
            significand,
        } && significand == x,
        ErrV::DivisionByZero => e is DivisionByZero,
        ErrV::IntegerOverflow => e is IntegerOverflow,
    }
}

/// The reasons a provable plan cannot be built, executed or queried.
#[derive(Debug, PartialEq, Eq)]
pub enum ProofError {
    /// Output or proof was requested before execution completed.
    UnexecutedError,
    /// The raw operator kind is outside the set the proof layer supports:
    /// a static capability gap, not a runtime fault.
    UnsupportedPlan { description: String },
    /// A structural rewrite handed over a child list whose count does not
    /// match the operator's arity contract.
    InvalidChildCount { expected: usize, actual: usize },
}

} // verus!
