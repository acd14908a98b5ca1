//! A provable query execution core: a columnar table model over a finite
//! scalar field, an expression evaluator with exact element-wise semantics,
//! and a provable operator-plan layer that wraps raw physical operators,
//! memoizes their output, and carries trivial structural proofs.

pub mod scalar;
pub mod errors;
pub mod table;
pub mod expression;
pub mod evaluation;
pub mod protocol;
pub mod plan;
pub mod column;
