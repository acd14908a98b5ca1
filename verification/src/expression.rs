//! The query expression model: an immutable abstract syntax tree over
//! column references, typed literals, and unary or binary operators,
//! owned by the caller and borrowed during evaluation.

use vstd::prelude::*;
use crate::column::TimeUnit;

verus! {

/// A typed literal value.
#[derive(Debug, Clone, PartialEq)]
pub enum Literal {
    Boolean(bool),
    BigInt(i64),
    Int128(i128),
    /// A decimal with an as-yet unvalidated precision, a scale, and an
    /// integer significand; the precision is validated at evaluation.
    Decimal(DecimalLiteral),
    VarChar(String),
    /// Time unit, time-zone offset in seconds, and the epoch value.
    Timestamp(TimeUnit, i32, i64),
}

/// The raw parts of a decimal literal.
#[derive(Debug, Clone, Copy, PartialEq, Eq, Structural)]
pub struct DecimalLiteral {
    pub precision: u8,
    pub scale: i8,
    pub significand: i128,
}

#[derive(Debug, Clone, Copy, PartialEq, Eq, Structural)]
pub enum UnaryOperator {
    Not,
}

#[derive(Debug, Clone, Copy, PartialEq, Eq, Structural)]
pub enum BinaryOperator {
    And,
    Or,
    Equal,
    GreaterThanOrEqual,
    LessThanOrEqual,
    Add,
    Subtract,
    Multiply,
    Division,
}

/// An aggregation over an expression: parsed, but outside the supported
/// evaluation subset.
#[derive(Debug, Clone, Copy, PartialEq, Eq, Structural)]
pub enum AggregationOperator {
    Max,
    Min,
    Sum,
    Count,
    First,
}

/// A query expression tree.
#[derive(Debug, PartialEq)]
pub enum Expression {
    /// A reference to a named column of the table.
    Column(String),
    /// A literal, broadcast to the table's row count.
    Literal(Literal),
    Unary { op: UnaryOperator, expr: Box<Expression> },
    Binary { op: BinaryOperator, left: Box<Expression>, right: Box<Expression> },
    /// Parsed but not yet supported by the evaluator.
    Aggregation { op: AggregationOperator, expr: Box<Expression> },
    /// Parsed but not yet supported by the evaluator.
    Wildcard,
}

/// The rendering of a binary operator.
pub open spec fn binop_text(op: BinaryOperator) -> Seq<char> {
    match op {
        BinaryOperator::And => "and"@,
        BinaryOperator::Or => "or"@,
        BinaryOperator::Equal => "="@,
        BinaryOperator::GreaterThanOrEqual => ">="@,
        BinaryOperator::LessThanOrEqual => "<="@,
        BinaryOperator::Add => "+"@,
        BinaryOperator::Subtract => "-"@,
        BinaryOperator::Multiply => "*"@,
        BinaryOperator::Division => "/"@,
    }
}

/// The rendering of an aggregation operator.
pub open spec fn agg_text(op: AggregationOperator) -> Seq<char> {
    match op {
        AggregationOperator::Max => "max"@,
        AggregationOperator::Min => "min"@,
        AggregationOperator::Sum => "sum"@,
        AggregationOperator::Count => "count"@,
        AggregationOperator::First => "first"@,
    }
}

/// The rendering of a literal, at the granularity of its kind.
pub open spec fn lit_text(lit: Literal) -> Seq<char> {
    match lit {
        Literal::Boolean(_) => "boolean literal"@,
        Literal::BigInt(_) => "bigint literal"@,
        Literal::Int128(_) => "int128 literal"@,
        Literal::Decimal(_) => "decimal literal"@,
        Literal::VarChar(_) => "varchar literal"@,
        Literal::Timestamp(_, _, _) => "timestamp literal"@,
    }
}

/// A human-readable rendering of an expression tree: column names and
/// operators appear as written, literals by their kind.
pub open spec fn expr_text(e: Expression) -> Seq<char>
    decreases e,
{
    match e {
        Expression::Column(name) => name@,
        Expression::Literal(lit) => lit_text(lit),
        Expression::Unary { op, expr } => "(not "@ + expr_text(*expr) + ")"@,
        Expression::Binary { op, left, right } => "("@ + expr_text(*left) + " "@ + binop_text(op)
            + " "@ + expr_text(*right) + ")"@,
        Expression::Aggregation { op, expr } => agg_text(op) + "("@ + expr_text(*expr) + ")"@,
        Expression::Wildcard => "*"@,
    }
}

fn binop_name(op: BinaryOperator) -> (r: String)
    ensures
        r@ == binop_text(op),
{
    match op {
        BinaryOperator::And => String::from_str("and"),
        BinaryOperator::Or => String::from_str("or"),
        BinaryOperator::Equal => String::from_str("="),
        BinaryOperator::GreaterThanOrEqual => String::from_str(">="),
        BinaryOperator::LessThanOrEqual => String::from_str("<="),
        BinaryOperator::Add => String::from_str("+"),
        BinaryOperator::Subtract => String::from_str("-"),
        BinaryOperator::Multiply => String::from_str("*"),
        BinaryOperator::Division => String::from_str("/"),
    }
}

fn agg_name(op: AggregationOperator) -> (r: String)
    ensures
        r@ == agg_text(op),
{
    match op {
        AggregationOperator::Max => String::from_str("max"),
        AggregationOperator::Min => String::from_str("min"),
        AggregationOperator::Sum => String::from_str("sum"),
        AggregationOperator::Count => String::from_str("count"),
        AggregationOperator::First => String::from_str("first"),
    }
}

fn lit_name(lit: &Literal) -> (r: String)
    ensures
        r@ == lit_text(*lit),
{
    match lit {
        Literal::Boolean(_) => String::from_str("boolean literal"),
        Literal::BigInt(_) => String::from_str("bigint literal"),
        Literal::Int128(_) => String::from_str("int128 literal"),
        Literal::Decimal(_) => String::from_str("decimal literal"),
        Literal::VarChar(_) => String::from_str("varchar literal"),
        Literal::Timestamp(_, _, _) => String::from_str("timestamp literal"),
    }
}

/// Renders the expression exactly as `expr_text` states it.
pub fn describe(e: &Expression) -> (r: String)
    ensures
        r@ == expr_text(*e),
    decreases expr_size(*e),
{
    match e {
        Expression::Column(name) => name.clone(),
        Expression::Literal(lit) => lit_name(lit),
        Expression::Unary { op, expr } => {
            let mut s = String::from_str("(not ");
            let inner = describe(expr);
            s.append(inner.as_str());
            s.append(")");
            s
        },
        Expression::Binary { op, left, right } => {
            let mut s = String::from_str("(");
            let l = describe(left);
            s.append(l.as_str());
            s.append(" ");
            let o = binop_name(*op);
            s.append(o.as_str());
            s.append(" ");
            let r2 = describe(right);
            s.append(r2.as_str());
            s.append(")");
            s
        },
        Expression::Aggregation { op, expr } => {
            let mut s = agg_name(*op);
            s.append("(");
            let inner = describe(expr);
            s.append(inner.as_str());
            s.append(")");
            s
        },
        Expression::Wildcard => String::from_str("*"),
    }
}

/// The number of nodes of an expression tree; at least one.
pub open spec fn expr_size(e: Expression) -> nat
    decreases e,
{
    match e {
        Expression::Unary { op, expr } => 1 + expr_size(*expr),
        Expression::Binary { op, left, right } => 1 + expr_size(*left) + expr_size(*right),
        Expression::Aggregation { op, expr } => 1 + expr_size(*expr),
        _ => 1,
    }
}

} // verus!
