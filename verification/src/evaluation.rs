//! The expression evaluator: a pure, deterministic function of a table
//! and an expression tree, producing an owned column or the first error
//! met in depth-first, left-first order. Its whole behaviour is pinned by
//! the modelled evaluator `eval_v`.

use vstd::prelude::*;
use crate::column::{
    OwnedColumn, ColV, Precision, add_all_fit, add_at, add_v, and_v, div_all_fit, div_at, div_v,
    eq_v, fits, ge_v, has_zero, le_v, mul_all_fit, mul_at, mul_v, not_v, or_v, pack_ints,
    res_matches, sub_all_fit, sub_at, sub_v, trunc_div, wide_pair, MAX_PRECISION,
};
use crate::errors::{EvaluationError, ErrV};
use crate::expression::{
    BinaryOperator, Expression, Literal, UnaryOperator, describe, expr_size, expr_text,
};
use crate::scalar::{Scalar, field_encode};
use crate::table::{OwnedTable, col_of, has_col, num_rows_of, table_wf_v};

verus! {

/// The modelled outcome of a column reference.
pub open spec fn col_eval_v(t: Seq<(Seq<char>, ColV)>, name: Seq<char>) -> Result<ColV, ErrV> {
    if has_col(t, name) {
        Ok(col_of(t, name))
    } else {
        Err(ErrV::ColumnNotFound(name))
    }
}

/// Ten to the `n`-th power.
pub open spec fn pow10(n: nat) -> int
    decreases n,
{
    if n == 0 {
        1
    } else {
        10 * pow10((n - 1) as nat)
    }
}

/// The largest magnitude a decimal significand may carry: it must fit
/// its declared precision, and it must lie in the balanced range the
/// scalar field encodes losslessly (see `lemma_field_encode_round_trip`).
pub open spec fn decimal_bound(precision: u8) -> int {
    if precision <= 18 {
        pow10(precision as nat)
    } else {
        DECIMAL_FIELD_BOUND as int
    }
}

/// One more than the largest magnitude the field encodes losslessly:
/// (FIELD_MODULUS + 1) / 2.
pub const DECIMAL_FIELD_BOUND: i128 = 1152921504606846976;

/// The modelled outcome of broadcasting a literal to `n` rows.
pub open spec fn lit_v(n: nat, lit: Literal) -> Result<ColV, ErrV> {
    match lit {
        Literal::Boolean(b) => Ok(ColV::Boolean(Seq::new(n, |i: int| b))),
        Literal::BigInt(x) => Ok(ColV::BigInt(Seq::new(n, |i: int| x))),
        Literal::Int128(x) => Ok(ColV::Int128(Seq::new(n, |i: int| x))),
        Literal::Decimal(d) => if !(1 <= d.precision <= MAX_PRECISION) {
            Err(ErrV::InvalidPrecision(d.precision))
        } else if !(-decimal_bound(d.precision) < d.significand
            < decimal_bound(d.precision)) {
            Err(ErrV::DecimalOutOfRange(d.significand))
        } else {
            Ok(
                ColV::Decimal75(
                    d.precision,
                    d.scale,
                    Seq::new(n, |i: int| field_encode(d.significand as int) as u64),
                ),
            )
        },
        Literal::VarChar(s) => Ok(ColV::VarChar(Seq::new(n, |i: int| s@))),
        Literal::Timestamp(u, z, v) => Ok(ColV::TimestampTZ(u, z, Seq::new(n, |i: int| v))),
    }
}

/// The modelled element-wise semantics of a unary operator.
pub open spec fn unary_v(op: UnaryOperator, c: ColV) -> Result<ColV, ErrV> {
    match op {
        UnaryOperator::Not => not_v(c),
    }
}

/// The modelled element-wise semantics of a binary operator.
pub open spec fn binop_v(op: BinaryOperator, l: ColV, r: ColV) -> Result<ColV, ErrV> {
    match op {
        BinaryOperator::And => and_v(l, r),
        BinaryOperator::Or => or_v(l, r),
        BinaryOperator::Equal => eq_v(l, r),
        BinaryOperator::GreaterThanOrEqual => ge_v(l, r),
        BinaryOperator::LessThanOrEqual => le_v(l, r),
        BinaryOperator::Add => add_v(l, r),
        BinaryOperator::Subtract => sub_v(l, r),
        BinaryOperator::Multiply => mul_v(l, r),
        BinaryOperator::Division => div_v(l, r),
    }
}

/// The modelled outcome of a unary expression over the operand's outcome.
pub open spec fn unary_expr_v(
    t: Seq<(Seq<char>, ColV)>,
    op: UnaryOperator,
    e: Expression,
) -> Result<ColV, ErrV>
    decreases expr_size(e) * 2 + 1,
{
    match eval_v(t, e) {
        Ok(c) => unary_v(op, c),
        Err(er) => Err(er),
    }
}

/// The modelled outcome of a binary expression: the left operand first,
/// then the right, then the operator's element-wise semantics.
pub open spec fn binary_expr_v(
    t: Seq<(Seq<char>, ColV)>,
    op: BinaryOperator,
    l: Expression,
    r: Expression,
) -> Result<ColV, ErrV>
    decreases (expr_size(l) + expr_size(r)) * 2 + 1,
{
    match eval_v(t, l) {
        Ok(lc) => match eval_v(t, r) {
            Ok(rc) => binop_v(op, lc, rc),
            Err(er) => Err(er),
        },
        Err(er) => Err(er),
    }
}

/// The modelled evaluator: exactly what `OwnedTable::evaluate` returns,
/// error text included, so equal inputs provably give identical results.
pub open spec fn eval_v(t: Seq<(Seq<char>, ColV)>, e: Expression) -> Result<ColV, ErrV>
    decreases expr_size(e) * 2,
{
    match e {
        Expression::Column(name) => col_eval_v(t, name@),
        Expression::Literal(lit) => lit_v(num_rows_of(t), lit),
        Expression::Unary { op, expr } => unary_expr_v(t, op, *expr),
        Expression::Binary { op, left, right } => binary_expr_v(t, op, *left, *right),
        _ => Err(ErrV::Unsupported(unsupported_text(e))),
    }
}

/// The message an unsupported expression form is reported with: a
/// human-readable rendering of the offending expression.
pub open spec fn unsupported_text(e: Expression) -> Seq<char> {
    "expression "@ + expr_text(e) + " is not supported yet"@
}

/// Every successful evaluation yields a column of the table's row count.
pub proof fn lemma_eval_len(t: Seq<(Seq<char>, ColV)>, e: Expression)
    requires
        table_wf_v(t),
    ensures
        eval_v(t, e) matches Ok(c) ==> c.len() == num_rows_of(t),
    decreases expr_size(e),
{
    match e {
        Expression::Column(name) => {
            if has_col(t, name@) {
                let w = choose|i: int| 0 <= i < t.len() && #[trigger] t[i].0 == name@;
                assert(t[w].1.len() == num_rows_of(t));
            }
        },
        Expression::Literal(lit) => {},
        Expression::Unary { op, expr } => {
            lemma_eval_len(t, *expr);
        },
        Expression::Binary { op, left, right } => {
            lemma_eval_len(t, *left);
            lemma_eval_len(t, *right);
        },
        _ => {},
    }
}

impl OwnedTable {
    /// Evaluate an expression on the table.
    pub fn evaluate(&self, expr: &Expression) -> (r: Result<OwnedColumn, EvaluationError>)
        requires
            self.wf(),
        ensures
            res_matches(r, eval_v(self@, *expr)),
        decreases expr_size(*expr) * 2,
    {
        match expr {
            Expression::Column(identifier) => self.evaluate_column(identifier),
            Expression::Literal(lit) => self.evaluate_literal(lit),
            Expression::Binary { op, left, right } => self.evaluate_binary_expr(*op, left, right),
            Expression::Unary { op, expr } => self.evaluate_unary_expr(*op, expr),
            _ => {
                let mut s = String::from_str("expression ");
                let rendered = describe(expr);
                s.append(rendered.as_str());
                s.append(" is not supported yet");
                Err(EvaluationError::Unsupported { expression: s })
            },
        }
    }

    /// Looks the referenced column up; a clone of it is the result.
    fn evaluate_column(&self, identifier: &String) -> (r: Result<OwnedColumn, EvaluationError>)
        requires
            self.wf(),
        ensures
            res_matches(r, col_eval_v(self@, identifier@)),
    {
        match self.column_of(identifier) {
            Some(c) => Ok(c.clone()),
            None => Err(EvaluationError::ColumnNotFound { error: identifier.clone() }),
        }
    }

    /// Broadcasts the literal to a column of the table's row count,
    /// validating a decimal literal's precision first.
    fn evaluate_literal(&self, lit: &Literal) -> (r: Result<OwnedColumn, EvaluationError>)
        ensures
            res_matches(r, lit_v(num_rows_of(self@), *lit)),
    {
        let len = self.num_rows();
        match lit {
            Literal::Boolean(b) => {
                let v = fill_bool(*b, len);
                proof {
                    let sq = lit_v(num_rows_of(self@), *lit)->Ok_0->Boolean_0;
                    assert(v@ =~= sq);
                }
                Ok(OwnedColumn::Boolean(v))
            },
            Literal::BigInt(x) => {
                let v = fill_i64(*x, len);
                proof {
                    let sq = lit_v(num_rows_of(self@), *lit)->Ok_0->BigInt_0;
                    assert(v@ =~= sq);
                }
                Ok(OwnedColumn::BigInt(v))
            },
            Literal::Int128(x) => {
                let v = fill_i128(*x, len);
                proof {
                    let sq = lit_v(num_rows_of(self@), *lit)->Ok_0->Int128_0;
                    assert(v@ =~= sq);
                }
                Ok(OwnedColumn::Int128(v))
            },
            Literal::Decimal(d) => {
                let precision = match Precision::new(d.precision) {
                    Ok(p) => p,
                    Err(e) => {
                        return Err(e);
                    },
                };
                let bound = decimal_value_bound(precision.value());
                if d.significand <= -bound || d.significand >= bound {
                    return Err(
                        EvaluationError::DecimalOutOfRange { significand: d.significand },
                    );
                }
                let scalar = Scalar::from_i128(d.significand);
                let v = fill_scalar(scalar, len);
                proof {
                    let sq = lit_v(num_rows_of(self@), *lit)->Ok_0->Decimal75_2;
                    assert(v@.map_values(|x: Scalar| x.value) =~= sq);
                }
                Ok(OwnedColumn::Decimal75(precision, d.scale, v))
            },
            Literal::VarChar(s) => {
                let v = fill_string(s, len);
                proof {
                    let sq = lit_v(num_rows_of(self@), *lit)->Ok_0->VarChar_0;
                    assert(v@.map_values(|x: String| x@) =~= sq);
                }
                Ok(OwnedColumn::VarChar(v))
            },
            Literal::Timestamp(u, z, ts) => {
                let v = fill_i64(*ts, len);
                proof {
                    let sq = lit_v(num_rows_of(self@), *lit)->Ok_0->TimestampTZ_2;
                    assert(v@ =~= sq);
                }
                Ok(OwnedColumn::TimestampTZ(*u, *z, v))
            },
        }
    }

    /// Evaluates the operand, then applies the operator element-wise.
    fn evaluate_unary_expr(&self, op: UnaryOperator, expr: &Expression) -> (r: Result<
        OwnedColumn,
        EvaluationError,
    >)
        requires
            self.wf(),
        ensures
            res_matches(r, unary_expr_v(self@, op, *expr)),
        decreases expr_size(*expr) * 2 + 1,
    {
        let column = match self.evaluate(expr) {
            Ok(c) => c,
            Err(e) => {
                return Err(e);
            },
        };
        match op {
            UnaryOperator::Not => column.element_wise_not(),
        }
    }

    /// Evaluates the left operand, then the right, then applies the
    /// operator element-wise. Both operands share the table's row count,
    /// the internal invariant the column operations rely on.
    fn evaluate_binary_expr(
        &self,
        op: BinaryOperator,
        left: &Expression,
        right: &Expression,
    ) -> (r: Result<OwnedColumn, EvaluationError>)
        requires
            self.wf(),
        ensures
            res_matches(r, binary_expr_v(self@, op, *left, *right)),
        decreases (expr_size(*left) + expr_size(*right)) * 2 + 1,
    {
        let lc = match self.evaluate(left) {
            Ok(c) => c,
            Err(e) => {
                return Err(e);
            },
        };
        let rc = match self.evaluate(right) {
            Ok(c) => c,
            Err(e) => {
                return Err(e);
            },
        };
        proof {
            lemma_eval_len(self@, *left);
            lemma_eval_len(self@, *right);
        }
        match op {
            BinaryOperator::And => lc.element_wise_and(&rc),
            BinaryOperator::Or => lc.element_wise_or(&rc),
            BinaryOperator::Equal => lc.element_wise_eq(&rc),
            BinaryOperator::GreaterThanOrEqual => lc.element_wise_ge(&rc),
            BinaryOperator::LessThanOrEqual => lc.element_wise_le(&rc),
            BinaryOperator::Add => lc.element_wise_add(&rc),
            BinaryOperator::Subtract => lc.element_wise_sub(&rc),
            BinaryOperator::Multiply => lc.element_wise_mul(&rc),
            BinaryOperator::Division => lc.element_wise_div(&rc),
        }
    }
}

proof fn lemma_pow10_pos(n: nat)
    ensures
        pow10(n) >= 1,
    decreases n,
{
    if n > 0 {
        lemma_pow10_pos((n - 1) as nat);
    }
}

proof fn lemma_pow10_mono(a: nat, b: nat)
    requires
        a <= b,
    ensures
        pow10(a) <= pow10(b),
    decreases b,
{
    if a < b {
        lemma_pow10_mono(a, (b - 1) as nat);
        lemma_pow10_pos((b - 1) as nat);
    }
}

/// The exclusive magnitude bound for a decimal significand of the given
/// precision.
fn decimal_value_bound(precision: u8) -> (b: i128)
    requires
        1 <= precision <= MAX_PRECISION,
    ensures
        b == decimal_bound(precision),
{
    if precision > 18 {
        DECIMAL_FIELD_BOUND
    } else {
        let mut b: i128 = 1;
        let mut i: u8 = 0;
        while i < precision
            invariant
                i <= precision <= 18,
                b == pow10(i as nat),
            decreases precision - i,
        {
            proof {
                lemma_pow10_pos(i as nat);
                lemma_pow10_mono(i as nat, 18);
                assert(pow10(18) == 1000000000000000000) by {
                    reveal_with_fuel(pow10, 19);
                }
            }
            b = b * 10;
            i = i + 1;
        }
        b
    }
}

fn fill_bool(x: bool, n: usize) -> (r: Vec<bool>)
    ensures
        r@.len() == n,
        forall|i: int| 0 <= i < n ==> r@[i] == x,
{
    let mut out: Vec<bool> = Vec::new();
    let mut i: usize = 0;
    while i < n
        invariant
            i <= n,
            out@.len() == i,
            forall|j: int| 0 <= j < i ==> out@[j] == x,
        decreases n - i,
    {
        out.push(x);
        i += 1;
    }
    out
}

fn fill_i64(x: i64, n: usize) -> (r: Vec<i64>)
    ensures
        r@.len() == n,
        forall|i: int| 0 <= i < n ==> r@[i] == x,
{
    let mut out: Vec<i64> = Vec::new();
    let mut i: usize = 0;
    while i < n
        invariant
            i <= n,
            out@.len() == i,
            forall|j: int| 0 <= j < i ==> out@[j] == x,
        decreases n - i,
    {
        out.push(x);
        i += 1;
    }
    out
}

fn fill_i128(x: i128, n: usize) -> (r: Vec<i128>)
    ensures
        r@.len() == n,
        forall|i: int| 0 <= i < n ==> r@[i] == x,
{
    let mut out: Vec<i128> = Vec::new();
    let mut i: usize = 0;
    while i < n
        invariant
            i <= n,
            out@.len() == i,
            forall|j: int| 0 <= j < i ==> out@[j] == x,
        decreases n - i,
    {
        out.push(x);
        i += 1;
    }
    out
}

fn fill_scalar(x: Scalar, n: usize) -> (r: Vec<Scalar>)
    ensures
        r@.len() == n,
        forall|i: int| 0 <= i < n ==> r@[i] == x,
{
    let mut out: Vec<Scalar> = Vec::new();
    let mut i: usize = 0;
    while i < n
        invariant
            i <= n,
            out@.len() == i,
            forall|j: int| 0 <= j < i ==> out@[j] == x,
        decreases n - i,
    {
        out.push(x);
        i += 1;
    }
    out
}

fn fill_string(x: &String, n: usize) -> (r: Vec<String>)
    ensures
        r@.len() == n,
        forall|i: int| 0 <= i < n ==> r@[i]@ == x@,
{
    let mut out: Vec<String> = Vec::new();
    let mut i: usize = 0;
    while i < n
        invariant
            i <= n,
            out@.len() == i,
            forall|j: int| 0 <= j < i ==> out@[j]@ == x@,
        decreases n - i,
    {
        out.push(x.clone());
        i += 1;
    }
    out
}

/// Whether a literal is valid on its own: a decimal literal must carry a
/// precision in the valid range and a significand that fits both the
/// precision and the losslessly encodable range; every other literal
/// always is.
pub open spec fn lit_valid(lit: Literal) -> bool {
    match lit {
        Literal::Decimal(d) => 1 <= d.precision <= MAX_PRECISION && -decimal_bound(d.precision)
            < d.significand < decimal_bound(d.precision),
        _ => true,
    }
}

/// Whether element `i` of column `c` is the encoding of literal `lit`.
pub open spec fn encodes_at(lit: Literal, c: ColV, i: int) -> bool {
    match (lit, c) {
        (Literal::Boolean(b), ColV::Boolean(s)) => s[i] == b,
        (Literal::BigInt(x), ColV::BigInt(s)) => s[i] == x,
        (Literal::Int128(x), ColV::Int128(s)) => s[i] == x,
        (Literal::Decimal(d), ColV::Decimal75(p, sc, s)) => p == d.precision && sc == d.scale
            && s[i] == field_encode(d.significand as int),
        (Literal::VarChar(st), ColV::VarChar(s)) => s[i] == st@,
        (Literal::Timestamp(u, z, v), ColV::TimestampTZ(cu, cz, s)) => cu == u && cz == z
            && s[i] == v,
        _ => false,
    }
}

/// LAW: for every table and every column identifier present in it,
/// evaluating a reference to that column yields exactly that column.
pub proof fn lemma_eval_column(t: Seq<(Seq<char>, ColV)>, e: Expression)
    requires
        e matches Expression::Column(name) && has_col(t, name@),
    ensures
        e matches Expression::Column(name) ==> eval_v(t, e) == Ok::<ColV, ErrV>(
            col_of(t, name@),
        ),
{
}

/// LAW: for every valid literal and every table, evaluating the literal
/// yields a column of the table's row count whose every element is the
/// literal's encoding.
pub proof fn lemma_eval_literal(t: Seq<(Seq<char>, ColV)>, e: Expression)
    requires
        e matches Expression::Literal(lit) && lit_valid(lit),
    ensures
        e matches Expression::Literal(lit) ==> (eval_v(t, e) matches Ok(c) && c.len()
            == num_rows_of(t) && forall|i: int| 0 <= i < c.len() ==> encodes_at(lit, c, i)),
{
}

/// The mathematical values of a packed integer column are the packed
/// values themselves, when each fits the packed kind.
proof fn lemma_ints_of_pack(w: bool, s: Seq<int>)
    requires
        forall|i: int| 0 <= i < s.len() ==> fits(w, #[trigger] s[i]),
    ensures
        pack_ints(w, s).is_integer(),
        pack_ints(w, s).len() == s.len(),
        pack_ints(w, s).ints() =~= s,
{
    if w {
        assert(pack_ints(w, s).ints() =~= s);
    } else {
        assert(pack_ints(w, s).ints() =~= s);
    }
}

/// LAW: for every table and every arithmetic binary expression whose
/// operands evaluate to integer columns, the whole expression evaluates
/// element-wise: each result element is the operator applied to the
/// operands' elements at that row (when every element fits the coerced
/// kind), and division by a zero-valued element fails deterministically.
pub proof fn lemma_binary_arith(t: Seq<(Seq<char>, ColV)>, e: Expression)
    requires
        e matches Expression::Binary { op, left, right } && (op == BinaryOperator::Add || op
            == BinaryOperator::Subtract || op == BinaryOperator::Multiply || op
            == BinaryOperator::Division),
    ensures
        e matches Expression::Binary { op, left, right } ==> (eval_v(t, *left) matches Ok(lc)
            ==> eval_v(t, *right) matches Ok(rc) ==> (lc.is_integer() && rc.is_integer()) ==> {
                &&& (op == BinaryOperator::Add && add_all_fit(lc, rc)) ==> (eval_v(t, e) matches
                    Ok(c) && c.len() == lc.len() && forall|i: int|
                    0 <= i < c.len() ==> c.ints()[i] == lc.ints()[i] + rc.ints()[i])
                &&& (op == BinaryOperator::Subtract && sub_all_fit(lc, rc)) ==> (eval_v(t, e)
                    matches Ok(c) && c.len() == lc.len() && forall|i: int|
                    0 <= i < c.len() ==> c.ints()[i] == lc.ints()[i] - rc.ints()[i])
                &&& (op == BinaryOperator::Multiply && mul_all_fit(lc, rc)) ==> (eval_v(t, e)
                    matches Ok(c) && c.len() == lc.len() && forall|i: int|
                    0 <= i < c.len() ==> c.ints()[i] == lc.ints()[i] * rc.ints()[i])
                &&& (op == BinaryOperator::Division && !has_zero(rc) && div_all_fit(lc, rc)) ==> (
                    eval_v(t, e) matches Ok(c) && c.len() == lc.len() && forall|i: int|
                    0 <= i < c.len() ==> c.ints()[i] == trunc_div(lc.ints()[i], rc.ints()[i]))
                &&& (op == BinaryOperator::Division && has_zero(rc)) ==> eval_v(t, e) == Err::<
                    ColV,
                    ErrV,
                >(ErrV::DivisionByZero)
            }),
{
    match e {
        Expression::Binary { op, left, right } => {
            let lr = eval_v(t, *left);
            let rr = eval_v(t, *right);
            match (lr, rr) {
                (Ok(lc), Ok(rc)) => {
                    if lc.is_integer() && rc.is_integer() {
                        if op == BinaryOperator::Add && add_all_fit(lc, rc) {
                            lemma_ints_of_pack(
                                wide_pair(lc, rc),
                                Seq::new(lc.len(), |i: int| add_at(lc, rc, i)),
                            );
                        }
                        if op == BinaryOperator::Subtract && sub_all_fit(lc, rc) {
                            lemma_ints_of_pack(
                                wide_pair(lc, rc),
                                Seq::new(lc.len(), |i: int| sub_at(lc, rc, i)),
                            );
                        }
                        if op == BinaryOperator::Multiply && mul_all_fit(lc, rc) {
                            lemma_ints_of_pack(
                                wide_pair(lc, rc),
                                Seq::new(lc.len(), |i: int| mul_at(lc, rc, i)),
                            );
                        }
                        if op == BinaryOperator::Division && !has_zero(rc) && div_all_fit(lc, rc) {
                            lemma_ints_of_pack(
                                wide_pair(lc, rc),
                                Seq::new(lc.len(), |i: int| div_at(lc, rc, i)),
                            );
                        }
                    }
                },
                _ => {},
            }
        },
        _ => {},
    }
}

/// Whether the expression mentions the identifier in a column reference.
pub open spec fn mentions_column(e: Expression, n: Seq<char>) -> bool
    decreases e,
{
    match e {
        Expression::Column(m) => m@ == n,
        Expression::Unary { op, expr } => mentions_column(*expr, n),
        Expression::Binary { op, left, right } => mentions_column(*left, n) || mentions_column(
            *right,
            n,
        ),
        _ => false,
    }
}

/// Whether the expression references some column absent from the table.
pub open spec fn references_absent(t: Seq<(Seq<char>, ColV)>, e: Expression) -> bool
    decreases e,
{
    match e {
        Expression::Column(m) => !has_col(t, m@),
        Expression::Unary { op, expr } => references_absent(t, *expr),
        Expression::Binary { op, left, right } => references_absent(t, *left)
            || references_absent(t, *right),
        _ => false,
    }
}

/// LAW: an expression referencing an absent column never evaluates
/// successfully, wherever the reference stands; and whenever evaluation
/// reports a missing column, it names an identifier the expression
/// references and the table lacks.
pub proof fn lemma_absent_column(t: Seq<(Seq<char>, ColV)>, e: Expression, n: Seq<char>)
    ensures
        references_absent(t, e) ==> eval_v(t, e) is Err,
        eval_v(t, e) == Err::<ColV, ErrV>(ErrV::ColumnNotFound(n)) ==> mentions_column(e, n)
            && !has_col(t, n),
    decreases expr_size(e),
{
    match e {
        Expression::Column(m) => {},
        Expression::Literal(lit) => {},
        Expression::Unary { op, expr } => {
            lemma_absent_column(t, *expr, n);
        },
        Expression::Binary { op, left, right } => {
            lemma_absent_column(t, *left, n);
            lemma_absent_column(t, *right, n);
        },
        _ => {},
    }
}

} // verus!
