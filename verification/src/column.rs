//! The owned column model: a tagged variant over the typed value domains,
//! each holding one value per row, together with the element-wise
//! operations the expression evaluator applies.
//!
//! Every binary column operation requires equal operand lengths: row-count
//! equality is an internal invariant of the evaluator (all columns of one
//! table share the table's row count), not a user-facing error path.

use vstd::prelude::*;
use crate::scalar::{Scalar, FIELD_MODULUS};
use crate::errors::{EvaluationError, ErrV};

verus! {

/// The largest number of digits a decimal column may declare.
pub const MAX_PRECISION: u8 = 75;

/// A validated decimal precision, between 1 and `MAX_PRECISION`.
#[derive(Clone, Copy, PartialEq, Eq, Structural, Debug)]
pub struct Precision {
    value: u8,
}

impl Precision {
    pub closed spec fn spec_value(self) -> u8 {
        self.value
    }

    pub open spec fn wf(self) -> bool {
        1 <= self.spec_value() <= MAX_PRECISION
    }

    /// Validates a precision at construction; out-of-range precisions are
    /// rejected, never stored.
    pub fn new(precision: u8) -> (r: Result<Precision, EvaluationError>)
        ensures
            1 <= precision <= MAX_PRECISION ==> (r matches Ok(p) && p.spec_value() == precision
                && p.wf()),
            !(1 <= precision <= MAX_PRECISION) ==> (r matches Err(e) && err_is_bad_precision(
                e,
                precision,
            )),
    {
        if 1 <= precision && precision <= MAX_PRECISION {
            Ok(Precision { value: precision })
        } else {
            Err(EvaluationError::InvalidPrecision { precision })
        }
    }

    pub fn value(&self) -> (r: u8)
        ensures
            r == self.spec_value(),
    {
        self.value
    }
}

pub open spec fn err_is_bad_precision(e: EvaluationError, precision: u8) -> bool {
    e matches EvaluationError::InvalidPrecision { precision: p } && p == precision
}

/// The granularity of a timestamp column's integer values.
#[derive(Clone, Copy, PartialEq, Eq, Structural, Debug)]
pub enum TimeUnit {
    Second,
    Millisecond,
    Microsecond,
    Nanosecond,
}

/// An owned, typed column of field-encodable values, one per row.
#[derive(Debug, PartialEq)]
pub enum OwnedColumn {
    Boolean(Vec<bool>),
    BigInt(Vec<i64>),
    Int128(Vec<i128>),
    /// Precision, scale, and the field-encoded significands.
    Decimal75(Precision, i8, Vec<Scalar>),
    VarChar(Vec<String>),
    /// Time unit, time-zone offset in seconds, and the epoch values.
    TimestampTZ(TimeUnit, i32, Vec<i64>),
}

/// The ghost mirror of a column: the same tag over mathematical sequences.
pub enum ColV {
    Boolean(Seq<bool>),
    BigInt(Seq<i64>),
    Int128(Seq<i128>),
    Decimal75(u8, i8, Seq<u64>),
    VarChar(Seq<Seq<char>>),
    TimestampTZ(TimeUnit, i32, Seq<i64>),
}

impl View for OwnedColumn {
    type V = ColV;

    open spec fn view(&self) -> ColV {
        match self {
            OwnedColumn::Boolean(v) => ColV::Boolean(v@),
            OwnedColumn::BigInt(v) => ColV::BigInt(v@),
            OwnedColumn::Int128(v) => ColV::Int128(v@),
            OwnedColumn::Decimal75(p, s, v) => ColV::Decimal75(
                p.spec_value(),
                *s,
                v@.map_values(|x: Scalar| x.value),
            ),
            OwnedColumn::VarChar(v) => ColV::VarChar(v@.map_values(|x: String| x@)),
            OwnedColumn::TimestampTZ(u, tz, v) => ColV::TimestampTZ(*u, *tz, v@),
        }
    }
}

impl ColV {
    pub open spec fn len(self) -> nat {
        match self {
            ColV::Boolean(s) => s.len(),
            ColV::BigInt(s) => s.len(),
            ColV::Int128(s) => s.len(),
            ColV::Decimal75(_, _, s) => s.len(),
            ColV::VarChar(s) => s.len(),
            ColV::TimestampTZ(_, _, s) => s.len(),
        }
    }

    pub open spec fn wf(self) -> bool {
        match self {
            ColV::Decimal75(p, _, s) => 1 <= p <= MAX_PRECISION && forall|i: int|
                0 <= i < s.len() ==> s[i] < FIELD_MODULUS,
            _ => true,
        }
    }

    /// Whether this column holds an integer numeric domain.
    pub open spec fn is_integer(self) -> bool {
        self is BigInt || self is Int128
    }

    /// The mathematical values of an integer column.
    pub open spec fn ints(self) -> Seq<int> {
        match self {
            ColV::BigInt(s) => s.map_values(|x: i64| x as int),
            ColV::Int128(s) => s.map_values(|x: i128| x as int),
            _ => Seq::empty(),
        }
    }
}

impl OwnedColumn {
    pub open spec fn wf(self) -> bool {
        self@.wf()
    }

    /// The number of rows this column holds.
    pub fn len(&self) -> (n: usize)
        ensures
            n == self@.len(),
    {
        match self {
            OwnedColumn::Boolean(v) => v.len(),
            OwnedColumn::BigInt(v) => v.len(),
            OwnedColumn::Int128(v) => v.len(),
            OwnedColumn::Decimal75(_, _, v) => v.len(),
            OwnedColumn::VarChar(v) => v.len(),
            OwnedColumn::TimestampTZ(_, _, v) => v.len(),
        }
    }
}

impl Clone for OwnedColumn {
    /// Cloning a column preserves its model exactly.
    fn clone(&self) -> (r: Self)
        ensures
            r@ == self@,
    {
        match self {
            OwnedColumn::Boolean(v) => {
                let c = v.clone();
                proof {
                    assert(c@ =~= v@);
                }
                OwnedColumn::Boolean(c)
            },
            OwnedColumn::BigInt(v) => {
                let c = v.clone();
                proof {
                    assert(c@ =~= v@);
                }
                OwnedColumn::BigInt(c)
            },
            OwnedColumn::Int128(v) => {
                let c = v.clone();
                proof {
                    assert(c@ =~= v@);
                }
                OwnedColumn::Int128(c)
            },
            OwnedColumn::Decimal75(p, sc, v) => {
                let c = v.clone();
                proof {
                    assert(c@ =~= v@);
                    assert(c@.map_values(|x: Scalar| x.value) =~= v@.map_values(
                        |x: Scalar| x.value,
                    ));
                }
                OwnedColumn::Decimal75(*p, *sc, c)
            },
            OwnedColumn::VarChar(v) => {
                let c = v.clone();
                proof {
                    assert(c@ =~= v@);
                    assert(c@.map_values(|x: String| x@) =~= v@.map_values(|x: String| x@));
                }
                OwnedColumn::VarChar(c)
            },
            OwnedColumn::TimestampTZ(u, z, v) => {
                let c = v.clone();
                proof {
                    assert(c@ =~= v@);
                }
                OwnedColumn::TimestampTZ(*u, *z, c)
            },
        }
    }
}

/// Element-wise logical NOT: defined on Boolean columns only.
pub open spec fn not_v(c: ColV) -> Result<ColV, ErrV> {
    match c {
        ColV::Boolean(s) => Ok(ColV::Boolean(s.map_values(|b: bool| !b))),
        _ => Err(ErrV::IncompatibleTypes),
    }
}

/// Element-wise logical AND: defined when both operands are Boolean.
pub open spec fn and_v(a: ColV, b: ColV) -> Result<ColV, ErrV> {
    match (a, b) {
        (ColV::Boolean(x), ColV::Boolean(y)) => Ok(
            ColV::Boolean(Seq::new(x.len(), |i: int| x[i] && y[i])),
        ),
        _ => Err(ErrV::IncompatibleTypes),
    }
}

/// Element-wise logical OR: defined when both operands are Boolean.
pub open spec fn or_v(a: ColV, b: ColV) -> Result<ColV, ErrV> {
    match (a, b) {
        (ColV::Boolean(x), ColV::Boolean(y)) => Ok(
            ColV::Boolean(Seq::new(x.len(), |i: int| x[i] || y[i])),
        ),
        _ => Err(ErrV::IncompatibleTypes),
    }
}

/// Whether two columns form a comparable pair for equality.
pub open spec fn eq_comparable(a: ColV, b: ColV) -> bool {
    ||| (a.is_integer() && b.is_integer())
    ||| (a is Boolean && b is Boolean)
    ||| (a is VarChar && b is VarChar)
    ||| (a matches ColV::Decimal75(_, sa, _) && b matches ColV::Decimal75(_, sb, _) && sa == sb)
    ||| (a matches ColV::TimestampTZ(ua, za, _) && b matches ColV::TimestampTZ(ub, zb, _)
        && ua == ub && za == zb)
}

/// The element-wise equality of two comparable columns, lifted to the
/// original typed domains (integers compare after numeric coercion).
pub open spec fn eq_at(a: ColV, b: ColV, i: int) -> bool {
    if a.is_integer() {
        a.ints()[i] == b.ints()[i]
    } else {
        match (a, b) {
            (ColV::Boolean(x), ColV::Boolean(y)) => x[i] == y[i],
            (ColV::VarChar(x), ColV::VarChar(y)) => x[i] == y[i],
            (ColV::Decimal75(_, _, x), ColV::Decimal75(_, _, y)) => x[i] == y[i],
            (ColV::TimestampTZ(_, _, x), ColV::TimestampTZ(_, _, y)) => x[i] == y[i],
            _ => arbitrary(),
        }
    }
}

/// Element-wise equality: Boolean result over any comparable pair.
pub open spec fn eq_v(a: ColV, b: ColV) -> Result<ColV, ErrV> {
    if eq_comparable(a, b) {
        Ok(ColV::Boolean(Seq::new(a.len(), |i: int| eq_at(a, b, i))))
    } else {
        Err(ErrV::IncompatibleTypes)
    }
}

/// Whether two columns form an ordered pair: integer domains after
/// coercion, or timestamps of one unit and zone. The scalar field carries
/// no native order, so decimal encodings are not ordered here.
pub open spec fn ord_comparable(a: ColV, b: ColV) -> bool {
    ||| (a.is_integer() && b.is_integer())
    ||| (a matches ColV::TimestampTZ(ua, za, _) && b matches ColV::TimestampTZ(ub, zb, _)
        && ua == ub && za == zb)
}

pub open spec fn ord_at(a: ColV, b: ColV, i: int) -> (int, int) {
    if a.is_integer() {
        (a.ints()[i], b.ints()[i])
    } else {
        match (a, b) {
            (ColV::TimestampTZ(_, _, x), ColV::TimestampTZ(_, _, y)) => (x[i] as int, y[i] as int),
            _ => arbitrary(),
        }
    }
}

/// Element-wise `>=` over an ordered pair.
pub open spec fn ge_v(a: ColV, b: ColV) -> Result<ColV, ErrV> {
    if ord_comparable(a, b) {
        Ok(ColV::Boolean(Seq::new(a.len(), |i: int| ord_at(a, b, i).0 >= ord_at(a, b, i).1)))
    } else {
        Err(ErrV::IncompatibleTypes)
    }
}

/// Element-wise `<=` over an ordered pair.
pub open spec fn le_v(a: ColV, b: ColV) -> Result<ColV, ErrV> {
    if ord_comparable(a, b) {
        Ok(ColV::Boolean(Seq::new(a.len(), |i: int| ord_at(a, b, i).0 <= ord_at(a, b, i).1)))
    } else {
        Err(ErrV::IncompatibleTypes)
    }
}

/// Whether an arithmetic result column is the wide integer kind.
pub open spec fn wide_pair(a: ColV, b: ColV) -> bool {
    a is Int128 || b is Int128
}

/// Whether a mathematical value fits the result kind of an integer pair.
pub open spec fn fits(wide: bool, x: int) -> bool {
    if wide {
        i128::MIN <= x <= i128::MAX
    } else {
        i64::MIN <= x <= i64::MAX
    }
}

/// Packs mathematical values back into the result kind of an integer pair.
pub open spec fn pack_ints(wide: bool, s: Seq<int>) -> ColV {
    if wide {
        ColV::Int128(s.map_values(|x: int| x as i128))
    } else {
        ColV::BigInt(s.map_values(|x: int| x as i64))
    }
}

/// Truncating integer division of mathematical integers (rounding toward
/// zero), as the machine division of the typed domains performs it.
pub open spec fn trunc_div(x: int, d: int) -> int {
    if x == 0 {
        0
    } else if x > 0 && d > 0 {
        x / d
    } else if x < 0 && d < 0 {
        (x * -1) / (d * -1)
    } else if x < 0 {
        ((x * -1) / d) * -1
    } else {
        (x / (d * -1)) * -1
    }
}

/// The mathematical value of one element of an arithmetic result.
pub open spec fn add_at(a: ColV, b: ColV, i: int) -> int {
    a.ints()[i] + b.ints()[i]
}

pub open spec fn sub_at(a: ColV, b: ColV, i: int) -> int {
    a.ints()[i] - b.ints()[i]
}

pub open spec fn mul_at(a: ColV, b: ColV, i: int) -> int {
    a.ints()[i] * b.ints()[i]
}

pub open spec fn div_at(a: ColV, b: ColV, i: int) -> int {
    trunc_div(a.ints()[i], b.ints()[i])
}

/// Whether every element of an arithmetic result fits the coerced kind.
pub open spec fn add_all_fit(a: ColV, b: ColV) -> bool {
    forall|i: int| 0 <= i < a.len() ==> fits(wide_pair(a, b), #[trigger] add_at(a, b, i))
}

pub open spec fn sub_all_fit(a: ColV, b: ColV) -> bool {
    forall|i: int| 0 <= i < a.len() ==> fits(wide_pair(a, b), #[trigger] sub_at(a, b, i))
}

pub open spec fn mul_all_fit(a: ColV, b: ColV) -> bool {
    forall|i: int| 0 <= i < a.len() ==> fits(wide_pair(a, b), #[trigger] mul_at(a, b, i))
}

pub open spec fn div_all_fit(a: ColV, b: ColV) -> bool {
    forall|i: int| 0 <= i < a.len() ==> fits(wide_pair(a, b), #[trigger] div_at(a, b, i))
}

/// Whether a divisor column holds a zero-valued element.
pub open spec fn has_zero(b: ColV) -> bool {
    exists|i: int| 0 <= i < b.len() && #[trigger] b.ints()[i] == 0
}

/// Element-wise addition, exact over the mathematical integers: the
/// result is the coerced integer kind when every element fits it, and an
/// overflow error otherwise. Arithmetic is defined on the integer
/// numeric domains; decimal operands are rejected as incompatible, since
/// deriving a result precision and scale belongs to a wider decimal
/// engine than this core.
pub open spec fn add_v(a: ColV, b: ColV) -> Result<ColV, ErrV> {
    if a.is_integer() && b.is_integer() {
        if add_all_fit(a, b) {
            Ok(pack_ints(wide_pair(a, b), Seq::new(a.len(), |i: int| add_at(a, b, i))))
        } else {
            Err(ErrV::IntegerOverflow)
        }
    } else {
        Err(ErrV::IncompatibleTypes)
    }
}

/// Element-wise subtraction; see `add_v`.
pub open spec fn sub_v(a: ColV, b: ColV) -> Result<ColV, ErrV> {
    if a.is_integer() && b.is_integer() {
        if sub_all_fit(a, b) {
            Ok(pack_ints(wide_pair(a, b), Seq::new(a.len(), |i: int| sub_at(a, b, i))))
        } else {
            Err(ErrV::IntegerOverflow)
        }
    } else {
        Err(ErrV::IncompatibleTypes)
    }
}

/// Element-wise multiplication; see `add_v`.
pub open spec fn mul_v(a: ColV, b: ColV) -> Result<ColV, ErrV> {
    if a.is_integer() && b.is_integer() {
        if mul_all_fit(a, b) {
            Ok(pack_ints(wide_pair(a, b), Seq::new(a.len(), |i: int| mul_at(a, b, i))))
        } else {
            Err(ErrV::IntegerOverflow)
        }
    } else {
        Err(ErrV::IncompatibleTypes)
    }
}

/// Element-wise truncating division: fails on a zero divisor element
/// before any overflow is considered, so the failure is deterministic.
pub open spec fn div_v(a: ColV, b: ColV) -> Result<ColV, ErrV> {
    if a.is_integer() && b.is_integer() {
        if has_zero(b) {
            Err(ErrV::DivisionByZero)
        } else if div_all_fit(a, b) {
            Ok(pack_ints(wide_pair(a, b), Seq::new(a.len(), |i: int| div_at(a, b, i))))
        } else {
            Err(ErrV::IntegerOverflow)
        }
    } else {
        Err(ErrV::IncompatibleTypes)
    }
}

/// Whether the executable outcome `r` denotes the modelled outcome `m`.
pub open spec fn res_matches(r: Result<OwnedColumn, EvaluationError>, m: Result<ColV, ErrV>) -> bool {
    match (r, m) {
        (Ok(c), Ok(v)) => c@ == v,
        (Err(e), Err(me)) => crate::errors::err_matches(e, me),
        _ => false,
    }
}

fn widen(v: &Vec<i64>) -> (r: Vec<i128>)
    ensures
        r@ == v@.map_values(|x: i64| x as i128),
{
    let mut out: Vec<i128> = Vec::new();
    let mut i: usize = 0;
    while i < v.len()
        invariant
            i <= v@.len(),
            out@.len() == i,
            forall|j: int| 0 <= j < i ==> out@[j] == v@[j] as i128,
        decreases v@.len() - i,
    {
        out.push(v[i] as i128);
        i += 1;
    }
    proof {
        assert(out@ =~= v@.map_values(|x: i64| x as i128));
    }
    out
}

fn add_i64(x: &Vec<i64>, y: &Vec<i64>) -> (r: Result<Vec<i64>, EvaluationError>)
    requires
        x@.len() == y@.len(),
    ensures
        (forall|i: int| 0 <= i < x@.len() ==> fits(false, x@[i] + y@[i])) ==> (r matches Ok(v)
            && v@.len() == x@.len() && forall|i: int| 0 <= i < x@.len() ==> v@[i] == x@[i] + y@[i]),
        !(forall|i: int| 0 <= i < x@.len() ==> fits(false, x@[i] + y@[i])) ==> (r matches Err(e)
            && e is IntegerOverflow),
{
    let mut out: Vec<i64> = Vec::new();
    let mut i: usize = 0;
    while i < x.len()
        invariant
            i <= x@.len(),
            x@.len() == y@.len(),
            out@.len() == i,
            forall|j: int| 0 <= j < i ==> out@[j] == x@[j] + y@[j],
        decreases x@.len() - i,
    {
        match x[i].checked_add(y[i]) {
            Some(s) => out.push(s),
            None => {
                return Err(EvaluationError::IntegerOverflow);
            },
        }
        i += 1;
    }
    proof {
        assert forall|k: int| 0 <= k < x@.len() implies fits(false, x@[k] + y@[k]) by {
            assert(out@[k] == x@[k] + y@[k]);
        }
    }
    Ok(out)
}

fn add_i128(x: &Vec<i128>, y: &Vec<i128>) -> (r: Result<Vec<i128>, EvaluationError>)
    requires
        x@.len() == y@.len(),
    ensures
        (forall|i: int| 0 <= i < x@.len() ==> fits(true, x@[i] + y@[i])) ==> (r matches Ok(v)
            && v@.len() == x@.len() && forall|i: int| 0 <= i < x@.len() ==> v@[i] == x@[i] + y@[i]),
        !(forall|i: int| 0 <= i < x@.len() ==> fits(true, x@[i] + y@[i])) ==> (r matches Err(e)
            && e is IntegerOverflow),
{
    let mut out: Vec<i128> = Vec::new();
    let mut i: usize = 0;
    while i < x.len()
        invariant
            i <= x@.len(),
            x@.len() == y@.len(),
            out@.len() == i,
            forall|j: int| 0 <= j < i ==> out@[j] == x@[j] + y@[j],
        decreases x@.len() - i,
    {
        match x[i].checked_add(y[i]) {
            Some(s) => out.push(s),
            None => {
                return Err(EvaluationError::IntegerOverflow);
            },
        }
        i += 1;
    }
    proof {
        assert forall|k: int| 0 <= k < x@.len() implies fits(true, x@[k] + y@[k]) by {
            assert(out@[k] == x@[k] + y@[k]);
        }
    }
    Ok(out)
}

fn sub_i64(x: &Vec<i64>, y: &Vec<i64>) -> (r: Result<Vec<i64>, EvaluationError>)
    requires
        x@.len() == y@.len(),
    ensures
        (forall|i: int| 0 <= i < x@.len() ==> fits(false, x@[i] - y@[i])) ==> (r matches Ok(v)
            && v@.len() == x@.len() && forall|i: int| 0 <= i < x@.len() ==> v@[i] == x@[i] - y@[i]),
        !(forall|i: int| 0 <= i < x@.len() ==> fits(false, x@[i] - y@[i])) ==> (r matches Err(e)
            && e is IntegerOverflow),
{
    let mut out: Vec<i64> = Vec::new();
    let mut i: usize = 0;
    while i < x.len()
        invariant
            i <= x@.len(),
            x@.len() == y@.len(),
            out@.len() == i,
            forall|j: int| 0 <= j < i ==> out@[j] == x@[j] - y@[j],
        decreases x@.len() - i,
    {
        match x[i].checked_sub(y[i]) {
            Some(s) => out.push(s),
            None => {
                return Err(EvaluationError::IntegerOverflow);
            },
        }
        i += 1;
    }
    proof {
        assert forall|k: int| 0 <= k < x@.len() implies fits(false, x@[k] - y@[k]) by {
            assert(out@[k] == x@[k] - y@[k]);
        }
    }
    Ok(out)
}

fn sub_i128(x: &Vec<i128>, y: &Vec<i128>) -> (r: Result<Vec<i128>, EvaluationError>)
    requires
        x@.len() == y@.len(),
    ensures
        (forall|i: int| 0 <= i < x@.len() ==> fits(true, x@[i] - y@[i])) ==> (r matches Ok(v)
            && v@.len() == x@.len() && forall|i: int| 0 <= i < x@.len() ==> v@[i] == x@[i] - y@[i]),
        !(forall|i: int| 0 <= i < x@.len() ==> fits(true, x@[i] - y@[i])) ==> (r matches Err(e)
            && e is IntegerOverflow),
{
    let mut out: Vec<i128> = Vec::new();
    let mut i: usize = 0;
    while i < x.len()
        invariant
            i <= x@.len(),
            x@.len() == y@.len(),
            out@.len() == i,
            forall|j: int| 0 <= j < i ==> out@[j] == x@[j] - y@[j],
        decreases x@.len() - i,
    {
        match x[i].checked_sub(y[i]) {
            Some(s) => out.push(s),
            None => {
                return Err(EvaluationError::IntegerOverflow);
            },
        }
        i += 1;
    }
    proof {
        assert forall|k: int| 0 <= k < x@.len() implies fits(true, x@[k] - y@[k]) by {
            assert(out@[k] == x@[k] - y@[k]);
        }
    }
    Ok(out)
}

fn mul_i64(x: &Vec<i64>, y: &Vec<i64>) -> (r: Result<Vec<i64>, EvaluationError>)
    requires
        x@.len() == y@.len(),
    ensures
        (forall|i: int| 0 <= i < x@.len() ==> fits(false, x@[i] * y@[i])) ==> (r matches Ok(v)
            && v@.len() == x@.len() && forall|i: int| 0 <= i < x@.len() ==> v@[i] == x@[i] * y@[i]),
        !(forall|i: int| 0 <= i < x@.len() ==> fits(false, x@[i] * y@[i])) ==> (r matches Err(e)
            && e is IntegerOverflow),
{
    let mut out: Vec<i64> = Vec::new();
    let mut i: usize = 0;
    while i < x.len()
        invariant
            i <= x@.len(),
            x@.len() == y@.len(),
            out@.len() == i,
            forall|j: int| 0 <= j < i ==> out@[j] == x@[j] * y@[j],
        decreases x@.len() - i,
    {
        match x[i].checked_mul(y[i]) {
            Some(s) => out.push(s),
            None => {
                return Err(EvaluationError::IntegerOverflow);
            },
        }
        i += 1;
    }
    proof {
        assert forall|k: int| 0 <= k < x@.len() implies fits(false, x@[k] * y@[k]) by {
            assert(out@[k] == x@[k] * y@[k]);
        }
    }
    Ok(out)
}

fn mul_i128(x: &Vec<i128>, y: &Vec<i128>) -> (r: Result<Vec<i128>, EvaluationError>)
    requires
        x@.len() == y@.len(),
    ensures
        (forall|i: int| 0 <= i < x@.len() ==> fits(true, x@[i] * y@[i])) ==> (r matches Ok(v)
            && v@.len() == x@.len() && forall|i: int| 0 <= i < x@.len() ==> v@[i] == x@[i] * y@[i]),
        !(forall|i: int| 0 <= i < x@.len() ==> fits(true, x@[i] * y@[i])) ==> (r matches Err(e)
            && e is IntegerOverflow),
{
    let mut out: Vec<i128> = Vec::new();
    let mut i: usize = 0;
    while i < x.len()
        invariant
            i <= x@.len(),
            x@.len() == y@.len(),
            out@.len() == i,
            forall|j: int| 0 <= j < i ==> out@[j] == x@[j] * y@[j],
        decreases x@.len() - i,
    {
        match x[i].checked_mul(y[i]) {
            Some(s) => out.push(s),
            None => {
                return Err(EvaluationError::IntegerOverflow);
            },
        }
        i += 1;
    }
    proof {
        assert forall|k: int| 0 <= k < x@.len() implies fits(true, x@[k] * y@[k]) by {
            assert(out@[k] == x@[k] * y@[k]);
        }
    }
    Ok(out)
}

fn div_i64(x: &Vec<i64>, y: &Vec<i64>) -> (r: Result<Vec<i64>, EvaluationError>)
    requires
        x@.len() == y@.len(),
    ensures
        (exists|i: int| 0 <= i < y@.len() && y@[i] == 0) ==> (r matches Err(e)
            && e is DivisionByZero),
        (forall|i: int| 0 <= i < y@.len() ==> y@[i] != 0) ==> {
            &&& (forall|i: int| 0 <= i < x@.len() ==> fits(false, trunc_div(x@[i] as int, y@[i] as int)))
                ==> (r matches Ok(v) && v@.len() == x@.len() && forall|i: int|
                0 <= i < x@.len() ==> v@[i] == trunc_div(x@[i] as int, y@[i] as int))
            &&& !(forall|i: int| 0 <= i < x@.len() ==> fits(false, trunc_div(x@[i] as int, y@[i] as int)))
                ==> (r matches Err(e) && e is IntegerOverflow)
        },
{
    let mut i: usize = 0;
    while i < y.len()
        invariant
            i <= y@.len(),
            forall|j: int| 0 <= j < i ==> y@[j] != 0,
        decreases y@.len() - i,
    {
        if y[i] == 0 {
            return Err(EvaluationError::DivisionByZero);
        }
        i += 1;
    }
    let mut out: Vec<i64> = Vec::new();
    let mut k: usize = 0;
    while k < x.len()
        invariant
            k <= x@.len(),
            x@.len() == y@.len(),
            out@.len() == k,
            forall|j: int| 0 <= j < y@.len() ==> y@[j] != 0,
            forall|j: int| 0 <= j < k ==> out@[j] == trunc_div(x@[j] as int, y@[j] as int),
        decreases x@.len() - k,
    {
        match x[k].checked_div(y[k]) {
            Some(s) => out.push(s),
            None => {
                return Err(EvaluationError::IntegerOverflow);
            },
        }
        k += 1;
    }
    proof {
        assert forall|j: int| 0 <= j < x@.len() implies fits(false, trunc_div(x@[j] as int, y@[j] as int)) by {
            assert(out@[j] == trunc_div(x@[j] as int, y@[j] as int));
        }
    }
    Ok(out)
}

fn div_i128(x: &Vec<i128>, y: &Vec<i128>) -> (r: Result<Vec<i128>, EvaluationError>)
    requires
        x@.len() == y@.len(),
    ensures
        (exists|i: int| 0 <= i < y@.len() && y@[i] == 0) ==> (r matches Err(e)
            && e is DivisionByZero),
        (forall|i: int| 0 <= i < y@.len() ==> y@[i] != 0) ==> {
            &&& (forall|i: int| 0 <= i < x@.len() ==> fits(true, trunc_div(x@[i] as int, y@[i] as int)))
                ==> (r matches Ok(v) && v@.len() == x@.len() && forall|i: int|
                0 <= i < x@.len() ==> v@[i] == trunc_div(x@[i] as int, y@[i] as int))
            &&& !(forall|i: int| 0 <= i < x@.len() ==> fits(true, trunc_div(x@[i] as int, y@[i] as int)))
                ==> (r matches Err(e) && e is IntegerOverflow)
        },
{
    let mut i: usize = 0;
    while i < y.len()
        invariant
            i <= y@.len(),
            forall|j: int| 0 <= j < i ==> y@[j] != 0,
        decreases y@.len() - i,
    {
        if y[i] == 0 {
            return Err(EvaluationError::DivisionByZero);
        }
        i += 1;
    }
    let mut out: Vec<i128> = Vec::new();
    let mut k: usize = 0;
    while k < x.len()
        invariant
            k <= x@.len(),
            x@.len() == y@.len(),
            out@.len() == k,
            forall|j: int| 0 <= j < y@.len() ==> y@[j] != 0,
            forall|j: int| 0 <= j < k ==> out@[j] == trunc_div(x@[j] as int, y@[j] as int),
        decreases x@.len() - k,
    {
        match x[k].checked_div(y[k]) {
            Some(s) => out.push(s),
            None => {
                return Err(EvaluationError::IntegerOverflow);
            },
        }
        k += 1;
    }
    proof {
        assert forall|j: int| 0 <= j < x@.len() implies fits(true, trunc_div(x@[j] as int, y@[j] as int)) by {
            assert(out@[j] == trunc_div(x@[j] as int, y@[j] as int));
        }
    }
    Ok(out)
}

fn not_bool(x: &Vec<bool>) -> (r: Vec<bool>)
    ensures
        r@.len() == x@.len(),
        forall|i: int| 0 <= i < x@.len() ==> r@[i] == !x@[i],
{
    let mut out: Vec<bool> = Vec::new();
    let mut i: usize = 0;
    while i < x.len()
        invariant
            i <= x@.len(),
            out@.len() == i,
            forall|j: int| 0 <= j < i ==> out@[j] == !x@[j],
        decreases x@.len() - i,
    {
        out.push(!x[i]);
        i += 1;
    }
    out
}

fn and_bool(x: &Vec<bool>, y: &Vec<bool>) -> (r: Vec<bool>)
    requires
        x@.len() == y@.len(),
    ensures
        r@.len() == x@.len(),
        forall|i: int| 0 <= i < x@.len() ==> r@[i] == (x@[i] && y@[i]),
{
    let mut out: Vec<bool> = Vec::new();
    let mut i: usize = 0;
    while i < x.len()
        invariant
            i <= x@.len(),
            x@.len() == y@.len(),
            out@.len() == i,
            forall|j: int| 0 <= j < i ==> out@[j] == (x@[j] && y@[j]),
        decreases x@.len() - i,
    {
        out.push(x[i] && y[i]);
        i += 1;
    }
    out
}

fn or_bool(x: &Vec<bool>, y: &Vec<bool>) -> (r: Vec<bool>)
    requires
        x@.len() == y@.len(),
    ensures
        r@.len() == x@.len(),
        forall|i: int| 0 <= i < x@.len() ==> r@[i] == (x@[i] || y@[i]),
{
    let mut out: Vec<bool> = Vec::new();
    let mut i: usize = 0;
    while i < x.len()
        invariant
            i <= x@.len(),
            x@.len() == y@.len(),
            out@.len() == i,
            forall|j: int| 0 <= j < i ==> out@[j] == (x@[j] || y@[j]),
        decreases x@.len() - i,
    {
        out.push(x[i] || y[i]);
        i += 1;
    }
    out
}

fn eq_bool(x: &Vec<bool>, y: &Vec<bool>) -> (r: Vec<bool>)
    requires
        x@.len() == y@.len(),
    ensures
        r@.len() == x@.len(),
        forall|i: int| 0 <= i < x@.len() ==> r@[i] == (x@[i] == y@[i]),
{
    let mut out: Vec<bool> = Vec::new();
    let mut i: usize = 0;
    while i < x.len()
        invariant
            i <= x@.len(),
            x@.len() == y@.len(),
            out@.len() == i,
            forall|j: int| 0 <= j < i ==> out@[j] == (x@[j] == y@[j]),
        decreases x@.len() - i,
    {
        out.push(x[i] == y[i]);
        i += 1;
    }
    out
}

fn eq_i128(x: &Vec<i128>, y: &Vec<i128>) -> (r: Vec<bool>)
    requires
        x@.len() == y@.len(),
    ensures
        r@.len() == x@.len(),
        forall|i: int| 0 <= i < x@.len() ==> r@[i] == (x@[i] == y@[i]),
{
    let mut out: Vec<bool> = Vec::new();
    let mut i: usize = 0;
    while i < x.len()
        invariant
            i <= x@.len(),
            x@.len() == y@.len(),
            out@.len() == i,
            forall|j: int| 0 <= j < i ==> out@[j] == (x@[j] == y@[j]),
        decreases x@.len() - i,
    {
        out.push(x[i] == y[i]);
        i += 1;
    }
    out
}

fn ge_i128(x: &Vec<i128>, y: &Vec<i128>) -> (r: Vec<bool>)
    requires
        x@.len() == y@.len(),
    ensures
        r@.len() == x@.len(),
        forall|i: int| 0 <= i < x@.len() ==> r@[i] == (x@[i] >= y@[i]),
{
    let mut out: Vec<bool> = Vec::new();
    let mut i: usize = 0;
    while i < x.len()
        invariant
            i <= x@.len(),
            x@.len() == y@.len(),
            out@.len() == i,
            forall|j: int| 0 <= j < i ==> out@[j] == (x@[j] >= y@[j]),
        decreases x@.len() - i,
    {
        out.push(x[i] >= y[i]);
        i += 1;
    }
    out
}

fn eq_str(x: &Vec<String>, y: &Vec<String>) -> (r: Vec<bool>)
    requires
        x@.len() == y@.len(),
    ensures
        r@.len() == x@.len(),
        forall|i: int| 0 <= i < x@.len() ==> r@[i] == (x@[i]@ == y@[i]@),
{
    let mut out: Vec<bool> = Vec::new();
    let mut i: usize = 0;
    while i < x.len()
        invariant
            i <= x@.len(),
            x@.len() == y@.len(),
            out@.len() == i,
            forall|j: int| 0 <= j < i ==> out@[j] == (x@[j]@ == y@[j]@),
        decreases x@.len() - i,
    {
        out.push(x[i] == y[i]);
        i += 1;
    }
    out
}

fn eq_scalar(x: &Vec<Scalar>, y: &Vec<Scalar>) -> (r: Vec<bool>)
    requires
        x@.len() == y@.len(),
    ensures
        r@.len() == x@.len(),
        forall|i: int| 0 <= i < x@.len() ==> r@[i] == (x@[i].value == y@[i].value),
{
    let mut out: Vec<bool> = Vec::new();
    let mut i: usize = 0;
    while i < x.len()
        invariant
            i <= x@.len(),
            x@.len() == y@.len(),
            out@.len() == i,
            forall|j: int| 0 <= j < i ==> out@[j] == (x@[j].value == y@[j].value),
        decreases x@.len() - i,
    {
        out.push(x[i] == y[i]);
        i += 1;
    }
    out
}

impl OwnedColumn {
    /// Element-wise logical NOT over a Boolean column.
    pub fn element_wise_not(&self) -> (r: Result<OwnedColumn, EvaluationError>)
        ensures
            res_matches(r, not_v(self@)),
    {
        match self {
            OwnedColumn::Boolean(x) => {
                let v = not_bool(x);
                proof {
                    assert(v@ =~= x@.map_values(|b: bool| !b));
                }
                Ok(OwnedColumn::Boolean(v))
            },
            _ => Err(EvaluationError::IncompatibleTypes),
        }
    }

    /// Element-wise logical AND over two Boolean columns.
    pub fn element_wise_and(&self, rhs: &OwnedColumn) -> (r: Result<OwnedColumn, EvaluationError>)
        requires
            self@.len() == rhs@.len(),
        ensures
            res_matches(r, and_v(self@, rhs@)),
    {
        match (self, rhs) {
            (OwnedColumn::Boolean(x), OwnedColumn::Boolean(y)) => {
                let v = and_bool(x, y);
                proof {
                    assert(v@ =~= Seq::new(x@.len(), |i: int| x@[i] && y@[i]));
                }
                Ok(OwnedColumn::Boolean(v))
            },
            _ => Err(EvaluationError::IncompatibleTypes),
        }
    }

    /// Element-wise logical OR over two Boolean columns.
    pub fn element_wise_or(&self, rhs: &OwnedColumn) -> (r: Result<OwnedColumn, EvaluationError>)
        requires
            self@.len() == rhs@.len(),
        ensures
            res_matches(r, or_v(self@, rhs@)),
    {
        match (self, rhs) {
            (OwnedColumn::Boolean(x), OwnedColumn::Boolean(y)) => {
                let v = or_bool(x, y);
                proof {
                    assert(v@ =~= Seq::new(x@.len(), |i: int| x@[i] || y@[i]));
                }
                Ok(OwnedColumn::Boolean(v))
            },
            _ => Err(EvaluationError::IncompatibleTypes),
        }
    }

    /// Element-wise equality, lifted to the original typed domains.
    pub fn element_wise_eq(&self, rhs: &OwnedColumn) -> (r: Result<OwnedColumn, EvaluationError>)
        requires
            self@.len() == rhs@.len(),
        ensures
            res_matches(r, eq_v(self@, rhs@)),
    {
        let n: usize = self.len();
        match (self, rhs) {
            (OwnedColumn::Boolean(x), OwnedColumn::Boolean(y)) => {
                let v = eq_bool(x, y);
                proof {
                    assert(v@ =~= Seq::new(self@.len(), |i: int| eq_at(self@, rhs@, i)));
                }
                Ok(OwnedColumn::Boolean(v))
            },
            (OwnedColumn::VarChar(x), OwnedColumn::VarChar(y)) => {
                let v = eq_str(x, y);
                proof {
                    assert(v@ =~= Seq::new(self@.len(), |i: int| eq_at(self@, rhs@, i)));
                }
                Ok(OwnedColumn::Boolean(v))
            },
            (OwnedColumn::BigInt(x), OwnedColumn::BigInt(y)) => {
                let xw = widen(x);
                let yw = widen(y);
                let v = eq_i128(&xw, &yw);
                proof {
                    assert(v@ =~= Seq::new(self@.len(), |i: int| eq_at(self@, rhs@, i)));
                }
                Ok(OwnedColumn::Boolean(v))
            },
            (OwnedColumn::BigInt(x), OwnedColumn::Int128(y)) => {
                let xw = widen(x);
                let v = eq_i128(&xw, y);
                proof {
                    assert(v@ =~= Seq::new(self@.len(), |i: int| eq_at(self@, rhs@, i)));
                }
                Ok(OwnedColumn::Boolean(v))
            },
            (OwnedColumn::Int128(x), OwnedColumn::BigInt(y)) => {
                let yw = widen(y);
                let v = eq_i128(x, &yw);
                proof {
                    assert(v@ =~= Seq::new(self@.len(), |i: int| eq_at(self@, rhs@, i)));
                }
                Ok(OwnedColumn::Boolean(v))
            },
            (OwnedColumn::Int128(x), OwnedColumn::Int128(y)) => {
                let v = eq_i128(x, y);
                proof {
                    assert(v@ =~= Seq::new(self@.len(), |i: int| eq_at(self@, rhs@, i)));
                }
                Ok(OwnedColumn::Boolean(v))
            },
            (OwnedColumn::Decimal75(p1, s1, x), OwnedColumn::Decimal75(p2, s2, y)) => {
                if *s1 == *s2 {
                    let v = eq_scalar(x, y);
                    proof {
                        assert(v@ =~= Seq::new(self@.len(), |i: int| eq_at(self@, rhs@, i)));
                    }
                    Ok(OwnedColumn::Boolean(v))
                } else {
                    Err(EvaluationError::IncompatibleTypes)
                }
            },
            (OwnedColumn::TimestampTZ(u1, z1, x), OwnedColumn::TimestampTZ(u2, z2, y)) => {
                if *u1 == *u2 && *z1 == *z2 {
                    let xw = widen(x);
                    let yw = widen(y);
                    let v = eq_i128(&xw, &yw);
                    proof {
                        assert(v@ =~= Seq::new(self@.len(), |i: int| eq_at(self@, rhs@, i)));
                    }
                    Ok(OwnedColumn::Boolean(v))
                } else {
                    Err(EvaluationError::IncompatibleTypes)
                }
            },
            _ => Err(EvaluationError::IncompatibleTypes),
        }
    }

    /// Element-wise `>=` over an ordered pair of columns.
    pub fn element_wise_ge(&self, rhs: &OwnedColumn) -> (r: Result<OwnedColumn, EvaluationError>)
        requires
            self@.len() == rhs@.len(),
        ensures
            res_matches(r, ge_v(self@, rhs@)),
    {
        match (self, rhs) {
            (OwnedColumn::BigInt(x), OwnedColumn::BigInt(y)) => {
                let xw = widen(x);
                let yw = widen(y);
                let v = ge_i128(&xw, &yw);
                proof {
                    assert(v@ =~= Seq::new(
                        self@.len(),
                        |i: int| ord_at(self@, rhs@, i).0 >= ord_at(self@, rhs@, i).1,
                    ));
                }
                Ok(OwnedColumn::Boolean(v))
            },
            (OwnedColumn::BigInt(x), OwnedColumn::Int128(y)) => {
                let xw = widen(x);
                let v = ge_i128(&xw, y);
                proof {
                    assert(v@ =~= Seq::new(
                        self@.len(),
                        |i: int| ord_at(self@, rhs@, i).0 >= ord_at(self@, rhs@, i).1,
                    ));
                }
                Ok(OwnedColumn::Boolean(v))
            },
            (OwnedColumn::Int128(x), OwnedColumn::BigInt(y)) => {
                let yw = widen(y);
                let v = ge_i128(x, &yw);
                proof {
                    assert(v@ =~= Seq::new(
                        self@.len(),
                        |i: int| ord_at(self@, rhs@, i).0 >= ord_at(self@, rhs@, i).1,
                    ));
                }
                Ok(OwnedColumn::Boolean(v))
            },
            (OwnedColumn::Int128(x), OwnedColumn::Int128(y)) => {
                let v = ge_i128(x, y);
                proof {
                    assert(v@ =~= Seq::new(
                        self@.len(),
                        |i: int| ord_at(self@, rhs@, i).0 >= ord_at(self@, rhs@, i).1,
                    ));
                }
                Ok(OwnedColumn::Boolean(v))
            },
            (OwnedColumn::TimestampTZ(u1, z1, x), OwnedColumn::TimestampTZ(u2, z2, y)) => {
                if *u1 == *u2 && *z1 == *z2 {
                    let xw = widen(x);
                    let yw = widen(y);
                    let v = ge_i128(&xw, &yw);
                    proof {
                        assert(v@ =~= Seq::new(
                            self@.len(),
                            |i: int| ord_at(self@, rhs@, i).0 >= ord_at(self@, rhs@, i).1,
                        ));
                    }
                    Ok(OwnedColumn::Boolean(v))
                } else {
                    Err(EvaluationError::IncompatibleTypes)
                }
            },
            _ => Err(EvaluationError::IncompatibleTypes),
        }
    }

    /// Element-wise `<=` over an ordered pair of columns.
    pub fn element_wise_le(&self, rhs: &OwnedColumn) -> (r: Result<OwnedColumn, EvaluationError>)
        requires
            self@.len() == rhs@.len(),
        ensures
            res_matches(r, le_v(self@, rhs@)),
    {
        match (self, rhs) {
            (OwnedColumn::BigInt(x), OwnedColumn::BigInt(y)) => {
                let xw = widen(x);
                let yw = widen(y);
                let v = ge_i128(&yw, &xw);
                proof {
                    assert(v@ =~= Seq::new(
                        self@.len(),
                        |i: int| ord_at(self@, rhs@, i).0 <= ord_at(self@, rhs@, i).1,
                    ));
                }
                Ok(OwnedColumn::Boolean(v))
            },
            (OwnedColumn::BigInt(x), OwnedColumn::Int128(y)) => {
                let xw = widen(x);
                let v = ge_i128(y, &xw);
                proof {
                    assert(v@ =~= Seq::new(
                        self@.len(),
                        |i: int| ord_at(self@, rhs@, i).0 <= ord_at(self@, rhs@, i).1,
                    ));
                }
                Ok(OwnedColumn::Boolean(v))
            },
            (OwnedColumn::Int128(x), OwnedColumn::BigInt(y)) => {
                let yw = widen(y);
                let v = ge_i128(&yw, x);
                proof {
                    assert(v@ =~= Seq::new(
                        self@.len(),
                        |i: int| ord_at(self@, rhs@, i).0 <= ord_at(self@, rhs@, i).1,
                    ));
                }
                Ok(OwnedColumn::Boolean(v))
            },
            (OwnedColumn::Int128(x), OwnedColumn::Int128(y)) => {
                let v = ge_i128(y, x);
                proof {
                    assert(v@ =~= Seq::new(
                        self@.len(),
                        |i: int| ord_at(self@, rhs@, i).0 <= ord_at(self@, rhs@, i).1,
                    ));
                }
                Ok(OwnedColumn::Boolean(v))
            },
            (OwnedColumn::TimestampTZ(u1, z1, x), OwnedColumn::TimestampTZ(u2, z2, y)) => {
                if *u1 == *u2 && *z1 == *z2 {
                    let xw = widen(x);
                    let yw = widen(y);
                    let v = ge_i128(&yw, &xw);
                    proof {
                        assert(v@ =~= Seq::new(
                            self@.len(),
                            |i: int| ord_at(self@, rhs@, i).0 <= ord_at(self@, rhs@, i).1,
                        ));
                    }
                    Ok(OwnedColumn::Boolean(v))
                } else {
                    Err(EvaluationError::IncompatibleTypes)
                }
            },
            _ => Err(EvaluationError::IncompatibleTypes),
        }
    }

    /// Element-wise addition over integer numeric columns.
    pub fn element_wise_add(&self, rhs: &OwnedColumn) -> (r: Result<OwnedColumn, EvaluationError>)
        requires
            self@.len() == rhs@.len(),
        ensures
            res_matches(r, add_v(self@, rhs@)),
    {
        match (self, rhs) {
            (OwnedColumn::BigInt(x), OwnedColumn::BigInt(y)) => {
                match add_i64(x, y) {
                    Ok(v) => {
                        proof {
                            assert forall|i: int| 0 <= i < self@.len() implies fits(
                                wide_pair(self@, rhs@),
                                #[trigger] add_at(self@, rhs@, i),
                            ) by {
                                assert(v@[i] == x@[i] + y@[i]);
                            }
                            let sq = add_v(self@, rhs@)->Ok_0->BigInt_0;
                            assert forall|i: int| 0 <= i < self@.len() implies sq[i] == v@[i] by {
                                assert(v@[i] == x@[i] + y@[i]);
                                assert(add_at(self@, rhs@, i) == v@[i]);
                            }
                            assert(v@ =~= sq);
                        }
                        Ok(OwnedColumn::BigInt(v))
                    },
                    Err(e) => {
                        proof {
                            if add_all_fit(self@, rhs@) {
                                assert forall|i: int|
                                    0 <= i < x@.len() implies fits(false, x@[i] + y@[i]) by {
                                    assert(fits(wide_pair(self@, rhs@), add_at(self@, rhs@, i)));
                                }
                                assert(false);
                            }
                        }
                        Err(e)
                    },
                }
            },
            (OwnedColumn::BigInt(x), OwnedColumn::Int128(y)) => {
                let xw = widen(x);
                match add_i128(&xw, y) {
                    Ok(v) => {
                        proof {
                            assert forall|i: int| 0 <= i < self@.len() implies fits(
                                wide_pair(self@, rhs@),
                                #[trigger] add_at(self@, rhs@, i),
                            ) by {
                                assert(v@[i] == xw@[i] + y@[i]);
                            }
                            let sq = add_v(self@, rhs@)->Ok_0->Int128_0;
                            assert forall|i: int| 0 <= i < self@.len() implies sq[i] == v@[i] by {
                                assert(v@[i] == xw@[i] + y@[i]);
                                assert(add_at(self@, rhs@, i) == v@[i]);
                            }
                            assert(v@ =~= sq);
                        }
                        Ok(OwnedColumn::Int128(v))
                    },
                    Err(e) => {
                        proof {
                            if add_all_fit(self@, rhs@) {
                                assert forall|i: int|
                                    0 <= i < xw@.len() implies fits(true, xw@[i] + y@[i]) by {
                                    assert(fits(wide_pair(self@, rhs@), add_at(self@, rhs@, i)));
                                }
                                assert(false);
                            }
                        }
                        Err(e)
                    },
                }
            },
            (OwnedColumn::Int128(x), OwnedColumn::BigInt(y)) => {
                let yw = widen(y);
                match add_i128(x, &yw) {
                    Ok(v) => {
                        proof {
                            assert forall|i: int| 0 <= i < self@.len() implies fits(
                                wide_pair(self@, rhs@),
                                #[trigger] add_at(self@, rhs@, i),
                            ) by {
                                assert(v@[i] == x@[i] + yw@[i]);
                            }
                            let sq = add_v(self@, rhs@)->Ok_0->Int128_0;
                            assert forall|i: int| 0 <= i < self@.len() implies sq[i] == v@[i] by {
                                assert(v@[i] == x@[i] + yw@[i]);
                                assert(add_at(self@, rhs@, i) == v@[i]);
                            }
                            assert(v@ =~= sq);
                        }
                        Ok(OwnedColumn::Int128(v))
                    },
                    Err(e) => {
                        proof {
                            if add_all_fit(self@, rhs@) {
                                assert forall|i: int|
                                    0 <= i < x@.len() implies fits(true, x@[i] + yw@[i]) by {
                                    assert(fits(wide_pair(self@, rhs@), add_at(self@, rhs@, i)));
                                }
                                assert(false);
                            }
                        }
                        Err(e)
                    },
                }
            },
            (OwnedColumn::Int128(x), OwnedColumn::Int128(y)) => {
                match add_i128(x, y) {
                    Ok(v) => {
                        proof {
                            assert forall|i: int| 0 <= i < self@.len() implies fits(
                                wide_pair(self@, rhs@),
                                #[trigger] add_at(self@, rhs@, i),
                            ) by {
                                assert(v@[i] == x@[i] + y@[i]);
                            }
                            let sq = add_v(self@, rhs@)->Ok_0->Int128_0;
                            assert forall|i: int| 0 <= i < self@.len() implies sq[i] == v@[i] by {
                                assert(v@[i] == x@[i] + y@[i]);
                                assert(add_at(self@, rhs@, i) == v@[i]);
                            }
                            assert(v@ =~= sq);
                        }
                        Ok(OwnedColumn::Int128(v))
                    },
                    Err(e) => {
                        proof {
                            if add_all_fit(self@, rhs@) {
                                assert forall|i: int|
                                    0 <= i < x@.len() implies fits(true, x@[i] + y@[i]) by {
                                    assert(fits(wide_pair(self@, rhs@), add_at(self@, rhs@, i)));
                                }
                                assert(false);
                            }
                        }
                        Err(e)
                    },
                }
            },
            _ => Err(EvaluationError::IncompatibleTypes),
        }
    }

    /// Element-wise subtraction over integer numeric columns.
    pub fn element_wise_sub(&self, rhs: &OwnedColumn) -> (r: Result<OwnedColumn, EvaluationError>)
        requires
            self@.len() == rhs@.len(),
        ensures
            res_matches(r, sub_v(self@, rhs@)),
    {
        match (self, rhs) {
            (OwnedColumn::BigInt(x), OwnedColumn::BigInt(y)) => {
                match sub_i64(x, y) {
                    Ok(v) => {
                        proof {
                            assert forall|i: int| 0 <= i < self@.len() implies fits(
                                wide_pair(self@, rhs@),
                                #[trigger] sub_at(self@, rhs@, i),
                            ) by {
                                assert(v@[i] == x@[i] - y@[i]);
                            }
                            let sq = sub_v(self@, rhs@)->Ok_0->BigInt_0;
                            assert forall|i: int| 0 <= i < self@.len() implies sq[i] == v@[i] by {
                                assert(v@[i] == x@[i] - y@[i]);
                                assert(sub_at(self@, rhs@, i) == v@[i]);
                            }
                            assert(v@ =~= sq);
                        }
                        Ok(OwnedColumn::BigInt(v))
                    },
                    Err(e) => {
                        proof {
                            if sub_all_fit(self@, rhs@) {
                                assert forall|i: int|
                                    0 <= i < x@.len() implies fits(false, x@[i] - y@[i]) by {
                                    assert(fits(wide_pair(self@, rhs@), sub_at(self@, rhs@, i)));
                                }
                                assert(false);
                            }
                        }
                        Err(e)
                    },
                }
            },
            (OwnedColumn::BigInt(x), OwnedColumn::Int128(y)) => {
                let xw = widen(x);
                match sub_i128(&xw, y) {
                    Ok(v) => {
                        proof {
                            assert forall|i: int| 0 <= i < self@.len() implies fits(
                                wide_pair(self@, rhs@),
                                #[trigger] sub_at(self@, rhs@, i),
                            ) by {
                                assert(v@[i] == xw@[i] - y@[i]);
                            }
                            let sq = sub_v(self@, rhs@)->Ok_0->Int128_0;
                            assert forall|i: int| 0 <= i < self@.len() implies sq[i] == v@[i] by {
                                assert(v@[i] == xw@[i] - y@[i]);
                                assert(sub_at(self@, rhs@, i) == v@[i]);
                            }
                            assert(v@ =~= sq);
                        }
                        Ok(OwnedColumn::Int128(v))
                    },
                    Err(e) => {
                        proof {
                            if sub_all_fit(self@, rhs@) {
                                assert forall|i: int|
                                    0 <= i < xw@.len() implies fits(true, xw@[i] - y@[i]) by {
                                    assert(fits(wide_pair(self@, rhs@), sub_at(self@, rhs@, i)));
                                }
                                assert(false);
                            }
                        }
                        Err(e)
                    },
                }
            },
            (OwnedColumn::Int128(x), OwnedColumn::BigInt(y)) => {
                let yw = widen(y);
                match sub_i128(x, &yw) {
                    Ok(v) => {
                        proof {
                            assert forall|i: int| 0 <= i < self@.len() implies fits(
                                wide_pair(self@, rhs@),
                                #[trigger] sub_at(self@, rhs@, i),
                            ) by {
                                assert(v@[i] == x@[i] - yw@[i]);
                            }
                            let sq = sub_v(self@, rhs@)->Ok_0->Int128_0;
                            assert forall|i: int| 0 <= i < self@.len() implies sq[i] == v@[i] by {
                                assert(v@[i] == x@[i] - yw@[i]);
                                assert(sub_at(self@, rhs@, i) == v@[i]);
                            }
                            assert(v@ =~= sq);
                        }
                        Ok(OwnedColumn::Int128(v))
                    },
                    Err(e) => {
                        proof {
                            if sub_all_fit(self@, rhs@) {
                                assert forall|i: int|
                                    0 <= i < x@.len() implies fits(true, x@[i] - yw@[i]) by {
                                    assert(fits(wide_pair(self@, rhs@), sub_at(self@, rhs@, i)));
                                }
                                assert(false);
                            }
                        }
                        Err(e)
                    },
                }
            },
            (OwnedColumn::Int128(x), OwnedColumn::Int128(y)) => {
                match sub_i128(x, y) {
                    Ok(v) => {
                        proof {
                            assert forall|i: int| 0 <= i < self@.len() implies fits(
                                wide_pair(self@, rhs@),
                                #[trigger] sub_at(self@, rhs@, i),
                            ) by {
                                assert(v@[i] == x@[i] - y@[i]);
                            }
                            let sq = sub_v(self@, rhs@)->Ok_0->Int128_0;
                            assert forall|i: int| 0 <= i < self@.len() implies sq[i] == v@[i] by {
                                assert(v@[i] == x@[i] - y@[i]);
                                assert(sub_at(self@, rhs@, i) == v@[i]);
                            }
                            assert(v@ =~= sq);
                        }
                        Ok(OwnedColumn::Int128(v))
                    },
                    Err(e) => {
                        proof {
                            if sub_all_fit(self@, rhs@) {
                                assert forall|i: int|
                                    0 <= i < x@.len() implies fits(true, x@[i] - y@[i]) by {
                                    assert(fits(wide_pair(self@, rhs@), sub_at(self@, rhs@, i)));
                                }
                                assert(false);
                            }
                        }
                        Err(e)
                    },
                }
            },
            _ => Err(EvaluationError::IncompatibleTypes),
        }
    }

    /// Element-wise multiplication over integer numeric columns.
    pub fn element_wise_mul(&self, rhs: &OwnedColumn) -> (r: Result<OwnedColumn, EvaluationError>)
        requires
            self@.len() == rhs@.len(),
        ensures
            res_matches(r, mul_v(self@, rhs@)),
    {
        match (self, rhs) {
            (OwnedColumn::BigInt(x), OwnedColumn::BigInt(y)) => {
                match mul_i64(x, y) {
                    Ok(v) => {
                        proof {
                            assert forall|i: int| 0 <= i < self@.len() implies fits(
                                wide_pair(self@, rhs@),
                                #[trigger] mul_at(self@, rhs@, i),
                            ) by {
                                assert(v@[i] == x@[i] * y@[i]);
                            }
                            let sq = mul_v(self@, rhs@)->Ok_0->BigInt_0;
                            assert forall|i: int| 0 <= i < self@.len() implies sq[i] == v@[i] by {
                                assert(v@[i] == x@[i] * y@[i]);
                                assert(mul_at(self@, rhs@, i) == v@[i]);
                            }
                            assert(v@ =~= sq);
                        }
                        Ok(OwnedColumn::BigInt(v))
                    },
                    Err(e) => {
                        proof {
                            if mul_all_fit(self@, rhs@) {
                                assert forall|i: int|
                                    0 <= i < x@.len() implies fits(false, x@[i] * y@[i]) by {
                                    assert(fits(wide_pair(self@, rhs@), mul_at(self@, rhs@, i)));
                                }
                                assert(false);
                            }
                        }
                        Err(e)
                    },
                }
            },
            (OwnedColumn::BigInt(x), OwnedColumn::Int128(y)) => {
                let xw = widen(x);
                match mul_i128(&xw, y) {
                    Ok(v) => {
                        proof {
                            assert forall|i: int| 0 <= i < self@.len() implies fits(
                                wide_pair(self@, rhs@),
                                #[trigger] mul_at(self@, rhs@, i),
                            ) by {
                                assert(v@[i] == xw@[i] * y@[i]);
                            }
                            let sq = mul_v(self@, rhs@)->Ok_0->Int128_0;
                            assert forall|i: int| 0 <= i < self@.len() implies sq[i] == v@[i] by {
                                assert(v@[i] == xw@[i] * y@[i]);
                                assert(mul_at(self@, rhs@, i) == v@[i]);
                            }
                            assert(v@ =~= sq);
                        }
                        Ok(OwnedColumn::Int128(v))
                    },
                    Err(e) => {
                        proof {
                            if mul_all_fit(self@, rhs@) {
                                assert forall|i: int|
                                    0 <= i < xw@.len() implies fits(true, xw@[i] * y@[i]) by {
                                    assert(fits(wide_pair(self@, rhs@), mul_at(self@, rhs@, i)));
                                }
                                assert(false);
                            }
                        }
                        Err(e)
                    },
                }
            },
            (OwnedColumn::Int128(x), OwnedColumn::BigInt(y)) => {
                let yw = widen(y);
                match mul_i128(x, &yw) {
                    Ok(v) => {
                        proof {
                            assert forall|i: int| 0 <= i < self@.len() implies fits(
                                wide_pair(self@, rhs@),
                                #[trigger] mul_at(self@, rhs@, i),
                            ) by {
                                assert(v@[i] == x@[i] * yw@[i]);
                            }
                            let sq = mul_v(self@, rhs@)->Ok_0->Int128_0;
                            assert forall|i: int| 0 <= i < self@.len() implies sq[i] == v@[i] by {
                                assert(v@[i] == x@[i] * yw@[i]);
                                assert(mul_at(self@, rhs@, i) == v@[i]);
                            }
                            assert(v@ =~= sq);
                        }
                        Ok(OwnedColumn::Int128(v))
                    },
                    Err(e) => {
                        proof {
                            if mul_all_fit(self@, rhs@) {
                                assert forall|i: int|
                                    0 <= i < x@.len() implies fits(true, x@[i] * yw@[i]) by {
                                    assert(fits(wide_pair(self@, rhs@), mul_at(self@, rhs@, i)));
                                }
                                assert(false);
                            }
                        }
                        Err(e)
                    },
                }
            },
            (OwnedColumn::Int128(x), OwnedColumn::Int128(y)) => {
                match mul_i128(x, y) {
                    Ok(v) => {
                        proof {
                            assert forall|i: int| 0 <= i < self@.len() implies fits(
                                wide_pair(self@, rhs@),
                                #[trigger] mul_at(self@, rhs@, i),
                            ) by {
                                assert(v@[i] == x@[i] * y@[i]);
                            }
                            let sq = mul_v(self@, rhs@)->Ok_0->Int128_0;
                            assert forall|i: int| 0 <= i < self@.len() implies sq[i] == v@[i] by {
                                assert(v@[i] == x@[i] * y@[i]);
                                assert(mul_at(self@, rhs@, i) == v@[i]);
                            }
                            assert(v@ =~= sq);
                        }
                        Ok(OwnedColumn::Int128(v))
                    },
                    Err(e) => {
                        proof {
                            if mul_all_fit(self@, rhs@) {
                                assert forall|i: int|
                                    0 <= i < x@.len() implies fits(true, x@[i] * y@[i]) by {
                                    assert(fits(wide_pair(self@, rhs@), mul_at(self@, rhs@, i)));
                                }
                                assert(false);
                            }
                        }
                        Err(e)
                    },
                }
            },
            _ => Err(EvaluationError::IncompatibleTypes),
        }
    }

    /// Element-wise truncating division over integer numeric columns.
    /// A zero-valued divisor element fails deterministically, before any
    /// overflow is considered.
    pub fn element_wise_div(&self, rhs: &OwnedColumn) -> (r: Result<OwnedColumn, EvaluationError>)
        requires
            self@.len() == rhs@.len(),
        ensures
            res_matches(r, div_v(self@, rhs@)),
    {
        match (self, rhs) {
            (OwnedColumn::BigInt(x), OwnedColumn::BigInt(y)) => {
                match div_i64(x, y) {
                    Ok(v) => {
                        proof {
                            if has_zero(rhs@) {
                                let i0 = choose|i: int|
                                    0 <= i < rhs@.len() && #[trigger] rhs@.ints()[i] == 0;
                                assert(y@[i0] == 0);
                                assert(false);
                            }
                            assert forall|i: int| 0 <= i < self@.len() implies fits(
                                wide_pair(self@, rhs@),
                                #[trigger] div_at(self@, rhs@, i),
                            ) by {
                                assert(v@[i] == trunc_div(x@[i] as int, y@[i] as int));
                            }
                            let sq = div_v(self@, rhs@)->Ok_0->BigInt_0;
                            assert forall|i: int| 0 <= i < self@.len() implies sq[i] == v@[i] by {
                                assert(v@[i] == trunc_div(x@[i] as int, y@[i] as int));
                                assert(div_at(self@, rhs@, i) == v@[i]);
                            }
                            assert(v@ =~= sq);
                        }
                        Ok(OwnedColumn::BigInt(v))
                    },
                    Err(e) => {
                        proof {
                            if has_zero(rhs@) {
                                let i0 = choose|i: int|
                                    0 <= i < rhs@.len() && #[trigger] rhs@.ints()[i] == 0;
                                assert(y@[i0] == 0);
                            } else {
                                assert forall|i: int| 0 <= i < y@.len() implies y@[i] != 0 by {
                                    assert(rhs@.ints()[i] != 0);
                                }
                                if div_all_fit(self@, rhs@) {
                                    assert forall|i: int|
                                        0 <= i < x@.len() implies fits(
                                        false,
                                        trunc_div(x@[i] as int, y@[i] as int),
                                    ) by {
                                        assert(fits(
                                            wide_pair(self@, rhs@),
                                            div_at(self@, rhs@, i),
                                        ));
                                    }
                                    assert(false);
                                }
                            }
                        }
                        Err(e)
                    },
                }
            },
            (OwnedColumn::BigInt(x), OwnedColumn::Int128(y)) => {
                let xw = widen(x);
                match div_i128(&xw, y) {
                    Ok(v) => {
                        proof {
                            if has_zero(rhs@) {
                                let i0 = choose|i: int|
                                    0 <= i < rhs@.len() && #[trigger] rhs@.ints()[i] == 0;
                                assert(y@[i0] == 0);
                                assert(false);
                            }
                            assert forall|i: int| 0 <= i < self@.len() implies fits(
                                wide_pair(self@, rhs@),
                                #[trigger] div_at(self@, rhs@, i),
                            ) by {
                                assert(v@[i] == trunc_div(xw@[i] as int, y@[i] as int));
                            }
                            let sq = div_v(self@, rhs@)->Ok_0->Int128_0;
                            assert forall|i: int| 0 <= i < self@.len() implies sq[i] == v@[i] by {
                                assert(v@[i] == trunc_div(xw@[i] as int, y@[i] as int));
                                assert(div_at(self@, rhs@, i) == v@[i]);
                            }
                            assert(v@ =~= sq);
                        }
                        Ok(OwnedColumn::Int128(v))
                    },
                    Err(e) => {
                        proof {
                            if has_zero(rhs@) {
                                let i0 = choose|i: int|
                                    0 <= i < rhs@.len() && #[trigger] rhs@.ints()[i] == 0;
                                assert(y@[i0] == 0);
                            } else {
                                assert forall|i: int| 0 <= i < y@.len() implies y@[i] != 0 by {
                                    assert(rhs@.ints()[i] != 0);
                                }
                                if div_all_fit(self@, rhs@) {
                                    assert forall|i: int|
                                        0 <= i < xw@.len() implies fits(
                                        true,
                                        trunc_div(xw@[i] as int, y@[i] as int),
                                    ) by {
                                        assert(fits(
                                            wide_pair(self@, rhs@),
                                            div_at(self@, rhs@, i),
                                        ));
                                    }
                                    assert(false);
                                }
                            }
                        }
                        Err(e)
                    },
                }
            },
            (OwnedColumn::Int128(x), OwnedColumn::BigInt(y)) => {
                let yw = widen(y);
                match div_i128(x, &yw) {
                    Ok(v) => {
                        proof {
                            if has_zero(rhs@) {
                                let i0 = choose|i: int|
                                    0 <= i < rhs@.len() && #[trigger] rhs@.ints()[i] == 0;
                                assert(yw@[i0] == 0);
                                assert(false);
                            }
                            assert forall|i: int| 0 <= i < self@.len() implies fits(
                                wide_pair(self@, rhs@),
                                #[trigger] div_at(self@, rhs@, i),
                            ) by {
                                assert(v@[i] == trunc_div(x@[i] as int, yw@[i] as int));
                            }
                            let sq = div_v(self@, rhs@)->Ok_0->Int128_0;
                            assert forall|i: int| 0 <= i < self@.len() implies sq[i] == v@[i] by {
                                assert(v@[i] == trunc_div(x@[i] as int, yw@[i] as int));
                                assert(div_at(self@, rhs@, i) == v@[i]);
                            }
                            assert(v@ =~= sq);
                        }
                        Ok(OwnedColumn::Int128(v))
                    },
                    Err(e) => {
                        proof {
                            if has_zero(rhs@) {
                                let i0 = choose|i: int|
                                    0 <= i < rhs@.len() && #[trigger] rhs@.ints()[i] == 0;
                                assert(yw@[i0] == 0);
                            } else {
                                assert forall|i: int| 0 <= i < yw@.len() implies yw@[i] != 0 by {
                                    assert(rhs@.ints()[i] != 0);
                                }
                                if div_all_fit(self@, rhs@) {
                                    assert forall|i: int|
                                        0 <= i < x@.len() implies fits(
                                        true,
                                        trunc_div(x@[i] as int, yw@[i] as int),
                                    ) by {
                                        assert(fits(
                                            wide_pair(self@, rhs@),
                                            div_at(self@, rhs@, i),
                                        ));
                                    }
                                    assert(false);
                                }
                            }
                        }
                        Err(e)
                    },
                }
            },
            (OwnedColumn::Int128(x), OwnedColumn::Int128(y)) => {
                match div_i128(x, y) {
                    Ok(v) => {
                        proof {
                            if has_zero(rhs@) {
                                let i0 = choose|i: int|
                                    0 <= i < rhs@.len() && #[trigger] rhs@.ints()[i] == 0;
                                assert(y@[i0] == 0);
                                assert(false);
                            }
                            assert forall|i: int| 0 <= i < self@.len() implies fits(
                                wide_pair(self@, rhs@),
                                #[trigger] div_at(self@, rhs@, i),
                            ) by {
                                assert(v@[i] == trunc_div(x@[i] as int, y@[i] as int));
                            }
                            let sq = div_v(self@, rhs@)->Ok_0->Int128_0;
                            assert forall|i: int| 0 <= i < self@.len() implies sq[i] == v@[i] by {
                                assert(v@[i] == trunc_div(x@[i] as int, y@[i] as int));
                                assert(div_at(self@, rhs@, i) == v@[i]);
                            }
                            assert(v@ =~= sq);
                        }
                        Ok(OwnedColumn::Int128(v))
                    },
                    Err(e) => {
                        proof {
                            if has_zero(rhs@) {
                                let i0 = choose|i: int|
                                    0 <= i < rhs@.len() && #[trigger] rhs@.ints()[i] == 0;
                                assert(y@[i0] == 0);
                            } else {
                                assert forall|i: int| 0 <= i < y@.len() implies y@[i] != 0 by {
                                    assert(rhs@.ints()[i] != 0);
                                }
                                if div_all_fit(self@, rhs@) {
                                    assert forall|i: int|
                                        0 <= i < x@.len() implies fits(
                                        true,
                                        trunc_div(x@[i] as int, y@[i] as int),
                                    ) by {
                                        assert(fits(
                                            wide_pair(self@, rhs@),
                                            div_at(self@, rhs@, i),
                                        ));
                                    }
                                    assert(false);
                                }
                            }
                        }
                        Err(e)
                    },
                }
            },
            _ => Err(EvaluationError::IncompatibleTypes),
        }
    }
}

} // verus!
