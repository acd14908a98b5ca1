use provable_query::column::{OwnedColumn, Precision, TimeUnit};
use provable_query::errors::EvaluationError;
use provable_query::expression::{
    describe, AggregationOperator, BinaryOperator, DecimalLiteral, Expression, Literal,
    UnaryOperator,
};
use provable_query::scalar::{Scalar, FIELD_MODULUS};
use provable_query::table::{OwnedTable, TableError};

fn col(name: &str, c: OwnedColumn) -> (String, OwnedColumn) {
    (name.to_string(), c)
}

fn sample_table() -> OwnedTable {
    OwnedTable::try_new(vec![
        col("id", OwnedColumn::BigInt(vec![1, 2, 3])),
        col("flag", OwnedColumn::Boolean(vec![true, false, true])),
    ])
    .unwrap()
}

fn column(name: &str) -> Expression {
    Expression::Column(name.to_string())
}

fn bigint(x: i64) -> Expression {
    Expression::Literal(Literal::BigInt(x))
}

fn binary(op: BinaryOperator, l: Expression, r: Expression) -> Expression {
    Expression::Binary { op, left: Box::new(l), right: Box::new(r) }
}

#[test]
fn column_reference_returns_the_column_exactly() {
    let t = sample_table();
    let r = t.evaluate(&column("id")).unwrap();
    assert_eq!(r, OwnedColumn::BigInt(vec![1, 2, 3]));
    let r = t.evaluate(&column("flag")).unwrap();
    assert_eq!(r, OwnedColumn::Boolean(vec![true, false, true]));
}

#[test]
fn literal_broadcasts_to_row_count() {
    let t = sample_table();
    let r = t.evaluate(&bigint(7)).unwrap();
    assert_eq!(r, OwnedColumn::BigInt(vec![7, 7, 7]));
    let r = t.evaluate(&Expression::Literal(Literal::Boolean(true))).unwrap();
    assert_eq!(r, OwnedColumn::Boolean(vec![true, true, true]));
    let r = t
        .evaluate(&Expression::Literal(Literal::VarChar("abc".to_string())))
        .unwrap();
    assert_eq!(
        r,
        OwnedColumn::VarChar(vec!["abc".to_string(), "abc".to_string(), "abc".to_string()])
    );
    let r = t
        .evaluate(&Expression::Literal(Literal::Timestamp(TimeUnit::Second, 0, 42)))
        .unwrap();
    assert_eq!(r, OwnedColumn::TimestampTZ(TimeUnit::Second, 0, vec![42, 42, 42]));
}

#[test]
fn decimal_literal_validates_precision() {
    let t = sample_table();
    let good = Literal::Decimal(DecimalLiteral { precision: 5, scale: 2, significand: 12345 });
    let r = t.evaluate(&Expression::Literal(good)).unwrap();
    match r {
        OwnedColumn::Decimal75(p, s, v) => {
            assert_eq!(p.value(), 5);
            assert_eq!(s, 2);
            assert_eq!(v, vec![Scalar { value: 12345 }; 3]);
        }
        other => panic!("expected a decimal column, got {:?}", other),
    }
    let bad = Literal::Decimal(DecimalLiteral { precision: 76, scale: 0, significand: 1 });
    let e = t.evaluate(&Expression::Literal(bad)).unwrap_err();
    assert_eq!(e, EvaluationError::InvalidPrecision { precision: 76 });
}

#[test]
fn arithmetic_is_element_wise() {
    let t = sample_table();
    let sum = binary(BinaryOperator::Add, column("id"), bigint(10));
    assert_eq!(t.evaluate(&sum).unwrap(), OwnedColumn::BigInt(vec![11, 12, 13]));
    let diff = binary(BinaryOperator::Subtract, column("id"), bigint(1));
    assert_eq!(t.evaluate(&diff).unwrap(), OwnedColumn::BigInt(vec![0, 1, 2]));
    let prod = binary(BinaryOperator::Multiply, column("id"), column("id"));
    assert_eq!(t.evaluate(&prod).unwrap(), OwnedColumn::BigInt(vec![1, 4, 9]));
    let quot = binary(BinaryOperator::Division, bigint(-7), column("id"));
    assert_eq!(t.evaluate(&quot).unwrap(), OwnedColumn::BigInt(vec![-7, -3, -2]));
}

#[test]
fn mixed_width_arithmetic_coerces_to_int128() {
    let t = OwnedTable::try_new(vec![
        col("a", OwnedColumn::BigInt(vec![1, 2])),
        col("b", OwnedColumn::Int128(vec![10, 20])),
    ])
    .unwrap();
    let sum = binary(BinaryOperator::Add, column("a"), column("b"));
    assert_eq!(t.evaluate(&sum).unwrap(), OwnedColumn::Int128(vec![11, 22]));
}

#[test]
fn division_by_zero_element_fails_deterministically() {
    let t = OwnedTable::try_new(vec![col("d", OwnedColumn::BigInt(vec![1, 0, 3]))]).unwrap();
    let quot = binary(BinaryOperator::Division, bigint(6), column("d"));
    assert_eq!(t.evaluate(&quot).unwrap_err(), EvaluationError::DivisionByZero);
}

#[test]
fn overflowing_arithmetic_fails() {
    let t = OwnedTable::try_new(vec![col("m", OwnedColumn::BigInt(vec![i64::MAX]))]).unwrap();
    let sum = binary(BinaryOperator::Add, column("m"), bigint(1));
    assert_eq!(t.evaluate(&sum).unwrap_err(), EvaluationError::IntegerOverflow);
    let quot = binary(
        BinaryOperator::Division,
        Expression::Literal(Literal::BigInt(i64::MIN)),
        bigint(-1),
    );
    assert_eq!(t.evaluate(&quot).unwrap_err(), EvaluationError::IntegerOverflow);
}

#[test]
fn absent_column_fails_with_its_name_anywhere() {
    let t = sample_table();
    let direct = t.evaluate(&column("missing")).unwrap_err();
    assert_eq!(direct, EvaluationError::ColumnNotFound { error: "missing".to_string() });
    let nested = binary(
        BinaryOperator::Add,
        bigint(1),
        binary(BinaryOperator::Multiply, column("absent"), bigint(2)),
    );
    assert_eq!(
        t.evaluate(&nested).unwrap_err(),
        EvaluationError::ColumnNotFound { error: "absent".to_string() }
    );
}

#[test]
fn comparison_scenario_selects_expected_rows() {
    let t = sample_table();
    let ge2 = binary(BinaryOperator::GreaterThanOrEqual, column("id"), bigint(2));
    assert_eq!(t.evaluate(&ge2).unwrap(), OwnedColumn::Boolean(vec![false, true, true]));
    let flag_and = binary(BinaryOperator::And, column("flag"), ge2);
    assert_eq!(
        t.evaluate(&flag_and).unwrap(),
        OwnedColumn::Boolean(vec![false, false, true])
    );
}

#[test]
fn boolean_logic_is_element_wise() {
    let t = sample_table();
    let not_flag = Expression::Unary {
        op: UnaryOperator::Not,
        expr: Box::new(column("flag")),
    };
    assert_eq!(
        t.evaluate(&not_flag).unwrap(),
        OwnedColumn::Boolean(vec![false, true, false])
    );
    let or_all = binary(BinaryOperator::Or, column("flag"), not_flag);
    assert_eq!(t.evaluate(&or_all).unwrap(), OwnedColumn::Boolean(vec![true, true, true]));
}

#[test]
fn comparisons_cover_le_and_eq() {
    let t = sample_table();
    let le2 = binary(BinaryOperator::LessThanOrEqual, column("id"), bigint(2));
    assert_eq!(t.evaluate(&le2).unwrap(), OwnedColumn::Boolean(vec![true, true, false]));
    let eq2 = binary(BinaryOperator::Equal, column("id"), bigint(2));
    assert_eq!(t.evaluate(&eq2).unwrap(), OwnedColumn::Boolean(vec![false, true, false]));
}

#[test]
fn varchar_equality_compares_contents() {
    let t = OwnedTable::try_new(vec![col(
        "s",
        OwnedColumn::VarChar(vec!["a".to_string(), "b".to_string()]),
    )])
    .unwrap();
    let eq_b = binary(
        BinaryOperator::Equal,
        column("s"),
        Expression::Literal(Literal::VarChar("b".to_string())),
    );
    assert_eq!(t.evaluate(&eq_b).unwrap(), OwnedColumn::Boolean(vec![false, true]));
}

#[test]
fn type_mismatch_is_rejected() {
    let t = sample_table();
    let not_id = Expression::Unary { op: UnaryOperator::Not, expr: Box::new(column("id")) };
    assert_eq!(t.evaluate(&not_id).unwrap_err(), EvaluationError::IncompatibleTypes);
    let and_mixed = binary(BinaryOperator::And, column("id"), column("flag"));
    assert_eq!(t.evaluate(&and_mixed).unwrap_err(), EvaluationError::IncompatibleTypes);
}

#[test]
fn unsupported_expression_forms_are_reported_with_a_rendering() {
    let t = sample_table();
    let e = t.evaluate(&Expression::Wildcard).unwrap_err();
    assert_eq!(
        e,
        EvaluationError::Unsupported {
            expression: "expression * is not supported yet".to_string()
        }
    );
    let agg = Expression::Aggregation {
        op: AggregationOperator::Max,
        expr: Box::new(column("id")),
    };
    let e = t.evaluate(&agg).unwrap_err();
    assert_eq!(
        e,
        EvaluationError::Unsupported {
            expression: "expression max(id) is not supported yet".to_string()
        }
    );
}

#[test]
fn expressions_render_readably() {
    let ge = binary(BinaryOperator::GreaterThanOrEqual, column("id"), bigint(2));
    assert_eq!(describe(&ge), "(id >= bigint literal)");
    let not_ge = Expression::Unary { op: UnaryOperator::Not, expr: Box::new(ge) };
    assert_eq!(describe(&not_ge), "(not (id >= bigint literal))");
}

#[test]
fn decimal_significands_outside_the_lossless_range_are_rejected() {
    let t = sample_table();
    // One more than the largest magnitude the field encodes losslessly.
    let big = 1152921504606846976i128;
    let over = Literal::Decimal(DecimalLiteral { precision: 38, scale: 0, significand: big });
    assert_eq!(
        t.evaluate(&Expression::Literal(over)).unwrap_err(),
        EvaluationError::DecimalOutOfRange { significand: big }
    );
    let edge = Literal::Decimal(DecimalLiteral {
        precision: 38,
        scale: 0,
        significand: big - 1,
    });
    assert!(t.evaluate(&Expression::Literal(edge)).is_ok());
    let neg = Literal::Decimal(DecimalLiteral { precision: 38, scale: 0, significand: -big });
    assert_eq!(
        t.evaluate(&Expression::Literal(neg)).unwrap_err(),
        EvaluationError::DecimalOutOfRange { significand: -big }
    );
    // A significand must also fit its own declared precision.
    let wide = Literal::Decimal(DecimalLiteral { precision: 5, scale: 2, significand: 123456 });
    assert_eq!(
        t.evaluate(&Expression::Literal(wide)).unwrap_err(),
        EvaluationError::DecimalOutOfRange { significand: 123456 }
    );
}

#[test]
fn table_errors_report_duplicates_before_lengths() {
    let both = OwnedTable::try_new(vec![
        col("x", OwnedColumn::BigInt(vec![1])),
        col("x", OwnedColumn::BigInt(vec![1, 2])),
    ]);
    assert_eq!(both.unwrap_err(), TableError::DuplicateIdentifiers);
}

#[test]
fn table_construction_enforces_invariants() {
    let dup = OwnedTable::try_new(vec![
        col("x", OwnedColumn::BigInt(vec![1])),
        col("x", OwnedColumn::BigInt(vec![2])),
    ]);
    assert_eq!(dup.unwrap_err(), TableError::DuplicateIdentifiers);
    let uneven = OwnedTable::try_new(vec![
        col("x", OwnedColumn::BigInt(vec![1])),
        col("y", OwnedColumn::BigInt(vec![1, 2])),
    ]);
    assert_eq!(uneven.unwrap_err(), TableError::ColumnLengthMismatch);
    let t = sample_table();
    assert_eq!(t.num_rows(), 3);
    assert_eq!(t.num_columns(), 2);
}

#[test]
fn scalar_field_arithmetic_is_exact() {
    let a = Scalar::new(5);
    let b = Scalar::new(3);
    assert_eq!(a.add(b).value, 8);
    assert_eq!(a.sub(b).value, 2);
    assert_eq!(b.sub(a).value, FIELD_MODULUS - 2);
    assert_eq!(a.mul(b).value, 15);
    assert_eq!(a.neg().value, FIELD_MODULUS - 5);
    assert_eq!(Scalar::from_i64(-1).value, FIELD_MODULUS - 1);
    assert_eq!(Scalar::from_i128(-(FIELD_MODULUS as i128)).value, 0);
    assert_eq!(Scalar::zero().value, 0);
    assert_eq!(Scalar::one().value, 1);
}

#[test]
fn field_inverse_and_division_are_exact() {
    let a = Scalar::new(12345);
    let w = a.inv().unwrap();
    assert_eq!(a.mul(w).value, 1);
    assert_eq!(Scalar::new(0).inv(), None);
    assert_eq!(Scalar::new(1).inv().unwrap().value, 1);
    let b = Scalar::new(2);
    let half = Scalar::new(1).div(b).unwrap();
    assert_eq!(half.mul(b).value, 1);
    assert_eq!(b.div(Scalar::new(0)), None);
    let q = Scalar::new(10).div(b).unwrap();
    assert_eq!(q.value, 5);
}

#[test]
fn decimal_precision_bounds_are_enforced() {
    assert!(Precision::new(1).is_ok());
    assert!(Precision::new(75).is_ok());
    assert_eq!(
        Precision::new(0).unwrap_err(),
        EvaluationError::InvalidPrecision { precision: 0 }
    );
    assert_eq!(
        Precision::new(76).unwrap_err(),
        EvaluationError::InvalidPrecision { precision: 76 }
    );
}

#[test]
fn timestamp_comparisons_need_matching_unit_and_zone() {
    let t = OwnedTable::try_new(vec![col(
        "ts",
        OwnedColumn::TimestampTZ(TimeUnit::Second, 0, vec![10, 20]),
    )])
    .unwrap();
    let ge = binary(
        BinaryOperator::GreaterThanOrEqual,
        column("ts"),
        Expression::Literal(Literal::Timestamp(TimeUnit::Second, 0, 15)),
    );
    assert_eq!(t.evaluate(&ge).unwrap(), OwnedColumn::Boolean(vec![false, true]));
    let mismatched = binary(
        BinaryOperator::GreaterThanOrEqual,
        column("ts"),
        Expression::Literal(Literal::Timestamp(TimeUnit::Millisecond, 0, 15)),
    );
    assert_eq!(t.evaluate(&mismatched).unwrap_err(), EvaluationError::IncompatibleTypes);
}

#[test]
fn empty_table_has_no_rows_and_broadcasts_empty_columns() {
    let t = OwnedTable::new();
    assert_eq!(t.num_rows(), 0);
    assert_eq!(t.num_columns(), 0);
    assert_eq!(t.evaluate(&bigint(5)).unwrap(), OwnedColumn::BigInt(vec![]));
}
