use std::sync::Arc;

use provable_query::column::OwnedColumn;
use provable_query::errors::ProofError;
use provable_query::plan::{
    CoalesceBatchesExec, CoalesceBatchesExecWrapper, PlanHandle, ProvablePlan, RawPlan,
    TaskContext, unwrap_exec_plan_if_wrapped, wrap_exec_plan,
};
use provable_query::protocol::Transcript;
use provable_query::table::OwnedTable;

fn sample_batch() -> OwnedTable {
    OwnedTable::try_new(vec![
        ("id".to_string(), OwnedColumn::BigInt(vec![1, 2, 3])),
        ("flag".to_string(), OwnedColumn::Boolean(vec![true, false, true])),
    ])
    .unwrap()
}

fn coalesce_over_source(target: usize) -> Arc<RawPlan> {
    let source = Arc::new(RawPlan::Source(sample_batch()));
    Arc::new(RawPlan::CoalesceBatches(CoalesceBatchesExec::new(source, target)))
}

#[test]
fn wrapping_then_unwrapping_preserves_parameters() {
    let raw = coalesce_over_source(100);
    let wrapped = wrap_exec_plan(&raw).unwrap();
    match &wrapped {
        ProvablePlan::CoalesceBatches(w) => {
            assert_eq!(w.target_batch_size(), 100);
            let again = w.raw_spec();
            assert_eq!(again.target_batch_size(), 100);
            match &**again.input() {
                RawPlan::Source(t) => assert_eq!(t.num_rows(), 3),
                other => panic!("expected a source child, got {:?}", other),
            }
        }
        other => panic!("expected a coalesce wrapper, got {:?}", other),
    }
    let back = wrapped.try_raw().unwrap();
    match &*back {
        RawPlan::CoalesceBatches(c) => assert_eq!(c.target_batch_size(), 100),
        other => panic!("expected a coalesce plan, got {:?}", other),
    }
}

#[test]
fn wrapping_rejects_unrecognized_operator_kinds() {
    let opaque = Arc::new(RawPlan::Opaque { description: "window aggregate".to_string() });
    let raw = Arc::new(RawPlan::CoalesceBatches(CoalesceBatchesExec::new(opaque, 8)));
    let e = wrap_exec_plan(&raw).unwrap_err();
    assert!(matches!(e, ProofError::UnsupportedPlan { .. }));
}

#[test]
fn output_before_execution_is_an_error_and_stable_after() {
    let raw = coalesce_over_source(64);
    let mut wrapped = wrap_exec_plan(&raw).unwrap();
    assert_eq!(wrapped.output().unwrap_err(), ProofError::UnexecutedError);
    wrapped.execute_and_collect(0, &TaskContext {}).unwrap();
    let first = wrapped.output().unwrap();
    assert_eq!(first, sample_batch());
    // Re-execution is an idempotent read; the memoized batch never changes.
    wrapped.execute_and_collect(0, &TaskContext {}).unwrap();
    let second = wrapped.output().unwrap();
    assert_eq!(first, second);
}

#[test]
fn execution_runs_children_bottom_up() {
    let inner = coalesce_over_source(2);
    let raw = Arc::new(RawPlan::CoalesceBatches(CoalesceBatchesExec::new(inner, 5)));
    let mut wrapped = wrap_exec_plan(&raw).unwrap();
    wrapped.execute_and_collect(0, &TaskContext {}).unwrap();
    assert_eq!(wrapped.output().unwrap(), sample_batch());
    match &wrapped {
        ProvablePlan::CoalesceBatches(w) => {
            assert_eq!(w.input().output().unwrap(), sample_batch());
            assert_eq!(w.children().len(), 1);
            assert!(w.output_ordering().is_none());
        }
        other => panic!("expected a coalesce wrapper, got {:?}", other),
    }
}

#[test]
fn with_new_children_enforces_arity() {
    let raw = coalesce_over_source(100);
    let wrapped = wrap_exec_plan(&raw).unwrap();
    let w = match wrapped {
        ProvablePlan::CoalesceBatches(w) => w,
        other => panic!("expected a coalesce wrapper, got {:?}", other),
    };
    let e = w.with_new_children(vec![]).unwrap_err();
    assert!(matches!(e, ProofError::InvalidChildCount { expected: 1, actual: 0 }));
    let source = wrap_exec_plan(&Arc::new(RawPlan::Source(sample_batch()))).unwrap();
    let rebuilt = w.with_new_children(vec![source]).unwrap();
    assert_eq!(rebuilt.target_batch_size(), 100);
    assert_eq!(rebuilt.output().unwrap_err(), ProofError::UnexecutedError);
}

#[test]
fn try_new_from_children_synthesizes_the_raw_operator() {
    let source = wrap_exec_plan(&Arc::new(RawPlan::Source(sample_batch()))).unwrap();
    let w = CoalesceBatchesExecWrapper::try_new_from_children(source, 100).unwrap();
    assert_eq!(w.target_batch_size(), 100);
    let again = w.raw_spec();
    assert_eq!(again.target_batch_size(), 100);
}

#[test]
fn unwrap_returns_a_raw_plan_unchanged() {
    let raw = coalesce_over_source(9);
    let got = unwrap_exec_plan_if_wrapped(&PlanHandle::Raw(raw.clone())).unwrap();
    match &*got {
        RawPlan::CoalesceBatches(c) => assert_eq!(c.target_batch_size(), 9),
        other => panic!("expected a coalesce plan, got {:?}", other),
    }
    let wrapped = wrap_exec_plan(&raw).unwrap();
    let back = unwrap_exec_plan_if_wrapped(&PlanHandle::Wrapped(Box::new(wrapped))).unwrap();
    match &*back {
        RawPlan::CoalesceBatches(c) => assert_eq!(c.target_batch_size(), 9),
        other => panic!("expected a coalesce plan, got {:?}", other),
    }
}

#[test]
fn proving_and_verifying_share_one_transcript_trace() {
    let raw = coalesce_over_source(16);
    let mut wrapped = wrap_exec_plan(&raw).unwrap();
    let mut before = Transcript::new();
    assert_eq!(wrapped.run_verify(&mut before).unwrap_err(), ProofError::UnexecutedError);
    assert!(wrapped.stored_proof().is_err());

    let mut prover = Transcript::new();
    wrapped.run_create_proof(&mut prover).unwrap();
    assert!(wrapped.stored_proof().is_ok());

    let mut verifier = Transcript::new();
    wrapped.run_verify(&mut verifier).unwrap();
    assert_eq!(prover.challenge(), verifier.challenge());
}
