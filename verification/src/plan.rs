//! The provable operator-plan layer: a closed tagged-variant set of raw
//! physical operators, the wrapping factory that builds an isomorphic
//! provable tree, and the pass-through node that executes bottom-up,
//! memoizes its consolidated output once, and carries a trivial proof.
//!
//! Memoization policy: idempotent first-write-wins. A populated memo cell
//! is never overwritten; re-execution of an executed node is a no-op read,
//! and a fresh node must be constructed to re-execute.

use vstd::prelude::*;
use std::sync::Arc;
use crate::column::ColV;
use crate::errors::ProofError;
use crate::protocol::{DataFusionProof, ExecutionPlanProof, Transcript, TrivialProof};
use crate::table::OwnedTable;

verus! {

/// The host task-execution context, handed explicitly to every execution
/// entry point rather than read from a process-wide singleton. Scheduling
/// and timeouts are its responsibility; a node's own execution is a pure
/// function of its children's completed outputs.
pub struct TaskContext {}

/// A raw (unproven) physical operator, as the closed set of kinds the
/// proof layer recognizes.
#[derive(Debug)]
pub enum RawPlan {
    /// A leaf: a materialized input batch, as a host scan delivers it.
    Source(OwnedTable),
    /// The structural pass-through operator.
    CoalesceBatches(CoalesceBatchesExec),
    /// A host operator kind the proof layer does not recognize: wrapping
    /// it is a static capability gap, not a runtime fault.
    Opaque { description: String },
}

/// The raw pass-through operator: regroups its input's rows into batches
/// of at least the target size without altering row content or order, so
/// collecting its stream into one consolidated batch is the identity on
/// the input's rows.
#[derive(Debug)]
pub struct CoalesceBatchesExec {
    input: Arc<RawPlan>,
    target_batch_size: usize,
}

/// The ghost mirror of a raw operator tree: kind and parameters only.
pub enum RawV {
    Source(Seq<(Seq<char>, ColV)>),
    Coalesce(Box<RawV>, nat),
    Opaque(Seq<char>),
}

/// The model of a raw operator tree.
pub open spec fn raw_view(p: RawPlan) -> RawV
    decreases p,
{
    match p {
        RawPlan::Source(t) => RawV::Source(t@),
        RawPlan::CoalesceBatches(c) => RawV::Coalesce(
            Box::new(raw_view(c.input_spec())),
            c.target_batch_size_spec() as nat,
        ),
        RawPlan::Opaque { description } => RawV::Opaque(description@),
    }
}

/// The description of the first unrecognized operator kind in the tree,
/// in the depth-first order wrapping visits it: the text a wrapping
/// failure carries, unchanged, however deep the child that raised it.
pub open spec fn opaque_text_of(p: RawPlan) -> Seq<char>
    decreases p,
{
    match p {
        RawPlan::Opaque { description } => description@,
        RawPlan::CoalesceBatches(c) => opaque_text_of(c.input_spec()),
        RawPlan::Source(_) => arbitrary(),
    }
}

/// Whether every operator kind in the tree is one the proof layer
/// recognizes.
pub open spec fn supported(p: RawPlan) -> bool
    decreases p,
{
    match p {
        RawPlan::Source(_) => true,
        RawPlan::CoalesceBatches(c) => supported(c.input_spec()),
        RawPlan::Opaque { .. } => false,
    }
}

impl CoalesceBatchesExec {
    pub closed spec fn input_spec(self) -> RawPlan {
        *self.input
    }

    pub closed spec fn target_batch_size_spec(self) -> usize {
        self.target_batch_size
    }

    pub fn new(input: Arc<RawPlan>, target_batch_size: usize) -> (r: Self)
        ensures
            r.input_spec() == *input,
            r.target_batch_size_spec() == target_batch_size,
    {
        CoalesceBatchesExec { input, target_batch_size }
    }

    /// The input plan.
    pub fn input(&self) -> (r: &Arc<RawPlan>)
        ensures
            **r == self.input_spec(),
    {
        &self.input
    }

    /// Minimum number of rows per coalesced batch.
    pub fn target_batch_size(&self) -> (r: usize)
        ensures
            r == self.target_batch_size_spec(),
    {
        self.target_batch_size
    }
}

/// A provable operator node: one variant per supported raw operator kind.
#[derive(Debug)]
pub enum ProvablePlan {
    Source(SourceExecWrapper),
    CoalesceBatches(CoalesceBatchesExecWrapper),
}

/// The provable leaf: wraps a raw source and memoizes its batch.
#[derive(Debug)]
pub struct SourceExecWrapper {
    /// The raw operator this node wraps.
    pub raw: Arc<RawPlan>,
    /// The output memo cell: empty until executed, written once.
    pub output: Option<OwnedTable>,
    /// The proof memo cell: empty until proven, written once.
    pub proof_memo: Option<DataFusionProof>,
}

/// The provable pass-through node: wraps one raw coalescing operator,
/// holds the provable child, and memoizes its consolidated output and
/// its trivial proof.
#[derive(Debug)]
pub struct CoalesceBatchesExecWrapper {
    /// The reconstructed raw operator, built over the wrapped child's raw
    /// view so the raw tree stays consistent after any rewriting.
    pub raw: CoalesceBatchesExec,
    /// The provable child.
    pub input: Box<ProvablePlan>,
    /// The output memo cell: empty until executed, written once.
    pub output: Option<OwnedTable>,
    /// The proof memo cell: empty until proven, written once.
    pub proof_memo: Option<DataFusionProof>,
}

/// The number of nodes of a provable tree.
pub open spec fn plan_size(p: ProvablePlan) -> nat
    decreases p,
{
    match p {
        ProvablePlan::Source(_) => 1,
        ProvablePlan::CoalesceBatches(w) => 1 + plan_size(*w.input),
    }
}

/// The raw view of a provable tree: the raw operator it stands for.
pub open spec fn provable_raw_view(p: ProvablePlan) -> RawV
    decreases p,
{
    match p {
        ProvablePlan::Source(w) => raw_view(*w.raw),
        ProvablePlan::CoalesceBatches(w) => RawV::Coalesce(
            Box::new(provable_raw_view(*w.input)),
            w.raw.target_batch_size_spec() as nat,
        ),
    }
}

/// The deterministic output of a provable tree: the source batch at the
/// leaf, passed through unchanged by each coalescing node (regrouping
/// then consolidating rows is the identity on row content and order).
pub open spec fn plan_output_v(p: ProvablePlan) -> Seq<(Seq<char>, ColV)>
    decreases p,
{
    match p {
        ProvablePlan::Source(w) => match *w.raw {
            RawPlan::Source(t) => t@,
            _ => arbitrary(),
        },
        ProvablePlan::CoalesceBatches(w) => plan_output_v(*w.input),
    }
}

/// The root node's output memo cell, as a model value.
pub open spec fn output_v(p: ProvablePlan) -> Option<Seq<(Seq<char>, ColV)>> {
    match p {
        ProvablePlan::Source(w) => match w.output {
            Some(t) => Some(t@),
            None => None,
        },
        ProvablePlan::CoalesceBatches(w) => match w.output {
            Some(t) => Some(t@),
            None => None,
        },
    }
}

/// The root node's proof memo cell.
pub open spec fn proof_v(p: ProvablePlan) -> Option<DataFusionProof> {
    match p {
        ProvablePlan::Source(w) => w.proof_memo,
        ProvablePlan::CoalesceBatches(w) => w.proof_memo,
    }
}

/// The structural invariant of a provable tree: each leaf wraps a raw
/// source, each pass-through node's reconstructed raw operator agrees
/// with its wrapped child's raw view, and a populated output memo cell
/// holds exactly the node's deterministic output.
pub open spec fn plan_wf(p: ProvablePlan) -> bool
    decreases p,
{
    match p {
        ProvablePlan::Source(w) => {
            &&& (*w.raw) is Source
            &&& (w.output matches Some(t) ==> t@ == plan_output_v(p))
        },
        ProvablePlan::CoalesceBatches(w) => {
            &&& plan_wf(*w.input)
            &&& supported(w.raw.input_spec())
            &&& raw_view(w.raw.input_spec()) == provable_raw_view(*w.input)
            &&& (w.output matches Some(t) ==> t@ == plan_output_v(p))
        },
    }
}

/// Whether every memo cell of the tree is still empty.
pub open spec fn plan_fresh(p: ProvablePlan) -> bool
    decreases p,
{
    match p {
        ProvablePlan::Source(w) => w.output is None && w.proof_memo is None,
        ProvablePlan::CoalesceBatches(w) => w.output is None && w.proof_memo is None && plan_fresh(
            *w.input,
        ),
    }
}

/// Wraps a raw operator tree into an isomorphic provable tree: the
/// result's raw view is exactly the input, its memo cells are empty, and
/// wrapping fails precisely on unrecognized operator kinds.
pub fn wrap_exec_plan(raw: &Arc<RawPlan>) -> (r: Result<ProvablePlan, ProofError>)
    ensures
        supported(**raw) <==> r is Ok,
        r matches Ok(p) ==> plan_wf(p) && plan_fresh(p) && provable_raw_view(p) == raw_view(**raw),
        r matches Err(e) ==> e matches ProofError::UnsupportedPlan { description } && description@
            == opaque_text_of(**raw),
    decreases plan_measure(**raw) * 2,
{
    match &**raw {
        RawPlan::Source(_) => Ok(
            ProvablePlan::Source(
                SourceExecWrapper { raw: raw.clone(), output: None, proof_memo: None },
            ),
        ),
        RawPlan::CoalesceBatches(c) => match CoalesceBatchesExecWrapper::try_new_from_raw(c) {
            Ok(w) => Ok(ProvablePlan::CoalesceBatches(w)),
            Err(e) => Err(e),
        },
        RawPlan::Opaque { description } => Err(
            ProofError::UnsupportedPlan { description: description.clone() },
        ),
    }
}

/// The number of nodes of a raw tree.
pub open spec fn plan_measure(p: RawPlan) -> nat
    decreases p,
{
    match p {
        RawPlan::CoalesceBatches(c) => 1 + plan_measure(c.input_spec()),
        _ => 1,
    }
}

/// A plan handle as the host's generic rewriting machinery sees it:
/// either still raw, or already wrapped.
pub enum PlanHandle {
    Raw(Arc<RawPlan>),
    Wrapped(Box<ProvablePlan>),
}

/// The inverse of wrapping: an already-wrapped node yields its raw view
/// directly, with no re-derivation; a raw plan is returned unchanged.
pub fn unwrap_exec_plan_if_wrapped(plan: &PlanHandle) -> (r: Result<Arc<RawPlan>, ProofError>)
    requires
        plan matches PlanHandle::Wrapped(p) ==> plan_wf(**p),
    ensures
        r matches Ok(a) ==> match plan {
            PlanHandle::Raw(b) => a == b,
            PlanHandle::Wrapped(p) => raw_view(*a) == provable_raw_view(**p),
        },
        r is Ok,
{
    match plan {
        PlanHandle::Raw(a) => Ok(a.clone()),
        PlanHandle::Wrapped(p) => p.try_raw(),
    }
}

impl ProvablePlan {
    /// The raw view of this node, as a plan the host engine could run.
    pub fn try_raw(&self) -> (r: Result<Arc<RawPlan>, ProofError>)
        requires
            plan_wf(*self),
        ensures
            r matches Ok(a) && raw_view(*a) == provable_raw_view(*self) && supported(*a),
    {
        match self {
            ProvablePlan::Source(w) => Ok(w.raw.clone()),
            ProvablePlan::CoalesceBatches(w) => Ok(
                Arc::new(RawPlan::CoalesceBatches(w.raw_spec())),
            ),
        }
    }

    /// Executes this node for one partition: children first, bottom-up,
    /// then the node's own transform, memoizing the consolidated output.
    /// Re-executing an executed node is an idempotent read, not a
    /// re-computation.
    pub fn execute_and_collect(&mut self, partition: usize, context: &TaskContext) -> (r: Result<
        (),
        ProofError,
    >)
        requires
            plan_wf(*old(self)),
        ensures
            r is Ok,
            plan_wf(*final(self)),
            provable_raw_view(*final(self)) == provable_raw_view(*old(self)),
            output_v(*final(self)) == Some(plan_output_v(*old(self))),
            proof_v(*final(self)) == proof_v(*old(self)),
            output_v(*old(self)) is Some ==> *final(self) == *old(self),
        decreases plan_size(*old(self)) * 2,
    {
        match self {
            ProvablePlan::Source(w) => {
                if w.output.is_some() {
                    return Ok(());
                }
                match &*w.raw {
                    RawPlan::Source(t) => {
                        w.output = Some(t.clone());
                        Ok(())
                    },
                    _ => {
                        proof {
                            assert(false);
                        }
                        Err(ProofError::UnexecutedError)
                    },
                }
            },
            ProvablePlan::CoalesceBatches(w) => w.execute_and_collect(partition, context),
        }
    }

    /// Reads the memoized output; fails before execution has completed.
    pub fn output(&self) -> (r: Result<OwnedTable, ProofError>)
        ensures
            output_v(*self) is None <==> (r matches Err(e) && e is UnexecutedError),
            output_v(*self) matches Some(t) ==> (r matches Ok(o) && o@ == t),
    {
        match self {
            ProvablePlan::Source(w) => match &w.output {
                Some(t) => Ok(t.clone()),
                None => Err(ProofError::UnexecutedError),
            },
            ProvablePlan::CoalesceBatches(w) => w.output(),
        }
    }
}

impl CoalesceBatchesExecWrapper {
    /// Reconstructs an equivalent raw operator (same transform parameters,
    /// current raw child) on demand, decoupled from this node's identity.
    pub fn raw_spec(&self) -> (r: CoalesceBatchesExec)
        ensures
            r.input_spec() == self.raw.input_spec(),
            r.target_batch_size_spec() == self.raw.target_batch_size_spec(),
    {
        CoalesceBatchesExec::new(self.raw.input().clone(), self.raw.target_batch_size())
    }

    /// Wraps a raw coalescing operator: recursively wraps the child, then
    /// rebuilds the raw operator over the child's raw view, with empty
    /// memo cells.
    pub fn try_new_from_raw(raw: &CoalesceBatchesExec) -> (r: Result<Self, ProofError>)
        ensures
            supported(raw.input_spec()) <==> r is Ok,
            r matches Ok(w) ==> {
                &&& plan_wf(ProvablePlan::CoalesceBatches(w))
                &&& plan_fresh(ProvablePlan::CoalesceBatches(w))
                &&& w.raw.target_batch_size_spec() == raw.target_batch_size_spec()
                &&& raw_view(w.raw.input_spec()) == raw_view(raw.input_spec())
            },
            r matches Err(e) ==> e matches ProofError::UnsupportedPlan { description }
                && description@ == opaque_text_of(raw.input_spec()),
        decreases plan_measure(raw.input_spec()) * 2 + 1,
    {
        let raw_input = raw.input();
        let target_batch_size = raw.target_batch_size();
        let wrapped_input = match wrap_exec_plan(raw_input) {
            Ok(p) => p,
            Err(e) => {
                return Err(e);
            },
        };
        Ok(
            CoalesceBatchesExecWrapper {
                raw: CoalesceBatchesExec::new(raw_input.clone(), target_batch_size),
                input: Box::new(wrapped_input),
                output: None,
                proof_memo: None,
            },
        )
    }

    /// Builds a node from an already-wrapped child plus the operator's
    /// parameters: synthesizes the matching raw operator over the child's
    /// raw view, then delegates to the raw-wrapping constructor.
    pub fn try_new_from_children(input: ProvablePlan, target_batch_size: usize) -> (r: Result<
        Self,
        ProofError,
    >)
        requires
            plan_wf(input),
        ensures
            r matches Ok(w) ==> {
                &&& plan_wf(ProvablePlan::CoalesceBatches(w))
                &&& plan_fresh(ProvablePlan::CoalesceBatches(w))
                &&& w.raw.target_batch_size_spec() == target_batch_size
                &&& raw_view(w.raw.input_spec()) == provable_raw_view(input)
            },
            r is Ok,
    {
        let raw_input = match input.try_raw() {
            Ok(a) => a,
            Err(e) => {
                return Err(e);
            },
        };
        let raw = CoalesceBatchesExec::new(raw_input, target_batch_size);
        Self::try_new_from_raw(&raw)
    }

    /// The input plan.
    pub fn input(&self) -> (r: &ProvablePlan)
        ensures
            *r == *self.input,
    {
        &self.input
    }

    /// Minimum number of rows for coalesced batches.
    pub fn target_batch_size(&self) -> (r: usize)
        ensures
            r == self.raw.target_batch_size_spec(),
    {
        self.raw.target_batch_size()
    }

    /// Executes the child for this partition, then collects the
    /// pass-through result into one consolidated batch and memoizes it.
    /// A populated memo cell makes this call an idempotent no-op.
    pub fn execute_and_collect(&mut self, partition: usize, context: &TaskContext) -> (r: Result<
        (),
        ProofError,
    >)
        requires
            plan_wf(ProvablePlan::CoalesceBatches(*old(self))),
        ensures
            r is Ok,
            plan_wf(ProvablePlan::CoalesceBatches(*final(self))),
            provable_raw_view(ProvablePlan::CoalesceBatches(*final(self)))
                == provable_raw_view(ProvablePlan::CoalesceBatches(*old(self))),
            output_v(ProvablePlan::CoalesceBatches(*final(self))) == Some(
                plan_output_v(ProvablePlan::CoalesceBatches(*old(self))),
            ),
            proof_v(ProvablePlan::CoalesceBatches(*final(self))) == proof_v(
                ProvablePlan::CoalesceBatches(*old(self)),
            ),
            output_v(ProvablePlan::CoalesceBatches(*old(self))) is Some ==> *final(self) == *old(
                self,
            ),
        decreases plan_size(*old(self).input) * 2 + 1,
    {
        if self.output.is_some() {
            return Ok(());
        }
        match self.input.execute_and_collect(partition, context) {
            Ok(u) => u,
            Err(e) => {
                proof {
                    assert(false);
                }
                return Err(e);
            },
        };
        let out = match self.input.output() {
            Ok(t) => t,
            Err(e) => {
                proof {
                    assert(false);
                }
                return Err(e);
            },
        };
        self.output = Some(out);
        Ok(())
    }

    /// Reads the memoized output; fails with `UnexecutedError` before
    /// `execute_and_collect` has completed for this node, and returns the
    /// same batch on every call afterwards.
    pub fn output(&self) -> (r: Result<OwnedTable, ProofError>)
        ensures
            self.output is None <==> (r matches Err(e) && e is UnexecutedError),
            self.output matches Some(t) ==> (r matches Ok(o) && o@ == t@),
    {
        match &self.output {
            Some(t) => Ok(t.clone()),
            None => Err(ProofError::UnexecutedError),
        }
    }

    /// The children this node hands to the host engine: its single input.
    pub fn children(&self) -> (r: Vec<&ProvablePlan>)
        ensures
            r@.len() == 1,
            *r@[0] == *self.input,
    {
        let mut v: Vec<&ProvablePlan> = Vec::new();
        v.push(&self.input);
        v
    }

    /// The pass-through declares no ordering of its output.
    pub fn output_ordering(&self) -> (r: Option<Vec<String>>)
        ensures
            r is None,
    {
        None
    }

    /// Rebuilds this operator over new children: rejects a child list
    /// whose count does not match the operator's single-input arity, and
    /// otherwise produces a fresh, consistently wrapped node with the
    /// same target batch size.
    pub fn with_new_children(&self, children: Vec<ProvablePlan>) -> (r: Result<
        CoalesceBatchesExecWrapper,
        ProofError,
    >)
        requires
            forall|i: int| 0 <= i < children@.len() ==> plan_wf(#[trigger] children@[i]),
        ensures
            children@.len() != 1 ==> (r matches Err(e) && e is InvalidChildCount),
            children@.len() == 1 ==> (r matches Ok(w) && {
                &&& plan_wf(ProvablePlan::CoalesceBatches(w))
                &&& plan_fresh(ProvablePlan::CoalesceBatches(w))
                &&& w.raw.target_batch_size_spec() == self.raw.target_batch_size_spec()
                &&& raw_view(w.raw.input_spec()) == provable_raw_view(children@[0])
            }),
    {
        if children.len() != 1 {
            return Err(ProofError::InvalidChildCount { expected: 1, actual: children.len() });
        }
        let mut children = children;
        let child = match children.pop() {
            Some(c) => c,
            None => {
                proof {
                    assert(false);
                }
                return Err(ProofError::InvalidChildCount { expected: 1, actual: 0 });
            },
        };
        Self::try_new_from_children(child, self.raw.target_batch_size())
    }
}


/// The transcript label a source leaf absorbs when proving.
pub const SOURCE_PROOF_LABEL: u64 = 1;

/// The transcript label a pass-through node absorbs when proving.
pub const TRIVIAL_PROOF_LABEL: u64 = 2;

/// Whether every node of the tree carries a proof.
pub open spec fn plan_proved(p: ProvablePlan) -> bool
    decreases p,
{
    match p {
        ProvablePlan::Source(w) => w.proof_memo is Some,
        ProvablePlan::CoalesceBatches(w) => w.proof_memo is Some && plan_proved(*w.input),
    }
}

/// The messages a tree absorbs into the transcript, children first: the
/// same deterministic trace on proving and on verifying, so both sides
/// derive identical challenges from it.
pub open spec fn proof_trace(p: ProvablePlan) -> Seq<u64>
    decreases p,
{
    match p {
        ProvablePlan::Source(_) => seq![SOURCE_PROOF_LABEL],
        ProvablePlan::CoalesceBatches(w) => proof_trace(*w.input).push(TRIVIAL_PROOF_LABEL),
    }
}

/// LAW: under the tree invariant, a populated output memo cell holds
/// exactly the node's deterministic output, so every read after a
/// successful execution returns the same batch.
pub proof fn lemma_memoized_output_is_deterministic(p: ProvablePlan)
    requires
        plan_wf(p),
    ensures
        output_v(p) matches Some(t) ==> t == plan_output_v(p),
{
}

/// Two provable trees with one raw view have one deterministic output:
/// the output is a function of the raw operator alone.
pub proof fn lemma_output_follows_raw(a: ProvablePlan, b: ProvablePlan)
    requires
        plan_wf(a),
        plan_wf(b),
        provable_raw_view(a) == provable_raw_view(b),
    ensures
        plan_output_v(a) == plan_output_v(b),
    decreases plan_size(a),
{
    match (a, b) {
        (ProvablePlan::Source(wa), ProvablePlan::Source(wb)) => {
            assert(raw_view(*wa.raw) == raw_view(*wb.raw));
        },
        (ProvablePlan::CoalesceBatches(wa), ProvablePlan::CoalesceBatches(wb)) => {
            lemma_output_follows_raw(*wa.input, *wb.input);
        },
        _ => {},
    }
}

impl ProvablePlan {
    /// Reads the memoized proof; fails before proving has completed.
    pub fn stored_proof(&self) -> (r: Result<&DataFusionProof, ProofError>)
        ensures
            proof_v(*self) is None <==> (r matches Err(e) && e is UnexecutedError),
            proof_v(*self) matches Some(p) ==> (r matches Ok(q) && *q == p),
    {
        match self {
            ProvablePlan::Source(w) => match &w.proof_memo {
                Some(p) => Ok(p),
                None => Err(ProofError::UnexecutedError),
            },
            ProvablePlan::CoalesceBatches(w) => match &w.proof_memo {
                Some(p) => Ok(p),
                None => Err(ProofError::UnexecutedError),
            },
        }
    }

    /// Proves the tree bottom-up: each child's proof first, then this
    /// node's, absorbing one label per node into the transcript. A
    /// pass-through node takes the trivial proof: its output is implied
    /// by its child's proof. Populated proof cells are kept as they are.
    pub fn run_create_proof(&mut self, transcript: &mut Transcript) -> (r: Result<(), ProofError>)
        requires
            plan_wf(*old(self)),
        ensures
            r is Ok,
            plan_wf(*final(self)),
            plan_proved(*final(self)),
            provable_raw_view(*final(self)) == provable_raw_view(*old(self)),
            output_v(*final(self)) == output_v(*old(self)),
            final(transcript)@ == old(transcript)@ + proof_trace(*old(self)),
        decreases plan_size(*old(self)),
    {
        match self {
            ProvablePlan::Source(w) => {
                transcript.append_message(SOURCE_PROOF_LABEL);
                if w.proof_memo.is_none() {
                    w.proof_memo = Some(
                        DataFusionProof::ExecutionPlanProof(
                            ExecutionPlanProof::TrivialProof(TrivialProof {  }),
                        ),
                    );
                }
                proof {
                    assert(final(transcript)@ =~= old(transcript)@ + proof_trace(*old(self)));
                }
                Ok(())
            },
            ProvablePlan::CoalesceBatches(w) => {
                let ghost t0 = transcript@;
                match w.input.run_create_proof(transcript) {
                    Ok(u) => u,
                    Err(e) => {
                        proof {
                            assert(false);
                        }
                        return Err(e);
                    },
                };
                transcript.append_message(TRIVIAL_PROOF_LABEL);
                if w.proof_memo.is_none() {
                    w.proof_memo = Some(
                        DataFusionProof::ExecutionPlanProof(
                            ExecutionPlanProof::TrivialProof(TrivialProof {  }),
                        ),
                    );
                }
                proof {
                    lemma_output_follows_raw(
                        *w.input,
                        *old(self)->CoalesceBatches_0.input,
                    );
                    assert(final(transcript)@ =~= t0 + proof_trace(*old(self)));
                }
                Ok(())
            },
        }
    }

    /// Verifies the tree bottom-up: each child's proof first, then this
    /// node's, re-deriving the same transcript trace as proving did. A
    /// missing proof fails; a pass-through node's own check is the
    /// trivial one.
    pub fn run_verify(&self, transcript: &mut Transcript) -> (r: Result<(), ProofError>)
        ensures
            plan_proved(*self) <==> r is Ok,
            r matches Err(e) ==> e is UnexecutedError,
            plan_proved(*self) ==> final(transcript)@ == old(transcript)@ + proof_trace(*self),
        decreases plan_size(*self),
    {
        match self {
            ProvablePlan::Source(w) => match &w.proof_memo {
                Some(p) => {
                    transcript.append_message(SOURCE_PROOF_LABEL);
                    proof {
                        assert(final(transcript)@ =~= old(transcript)@ + proof_trace(*self));
                    }
                    Ok(())
                },
                None => Err(ProofError::UnexecutedError),
            },
            ProvablePlan::CoalesceBatches(w) => {
                let ghost t0 = transcript@;
                match w.input.run_verify(transcript) {
                    Ok(u) => u,
                    Err(e) => {
                        return Err(e);
                    },
                };
                match &w.proof_memo {
                    Some(p) => {
                        transcript.append_message(TRIVIAL_PROOF_LABEL);
                        proof {
                            assert(final(transcript)@ =~= t0 + proof_trace(*self));
                        }
                        Ok(())
                    },
                    None => Err(ProofError::UnexecutedError),
                }
            },
        }
    }
}

} // verus!

