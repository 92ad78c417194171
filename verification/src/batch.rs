//! Bookkeeping for one batch run over the attack corpus.
//!
//! A run visits every corpus line exactly once, in order; a line's failure
//! never aborts the run. The only state that persists across lines is the
//! next line index and the success/failure counters, held here. The
//! decisions the orchestrator takes per line — which parent ingredient to
//! attach and what to do with an already existing destination — are also
//! computed here, from plain facts the caller observed.

use vstd::prelude::*;

verus! {

/// The mutable state of one batch run: the next 0-based corpus line index
/// and how many lines succeeded or failed so far.
#[derive(Clone, Copy, Debug, PartialEq, Eq, Structural)]
pub struct BatchState {
    pub next_index: u64,
    pub succeeded: u64,
    pub failed: u64,
}

impl BatchState {
    /// Every line that reached a terminal state was counted exactly once,
    /// as a success or as a failure.
    pub open spec fn wf(self) -> bool {
        self.next_index == self.succeeded + self.failed
    }

    /// The state after one more line reaches a terminal state.
    pub open spec fn spec_record(self, success: bool) -> BatchState {
        BatchState {
            next_index: (self.next_index + 1) as u64,
            succeeded: if success {
                (self.succeeded + 1) as u64
            } else {
                self.succeeded
            },
            failed: if success {
                self.failed
            } else {
                (self.failed + 1) as u64
            },
        }
    }

    /// The state at the start of a run; reset for every run.
    pub fn new() -> (s: Self)
        ensures
            s == (BatchState { next_index: 0u64, succeeded: 0u64, failed: 0u64 }),
            s.wf(),
    {
        BatchState { next_index: 0, succeeded: 0, failed: 0 }
    }

    /// Records one line's terminal state. The index advances by exactly one
    /// whether the line succeeded or failed: no index is skipped or reused.
    pub fn record(&mut self, success: bool)
        requires
            old(self).wf(),
            old(self).next_index < u64::MAX,
        ensures
            *final(self) == old(self).spec_record(success),
            final(self).wf(),
    {
        self.next_index = self.next_index + 1;
        if success {
            self.succeeded = self.succeeded + 1;
        } else {
            self.failed = self.failed + 1;
        }
    }
}

/// The state a run reaches after the given per-line outcomes, in corpus
/// order.
pub open spec fn spec_replay(outcomes: Seq<bool>) -> BatchState
    decreases outcomes.len(),
{
    if outcomes.len() == 0 {
        BatchState { next_index: 0u64, succeeded: 0u64, failed: 0u64 }
    } else {
        spec_replay(outcomes.drop_last()).spec_record(outcomes.last())
    }
}

/// How many of the outcomes are successes.
pub open spec fn count_successes(outcomes: Seq<bool>) -> nat
    decreases outcomes.len(),
{
    if outcomes.len() == 0 {
        0
    } else {
        count_successes(outcomes.drop_last()) + (if outcomes.last() {
            1nat
        } else {
            0nat
        })
    }
}

proof fn lemma_count_successes_bound(outcomes: Seq<bool>)
    ensures
        count_successes(outcomes) <= outcomes.len(),
    decreases outcomes.len(),
{
    if outcomes.len() > 0 {
        lemma_count_successes_bound(outcomes.drop_last());
    }
}

/// Law (batch isolation): a run always reaches the end of the corpus, and
/// whatever mix of per-line outcomes occurred, the final state counts every
/// line exactly once — the index equals the number of lines, the success
/// counter the number of successes, the failure counter the rest.
pub proof fn lemma_batch_accounting(outcomes: Seq<bool>)
    requires
        outcomes.len() <= u64::MAX,
    ensures
        spec_replay(outcomes).wf(),
        spec_replay(outcomes).next_index == outcomes.len(),
        spec_replay(outcomes).succeeded == count_successes(outcomes),
        spec_replay(outcomes).failed == outcomes.len() - count_successes(outcomes),
    decreases outcomes.len(),
{
    if outcomes.len() > 0 {
        lemma_batch_accounting(outcomes.drop_last());
        lemma_count_successes_bound(outcomes.drop_last());
    }
}

/// Which parent ingredient one line's manifest gets.
#[derive(Clone, Copy, Debug, PartialEq, Eq, Structural)]
pub enum ParentPlan {
    /// An explicitly given parent path overrides everything.
    ExplicitParent,
    /// The source asset already carries manifest data and becomes the
    /// parent itself.
    SourceAsset,
    /// No parent ingredient is attached.
    NoParent,
}

/// Decides the parent linkage for one line: an explicit parent always wins;
/// otherwise a source asset that already carries manifest data becomes the
/// parent, except in fragmented-asset mode, which suppresses that fallback.
pub fn choose_parent(has_explicit_parent: bool, source_carries_manifest: bool, fragment_mode: bool) -> (r:
    ParentPlan)
    ensures
        has_explicit_parent ==> r == ParentPlan::ExplicitParent,
        !has_explicit_parent && source_carries_manifest && !fragment_mode ==> r
            == ParentPlan::SourceAsset,
        !has_explicit_parent && (!source_carries_manifest || fragment_mode) ==> r
            == ParentPlan::NoParent,
{
    if has_explicit_parent {
        ParentPlan::ExplicitParent
    } else if source_carries_manifest && !fragment_mode {
        ParentPlan::SourceAsset
    } else {
        ParentPlan::NoParent
    }
}

/// What to do with the computed destination before signing.
#[derive(Clone, Copy, Debug, PartialEq, Eq, Structural)]
pub enum OverwritePlan {
    /// Nothing is in the way: write the output.
    WriteFresh,
    /// The destination exists and overwriting was forced: delete it first.
    RemoveThenWrite,
    /// The destination exists and overwriting was not forced: this line
    /// fails.
    RejectLine,
}

/// Decides how an already existing destination is handled: a forced run
/// deletes it first, an unforced run rejects the line.
pub fn plan_overwrite(destination_exists: bool, force: bool) -> (r: OverwritePlan)
    ensures
        !destination_exists ==> r == OverwritePlan::WriteFresh,
        destination_exists && force ==> r == OverwritePlan::RemoveThenWrite,
        destination_exists && !force ==> r == OverwritePlan::RejectLine,
{
    if !destination_exists {
        OverwritePlan::WriteFresh
    } else if force {
        OverwritePlan::RemoveThenWrite
    } else {
        OverwritePlan::RejectLine
    }
}

} // verus!
