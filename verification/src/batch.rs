//! The batch: which file is next, when the run ends, and with which exit code.
//!
//! Files are processed one after the other, in discovery order. A failed
//! file ends the run only where the batch is fail-fast.

use vstd::prelude::*;
use crate::engine::FileOutcome;
use crate::policy::Continuation;

verus! {

/// What the caller is to do next.
#[derive(Clone, Copy, Debug, PartialEq, Eq, Structural)]
pub enum BatchStep {
    /// Run the pipeline of the file at this position, and record its outcome.
    Process(usize),
    /// Nothing more: the run ends with this exit code.
    Done { exit_code: u8 },
}

/// A [`BatchEngine`] as plain values.
pub struct BatchView {
    /// What the failure of a file means for the files after it.
    pub continuation: Continuation,
    /// How many files the batch holds.
    pub total: nat,
    /// How many outcomes have been recorded.
    pub cursor: nat,
    /// Whether a failure has ended the run.
    pub aborted: bool,
    /// The positions of the files whose final output was produced, ascending.
    pub produced: Seq<usize>,
}

impl BatchView {
    /// A batch of `total` files before the first of them.
    pub open spec fn fresh(continuation: Continuation, total: nat) -> BatchView {
        BatchView { continuation, total, cursor: 0, aborted: false, produced: seq![] }
    }

    /// Whether the run has ended.
    pub open spec fn ended(self) -> bool {
        self.aborted || self.cursor >= self.total
    }

    /// What the caller is to do next.
    pub open spec fn pending(self) -> BatchStep {
        if self.aborted {
            BatchStep::Done { exit_code: 1 }
        } else if self.cursor < self.total {
            BatchStep::Process(self.cursor as usize)
        } else {
            BatchStep::Done { exit_code: 0 }
        }
    }

    /// The batch once the outcome of the pending file is recorded. A run
    /// that has ended records nothing.
    pub open spec fn recorded(self, outcome: FileOutcome) -> BatchView {
        if self.ended() {
            self
        } else {
            BatchView {
                cursor: self.cursor + 1,
                aborted: outcome == FileOutcome::Failed && self.continuation
                    == Continuation::FailFast,
                produced: if outcome == FileOutcome::Completed {
                    self.produced.push(self.cursor as usize)
                } else {
                    self.produced
                },
                ..self
            }
        }
    }

    /// The batch once `outcomes` are recorded, in order.
    pub open spec fn after(self, outcomes: Seq<FileOutcome>) -> BatchView
        decreases outcomes.len(),
    {
        if outcomes.len() == 0 {
            self
        } else {
            self.after(outcomes.drop_last()).recorded(outcomes.last())
        }
    }
}

/// The positions below `n` at which `outcomes` holds `Completed`, ascending.
pub open spec fn completed_among(outcomes: Seq<FileOutcome>, n: nat) -> Seq<usize>
    decreases n,
{
    if n == 0 {
        seq![]
    } else {
        let before = completed_among(outcomes, (n - 1) as nat);
        if outcomes[n - 1] == FileOutcome::Completed {
            before.push((n - 1) as usize)
        } else {
            before
        }
    }
}

/// The exit code of a run: 1 where the run was given no directory at all or
/// was ended by a failure, 0 where it went through its files.
pub open spec fn exit_code_of(arguments: nat, aborted: bool) -> u8 {
    if arguments == 0 || aborted {
        1
    } else {
        0
    }
}

/// A best-effort batch goes through all of its files, whichever of them
/// fail: file after file is handed out, the run ends with exit code 0, and
/// the files on record as produced are exactly those that completed.
pub proof fn law_best_effort_reaches_every_file(total: nat, outcomes: Seq<FileOutcome>)
    requires
        outcomes.len() <= total <= usize::MAX,
    ensures
        ({
            let batch = BatchView::fresh(Continuation::BestEffort, total).after(outcomes);
            &&& batch.continuation == Continuation::BestEffort && batch.total == total
            &&& batch.cursor == outcomes.len()
            &&& !batch.aborted
            &&& batch.produced == completed_among(outcomes, outcomes.len())
            &&& outcomes.len() < total ==> batch.pending() == BatchStep::Process(
                outcomes.len() as usize,
            )
            &&& outcomes.len() == total ==> batch.pending() == BatchStep::Done { exit_code: 0 }
        }),
    decreases outcomes.len(),
{
    if outcomes.len() > 0 {
        let head = outcomes.drop_last();
        law_best_effort_reaches_every_file(total, head);
        lemma_completed_among_prefix(outcomes, head, head.len());
    }
}

proof fn lemma_completed_among_prefix(a: Seq<FileOutcome>, b: Seq<FileOutcome>, n: nat)
    requires
        n <= a.len(),
        n <= b.len(),
        forall|i: int| 0 <= i < n ==> a[i] == b[i],
    ensures
        completed_among(a, n) == completed_among(b, n),
    decreases n,
{
    if n > 0 {
        lemma_completed_among_prefix(a, b, (n - 1) as nat);
    }
}

/// A fail-fast batch ends with its first failure: the files before it are
/// on record as produced, no file after it is handed out, and the exit code
/// is 1. Without a failure it goes through all of its files and ends with
/// exit code 0.
pub proof fn law_fail_fast_stops_at_first_failure(total: nat, outcomes: Seq<FileOutcome>)
    requires
        outcomes.len() <= total <= usize::MAX,
    ensures
        ({
            let batch = BatchView::fresh(Continuation::FailFast, total).after(outcomes);
            let clean = forall|i: int|
                0 <= i < outcomes.len() ==> outcomes[i] == FileOutcome::Completed;
            &&& batch.continuation == Continuation::FailFast && batch.total == total
            &&& clean ==> batch.cursor == outcomes.len() && !batch.aborted && batch.produced
                == completed_among(outcomes, outcomes.len())
            &&& clean && outcomes.len() < total ==> batch.pending() == BatchStep::Process(
                outcomes.len() as usize,
            )
            &&& clean && outcomes.len() == total ==> batch.pending() == BatchStep::Done {
                exit_code: 0,
            }
            &&& !clean ==> batch.aborted && batch.pending() == BatchStep::Done { exit_code: 1 }
                && outcomes[batch.cursor - 1] == FileOutcome::Failed && batch.produced.len()
                == batch.cursor - 1 && forall|i: int|
                0 <= i < batch.cursor - 1 ==> outcomes[i] == FileOutcome::Completed
        }),
    decreases outcomes.len(),
{
    if outcomes.len() > 0 {
        let head = outcomes.drop_last();
        law_fail_fast_stops_at_first_failure(total, head);
        lemma_completed_among_prefix(outcomes, head, head.len());
        let before = BatchView::fresh(Continuation::FailFast, total).after(head);
        let head_clean = forall|i: int| 0 <= i < head.len() ==> head[i] == FileOutcome::Completed;
        let clean = forall|i: int|
            0 <= i < outcomes.len() ==> outcomes[i] == FileOutcome::Completed;
        if head_clean {
            lemma_completed_among_len(head, head.len());
            if outcomes.last() == FileOutcome::Completed {
                assert forall|i: int| 0 <= i < outcomes.len() implies outcomes[i]
                    == FileOutcome::Completed by {
                    if i < head.len() {
                        assert(head[i] == outcomes[i]);
                    }
                }
            } else {
                assert(outcomes[outcomes.len() - 1] != FileOutcome::Completed);
                assert forall|i: int| 0 <= i < head.len() implies outcomes[i]
                    == FileOutcome::Completed by {
                    assert(head[i] == outcomes[i]);
                }
            }
        } else {
            let k = choose|k: int| 0 <= k < head.len() && head[k] != FileOutcome::Completed;
            assert(outcomes[k] == head[k]);
            assert(outcomes[before.cursor - 1] == head[before.cursor - 1]);
            assert forall|i: int| 0 <= i < before.cursor - 1 implies outcomes[i]
                == FileOutcome::Completed by {
                assert(head[i] == outcomes[i]);
            }
        }
    }
}

proof fn lemma_completed_among_len(outcomes: Seq<FileOutcome>, n: nat)
    requires
        n <= outcomes.len(),
        forall|i: int| 0 <= i < n ==> outcomes[i] == FileOutcome::Completed,
    ensures
        completed_among(outcomes, n).len() == n,
    decreases n,
{
    if n > 0 {
        lemma_completed_among_len(outcomes, (n - 1) as nat);
    }
}

/// The exit code of a run that was given `arguments` directories.
pub fn exit_code(arguments: usize, aborted: bool) -> (code: u8)
    ensures
        code == exit_code_of(arguments as nat, aborted),
{
    if arguments == 0 || aborted {
        1
    } else {
        0
    }
}

/// The files of one run and how far the run has come.
#[derive(Debug)]
pub struct BatchEngine {
    continuation: Continuation,
    total: usize,
    cursor: usize,
    aborted: bool,
    produced: Vec<usize>,
}

impl View for BatchEngine {
    type V = BatchView;

    closed spec fn view(&self) -> BatchView {
        BatchView {
            continuation: self.continuation,
            total: self.total as nat,
            cursor: self.cursor as nat,
            aborted: self.aborted,
            produced: self.produced@,
        }
    }
}

impl BatchEngine {
    /// A batch of `total` files, none of them processed yet.
    pub fn new(continuation: Continuation, total: usize) -> (batch: BatchEngine)
        ensures
            batch@ == BatchView::fresh(continuation, total as nat),
    {
        BatchEngine { continuation, total, cursor: 0, aborted: false, produced: Vec::new() }
    }

    /// What the caller is to do now.
    pub fn pending(&self) -> (step: BatchStep)
        ensures
            step == self@.pending(),
    {
        if self.aborted {
            BatchStep::Done { exit_code: 1 }
        } else if self.cursor < self.total {
            BatchStep::Process(self.cursor)
        } else {
            BatchStep::Done { exit_code: 0 }
        }
    }

    /// Records the outcome of the pending file and says what to do next.
    pub fn record(&mut self, outcome: FileOutcome) -> (step: BatchStep)
        ensures
            final(self)@ == old(self)@.recorded(outcome),
            step == final(self)@.pending(),
    {
        if !self.aborted && self.cursor < self.total {
            let position: usize = self.cursor;
            let failed = match outcome {
                FileOutcome::Failed => true,
                FileOutcome::Completed => false,
            };
            let strict = match self.continuation {
                Continuation::FailFast => true,
                Continuation::BestEffort => false,
            };
            if !failed {
                self.produced.push(position);
            }
            self.cursor = position + 1;
            self.aborted = failed && strict;
        }
        self.pending()
    }

    /// The positions of the files whose final output was produced so far.
    pub fn produced(&self) -> (r: &Vec<usize>)
        ensures
            r@ == self@.produced,
    {
        &self.produced
    }

    /// Whether a failure has ended the run.
    pub fn aborted(&self) -> (r: bool)
        ensures
            r == self@.aborted,
    {
        self.aborted
    }
}

} // verus!
