//! The run as a state machine.
//!
//! The driver asks for a directive, performs the step, judges what happened
//! and hands the outcome back; the run answers with the next directive. The
//! state of a run is its manifest and the report: one status for each step
//! performed so far.
//!
//! A failed deployment step stops the run on the spot. No other failure
//! does: the errands are attempted whatever came before, and every removal
//! of the cleanup is attempted whatever became of the others.

use vstd::prelude::*;
use crate::asset::{Manifest, Table};
use crate::notice::{Notice, announced, heard, say_announced, say_heard};
use crate::outcome::{Outcome, Status, classify, status_of};
use crate::script::Step;

verus! {

/// How a run ended.
#[derive(Clone, Copy, Debug, PartialEq, Eq, Structural)]
pub enum Verdict {
    /// Every step was attempted and every removal went through. The errands
    /// may have failed.
    Completed,
    /// A deployment step failed; nothing was attempted after it.
    Aborted,
    /// Every step was attempted, and at least one removal failed.
    CleanupIncomplete,
}

/// What the driver does next.
#[derive(Clone, Copy, Debug, PartialEq, Eq, Structural)]
pub enum Directive {
    /// Perform this step and report its outcome.
    Perform(Step),
    /// Stop: the run is over.
    Finish(Verdict),
}

/// What the run answers to an outcome: the lines to print, then what to do.
#[derive(Clone, Debug, PartialEq, Eq)]
pub struct Turn {
    pub notices: Vec<Notice>,
    pub directive: Directive,
}

/// The run has stopped early: the step performed last was a deployment step
/// and it failed.
pub open spec fn halted(report: Seq<Status>) -> bool {
    report.len() > 0 && report.last() is WriteFailed
}

/// Some removal of the cleanup failed.
pub open spec fn spoiled(report: Seq<Status>) -> bool {
    exists|i: int| 0 <= i < report.len() && #[trigger] report[i] is CleanupFailed
}

/// The step to perform next, if the run is not over.
pub open spec fn pending(table: Table, report: Seq<Status>) -> Option<Step> {
    if halted(report) || report.len() >= table.script().len() {
        None
    } else {
        Some(table.script()[report.len() as int])
    }
}

/// How a run that is over has ended.
pub open spec fn verdict_of(report: Seq<Status>) -> Verdict {
    if halted(report) {
        Verdict::Aborted
    } else if spoiled(report) {
        Verdict::CleanupIncomplete
    } else {
        Verdict::Completed
    }
}

/// What the driver does next.
pub open spec fn directive_of(table: Table, report: Seq<Status>) -> Directive {
    match pending(table, report) {
        Some(step) => Directive::Perform(step),
        None => Directive::Finish(verdict_of(report)),
    }
}

/// The report after the pending step has ended with `outcome`. A run that
/// is over takes no more outcomes.
pub open spec fn extended(table: Table, report: Seq<Status>, outcome: Outcome) -> Seq<Status> {
    match pending(table, report) {
        Some(step) => report.push(status_of(step, outcome)),
        None => report,
    }
}

/// What is said when the pending step has ended with `outcome`: the line
/// about that step, then the lines ahead of the next one.
pub open spec fn said(table: Table, report: Seq<Status>, outcome: Outcome) -> Seq<Notice> {
    match pending(table, report) {
        Some(step) => heard(step, status_of(step, outcome)) + (match pending(
            table,
            extended(table, report, outcome),
        ) {
            Some(next) => announced(next),
            None => Seq::empty(),
        }),
        None => Seq::empty(),
    }
}

/// The status at `i` is one that the script's step at `i` can leave.
pub open spec fn fits(step: Step, status: Status) -> bool {
    exists|outcome: Outcome| status == #[trigger] status_of(step, outcome)
}

/// A report that a run of `table` can have: one status for each of the
/// first steps of the script, each fitting its step, and no failed
/// deployment step but at the very end.
pub open spec fn coherent(table: Table, report: Seq<Status>) -> bool {
    &&& report.len() <= table.script().len()
    &&& forall|i: int| 0 <= i < report.len() ==> fits(table.script()[i], #[trigger] report[i])
    &&& forall|i: int| 0 <= i < report.len() - 1 ==> !(#[trigger] report[i] is WriteFailed)
}

/// A run, as plain mathematics.
pub struct RunView {
    pub table: Table,
    pub report: Seq<Status>,
}

impl RunView {
    /// What holds of every run: its table is valid and its report is one
    /// that a run of that table can have.
    pub open spec fn sound(self) -> bool {
        self.table.valid() && coherent(self.table, self.report)
    }
}

/// A run of one manifest.
#[derive(Clone, Debug)]
pub struct Run {
    manifest: Manifest,
    script: Vec<Step>,
    report: Vec<Status>,
}

impl View for Run {
    type V = RunView;

    closed spec fn view(&self) -> RunView {
        RunView { table: self.manifest@, report: self.report@ }
    }
}

/// Whether some status of `report` is a failed removal.
fn any_removal_failed(report: &Vec<Status>) -> (r: bool)
    ensures
        r == spoiled(report@),
{
    let mut i: usize = 0;
    while i < report.len()
        invariant
            i <= report.len(),
            forall|k: int| 0 <= k < i ==> !(#[trigger] report@[k] is CleanupFailed),
        decreases report.len() - i,
    {
        match report[i] {
            Status::CleanupFailed(_) => {
                return true;
            },
            _ => {},
        }
        i += 1;
    }
    false
}

impl Run {
    /// The invariant of the type: the manifest is valid and the report is
    /// one that a run of it can have.
    pub closed spec fn wf(&self) -> bool {
        &&& self.manifest.wf()
        &&& self.script@ == self.manifest@.script()
        &&& coherent(self.manifest@, self.report@)
    }

    /// Begins a run of `manifest`: nothing is performed yet.
    pub fn start(manifest: Manifest) -> (run: Run)
        requires
            manifest.wf(),
        ensures
            run.wf(),
            run@.sound(),
            run@.table == manifest@,
            run@.report == Seq::<Status>::empty(),
    {
        let script = manifest.script();
        Run { manifest, script, report: Vec::new() }
    }

    /// The manifest of the run.
    pub fn manifest(&self) -> (m: &Manifest)
        requires
            self.wf(),
        ensures
            m@ == self@.table,
            m.wf(),
    {
        &self.manifest
    }

    /// The report: one status for each step performed so far, in order.
    pub fn report(&self) -> (r: &Vec<Status>)
        ensures
            r@ == self@.report,
    {
        &self.report
    }

    /// What the driver does next.
    pub fn directive(&self) -> (d: Directive)
        requires
            self.wf(),
        ensures
            d == directive_of(self@.table, self@.report),
    {
        let done: usize = self.report.len();
        if done > 0 {
            match self.report[done - 1] {
                Status::WriteFailed(_) => {
                    return Directive::Finish(Verdict::Aborted);
                },
                _ => {},
            }
        }
        if done < self.script.len() {
            Directive::Perform(self.script[done])
        } else if any_removal_failed(&self.report) {
            Directive::Finish(Verdict::CleanupIncomplete)
        } else {
            Directive::Finish(Verdict::Completed)
        }
    }

    /// Takes the outcome of the pending step into the report and answers
    /// with the lines to print and the next directive. A run that is over
    /// stays as it is.
    pub fn advance(&mut self, outcome: Outcome) -> (turn: Turn)
        requires
            old(self).wf(),
        ensures
            final(self).wf(),
            final(self)@.sound(),
            final(self)@.table == old(self)@.table,
            final(self)@.report == extended(old(self)@.table, old(self)@.report, outcome),
            turn.notices@ == said(old(self)@.table, old(self)@.report, outcome),
            turn.directive == directive_of(final(self)@.table, final(self)@.report),
    {
        let mut notices: Vec<Notice> = Vec::new();
        match self.directive() {
            Directive::Finish(verdict) => Turn { notices, directive: Directive::Finish(verdict) },
            Directive::Perform(step) => {
                let status = classify(step, outcome);
                proof {
                    lemma_extended_coherent(self@.table, self@.report, outcome);
                }
                self.report.push(status);
                say_heard(&mut notices, step, status);
                let directive = self.directive();
                match directive {
                    Directive::Perform(next) => {
                        say_announced(&mut notices, next);
                    },
                    Directive::Finish(_) => {
                        assert(notices@ =~= heard(step, status) + Seq::<Notice>::empty());
                    },
                }
                Turn { notices, directive }
            },
        }
    }
}

/// Taking an outcome keeps a report coherent.
pub proof fn lemma_extended_coherent(table: Table, report: Seq<Status>, outcome: Outcome)
    requires
        coherent(table, report),
    ensures
        coherent(table, extended(table, report, outcome)),
{
    match pending(table, report) {
        Some(step) => {
            let next = report.push(status_of(step, outcome));
            assert forall|i: int| 0 <= i < next.len() implies fits(
                table.script()[i],
                #[trigger] next[i],
            ) by {
                if i < report.len() {
                    assert(next[i] == report[i]);
                }
            }
            assert forall|i: int| 0 <= i < next.len() - 1 implies !(#[trigger] next[i]
                is WriteFailed) by {
                assert(next[i] == report[i]);
                if i == report.len() - 1 {
                    assert(!halted(report));
                }
            }
        },
        None => {},
    }
}

} // verus!
