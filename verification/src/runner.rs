use vstd::prelude::*;

use crate::ops::{cancelled_message, cancelled_report, FileReport};
use crate::pipeline::Mapping;

verus! {

/// The reports of a batch, in order, and whether it was cancelled.
#[derive(Debug, Clone)]
pub struct BatchReport {
    pub results: Vec<FileReport>,
    pub cancelled: bool,
}

/// A batch in progress: the files to process, the reports so far, whether it
/// was cancelled, and whether a file is being processed now.
#[derive(Debug, Clone)]
pub struct BatchRun {
    pub maps: Vec<Mapping>,
    pub results: Vec<FileReport>,
    pub cancelled: bool,
    pub busy: bool,
}

/// What the caller does next in a batch.
#[derive(Debug, Clone)]
pub enum BatchAction {
    /// The user paused the batch: wait a little and ask again.
    Wait,
    /// Process the file at `index`, then hand its report to `record`.
    Process { index: usize, source: String, dest: String },
    /// The batch is over.
    Done,
}

/// A report that says the file was cancelled.
pub open spec fn is_cancel_report(r: FileReport) -> bool {
    !r.ok && r.dest is None && r.message@ == cancelled_message() && r.technical is None
}

impl BatchRun {
    /// The run is consistent: at most one report per file, each about the file
    /// at its position; a cancelled run ends with a cancellation report; a file
    /// is processed only while the run is neither cancelled nor complete.
    pub open spec fn wf(&self) -> bool {
        &&& self.results@.len() <= self.maps@.len()
        &&& forall|i: int|
            0 <= i < self.results@.len() ==> (#[trigger] self.results@[i]).source@
                == self.maps@[i].source@
        &&& self.cancelled ==> self.results@.len() >= 1 && is_cancel_report(
            self.results@.last(),
        )
        &&& self.busy ==> !self.cancelled && self.results@.len() < self.maps@.len()
    }

    /// The run is over: cancelled, or every file has its report.
    pub open spec fn is_over(&self) -> bool {
        self.cancelled || self.results@.len() == self.maps@.len()
    }

    /// A run over `maps`, with nothing done yet.
    pub fn new(maps: Vec<Mapping>) -> (r: BatchRun)
        ensures
            r.wf(),
            r.maps@ == maps@,
            r.results@.len() == 0,
            !r.cancelled,
            !r.busy,
    {
        BatchRun { maps, results: Vec::new(), cancelled: false, busy: false }
    }

    /// How many files are done, out of how many.
    pub fn progress(&self) -> (r: (usize, usize))
        ensures
            r.0 == self.results@.len(),
            r.1 == self.maps@.len(),
    {
        (self.results.len(), self.maps.len())
    }

    /// Decides what comes next: nothing once the run is over; when the user
    /// cancelled, a cancellation report for the next file and the end of the
    /// run; while paused, a wait; else the next file.
    pub fn next(&mut self, cancel_requested: bool, paused: bool) -> (a: BatchAction)
        requires
            old(self).wf(),
            !old(self).busy,
        ensures
            final(self).wf(),
            final(self).maps == old(self).maps,
            old(self).results@.is_prefix_of(final(self).results@),
            old(self).is_over() ==> a is Done && *final(self) == *old(self),
            !old(self).is_over() && cancel_requested ==> {
                &&& a is Done
                &&& final(self).cancelled
                &&& !final(self).busy
                &&& final(self).results@.len() == old(self).results@.len() + 1
            },
            !old(self).is_over() && !cancel_requested && paused ==> a is Wait && *final(self)
                == *old(self),
            !old(self).is_over() && !cancel_requested && !paused ==> {
                &&& a matches BatchAction::Process { index, source, dest } && index
                    == old(self).results@.len() && source@ == old(self).maps@[index as int].source@
                    && dest@ == old(self).maps@[index as int].dest@
                &&& final(self).busy
                &&& final(self).results == old(self).results
                &&& !final(self).cancelled
            },
    {
        let i = self.results.len();
        if self.cancelled || i == self.maps.len() {
            return BatchAction::Done;
        }
        if cancel_requested {
            let report = cancelled_report(self.maps[i].source.as_str());
            self.results.push(report);
            self.cancelled = true;
            assert(self.results@.last() == report);
            assert(forall|k: int|
                0 <= k < i ==> self.results@[k] == old(self).results@[k]);
            return BatchAction::Done;
        }
        if paused {
            return BatchAction::Wait;
        }
        self.busy = true;
        BatchAction::Process {
            index: i,
            source: self.maps[i].source.clone(),
            dest: self.maps[i].dest.clone(),
        }
    }

    /// Takes the report of the file being processed; a failed file does not
    /// stop the batch.
    pub fn record(&mut self, report: FileReport)
        requires
            old(self).wf(),
            old(self).busy,
            report.source@ == old(self).maps@[old(self).results@.len() as int].source@,
        ensures
            final(self).wf(),
            !final(self).busy,
            final(self).maps == old(self).maps,
            final(self).cancelled == old(self).cancelled,
            final(self).results@ == old(self).results@.push(report),
    {
        let ghost i = self.results@.len();
        self.results.push(report);
        self.busy = false;
        assert(forall|k: int| 0 <= k < i ==> self.results@[k] == old(self).results@[k]);
    }

    /// The report of a run that is over.
    pub fn finish(self) -> (r: BatchReport)
        requires
            self.wf(),
            self.is_over(),
            !self.busy,
        ensures
            r.results@ == self.results@,
            r.cancelled == self.cancelled,
            !r.cancelled ==> r.results@.len() == self.maps@.len(),
            r.cancelled ==> r.results@.len() >= 1 && is_cancel_report(r.results@.last()),
            forall|i: int|
                0 <= i < r.results@.len() ==> (#[trigger] r.results@[i]).source@
                    == self.maps@[i].source@,
    {
        BatchReport { results: self.results, cancelled: self.cancelled }
    }
}

} // verus!
