//! Adaptive batched writing to the indicator store.
//!
//! The sink splits a run of rows into fixed-size sub-batches and asks
//! for one multi-row write per sub-batch.  A write that fails with a
//! recognized capacity-exhaustion signature is retried one row at a
//! time (with a short pause between rows and a longer one after another
//! exhaustion); rows that still fail are dropped and counted, never
//! escalated.  Any other error aborts the whole insert.  The writes
//! themselves are I/O and happen outside the library: `InsertPlanner`
//! decides every step, and the caller reports each outcome back.

use crate::text::{contains_bytes, contains_seq};
use vstd::prelude::*;
use vstd::string::StringSliceAdditionalSpecFns;

verus! {

/// Rows per multi-row write.
pub const INSERT_SUB_BATCH: usize = 100000;

/// Pause between two single-row retries, in milliseconds.
pub const ROW_RETRY_PAUSE_MS: u64 = 10;

/// Pause after a single-row retry itself hits capacity exhaustion.
pub const EXHAUSTION_PAUSE_MS: u64 = 500;

/// Classification of a destination-store write error.
#[derive(Debug, Clone, Copy, PartialEq, Eq, Structural)]
pub enum DbErrorClass {
    /// A recognized capacity/resource-exhaustion signature: recovered
    /// locally by the row-level fallback.
    CapacityExhausted,
    /// Anything else: propagated, the insert aborts.
    Other,
}

/// The error text carries one of the recognized capacity-exhaustion
/// signatures.
pub open spec fn capacity_signature(b: Seq<u8>) -> bool {
    ||| contains_seq(b, "MEMORY_LIMIT_EXCEEDED".spec_bytes())
    ||| contains_seq(b, "TOO_MANY_PARTS".spec_bytes())
}

/// Classifies a write error by its message text.  The signature set is
/// best-effort: the destination store exposes no stable error codes, so
/// recognition is by substring.
pub fn classify_db_error(message: &str) -> (r: DbErrorClass)
    ensures
        r == DbErrorClass::CapacityExhausted <==> capacity_signature(message.spec_bytes()),
{
    if contains_bytes(message.as_bytes(), "MEMORY_LIMIT_EXCEEDED".as_bytes()) {
        DbErrorClass::CapacityExhausted
    } else if contains_bytes(message.as_bytes(), "TOO_MANY_PARTS".as_bytes()) {
        DbErrorClass::CapacityExhausted
    } else {
        DbErrorClass::Other
    }
}

/// The next write the caller must perform.
#[derive(Debug, Clone, Copy, PartialEq, Eq, Structural)]
pub enum SinkStep {
    /// One multi-row write of the rows in `[start, end)`.
    WriteBatch { start: usize, end: usize },
    /// One single-row retry of the row at `index`.
    WriteRow { index: usize },
    /// Nothing left to do: all rows resolved, or the insert aborted.
    Done,
}

/// How one write ended, as classified by `classify_db_error`.
#[derive(Debug, Clone, Copy, PartialEq, Eq, Structural)]
pub enum WriteOutcome {
    Success,
    CapacityError,
    OtherError,
}

/// Decision state of one insert run over `total` rows.
pub struct InsertPlanner {
    pub total: usize,
    pub sub_batch: usize,
    /// Rows before `pos` are resolved: written or dropped.
    pub pos: usize,
    /// In row mode, the sub-batch being retried ends here.
    pub row_end: usize,
    pub row_mode: bool,
    pub inserted: usize,
    pub dropped: usize,
    pub aborted: bool,
}

impl InsertPlanner {
    pub open spec fn wf(&self) -> bool {
        &&& self.sub_batch >= 1
        &&& self.pos <= self.total
        &&& self.inserted + self.dropped == self.pos
        &&& self.row_mode ==> self.pos < self.row_end <= self.total
    }

    /// Strictly decreasing measure of the work left; the caller's retry
    /// loop terminates because every reported outcome lowers it.
    pub open spec fn measure(&self) -> int {
        2 * (self.total - self.pos) + (if self.row_mode {
            0int
        } else {
            1int
        })
    }

    pub fn new(total: usize, sub_batch: usize) -> (r: InsertPlanner)
        requires
            sub_batch >= 1,
        ensures
            r.wf(),
            r.total == total,
            r.sub_batch == sub_batch,
            r.pos == 0,
            r.inserted == 0,
            r.dropped == 0,
            !r.row_mode,
            !r.aborted,
    {
        InsertPlanner {
            total,
            sub_batch,
            pos: 0,
            row_end: 0,
            row_mode: false,
            inserted: 0,
            dropped: 0,
            aborted: false,
        }
    }

    /// The next write to perform: the pending sub-batch, the pending
    /// single row, or nothing.
    pub fn next_step(&self) -> (s: SinkStep)
        requires
            self.wf(),
        ensures
            self.aborted || self.pos == self.total ==> s == SinkStep::Done,
            !self.aborted && self.pos < self.total && self.row_mode ==> s == (SinkStep::WriteRow {
                index: self.pos,
            }),
            !self.aborted && self.pos < self.total && !self.row_mode ==> s == (
            SinkStep::WriteBatch {
                start: self.pos,
                end: if self.pos + self.sub_batch <= self.total {
                    (self.pos + self.sub_batch) as usize
                } else {
                    self.total
                },
            }),
    {
        if self.aborted || self.pos >= self.total {
            SinkStep::Done
        } else if self.row_mode {
            SinkStep::WriteRow { index: self.pos }
        } else {
            let end = if self.total - self.pos >= self.sub_batch {
                self.pos + self.sub_batch
            } else {
                self.total
            };
            SinkStep::WriteBatch { start: self.pos, end }
        }
    }

    /// Advances the state by the outcome of the write that `next_step`
    /// asked for.  A successful sub-batch is counted whole; a sub-batch
    /// that hit capacity exhaustion switches to row-by-row retry over
    /// the same rows; a single row is counted on success and dropped on
    /// another exhaustion; any other error aborts the run.
    pub fn on_outcome(&mut self, outcome: WriteOutcome)
        requires
            old(self).wf(),
            !old(self).aborted,
            old(self).pos < old(self).total,
        ensures
            final(self).wf(),
            final(self).total == old(self).total,
            final(self).sub_batch == old(self).sub_batch,
            final(self).aborted == (outcome == WriteOutcome::OtherError),
            outcome == WriteOutcome::OtherError ==> final(self).inserted == old(self).inserted
                && final(self).dropped == old(self).dropped && final(self).pos == old(self).pos,
            !old(self).row_mode && outcome == WriteOutcome::Success ==> {
                let end = if old(self).pos + old(self).sub_batch <= old(self).total {
                    old(self).pos + old(self).sub_batch
                } else {
                    old(self).total as int
                };
                &&& final(self).pos == end
                &&& final(self).inserted == old(self).inserted + (end - old(self).pos)
                &&& final(self).dropped == old(self).dropped
                &&& !final(self).row_mode
            },
            !old(self).row_mode && outcome == WriteOutcome::CapacityError ==> {
                &&& final(self).pos == old(self).pos
                &&& final(self).inserted == old(self).inserted
                &&& final(self).dropped == old(self).dropped
                &&& final(self).row_mode
                &&& final(self).row_end == (if old(self).pos + old(self).sub_batch <= old(
                    self,
                ).total {
                    old(self).pos + old(self).sub_batch
                } else {
                    old(self).total as int
                })
            },
            old(self).row_mode && outcome == WriteOutcome::Success ==> final(self).pos == old(
                self,
            ).pos + 1 && final(self).inserted == old(self).inserted + 1 && final(self).dropped
                == old(self).dropped,
            old(self).row_mode && outcome == WriteOutcome::CapacityError ==> final(self).pos == old(
                self,
            ).pos + 1 && final(self).dropped == old(self).dropped + 1 && final(self).inserted
                == old(self).inserted,
            outcome != WriteOutcome::OtherError ==> final(self).measure() < old(self).measure(),
    {
        match outcome {
            WriteOutcome::OtherError => {
                self.aborted = true;
            },
            WriteOutcome::Success => {
                if self.row_mode {
                    self.inserted = self.inserted + 1;
                    self.pos = self.pos + 1;
                    if self.pos >= self.row_end {
                        self.row_mode = false;
                    }
                } else {
                    let end = if self.total - self.pos >= self.sub_batch {
                        self.pos + self.sub_batch
                    } else {
                        self.total
                    };
                    self.inserted = self.inserted + (end - self.pos);
                    self.pos = end;
                }
            },
            WriteOutcome::CapacityError => {
                if self.row_mode {
                    self.dropped = self.dropped + 1;
                    self.pos = self.pos + 1;
                    if self.pos >= self.row_end {
                        self.row_mode = false;
                    }
                } else {
                    let end = if self.total - self.pos >= self.sub_batch {
                        self.pos + self.sub_batch
                    } else {
                        self.total
                    };
                    self.row_end = end;
                    self.row_mode = true;
                }
            },
        }
    }
}

} // verus!
