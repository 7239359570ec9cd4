use indicators_core::sink::{
    classify_db_error, DbErrorClass, InsertPlanner, SinkStep, WriteOutcome,
};

#[test]
fn error_classification_by_signature() {
    assert_eq!(
        classify_db_error("Code: 241. DB::Exception: MEMORY_LIMIT_EXCEEDED (total)"),
        DbErrorClass::CapacityExhausted
    );
    assert_eq!(
        classify_db_error("DB::Exception: TOO_MANY_PARTS (while writing)"),
        DbErrorClass::CapacityExhausted
    );
    assert_eq!(classify_db_error("connection reset by peer"), DbErrorClass::Other);
    assert_eq!(classify_db_error(""), DbErrorClass::Other);
    // the signature must appear verbatim, anywhere in the text
    assert_eq!(classify_db_error("xTOO_MANY_PARTSx"), DbErrorClass::CapacityExhausted);
    assert_eq!(classify_db_error("TOO MANY PARTS"), DbErrorClass::Other);
}

/// A clean run: every sub-batch write succeeds and every row counts.
#[test]
fn planner_clean_run() {
    let mut p = InsertPlanner::new(5, 2);
    assert_eq!(p.next_step(), SinkStep::WriteBatch { start: 0, end: 2 });
    p.on_outcome(WriteOutcome::Success);
    assert_eq!(p.next_step(), SinkStep::WriteBatch { start: 2, end: 4 });
    p.on_outcome(WriteOutcome::Success);
    assert_eq!(p.next_step(), SinkStep::WriteBatch { start: 4, end: 5 });
    p.on_outcome(WriteOutcome::Success);
    assert_eq!(p.next_step(), SinkStep::Done);
    assert_eq!((p.inserted, p.dropped, p.aborted), (5, 0, false));
}

/// Capacity exhaustion on a sub-batch falls back to row-by-row retry;
/// a row that hits exhaustion again is dropped, the rest go through.
#[test]
fn planner_capacity_fallback_drops_row() {
    let mut p = InsertPlanner::new(5, 3);
    assert_eq!(p.next_step(), SinkStep::WriteBatch { start: 0, end: 3 });
    p.on_outcome(WriteOutcome::CapacityError);
    assert_eq!(p.next_step(), SinkStep::WriteRow { index: 0 });
    p.on_outcome(WriteOutcome::Success);
    assert_eq!(p.next_step(), SinkStep::WriteRow { index: 1 });
    p.on_outcome(WriteOutcome::CapacityError); // dropped, no escalation
    assert_eq!(p.next_step(), SinkStep::WriteRow { index: 2 });
    p.on_outcome(WriteOutcome::Success);
    // fallback exhausted the sub-batch: back to batch mode
    assert_eq!(p.next_step(), SinkStep::WriteBatch { start: 3, end: 5 });
    p.on_outcome(WriteOutcome::Success);
    assert_eq!(p.next_step(), SinkStep::Done);
    assert_eq!((p.inserted, p.dropped, p.aborted), (4, 1, false));
}

/// Any error outside the capacity class aborts the insert at once.
#[test]
fn planner_other_error_aborts() {
    let mut p = InsertPlanner::new(10, 4);
    p.on_outcome(WriteOutcome::Success);
    p.on_outcome(WriteOutcome::OtherError);
    assert!(p.aborted);
    assert_eq!(p.next_step(), SinkStep::Done);
    assert_eq!((p.inserted, p.dropped), (4, 0));
}

/// The planner's measure shrinks with every outcome, so the caller's
/// write loop terminates.
#[test]
fn planner_terminates() {
    let mut p = InsertPlanner::new(7, 2);
    let mut steps: u32 = 0;
    loop {
        match p.next_step() {
            SinkStep::Done => break,
            SinkStep::WriteBatch { .. } => p.on_outcome(WriteOutcome::CapacityError),
            SinkStep::WriteRow { .. } => p.on_outcome(WriteOutcome::CapacityError),
        }
        steps += 1;
        assert!(steps < 100);
    }
    assert_eq!((p.inserted, p.dropped), (0, 7));
}

#[test]
fn planner_empty_run() {
    let p = InsertPlanner::new(0, 2);
    assert_eq!(p.next_step(), SinkStep::Done);
    assert_eq!((p.inserted, p.dropped, p.aborted), (0, 0, false));
}
