use job_queue::command::{DataValue, DecodeError, JobCommand};
use job_queue::queue::{JobQueue, JobQueueError};
use job_queue::table::JobTable;

fn queue() -> JobQueue {
    JobQueue::new(JobTable::new())
}

#[test]
fn test_enqueue() {
    let mut jq = queue();
    jq.enqueue(JobCommand::SyncBranch(1));
}

#[test]
fn test_enqueue_fetch() {
    let mut jq = queue();
    jq.enqueue(JobCommand::SyncBranch(1));
    jq.enqueue_with_priority(JobCommand::SyncBranch(2), 120);
    jq.enqueue(JobCommand::SyncBranch(3));
    assert_eq!(
        jq.fetch_and_start().unwrap().unwrap().command,
        JobCommand::SyncBranch(2)
    );
    assert_eq!(
        jq.fetch_and_start().unwrap().unwrap().command,
        JobCommand::SyncBranch(1)
    );
    assert_eq!(
        jq.fetch_and_start().unwrap().unwrap().command,
        JobCommand::SyncBranch(3)
    );
    assert!(jq.fetch_and_start().unwrap().is_none());
}

#[test]
fn test_finish() {
    let mut jq = queue();
    jq.enqueue(JobCommand::SyncBranch(1));
    let id = jq.fetch_and_start().unwrap().unwrap().id;
    jq.finish_job(id).unwrap();
    assert_eq!(jq.len(), 0);
    assert!(jq.fetch_and_start().unwrap().is_none());
}

#[test]
fn priority_ordering_regardless_of_enqueue_order() {
    // higher priority enqueued second still comes out first
    let mut jq = queue();
    jq.enqueue_with_priority(JobCommand::SyncBranch(1), 50);
    jq.enqueue_with_priority(JobCommand::SyncBranch(2), 200);
    assert_eq!(
        jq.fetch_and_start().unwrap().unwrap().command,
        JobCommand::SyncBranch(2)
    );
    assert_eq!(
        jq.fetch_and_start().unwrap().unwrap().command,
        JobCommand::SyncBranch(1)
    );

    // and enqueued first it also comes out first
    let mut jq = queue();
    jq.enqueue_with_priority(JobCommand::SyncBranch(3), 200);
    jq.enqueue_with_priority(JobCommand::SyncBranch(4), 50);
    assert_eq!(
        jq.fetch_and_start().unwrap().unwrap().command,
        JobCommand::SyncBranch(3)
    );
    assert_eq!(
        jq.fetch_and_start().unwrap().unwrap().command,
        JobCommand::SyncBranch(4)
    );
}

#[test]
fn fifo_tie_break_on_equal_priority() {
    let mut jq = queue();
    jq.enqueue(JobCommand::SyncBranch(10));
    jq.enqueue(JobCommand::SyncBranch(11));
    jq.enqueue(JobCommand::SyncBranch(12));
    assert_eq!(
        jq.fetch_and_start().unwrap().unwrap().command,
        JobCommand::SyncBranch(10)
    );
    assert_eq!(
        jq.fetch_and_start().unwrap().unwrap().command,
        JobCommand::SyncBranch(11)
    );
    assert_eq!(
        jq.fetch_and_start().unwrap().unwrap().command,
        JobCommand::SyncBranch(12)
    );
    assert!(jq.fetch_and_start().unwrap().is_none());
}

#[test]
fn drain_mixed_priorities() {
    // X, Y, Z at priorities 100, 120, 100 drain as Y, X, Z, then no job
    let mut jq = queue();
    jq.enqueue_with_priority(JobCommand::SyncBranch(1), 100);
    jq.enqueue_with_priority(JobCommand::SyncBranch(2), 120);
    jq.enqueue_with_priority(JobCommand::SyncBranch(3), 100);
    assert_eq!(
        jq.fetch_and_start().unwrap().unwrap().command,
        JobCommand::SyncBranch(2)
    );
    assert_eq!(
        jq.fetch_and_start().unwrap().unwrap().command,
        JobCommand::SyncBranch(1)
    );
    assert_eq!(
        jq.fetch_and_start().unwrap().unwrap().command,
        JobCommand::SyncBranch(3)
    );
    assert!(jq.fetch_and_start().unwrap().is_none());
}

#[test]
fn each_job_claimed_once() {
    // every pending job is handed out exactly once, whoever asks
    let mut jq = queue();
    jq.enqueue(JobCommand::SyncBranch(1));
    jq.enqueue(JobCommand::SyncBranch(2));
    jq.enqueue(JobCommand::SyncBranch(3));
    let a = jq.fetch_and_start().unwrap().unwrap();
    let b = jq.fetch_and_start().unwrap().unwrap();
    let c = jq.fetch_and_start().unwrap().unwrap();
    assert!(a.id != b.id && b.id != c.id && a.id != c.id);
    assert!(jq.fetch_and_start().unwrap().is_none());
}

#[test]
fn finish_twice_aborts_second() {
    let mut jq = queue();
    jq.enqueue(JobCommand::SyncBranch(7));
    let id = jq.fetch_and_start().unwrap().unwrap().id;
    assert!(jq.finish_job(id).is_ok());
    assert_eq!(jq.finish_job(id), Err(JobQueueError::JobAborted(id)));
}

#[test]
fn premature_finish_aborts() {
    // the first enqueued job gets id 0; it was never claimed
    let mut jq = queue();
    jq.enqueue(JobCommand::SyncBranch(7));
    assert_eq!(jq.finish_job(0), Err(JobQueueError::JobAborted(0)));
    assert_eq!(jq.len(), 1);
}

#[test]
fn finish_unknown_id_aborts() {
    let mut jq = queue();
    assert_eq!(jq.finish_job(42), Err(JobQueueError::JobAborted(42)));
}

#[test]
fn count_pending_counts_claimed_rows_capped() {
    let mut jq = queue();
    jq.enqueue(JobCommand::SyncBranch(1));
    jq.enqueue(JobCommand::SyncBranch(2));
    jq.enqueue(JobCommand::SyncBranch(3));
    assert_eq!(jq.count_pending(10), 0);
    jq.fetch_and_start().unwrap().unwrap();
    jq.fetch_and_start().unwrap().unwrap();
    assert_eq!(jq.count_pending(10), 2);
    assert_eq!(jq.count_pending(1), 1);
    assert_eq!(jq.count_pending(0), 0);
}

#[test]
fn unknown_kind_row_fails_decode_and_stays_claimed() {
    let mut table = JobTable::new();
    table.insert(String::from("mystery"), DataValue::Null, 100);
    let mut jq = JobQueue::new(table);
    assert_eq!(jq.fetch_and_start(), Err(DecodeError::UnknownKind));
    // the conditional update ran before decoding, so the row is claimed now
    assert_eq!(jq.count_pending(10), 1);
    assert!(jq.fetch_and_start().unwrap().is_none());
}

#[test]
fn bad_payload_row_fails_decode() {
    let mut table = JobTable::new();
    table.insert(
        String::from("sync-branch"),
        DataValue::Text(String::from("not a branch")),
        100,
    );
    let mut jq = JobQueue::new(table);
    assert_eq!(jq.fetch_and_start(), Err(DecodeError::InvalidPayload));
}
