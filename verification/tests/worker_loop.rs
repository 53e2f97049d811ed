//! Scenario tests of the worker loop over the store model.
use backdrop::configuration::RenderWorkerSettings;
use backdrop::ident::format_id;
use backdrop::store::StoreModel;
use backdrop::task::{encode_task, RenderTask};
use backdrop::worker::{
    worker_iteration, worker_transition, EncoderOutcome, FfmpegBufferName, IterationOutcome,
    StoreFault, WorkerEvent, WorkerState,
};

const T: u128 = 0x10;
const A: u128 = 0x20;
const B: u128 = 0x30;

fn settings() -> RenderWorkerSettings {
    RenderWorkerSettings { laziness: 7, lifetime: 3 }
}

/// A store holding the two assets, the pending marker, and the queued task.
fn loaded_store() -> (StoreModel, RenderTask) {
    let mut store = StoreModel::new();
    let task = RenderTask { target: T, audio: A, image: B };
    store.set(T, b"pending".to_vec());
    store.set(A, b"audio-bytes".to_vec());
    store.set(B, b"image-bytes".to_vec());
    task.queue(&mut store);
    (store, task)
}

#[test]
fn empty_queue_sleeps_laziness_and_touches_nothing() {
    let mut store = StoreModel::new();
    store.set(A, b"audio-bytes".to_vec());
    let r = worker_iteration(
        &mut store,
        &EncoderOutcome::Failed,
        &StoreFault::Clean,
        &settings(),
    );
    assert!(matches!(r.outcome, IterationOutcome::EmptyQueue));
    assert_eq!(r.slept_secs, 7);
    assert!(r.log.created.is_empty());
    assert_eq!(store.get(A), Some(b"audio-bytes".to_vec()));
    assert_eq!(store.pop_task(), None);
}

#[test]
fn malformed_payload_is_dropped_without_sleep_or_staging() {
    let mut store = StoreModel::new();
    store.set(A, b"audio-bytes".to_vec());
    store.push_task(b"not a task at all".to_vec());
    let r = worker_iteration(
        &mut store,
        &EncoderOutcome::Output(b"mp4".to_vec()),
        &StoreFault::Clean,
        &settings(),
    );
    assert!(matches!(r.outcome, IterationOutcome::DroppedMalformed));
    assert_eq!(r.slept_secs, 0);
    assert!(r.log.created.is_empty());
    assert!(r.log.removed.is_empty());
    // The bad entry is gone for good and nothing else changed.
    assert_eq!(store.pop_task(), None);
    assert_eq!(store.get(A), Some(b"audio-bytes".to_vec()));
}

#[test]
fn successful_render_commits_result_marker_and_deletes_assets() {
    let (mut store, _task) = loaded_store();
    let r = worker_iteration(
        &mut store,
        &EncoderOutcome::Output(b"mp4-bytes".to_vec()),
        &StoreFault::Clean,
        &settings(),
    );
    let vid = match r.outcome {
        IterationOutcome::Committed(vid) => vid,
        _ => panic!("expected a committed render"),
    };
    // Exactly one new result blob, with the configured TTL in seconds.
    assert_eq!(store.get(vid), Some(b"mp4-bytes".to_vec()));
    assert_eq!(store.ttl_secs(vid), Some(Some(3 * 60)));
    // The marker names the result.
    assert_eq!(store.get(T), Some(format_id(vid)));
    // Both source assets are gone, the queue is empty.
    assert_eq!(store.get(A), None);
    assert_eq!(store.get(B), None);
    assert_eq!(store.pop_task(), None);
    // Both staged files were created and removed again, in scope order.
    assert_eq!(
        r.log.created,
        vec![FfmpegBufferName::Audio(A), FfmpegBufferName::Image(B)]
    );
    assert_eq!(
        r.log.removed,
        vec![FfmpegBufferName::Image(B), FfmpegBufferName::Audio(A)]
    );
    assert_eq!(r.slept_secs, 0);
}

#[test]
fn encoder_failure_requeues_task_and_keeps_assets() {
    let (mut store, task) = loaded_store();
    let r = worker_iteration(
        &mut store,
        &EncoderOutcome::Failed,
        &StoreFault::Clean,
        &settings(),
    );
    assert!(matches!(r.outcome, IterationOutcome::RecoveredRequeued));
    assert_eq!(r.slept_secs, 1);
    // Assets and marker are untouched.
    assert_eq!(store.get(A), Some(b"audio-bytes".to_vec()));
    assert_eq!(store.get(B), Some(b"image-bytes".to_vec()));
    assert_eq!(store.get(T), Some(b"pending".to_vec()));
    // The original task sits at the tail exactly once.
    assert_eq!(store.pop_task(), Some(encode_task(&task)));
    assert_eq!(store.pop_task(), None);
    // The staged files were cleaned up.
    assert_eq!(
        r.log.created,
        vec![FfmpegBufferName::Audio(A), FfmpegBufferName::Image(B)]
    );
    assert_eq!(
        r.log.removed,
        vec![FfmpegBufferName::Image(B), FfmpegBufferName::Audio(A)]
    );
}

#[test]
fn commit_failure_aborts_transaction_and_requeues() {
    for step in 0u8..=5u8 {
        let (mut store, task) = loaded_store();
        let r = worker_iteration(
            &mut store,
            &EncoderOutcome::Output(b"mp4-bytes".to_vec()),
            &StoreFault::AtCommitStep(step),
            &settings(),
        );
        assert!(matches!(r.outcome, IterationOutcome::RecoveredRequeued));
        assert_eq!(r.slept_secs, 1);
        // No partial commit effects: assets and marker exactly as before.
        assert_eq!(store.get(A), Some(b"audio-bytes".to_vec()));
        assert_eq!(store.get(B), Some(b"image-bytes".to_vec()));
        assert_eq!(store.get(T), Some(b"pending".to_vec()));
        assert_eq!(store.pop_task(), Some(encode_task(&task)));
        assert_eq!(store.pop_task(), None);
    }
}

#[test]
fn missing_asset_is_a_recoverable_failure() {
    let mut store = StoreModel::new();
    let task = RenderTask { target: T, audio: A, image: B };
    store.set(T, b"pending".to_vec());
    store.set(A, b"audio-bytes".to_vec());
    // No image asset.
    task.queue(&mut store);
    let r = worker_iteration(
        &mut store,
        &EncoderOutcome::Output(b"mp4-bytes".to_vec()),
        &StoreFault::Clean,
        &settings(),
    );
    assert!(matches!(r.outcome, IterationOutcome::RecoveredRequeued));
    // The audio buffer was staged and released again.
    assert_eq!(r.log.created, vec![FfmpegBufferName::Audio(A)]);
    assert_eq!(r.log.removed, vec![FfmpegBufferName::Audio(A)]);
}

#[test]
fn requeue_failure_loses_the_task() {
    let (mut store, _task) = loaded_store();
    let r = worker_iteration(
        &mut store,
        &EncoderOutcome::Failed,
        &StoreFault::AtRequeue,
        &settings(),
    );
    assert!(matches!(r.outcome, IterationOutcome::TaskLost));
    assert_eq!(store.pop_task(), None);
    // The assets survive for a manual retry.
    assert_eq!(store.get(A), Some(b"audio-bytes".to_vec()));
}

#[test]
fn retry_after_failure_reaches_the_success_postconditions() {
    let (mut store, _task) = loaded_store();
    let r1 = worker_iteration(
        &mut store,
        &EncoderOutcome::Failed,
        &StoreFault::Clean,
        &settings(),
    );
    assert!(matches!(r1.outcome, IterationOutcome::RecoveredRequeued));
    let r2 = worker_iteration(
        &mut store,
        &EncoderOutcome::Output(b"mp4-bytes".to_vec()),
        &StoreFault::Clean,
        &settings(),
    );
    let vid = match r2.outcome {
        IterationOutcome::Committed(vid) => vid,
        _ => panic!("expected the retry to commit"),
    };
    assert_eq!(store.get(vid), Some(b"mp4-bytes".to_vec()));
    assert_eq!(store.ttl_secs(vid), Some(Some(180)));
    assert_eq!(store.get(T), Some(format_id(vid)));
    assert_eq!(store.get(A), None);
    assert_eq!(store.get(B), None);
    assert_eq!(store.pop_task(), None);
}

#[test]
fn file_names_carry_the_conventional_extensions() {
    assert_eq!(
        FfmpegBufferName::Audio(1).file_name(),
        b"00000000-0000-0000-0000-000000000001.mp3".to_vec()
    );
    assert_eq!(
        FfmpegBufferName::Image(2).file_name(),
        b"00000000-0000-0000-0000-000000000002.jpg".to_vec()
    );
}

#[test]
fn transition_table_follows_the_design() {
    assert_eq!(
        worker_transition(WorkerState::Idle, WorkerEvent::Poll, 9),
        Some((WorkerState::Fetching, 0))
    );
    assert_eq!(
        worker_transition(WorkerState::Fetching, WorkerEvent::QueueEmpty, 9),
        Some((WorkerState::Idle, 9))
    );
    assert_eq!(
        worker_transition(WorkerState::Fetching, WorkerEvent::MalformedPayload, 9),
        Some((WorkerState::Idle, 0))
    );
    assert_eq!(
        worker_transition(WorkerState::Rendering, WorkerEvent::RenderFailed, 9),
        Some((WorkerState::Recovering, 0))
    );
    assert_eq!(
        worker_transition(WorkerState::Committing, WorkerEvent::CommitFailed, 9),
        Some((WorkerState::Recovering, 0))
    );
    assert_eq!(
        worker_transition(WorkerState::Recovering, WorkerEvent::Recovered, 9),
        Some((WorkerState::Idle, 1))
    );
    assert_eq!(
        worker_transition(WorkerState::Idle, WorkerEvent::CommitOk, 9),
        None
    );
}
