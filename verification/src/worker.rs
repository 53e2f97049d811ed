//! The render worker: the sole consumer of the task queue.
//!
//! One iteration of the worker loop pops a task, stages its two assets as
//! local encoder input files, lets the external encoder run, and commits the
//! result in one all-or-nothing transaction: store the encoded bytes under a
//! fresh key with a TTL of `lifetime` minutes, point the task's progress
//! marker at that key, and delete the two source assets. Any failure after a
//! task was popped aborts the open transaction, re-pushes the task at the
//! tail of the queue (best effort) and backs off for one second; a payload
//! that does not decode is dropped for good, since it could never be
//! processed.
//!
//! Everything the loop decides is verified here against the store model; the
//! process around it performs the same steps against the real store, runs
//! the encoder subprocess, and sleeps for the seconds reported.
use vstd::prelude::*;

verus! {

use crate::ident::fresh_id;
use crate::ident::format_id;
use crate::ident::id_bytes;
use crate::store::EntryView;
use crate::store::StoreModel;
use crate::store::StoreView;
use crate::store::copy_bytes;
use crate::task::RenderTask;
use crate::task::decode_task;
use crate::task::task_bytes;
use crate::task::lemma_task_bytes_injective;

/// Name of a staged encoder input file: the asset's identifier with the
/// conventional extension for its kind.
#[derive(Clone, Copy, PartialEq, Eq, Structural, Debug)]
pub enum FfmpegBufferName {
    Image(u128),
    Audio(u128),
}

/// The bytes of `.mp3`.
pub open spec fn mp3_ext() -> Seq<u8> {
    seq![46u8, 109u8, 112u8, 51u8]
}

/// The bytes of `.jpg`.
pub open spec fn jpg_ext() -> Seq<u8> {
    seq![46u8, 106u8, 112u8, 103u8]
}

/// The file name of a staged buffer.
pub open spec fn buffer_file_name(n: FfmpegBufferName) -> Seq<u8> {
    match n {
        FfmpegBufferName::Image(k) => id_bytes(k) + jpg_ext(),
        FfmpegBufferName::Audio(k) => id_bytes(k) + mp3_ext(),
    }
}

impl FfmpegBufferName {
    /// The name of the staged audio file for the given asset key.
    pub fn new_audio(audio_key: u128) -> (r: FfmpegBufferName)
        ensures
            r == FfmpegBufferName::Audio(audio_key),
    {
        FfmpegBufferName::Audio(audio_key)
    }

    /// The name of the staged image file for the given asset key.
    pub fn new_image(image_key: u128) -> (r: FfmpegBufferName)
        ensures
            r == FfmpegBufferName::Image(image_key),
    {
        FfmpegBufferName::Image(image_key)
    }

    /// Render the file name as bytes.
    pub fn file_name(&self) -> (r: Vec<u8>)
        ensures
            r@ == buffer_file_name(*self),
    {
        match self {
            FfmpegBufferName::Image(k) => {
                let mut v = format_id(*k);
                v.push(46);
                v.push(106);
                v.push(112);
                v.push(103);
                proof {
                    assert(v@ =~= id_bytes(*k) + jpg_ext());
                }
                v
            },
            FfmpegBufferName::Audio(k) => {
                let mut v = format_id(*k);
                v.push(46);
                v.push(109);
                v.push(112);
                v.push(51);
                proof {
                    assert(v@ =~= id_bytes(*k) + mp3_ext());
                }
                v
            },
        }
    }
}

/// Record of the staged files one iteration created and removed, in order.
pub struct StagingLog {
    pub created: Vec<FfmpegBufferName>,
    pub removed: Vec<FfmpegBufferName>,
}

impl StagingLog {
    /// A log with no events yet.
    pub fn new() -> (r: StagingLog)
        ensures
            r.created@ == Seq::<FfmpegBufferName>::empty(),
            r.removed@ == Seq::<FfmpegBufferName>::empty(),
    {
        let r = StagingLog { created: Vec::new(), removed: Vec::new() };
        proof {
            assert(r.created@ =~= Seq::<FfmpegBufferName>::empty());
            assert(r.removed@ =~= Seq::<FfmpegBufferName>::empty());
        }
        r
    }
}

/// Every staged file was released again: nothing remains on disk.
pub open spec fn staged_clean(log: StagingLog) -> bool {
    &&& log.created@.len() == log.removed@.len()
    &&& forall|n: FfmpegBufferName| log.created@.contains(n) <==> log.removed@.contains(n)
}

/// A staged local file holding one asset's bytes for the encoder. The file
/// exists from `new` until `release`; the owning iteration must release it
/// on every exit path, which the staging log makes checkable.
pub struct FfmpegAssetBuffer {
    /// The buffer's file name.
    pub name: FfmpegBufferName,
    /// The bytes written to it so far.
    pub data: Vec<u8>,
}

impl FfmpegAssetBuffer {
    /// Create the (still empty) buffer file, recording the creation.
    pub fn new(name: FfmpegBufferName, log: &mut StagingLog) -> (r: FfmpegAssetBuffer)
        ensures
            r.name == name,
            r.data@ == Seq::<u8>::empty(),
            final(log).created@ == old(log).created@.push(name),
            final(log).removed@ == old(log).removed@,
    {
        let r = FfmpegAssetBuffer { name, data: Vec::new() };
        log.created.push(name);
        proof {
            assert(r.data@ =~= Seq::<u8>::empty());
        }
        r
    }

    /// Store the given data in the buffer file.
    pub fn add_data(&mut self, data: &Vec<u8>)
        ensures
            final(self).name == old(self).name,
            final(self).data@ == old(self).data@ + data@,
    {
        let mut more = copy_bytes(data);
        self.data.append(&mut more);
    }

    /// The file path of this buffer.
    pub fn get_path(&self) -> (r: Vec<u8>)
        ensures
            r@ == buffer_file_name(self.name),
    {
        self.name.file_name()
    }

    /// Remove the buffer file, recording the removal. Consumes the buffer,
    /// so each staged file is removed exactly once.
    pub fn release(self, log: &mut StagingLog)
        ensures
            final(log).created@ == old(log).created@,
            final(log).removed@ == old(log).removed@.push(self.name),
    {
        log.removed.push(self.name);
    }
}

/// What the queue held when the worker polled it.
pub enum QueueQueryOutcome {
    /// The oldest entry, decoded.
    NewTask(RenderTask),
    /// Nothing was queued.
    EmptyQueue,
}

/// The popped payload was not the encoding of any task. The payload is
/// already gone from the queue and can never be processed, so the task is
/// dropped for good.
pub struct TaskDecodeError;

/// Pop the next task from the render queue. The entry leaves the queue even
/// when it fails to decode: a payload that is no task's encoding cannot ever
/// be used and is dropped.
pub fn get_next_task(store: &mut StoreModel) -> (r: Result<QueueQueryOutcome, TaskDecodeError>)
    requires
        old(store).wf(),
    ensures
        final(store).wf(),
        final(store)@.entries == old(store)@.entries,
        final(store)@.txn == old(store)@.txn,
        old(store)@.queue.len() == 0 ==> (r matches Ok(o) && o is EmptyQueue && final(store)@.queue
            == old(store)@.queue),
        old(store)@.queue.len() > 0 ==> final(store)@.queue == old(store)@.queue.drop_first(),
        old(store)@.queue.len() > 0 ==> ((r matches Ok(o) && o matches
            QueueQueryOutcome::NewTask(t) && old(store)@.queue[0] == task_bytes(t)) || (r is Err
            && forall|t: RenderTask| old(store)@.queue[0] != task_bytes(t))),
{
    let payload = match store.pop_task() {
        Some(p) => p,
        None => {
            return Ok(QueueQueryOutcome::EmptyQueue);
        },
    };
    match decode_task(&payload) {
        Some(t) => Ok(QueueQueryOutcome::NewTask(t)),
        None => Err(TaskDecodeError),
    }
}

/// What the external encoder did for one task.
pub enum EncoderOutcome {
    /// The encoder exited cleanly; these are the bytes it wrote to its
    /// standard output.
    Output(Vec<u8>),
    /// The encoder could not be spawned or exited with a failure.
    Failed,
}

/// Why one render attempt failed. Every case is recoverable: the task is
/// re-queued and tried again.
pub enum RenderError {
    /// The audio asset could not be fetched from the store.
    AudioFetch,
    /// The image asset could not be fetched from the store.
    ImageFetch,
    /// The encoder failed (spawn failure or non-zero exit).
    Encoder,
}

/// Stage the task's assets as local files and run the encoder over them.
/// The staged files are released on every exit path; the log shows it.
pub fn try_render_task(
    store: &StoreModel,
    task: &RenderTask,
    encoder: &EncoderOutcome,
    log: &mut StagingLog,
) -> (r: Result<Vec<u8>, RenderError>)
    requires
        store.wf(),
        old(log).created@ == Seq::<FfmpegBufferName>::empty(),
        old(log).removed@ == Seq::<FfmpegBufferName>::empty(),
    ensures
        !store@.entries.dom().contains(task.audio) ==> (r matches Err(e) && e is AudioFetch
            && final(log).created@ == Seq::<FfmpegBufferName>::empty() && final(log).removed@
            == Seq::<FfmpegBufferName>::empty()),
        store@.entries.dom().contains(task.audio) && !store@.entries.dom().contains(task.image)
            ==> (r matches Err(e) && e is ImageFetch && final(log).created@ == seq![
            FfmpegBufferName::Audio(task.audio),
        ] && final(log).removed@ == seq![FfmpegBufferName::Audio(task.audio)]),
        store@.entries.dom().contains(task.audio) && store@.entries.dom().contains(task.image)
            ==> (final(log).created@ == seq![
            FfmpegBufferName::Audio(task.audio),
            FfmpegBufferName::Image(task.image),
        ] && final(log).removed@ == seq![
            FfmpegBufferName::Image(task.image),
            FfmpegBufferName::Audio(task.audio),
        ]),
        store@.entries.dom().contains(task.audio) && store@.entries.dom().contains(task.image)
            && encoder is Failed ==> (r matches Err(e) && e is Encoder),
        encoder matches EncoderOutcome::Output(d) ==> (store@.entries.dom().contains(task.audio)
            && store@.entries.dom().contains(task.image) ==> (r matches Ok(v) && v@ == d@)),
{
    let audio_data = match store.get(task.audio) {
        Some(d) => d,
        None => {
            return Err(RenderError::AudioFetch);
        },
    };
    let mut audio_buf = FfmpegAssetBuffer::new(FfmpegBufferName::new_audio(task.audio), log);
    audio_buf.add_data(&audio_data);
    let image_data = match store.get(task.image) {
        Some(d) => d,
        None => {
            audio_buf.release(log);
            proof {
                assert(log.created@ =~= seq![FfmpegBufferName::Audio(task.audio)]);
                assert(log.removed@ =~= seq![FfmpegBufferName::Audio(task.audio)]);
            }
            return Err(RenderError::ImageFetch);
        },
    };
    let mut image_buf = FfmpegAssetBuffer::new(FfmpegBufferName::new_image(task.image), log);
    image_buf.add_data(&image_data);
    let result = match encoder {
        EncoderOutcome::Output(d) => Ok(copy_bytes(d)),
        EncoderOutcome::Failed => Err(RenderError::Encoder),
    };
    image_buf.release(log);
    audio_buf.release(log);
    proof {
        assert(log.created@ =~= seq![
            FfmpegBufferName::Audio(task.audio),
            FfmpegBufferName::Image(task.image),
        ]);
        assert(log.removed@ =~= seq![
            FfmpegBufferName::Image(task.image),
            FfmpegBufferName::Audio(task.audio),
        ]);
    }
    result
}

/// A step of the commit transaction was refused by the store; the whole
/// transaction was aborted and nothing took effect.
pub struct CommitError;

/// Which store calls fail during this iteration, modelling transient store
/// errors. The commit's calls are numbered in order: storing the result,
/// setting its expiry, updating the marker, deleting the image, deleting the
/// audio, and finishing the transaction itself.
pub enum StoreFault {
    /// Every call succeeds.
    Clean,
    /// The commit call with this index fails.
    AtCommitStep(u8),
    /// Re-pushing a failed task to the queue fails; the task is then lost.
    AtRequeue,
}

/// Whether the fault hits one of the six commit calls.
pub open spec fn commit_faults(f: StoreFault) -> bool {
    f matches StoreFault::AtCommitStep(k) && k <= 5
}

/// Whether the fault hits the re-queue push.
pub open spec fn requeue_faults(f: StoreFault) -> bool {
    f is AtRequeue
}

/// Whether the fault hits commit call number `step`.
fn commit_faulted(fault: &StoreFault, step: u8) -> (r: bool)
    ensures
        r == (fault matches StoreFault::AtCommitStep(k) && k == step),
{
    match fault {
        StoreFault::AtCommitStep(k) => *k == step,
        _ => false,
    }
}

/// The TTL in seconds of a committed result, from the configured lifetime in
/// minutes.
pub open spec fn commit_secs(lifetime_mins: u16) -> u64 {
    (lifetime_mins * 60) as u64
}

/// What a successful commit does to the committed entries: the result bytes
/// appear under the fresh key `vid` with their TTL, the task's marker is
/// pointed at `vid`, and the two source assets are gone.
pub open spec fn commit_effect(
    m: Map<u128, EntryView>,
    t: RenderTask,
    vid: u128,
    data: Seq<u8>,
    secs: u64,
) -> Map<u128, EntryView> {
    m.insert(vid, EntryView { value: data, ttl_secs: Some(secs) }).insert(
        t.target,
        EntryView { value: id_bytes(vid), ttl_secs: None },
    ).remove(t.image).remove(t.audio)
}

/// Save a finished render: within one transaction, store the result bytes
/// under a fresh key, set their expiry to `lifetime_mins` minutes, point the
/// task's progress marker at the new key, and delete the two source assets.
/// If any step fails the transaction is aborted and the store is untouched.
pub fn try_save_render(
    store: &mut StoreModel,
    task: &RenderTask,
    data: &Vec<u8>,
    lifetime_mins: u16,
    fault: &StoreFault,
) -> (r: Result<u128, CommitError>)
    requires
        old(store).wf(),
        old(store)@.txn is None,
    ensures
        final(store).wf(),
        final(store)@.txn is None,
        final(store)@.queue == old(store)@.queue,
        commit_faults(*fault) ==> (r is Err && final(store)@.entries == old(store)@.entries),
        !commit_faults(*fault) ==> (r matches Ok(vid) && final(store)@.entries == commit_effect(
            old(store)@.entries,
            *task,
            vid,
            data@,
            commit_secs(lifetime_mins),
        )),
{
    let video_key = fresh_id();
    store.begin();
    if commit_faulted(fault, 0) {
        store.abort();
        return Err(CommitError);
    }
    store.set(video_key, copy_bytes(data));
    if commit_faulted(fault, 1) {
        store.abort();
        return Err(CommitError);
    }
    let lifetime_secs: u64 = (lifetime_mins as u64) * 60;
    store.expire(video_key, lifetime_secs);
    if commit_faulted(fault, 2) {
        store.abort();
        return Err(CommitError);
    }
    store.set(task.target, format_id(video_key));
    if commit_faulted(fault, 3) {
        store.abort();
        return Err(CommitError);
    }
    store.del(task.image);
    if commit_faulted(fault, 4) {
        store.abort();
        return Err(CommitError);
    }
    store.del(task.audio);
    if commit_faulted(fault, 5) {
        store.abort();
        return Err(CommitError);
    }
    proof {
        let m = old(store)@.entries;
        let o0 = crate::store::OpView::Put { key: video_key, value: data@ };
        let o1 = crate::store::OpView::Expire { key: video_key, ttl_secs: lifetime_secs };
        let o2 = crate::store::OpView::Put { key: task.target, value: id_bytes(video_key) };
        let o3 = crate::store::OpView::Del { key: task.image };
        let o4 = crate::store::OpView::Del { key: task.audio };
        let s0 = store@.txn->0;
        assert(s0 =~= seq![o0, o1, o2, o3, o4]);
        let s1 = s0.drop_first();
        let s2 = s1.drop_first();
        let s3 = s2.drop_first();
        let s4 = s3.drop_first();
        let s5 = s4.drop_first();
        assert(s0[0] == o0 && s1[0] == o1 && s2[0] == o2 && s3[0] == o3 && s4[0] == o4);
        assert(s5.len() == 0);
        let m1 = crate::store::apply_op(m, o0);
        assert(m1.dom().contains(video_key));
        let m2 = crate::store::apply_op(m1, o1);
        let m3 = crate::store::apply_op(m2, o2);
        let m4 = crate::store::apply_op(m3, o3);
        let m5 = crate::store::apply_op(m4, o4);
        assert(crate::store::apply_ops(m, s0) == crate::store::apply_ops(m1, s1));
        assert(crate::store::apply_ops(m1, s1) == crate::store::apply_ops(m2, s2));
        assert(crate::store::apply_ops(m2, s2) == crate::store::apply_ops(m3, s3));
        assert(crate::store::apply_ops(m3, s3) == crate::store::apply_ops(m4, s4));
        assert(crate::store::apply_ops(m4, s4) == crate::store::apply_ops(m5, s5));
        assert(crate::store::apply_ops(m5, s5) == m5);
        assert(m5 =~= commit_effect(m, *task, video_key, data@, commit_secs(lifetime_mins)));
    }
    store.commit();
    Ok(video_key)
}


use crate::configuration::RenderWorkerSettings;

/// How one pass of the worker loop ended.
pub enum IterationOutcome {
    /// The queue was empty; the worker sleeps `laziness` seconds.
    EmptyQueue,
    /// The popped payload decoded to no task and was dropped for good; the
    /// loop continues at once.
    DroppedMalformed,
    /// The render was committed; the result sits under the returned key.
    Committed(u128),
    /// Something failed; the task is back at the tail of the queue and the
    /// worker backs off for one second.
    RecoveredRequeued,
    /// Something failed and re-queueing failed too: the task is lost.
    TaskLost,
}

/// What one pass of the worker loop did: its outcome, how long the process
/// must sleep before the next pass, and the staged files it created and
/// removed.
pub struct IterationReport {
    pub outcome: IterationOutcome,
    pub slept_secs: u64,
    pub log: StagingLog,
}

/// After a pass over an empty queue the store is untouched and the worker
/// sleeps `laziness` seconds.
pub open spec fn empty_queue_post(
    v0: StoreView,
    v1: StoreView,
    r: IterationReport,
    laziness: u16,
) -> bool {
    &&& r.outcome is EmptyQueue
    &&& r.slept_secs == laziness
    &&& v1.entries == v0.entries
    &&& v1.queue == v0.queue
    &&& r.log.created@ == Seq::<FfmpegBufferName>::empty()
    &&& r.log.removed@ == Seq::<FfmpegBufferName>::empty()
}

/// After dropping a malformed payload the entries are untouched, the payload
/// is gone from the queue, no file was staged and the loop continues with no
/// delay.
pub open spec fn dropped_post(v0: StoreView, v1: StoreView, r: IterationReport) -> bool {
    &&& r.outcome is DroppedMalformed
    &&& r.slept_secs == 0
    &&& v1.entries == v0.entries
    &&& v1.queue == v0.queue.drop_first()
    &&& r.log.created@ == Seq::<FfmpegBufferName>::empty()
    &&& r.log.removed@ == Seq::<FfmpegBufferName>::empty()
}

/// After a failed attempt the entries are exactly as before (the transaction
/// left no partial effects), the task sits at the tail of the queue again —
/// unless the re-queue push itself failed, which loses the task — and the
/// worker backs off for one second.
pub open spec fn recovered_post(
    v0: StoreView,
    v1: StoreView,
    r: IterationReport,
    fault: StoreFault,
) -> bool {
    &&& v1.entries == v0.entries
    &&& r.slept_secs == 1
    &&& if requeue_faults(fault) {
        r.outcome is TaskLost && v1.queue == v0.queue.drop_first()
    } else {
        r.outcome is RecoveredRequeued && v1.queue == v0.queue.drop_first().push(v0.queue[0])
    }
}

/// After a successful pass exactly the commit's five writes took effect and
/// the task is gone from the queue.
pub open spec fn committed_post(
    v0: StoreView,
    v1: StoreView,
    r: IterationReport,
    t: RenderTask,
    data: Seq<u8>,
    lifetime: u16,
) -> bool {
    &&& r.outcome matches IterationOutcome::Committed(vid) && v1.entries == commit_effect(
        v0.entries,
        t,
        vid,
        data,
        commit_secs(lifetime),
    )
    &&& v1.queue == v0.queue.drop_first()
    &&& r.slept_secs == 0
}

/// Abort whatever transaction is open and put the task back at the tail of
/// the queue, best effort: when the push fails too the task is lost and only
/// logged. Either way the worker backs off for one second.
fn recover_from_failure(
    store: &mut StoreModel,
    task: &RenderTask,
    fault: &StoreFault,
    log: StagingLog,
) -> (r: IterationReport)
    requires
        old(store).wf(),
    ensures
        final(store).wf(),
        final(store)@.txn is None,
        final(store)@.entries == old(store)@.entries,
        r.slept_secs == 1,
        r.log == log,
        requeue_faults(*fault) ==> (r.outcome is TaskLost && final(store)@.queue == old(
            store,
        )@.queue),
        !requeue_faults(*fault) ==> (r.outcome is RecoveredRequeued && final(store)@.queue == old(
            store,
        )@.queue.push(task_bytes(*task))),
{
    store.abort();
    let requeue_fails = match fault {
        StoreFault::AtRequeue => true,
        _ => false,
    };
    if requeue_fails {
        IterationReport { outcome: IterationOutcome::TaskLost, slept_secs: 1, log }
    } else {
        let _target = (*task).queue(store);
        IterationReport { outcome: IterationOutcome::RecoveredRequeued, slept_secs: 1, log }
    }
}

/// One pass of the worker loop over the store: poll the queue, render the
/// popped task, commit the result — or recover. The encoder's behaviour and
/// the store's transient failures enter as parameters; the pass is verified
/// for every value of them.
pub fn worker_iteration(
    store: &mut StoreModel,
    encoder: &EncoderOutcome,
    fault: &StoreFault,
    settings: &RenderWorkerSettings,
) -> (r: IterationReport)
    requires
        old(store).wf(),
        old(store)@.txn is None,
    ensures
        final(store).wf(),
        final(store)@.txn is None,
        staged_clean(r.log),
        old(store)@.queue.len() == 0 ==> empty_queue_post(
            old(store)@,
            final(store)@,
            r,
            settings.laziness,
        ),
        (old(store)@.queue.len() > 0 && (forall|t: RenderTask|
            old(store)@.queue[0] != task_bytes(t))) ==> dropped_post(
            old(store)@,
            final(store)@,
            r,
        ),
        forall|t: RenderTask|
            (old(store)@.queue.len() > 0 && old(store)@.queue[0] == task_bytes(t) && !old(
                store,
            )@.entries.dom().contains(t.audio)) ==> (recovered_post(
                old(store)@,
                final(store)@,
                r,
                *fault,
            ) && r.log.created@ == Seq::<FfmpegBufferName>::empty()),
        forall|t: RenderTask|
            (old(store)@.queue.len() > 0 && old(store)@.queue[0] == task_bytes(t) && old(
                store,
            )@.entries.dom().contains(t.audio) && !old(store)@.entries.dom().contains(t.image))
                ==> (recovered_post(old(store)@, final(store)@, r, *fault) && r.log.created@
                == seq![FfmpegBufferName::Audio(t.audio)]),
        forall|t: RenderTask|
            (old(store)@.queue.len() > 0 && old(store)@.queue[0] == task_bytes(t) && old(
                store,
            )@.entries.dom().contains(t.audio) && old(store)@.entries.dom().contains(t.image))
                ==> (r.log.created@ == seq![
                FfmpegBufferName::Audio(t.audio),
                FfmpegBufferName::Image(t.image),
            ] && r.log.removed@ == seq![
                FfmpegBufferName::Image(t.image),
                FfmpegBufferName::Audio(t.audio),
            ]),
        encoder is Failed ==> forall|t: RenderTask|
            (old(store)@.queue.len() > 0 && old(store)@.queue[0] == task_bytes(t) && old(
                store,
            )@.entries.dom().contains(t.audio) && old(store)@.entries.dom().contains(t.image))
                ==> recovered_post(old(store)@, final(store)@, r, *fault),
        encoder matches EncoderOutcome::Output(d) ==> forall|t: RenderTask|
            (old(store)@.queue.len() > 0 && old(store)@.queue[0] == task_bytes(t) && old(
                store,
            )@.entries.dom().contains(t.audio) && old(store)@.entries.dom().contains(t.image))
                ==> (if commit_faults(*fault) {
                recovered_post(old(store)@, final(store)@, r, *fault)
            } else {
                committed_post(old(store)@, final(store)@, r, t, d@, settings.lifetime)
            }),
{
    let log = StagingLog::new();
    let task = match get_next_task(store) {
        Ok(QueueQueryOutcome::NewTask(t)) => t,
        Ok(QueueQueryOutcome::EmptyQueue) => {
            return IterationReport {
                outcome: IterationOutcome::EmptyQueue,
                slept_secs: settings.laziness as u64,
                log,
            };
        },
        Err(_) => {
            return IterationReport {
                outcome: IterationOutcome::DroppedMalformed,
                slept_secs: 0,
                log,
            };
        },
    };
    proof {
        assert forall|t: RenderTask| old(store)@.queue[0] == task_bytes(t) implies t == task by {
            lemma_task_bytes_injective(t, task);
        }
    }
    let mut log = log;
    match try_render_task(store, &task, encoder, &mut log) {
        Ok(data) => {
            match try_save_render(store, &task, &data, settings.lifetime, fault) {
                Ok(video_key) => IterationReport {
                    outcome: IterationOutcome::Committed(video_key),
                    slept_secs: 0,
                    log,
                },
                Err(_) => recover_from_failure(store, &task, fault, log),
            }
        },
        Err(_) => recover_from_failure(store, &task, fault, log),
    }
}


use crate::progress::pending_value;

/// The states of the worker loop.
#[derive(Clone, Copy, PartialEq, Eq, Structural, Debug)]
pub enum WorkerState {
    /// Between iterations.
    Idle,
    /// Polling the queue.
    Fetching,
    /// Staging assets and running the encoder.
    Rendering,
    /// Writing the result transaction.
    Committing,
    /// Aborting and re-queueing after a failure.
    Recovering,
}

/// The events that drive the worker loop.
#[derive(Clone, Copy, PartialEq, Eq, Structural, Debug)]
pub enum WorkerEvent {
    /// The loop turns to the queue.
    Poll,
    /// The queue was empty.
    QueueEmpty,
    /// A task was popped and decoded.
    TaskReady,
    /// The popped payload decoded to no task.
    MalformedPayload,
    /// The encoder produced output.
    EncodeOk,
    /// Fetching an asset or running the encoder failed.
    RenderFailed,
    /// The result transaction went through.
    CommitOk,
    /// A step of the result transaction failed.
    CommitFailed,
    /// Abort and re-queue are done.
    Recovered,
}

/// The worker loop's transition table: the state after an event, and the
/// seconds to sleep on the way. Events that cannot occur in a state map to
/// nothing. The loop sleeps `laziness` seconds when the queue was empty and
/// one second after a failure; a malformed payload costs no delay.
pub open spec fn spec_worker_transition(s: WorkerState, e: WorkerEvent, laziness: u16) -> Option<
    (WorkerState, u64),
> {
    match (s, e) {
        (WorkerState::Idle, WorkerEvent::Poll) => Some((WorkerState::Fetching, 0u64)),
        (WorkerState::Fetching, WorkerEvent::QueueEmpty) => Some(
            (WorkerState::Idle, laziness as u64),
        ),
        (WorkerState::Fetching, WorkerEvent::TaskReady) => Some((WorkerState::Rendering, 0u64)),
        (WorkerState::Fetching, WorkerEvent::MalformedPayload) => Some(
            (WorkerState::Idle, 0u64),
        ),
        (WorkerState::Rendering, WorkerEvent::EncodeOk) => Some((WorkerState::Committing, 0u64)),
        (WorkerState::Rendering, WorkerEvent::RenderFailed) => Some(
            (WorkerState::Recovering, 0u64),
        ),
        (WorkerState::Committing, WorkerEvent::CommitOk) => Some((WorkerState::Idle, 0u64)),
        (WorkerState::Committing, WorkerEvent::CommitFailed) => Some(
            (WorkerState::Recovering, 0u64),
        ),
        (WorkerState::Recovering, WorkerEvent::Recovered) => Some((WorkerState::Idle, 1u64)),
        _ => None,
    }
}

/// The worker loop's transition table, executable form.
pub fn worker_transition(s: WorkerState, e: WorkerEvent, laziness: u16) -> (r: Option<
    (WorkerState, u64),
>)
    ensures
        r == spec_worker_transition(s, e, laziness),
{
    match (s, e) {
        (WorkerState::Idle, WorkerEvent::Poll) => Some((WorkerState::Fetching, 0u64)),
        (WorkerState::Fetching, WorkerEvent::QueueEmpty) => Some(
            (WorkerState::Idle, laziness as u64),
        ),
        (WorkerState::Fetching, WorkerEvent::TaskReady) => Some((WorkerState::Rendering, 0u64)),
        (WorkerState::Fetching, WorkerEvent::MalformedPayload) => Some(
            (WorkerState::Idle, 0u64),
        ),
        (WorkerState::Rendering, WorkerEvent::EncodeOk) => Some((WorkerState::Committing, 0u64)),
        (WorkerState::Rendering, WorkerEvent::RenderFailed) => Some(
            (WorkerState::Recovering, 0u64),
        ),
        (WorkerState::Committing, WorkerEvent::CommitOk) => Some((WorkerState::Idle, 0u64)),
        (WorkerState::Committing, WorkerEvent::CommitFailed) => Some(
            (WorkerState::Recovering, 0u64),
        ),
        (WorkerState::Recovering, WorkerEvent::Recovered) => Some((WorkerState::Idle, 1u64)),
        _ => None,
    }
}

/// The fixed encoder invocation for one render: loop the still image at one
/// frame per second, mux it with the audio track, stop at the shorter
/// stream, copy the audio codec, encode video with the fast still-image
/// preset, and emit a fragmented MP4 container to standard output.
pub fn render_args<'a>(image_path: &'a str, audio_path: &'a str) -> (r: Vec<&'a str>)
    ensures
        r@.len() == 26,
        r@[0]@ == "-r"@,
        r@[1]@ == "1"@,
        r@[2]@ == "-loop"@,
        r@[3]@ == "1"@,
        r@[4]@ == "-i"@,
        r@[5]@ == image_path@,
        r@[6]@ == "-i"@,
        r@[7]@ == audio_path@,
        r@[8]@ == "-shortest"@,
        r@[9]@ == "-fflags"@,
        r@[10]@ == "shortest"@,
        r@[11]@ == "-max_interleave_delta"@,
        r@[12]@ == "100M"@,
        r@[13]@ == "-movflags"@,
        r@[14]@ == "frag_keyframe+empty_moov"@,
        r@[15]@ == "-acodec"@,
        r@[16]@ == "copy"@,
        r@[17]@ == "-vcodec"@,
        r@[18]@ == "libx264"@,
        r@[19]@ == "-tune"@,
        r@[20]@ == "stillimage"@,
        r@[21]@ == "-preset"@,
        r@[22]@ == "ultrafast"@,
        r@[23]@ == "-f"@,
        r@[24]@ == "mp4"@,
        r@[25]@ == "-"@,
{
    let mut v: Vec<&'a str> = Vec::new();
    v.push("-r");
    v.push("1");
    v.push("-loop");
    v.push("1");
    v.push("-i");
    v.push(image_path);
    v.push("-i");
    v.push(audio_path);
    v.push("-shortest");
    v.push("-fflags");
    v.push("shortest");
    v.push("-max_interleave_delta");
    v.push("100M");
    v.push("-movflags");
    v.push("frag_keyframe+empty_moov");
    v.push("-acodec");
    v.push("copy");
    v.push("-vcodec");
    v.push("libx264");
    v.push("-tune");
    v.push("stillimage");
    v.push("-preset");
    v.push("ultrafast");
    v.push("-f");
    v.push("mp4");
    v.push("-");
    v
}

/// How often `p` occurs in the queue.
pub open spec fn count_of(q: Seq<Seq<u8>>, p: Seq<u8>) -> nat
    decreases q.len(),
{
    if q.len() == 0 {
        0
    } else {
        count_of(q.drop_last(), p) + (if q.last() == p {
            1nat
        } else {
            0nat
        })
    }
}

/// Counting can also split off the head of the queue.
proof fn lemma_count_drop_first(q: Seq<Seq<u8>>, p: Seq<u8>)
    requires
        q.len() > 0,
    ensures
        count_of(q, p) == count_of(q.drop_first(), p) + (if q[0] == p {
            1nat
        } else {
            0nat
        }),
    decreases q.len(),
{
    if q.len() == 1 {
        assert(q.drop_first() =~= Seq::<Seq<u8>>::empty());
        assert(q.drop_last() =~= Seq::<Seq<u8>>::empty());
        assert(q.last() == q[0]);
        assert(count_of(q.drop_first(), p) == 0);
        assert(count_of(q.drop_last(), p) == 0);
    } else {
        lemma_count_drop_first(q.drop_last(), p);
        assert(q.drop_last()[0] == q[0]);
        assert(q.drop_first().drop_last() =~= q.drop_last().drop_first());
        assert(q.drop_first().last() == q.last());
        assert(count_of(q, p) == count_of(q.drop_last(), p) + (if q.last() == p {
            1nat
        } else {
            0nat
        }));
        assert(count_of(q.drop_first(), p) == count_of(q.drop_first().drop_last(), p) + (
        if q.drop_first().last() == p {
            1nat
        } else {
            0nat
        }));
    }
}

/// After a recovered failure with an intact re-queue push, the original task
/// payload sits at the tail of the queue exactly once — provided it was
/// queued exactly once before, which the producer's one push per task
/// guarantees. The store entries, and with them both source assets, are
/// exactly as before the attempt.
pub proof fn lemma_requeue_exactly_once(
    v0: StoreView,
    v1: StoreView,
    r: IterationReport,
    fault: StoreFault,
)
    requires
        v0.queue.len() > 0,
        count_of(v0.queue, v0.queue[0]) == 1,
        !requeue_faults(fault),
        recovered_post(v0, v1, r, fault),
    ensures
        v1.entries == v0.entries,
        v1.queue.len() == v0.queue.len(),
        v1.queue.last() == v0.queue[0],
        count_of(v1.queue, v0.queue[0]) == 1,
{
    let p = v0.queue[0];
    lemma_count_drop_first(v0.queue, p);
    assert(count_of(v0.queue.drop_first(), p) == 0);
    assert(v1.queue.drop_last() =~= v0.queue.drop_first());
    assert(v1.queue.last() == p);
}

/// A successful commit under a fresh result key creates exactly one new
/// entry — the result blob, carrying its TTL —, points the task's marker at
/// it (and so never back at the pending sentinel), deletes both source
/// assets, and touches nothing else. The identifiers are distinct because
/// the producer draws each of them freshly.
pub proof fn lemma_commit_creates_one_result(
    m: Map<u128, EntryView>,
    t: RenderTask,
    vid: u128,
    data: Seq<u8>,
    secs: u64,
)
    requires
        !m.dom().contains(vid),
        vid != t.target,
        vid != t.audio,
        vid != t.image,
        t.target != t.audio,
        t.target != t.image,
    ensures
        ({
            let m2 = commit_effect(m, t, vid, data, secs);
            &&& m2.dom().contains(vid)
            &&& m2[vid].value == data
            &&& m2[vid].ttl_secs == Some(secs)
            &&& m2.dom().contains(t.target)
            &&& m2[t.target].value == id_bytes(vid)
            &&& m2[t.target].value != pending_value()
            &&& !m2.dom().contains(t.audio)
            &&& !m2.dom().contains(t.image)
            &&& forall|k: u128|
                (k != vid && k != t.target && k != t.audio && k != t.image) ==> ((
                m2.dom().contains(k) <==> m.dom().contains(k)) && (m.dom().contains(k)
                    ==> m2[k] == m[k]))
        }),
{
    let m2 = commit_effect(m, t, vid, data, secs);
    assert(id_bytes(vid).len() == 36);
    assert(pending_value().len() == 7);
}

/// The provable core of idempotence under retry: a failed attempt on the
/// only queued task hands the next pass exactly the same queue and exactly
/// the same store entries, so re-processing the re-queued task with
/// unchanged assets and a working encoder ends in exactly the success
/// postconditions a first-try success would have produced.
pub proof fn lemma_retry_reaches_success(
    v0: StoreView,
    v1: StoreView,
    v2: StoreView,
    r1: IterationReport,
    r2: IterationReport,
    t: RenderTask,
    data: Seq<u8>,
    lifetime: u16,
    fault: StoreFault,
)
    requires
        v0.queue == seq![task_bytes(t)],
        !requeue_faults(fault),
        recovered_post(v0, v1, r1, fault),
        committed_post(v1, v2, r2, t, data, lifetime),
    ensures
        v1.queue == v0.queue,
        v1.entries == v0.entries,
        r2.outcome matches IterationOutcome::Committed(vid) && v2.entries == commit_effect(
            v0.entries,
            t,
            vid,
            data,
            commit_secs(lifetime),
        ),
{
    assert(v1.queue =~= v0.queue);
}

} // verus!

