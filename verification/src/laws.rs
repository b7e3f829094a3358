//! What holds of every task, whatever happens to it, and of tasks and requests together.
use crate::chunks::chunk_bytes;
use crate::gcloud::{gcloud_call_step, GcloudCallEventView, GcloudCallStage};
use crate::import::{import_bucket, import_step, CopyStateView, ImportEventView, ImportRunView};
use crate::outside::is_uuid_text;
use crate::pool::{
    chunk_reported, law_arrived_is_no_more_than_file, lemma_report_keeps_order, pool_concluded,
    PoolView,
};
use crate::registry::{cleaned, is_keyed, law_listing_is_unique};
use crate::retry::{chunk_step, ChunkEventView, ChunkUploadView};
use crate::routes::{law_task_paths, route, Method, RouteView};
use crate::server::{
    cancel_requested, import_created, is_taken, ok_reply, task_created, upload_created,
    BodyOutcomeView, CreateImportView, CreateTaskView, NextView, ReplyBodyView, StateView,
};
use crate::task::{
    fresh_task, logged, Elapsed, LogView, SnapshotView, TaskView, UploadTaskView, LOG_LIMIT,
};
use crate::text::lemma_trimmed_keeps_content;
use crate::upload::{upload_step, UploadEventView, UploadRunView};
use vstd::prelude::*;

verus! {

/// What is shown of a task makes sense: its log is not too long, no more bytes have been
/// uploaded than the file has, and no task but a completed one shows one hundred percent.
pub open spec fn is_sound(task: TaskView, file_size: u64) -> bool {
    &&& task.logs.len() <= LOG_LIMIT
    &&& task.snapshot.uploaded_bytes <= file_size <= task.snapshot.total_bytes
    &&& !(task.snapshot.status is Completed) ==> task.snapshot.progress.at_most(99)
}

/// The two snapshots are of one task.
pub open spec fn same_task(a: SnapshotView, b: SnapshotView) -> bool {
    a.task_id == b.task_id && a.file_name == b.file_name && a.file_size == b.file_size
}

/// A task that has just been created is sound, and not completed.
pub proof fn law_fresh_task_is_sound(task_id: Seq<char>, file_name: Seq<char>, file_size: u64)
    ensures
        is_sound(fresh_task(task_id, file_name, file_size), file_size),
        !(fresh_task(task_id, file_name, file_size).snapshot.status is Completed),
{
}

/// An upload keeps its task sound, and completes it only as it ends.
pub proof fn law_upload_keeps_task_sound(
    run: UploadRunView,
    task: TaskView,
    job: UploadTaskView,
    event: UploadEventView,
    now: Seq<char>,
)
    requires
        is_sound(task, job.file_size),
        task.snapshot.status is Completed ==> run.stage is Ended,
    ensures
        ({
            let (next, next_task, action) = upload_step(run, task, job, event, now);
            &&& is_sound(next_task, job.file_size)
            &&& (next_task.snapshot.status is Completed ==> next.stage is Ended)
            &&& same_task(next_task.snapshot, task.snapshot)
        }),
{
}

/// An import keeps its task sound, and completes it only as it ends; the copy is never
/// said to have received more than the file.
pub proof fn law_import_keeps_task_sound(
    run: ImportRunView,
    task: TaskView,
    job: UploadTaskView,
    tail: Seq<Seq<char>>,
    event: ImportEventView,
    now: Seq<char>,
)
    requires
        is_sound(task, job.file_size),
        task.snapshot.status is Completed ==> run.stage is Ended,
        event matches ImportEventView::Looked(
            CopyStateView::Running { progress: Some((received, _)), .. },
        ) ==> received <= job.file_size,
    ensures
        ({
            let (next, next_task, action) = import_step(run, task, job, tail, event, now);
            &&& is_sound(next_task, job.file_size)
            &&& (next_task.snapshot.status is Completed ==> next.stage is Ended)
            &&& same_task(next_task.snapshot, task.snapshot)
        }),
{
}

/// The upload of a chunk adds to the log of its task and changes nothing else of it.
pub proof fn law_chunk_only_logs(
    chunk: ChunkUploadView,
    task: TaskView,
    job: UploadTaskView,
    event: ChunkEventView,
    now: Seq<char>,
)
    ensures
        ({
            let next_task = chunk_step(chunk, task, job, event, now).1;
            &&& next_task == (TaskView { logs: next_task.logs, ..task })
            &&& (task.logs.len() <= LOG_LIMIT ==> next_task.logs.len() <= LOG_LIMIT)
        }),
{
}

/// The reports of the chunks, and their conclusion, keep the task sound.
pub proof fn law_chunks_keep_task_sound(
    pool: PoolView,
    task: TaskView,
    upload_id: Seq<char>,
    index: u64,
    result: Result<usize, Seq<char>>,
    elapsed: Elapsed,
    now: Seq<char>,
)
    requires
        is_sound(task, pool.file_size),
        !(task.snapshot.status is Completed),
        pool.wf(),
        pool.sends(index),
        result matches Ok(length) ==> length <= chunk_bytes(
            pool.file_size as int,
            pool.chunk_size as int,
            index as int,
        ),
    ensures
        ({
            let (next, next_task) = chunk_reported(
                pool,
                task,
                upload_id,
                index,
                result,
                elapsed,
                now,
            );
            &&& is_sound(next_task, pool.file_size)
            &&& !(next_task.snapshot.status is Completed)
            &&& same_task(next_task.snapshot, task.snapshot)
        }),
        is_sound(pool_concluded(pool, task, upload_id, elapsed).0, pool.file_size),
        !(pool_concluded(pool, task, upload_id, elapsed).0.snapshot.status is Completed),
{
    lemma_report_keeps_order(pool, task, upload_id, index, result, elapsed, now);
    law_arrived_is_no_more_than_file(
        chunk_reported(pool, task, upload_id, index, result, elapsed, now).0,
    );
}

/// Telling a task to stop keeps it sound.
pub proof fn law_cancelling_keeps_task_sound(task: TaskView, file_size: u64)
    requires
        is_sound(task, file_size),
    ensures
        is_sound(cancel_requested(task), file_size),
        !(cancel_requested(task).snapshot.status is Completed),
        same_task(cancel_requested(task).snapshot, task.snapshot),
{
}

/// A task that has been granted stands under its identifier, has a file that is not
/// empty, and, where it is an import, lacks neither bucket nor prefix.
pub proof fn law_granted_task_can_run(
    tasks: Map<Seq<char>, TaskView>,
    upload: BodyOutcomeView<CreateTaskView>,
    import: BodyOutcomeView<CreateImportView>,
    size: Result<u64, Seq<char>>,
    id: Seq<char>,
)
    ensures
        upload_created(tasks, upload, size, id).2 matches Some(job) ==> job.task_id == id
            && job.file_size > 0,
        import_created(tasks, import, size, id).2 matches Some(job) ==> job.task_id == id
            && job.file_size > 0 && import_bucket(job) is Ok,
{
    if let BodyOutcomeView::Body(body) = import {
        lemma_trimmed_keeps_content(body.bucket_name);
        lemma_trimmed_keeps_content(body.object_prefix);
    }
}

/// A task that has been created is answered for under its path, with what the request
/// for it was answered; its log is empty; and a request to cancel it reaches it.
pub proof fn law_created_task_is_reached<U>(
    state: StateView<U>,
    job: UploadTaskView,
    after: StateView<U>,
    next: NextView,
)
    requires
        is_uuid_text(job.task_id),
    ensures
        ({
            let (tasks, reply, _) = task_created(state.tasks, job);
            let created = state.with_tasks(tasks);
            let path = "/v1/uploads/"@ + job.task_id;
            &&& (is_taken(created, route(Method::Get, path), after, next) ==> next
                == NextView::Respond(reply))
            &&& (is_taken(created, route(Method::Get, path + "/logs"@), after, next) ==> next
                == NextView::Respond(ok_reply(ReplyBodyView::Logs(Seq::empty()))))
            &&& (is_taken(created, route(Method::Post, path + "/cancel"@), after, next)
                ==> after.tasks[job.task_id].cancel_requested)
        }),
{
    law_task_paths(job.task_id);
}

/// Each task stands under its identifier, to begin with and whatever is asked of the agent:
/// where tasks are created, cancelled and forgotten, and with every other request.
pub proof fn law_requests_keep_tasks_keyed<U>(
    before: StateView<U>,
    requested: RouteView,
    after: StateView<U>,
    next: NextView,
    upload: BodyOutcomeView<CreateTaskView>,
    import: BodyOutcomeView<CreateImportView>,
    size: Result<u64, Seq<char>>,
    id: Seq<char>,
)
    requires
        is_keyed(before.tasks),
    ensures
        is_keyed(Map::empty()),
        is_taken(before, requested, after, next) ==> is_keyed(after.tasks),
        is_keyed(upload_created(before.tasks, upload, size, id).0),
        is_keyed(import_created(before.tasks, import, size, id).0),
        is_keyed(cleaned(before.tasks, id)),
{
}

/// Each task stands under its identifier still when an upload, or the upload of one of its
/// chunks, has been taken further.
pub proof fn law_uploads_keep_tasks_keyed(
    tasks: Map<Seq<char>, TaskView>,
    id: Seq<char>,
    job: UploadTaskView,
    now: Seq<char>,
    run: UploadRunView,
    event: UploadEventView,
    chunk: ChunkUploadView,
    chunk_event: ChunkEventView,
)
    requires
        is_keyed(tasks),
        tasks.contains_key(id),
    ensures
        is_keyed(tasks.insert(id, upload_step(run, tasks[id], job, event, now).1)),
        is_keyed(tasks.insert(id, chunk_step(chunk, tasks[id], job, chunk_event, now).1)),
{
}

/// Each task stands under its identifier still when the result of a chunk has been
/// reported, and when all chunks have been concluded on.
pub proof fn law_chunks_keep_tasks_keyed(
    tasks: Map<Seq<char>, TaskView>,
    id: Seq<char>,
    pool: PoolView,
    upload_id: Seq<char>,
    index: u64,
    result: Result<usize, Seq<char>>,
    elapsed: Elapsed,
    now: Seq<char>,
)
    requires
        is_keyed(tasks),
        tasks.contains_key(id),
    ensures
        is_keyed(
            tasks.insert(
                id,
                chunk_reported(pool, tasks[id], upload_id, index, result, elapsed, now).1,
            ),
        ),
        is_keyed(tasks.insert(id, pool_concluded(pool, tasks[id], upload_id, elapsed).0)),
{
}

/// Each task stands under its identifier still when an import has been taken further, or a
/// call of the tool for it, and when something has been added to its log.
pub proof fn law_imports_keep_tasks_keyed(
    tasks: Map<Seq<char>, TaskView>,
    id: Seq<char>,
    job: UploadTaskView,
    tail: Seq<Seq<char>>,
    now: Seq<char>,
    run: ImportRunView,
    event: ImportEventView,
    stage: GcloudCallStage,
    args: Seq<Seq<char>>,
    call_event: GcloudCallEventView,
    entry: LogView,
)
    requires
        is_keyed(tasks),
        tasks.contains_key(id),
    ensures
        is_keyed(tasks.insert(id, import_step(run, tasks[id], job, tail, event, now).1)),
        is_keyed(
            tasks.insert(id, gcloud_call_step(stage, tasks[id], args, tail, call_event, now).1),
        ),
        is_keyed(
            tasks.insert(
                id,
                logged(
                    tasks[id],
                    entry.timestamp,
                    entry.level,
                    entry.message,
                    entry.chunk_index,
                    entry.detail,
                ),
            ),
        ),
{
}

/// To ask for the tasks once more, with nothing in between, is answered as before.
pub proof fn law_tasks_are_listed_alike<U>(
    state: StateView<U>,
    after: StateView<U>,
    next: NextView,
    after_again: StateView<U>,
    again: NextView,
)
    requires
        is_keyed(state.tasks),
        is_taken(state, RouteView::ListTasks, after, next),
        is_taken(after, RouteView::ListTasks, after_again, again),
    ensures
        again == next,
{
    if let NextView::Respond(reply) = next {
        if let NextView::Respond(reply_again) = again {
            if let (ReplyBodyView::Tasks(one), ReplyBodyView::Tasks(other)) = (
                reply.body,
                reply_again.body,
            ) {
                law_listing_is_unique(state.tasks, one, other);
            }
        }
    }
}

} // verus!
