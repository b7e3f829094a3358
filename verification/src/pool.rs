//! The chunks of one upload, shared out among workers.
use crate::chunks::{bytes_before, chunk_bytes, lemma_bytes_before_bounded, ChunkPlan};
use crate::retry::{cancelled, cancelled_text, error_text};
use crate::task::{
    is_log_with, logged, with_progress, Elapsed, LogView, Progress, Speed, TaskHandle, TaskView,
};
use crate::text::{decimal, decimal_text, text_option};
use vstd::prelude::*;
use vstd::string::*;

verus! {

/// How many chunks are sent at the same time.
pub const PARALLEL_UPLOADS: usize = 4;

/// The chunks of one upload: which are still to be sent, which are being sent, and how
/// much has arrived.
#[derive(Debug, PartialEq, Eq)]
pub struct ChunkPool {
    pub file_size: u64,
    pub chunk_size: u64,
    pub total_chunks: u64,
    pub next_chunk_index: u64,
    pub completed_bytes: u64,
    pub in_flight: Vec<u64>,
    /// The first error that a worker has met.
    pub failure: Option<String>,
}

#[verifier::ext_equal]
pub struct PoolView {
    pub file_size: u64,
    pub chunk_size: u64,
    pub total_chunks: u64,
    pub next_chunk_index: u64,
    pub completed_bytes: u64,
    pub in_flight: Seq<u64>,
    pub failure: Option<Seq<char>>,
}

impl View for ChunkPool {
    type V = PoolView;

    open spec fn view(&self) -> PoolView {
        PoolView {
            file_size: self.file_size,
            chunk_size: self.chunk_size,
            total_chunks: self.total_chunks,
            next_chunk_index: self.next_chunk_index,
            completed_bytes: self.completed_bytes,
            in_flight: self.in_flight@,
            failure: text_option(self.failure),
        }
    }
}

/// How many bytes the listed chunks hold together.
pub open spec fn bytes_of(file_size: int, chunk_size: int, indices: Seq<u64>) -> int
    decreases indices.len(),
{
    if indices.len() == 0 {
        0
    } else {
        bytes_of(file_size, chunk_size, indices.drop_last()) + chunk_bytes(
            file_size,
            chunk_size,
            indices.last() as int,
        )
    }
}

impl PoolView {
    /// The chunk with this index is being sent.
    pub open spec fn sends(self, index: u64) -> bool {
        self.in_flight.contains(index)
    }

    /// Chunks are given out in order and once each, at most four at a time, and what has
    /// arrived and what is under way together are no more than what has been given out.
    pub open spec fn wf(self) -> bool {
        &&& self.chunk_size >= 1
        &&& self.next_chunk_index <= self.total_chunks
        &&& self.in_flight.len() <= PARALLEL_UPLOADS
        &&& self.in_flight.no_duplicates()
        &&& forall|i: int|
            0 <= i < self.in_flight.len() ==> #[trigger] self.in_flight[i] < self.next_chunk_index
        &&& self.completed_bytes + bytes_of(
            self.file_size as int,
            self.chunk_size as int,
            self.in_flight,
        ) <= bytes_before(
            self.file_size as int,
            self.chunk_size as int,
            self.next_chunk_index as int,
        )
    }
}

/// A pool of which nothing has been given out.
pub open spec fn new_pool(file_size: u64, plan: ChunkPlan) -> PoolView {
    PoolView {
        file_size,
        chunk_size: plan.chunk_size,
        total_chunks: plan.total_chunks,
        next_chunk_index: 0,
        completed_bytes: 0,
        in_flight: Seq::empty(),
        failure: None,
    }
}

/// A worker asks for a chunk: the next one, unless the task is to stop or none is left.
pub open spec fn claimed(pool: PoolView, task: TaskView) -> (PoolView, Option<u64>) {
    if task.cancel_requested || pool.next_chunk_index >= pool.total_chunks {
        (pool, None)
    } else {
        (
            PoolView {
                next_chunk_index: (pool.next_chunk_index + 1) as u64,
                in_flight: pool.in_flight.push(pool.next_chunk_index),
                ..pool
            },
            Some(pool.next_chunk_index),
        )
    }
}

/// `list` without its first `value`.
pub open spec fn without(list: Seq<u64>, value: u64) -> Seq<u64> {
    list.remove(list.index_of_first(value)->0)
}

/// A worker reports how the upload of its chunk has ended. Any error makes the whole task
/// stop.
pub open spec fn chunk_reported(
    pool: PoolView,
    task: TaskView,
    upload_id: Seq<char>,
    index: u64,
    result: Result<usize, Seq<char>>,
    elapsed: Elapsed,
    now: Seq<char>,
) -> (PoolView, TaskView) {
    let rest = PoolView { in_flight: without(pool.in_flight, index), ..pool };
    match result {
        Ok(length) => {
            let total = (pool.completed_bytes + length) as u64;
            (
                PoolView { completed_bytes: total, ..rest },
                with_progress(
                    logged(
                        task,
                        now,
                        "debug"@,
                        "分片上传成功"@,
                        Some(index),
                        Some("uploadedBytes="@ + decimal(length as nat)),
                    ),
                    upload_id,
                    total,
                    pool.file_size,
                    elapsed,
                ),
            )
        },
        Err(error) => if error == cancelled_text() {
            (
                rest,
                TaskView {
                    cancel_requested: true,
                    ..logged(task, now, "warn"@, "分片上传被取消"@, Some(index), None)
                },
            )
        } else {
            (
                PoolView {
                    failure: if pool.failure is None {
                        Some(error)
                    } else {
                        pool.failure
                    },
                    ..rest
                },
                TaskView {
                    cancel_requested: true,
                    ..logged(task, now, "warn"@, "分片上传失败"@, Some(index), Some(error))
                },
            )
        },
    }
}

/// The workers have no more to do: the task is to stop, a worker has met an error, or every
/// chunk has been given out and reported.
pub open spec fn is_finished(pool: PoolView, task: TaskView) -> bool {
    ||| task.cancel_requested
    ||| pool.failure is Some
    ||| pool.next_chunk_index == pool.total_chunks && pool.in_flight.len() == 0
}

/// All workers have stopped: the upload is complete, unless the task is to stop or a
/// worker has met an error.
pub open spec fn pool_concluded(
    pool: PoolView,
    task: TaskView,
    upload_id: Seq<char>,
    elapsed: Elapsed,
) -> (TaskView, Result<(), Seq<char>>) {
    if task.cancel_requested {
        (task, Err(cancelled_text()))
    } else if pool.failure is Some {
        (task, Err(pool.failure->0))
    } else {
        (with_progress(task, upload_id, pool.file_size, pool.file_size, elapsed), Ok(()))
    }
}

proof fn lemma_bytes_of_push(file_size: int, chunk_size: int, indices: Seq<u64>, index: u64)
    ensures
        bytes_of(file_size, chunk_size, indices.push(index)) == bytes_of(
            file_size,
            chunk_size,
            indices,
        ) + chunk_bytes(file_size, chunk_size, index as int),
{
    assert(indices.push(index).drop_last() =~= indices);
}

proof fn lemma_bytes_of_remove(file_size: int, chunk_size: int, indices: Seq<u64>, at: int)
    requires
        0 <= at < indices.len(),
    ensures
        bytes_of(file_size, chunk_size, indices.remove(at)) == bytes_of(
            file_size,
            chunk_size,
            indices,
        ) - chunk_bytes(file_size, chunk_size, indices[at] as int),
    decreases indices.len(),
{
    let shorter = indices.remove(at);
    if at == indices.len() - 1 {
        assert(shorter =~= indices.drop_last());
    } else {
        lemma_bytes_of_remove(file_size, chunk_size, indices.drop_last(), at);
        assert(shorter.drop_last() =~= indices.drop_last().remove(at));
        assert(shorter.last() == indices.last());
    }
}

proof fn lemma_bytes_of_nonnegative(file_size: int, chunk_size: int, indices: Seq<u64>)
    requires
        chunk_size >= 0,
    ensures
        bytes_of(file_size, chunk_size, indices) >= 0,
    decreases indices.len(),
{
    if indices.len() > 0 {
        lemma_bytes_of_nonnegative(file_size, chunk_size, indices.drop_last());
    }
}

/// What has arrived of an upload is never more than the file.
pub proof fn law_arrived_is_no_more_than_file(pool: PoolView)
    requires
        pool.wf(),
    ensures
        pool.completed_bytes <= pool.file_size,
{
    lemma_bytes_of_nonnegative(pool.file_size as int, pool.chunk_size as int, pool.in_flight);
    lemma_bytes_before_bounded(
        pool.file_size as int,
        pool.chunk_size as int,
        pool.next_chunk_index as int,
    );
}

/// A report of a chunk that is being sent, of no more bytes than the chunk has, keeps the
/// pool in order.
pub proof fn lemma_report_keeps_order(
    pool: PoolView,
    task: TaskView,
    upload_id: Seq<char>,
    index: u64,
    result: Result<usize, Seq<char>>,
    elapsed: Elapsed,
    now: Seq<char>,
)
    requires
        pool.wf(),
        pool.sends(index),
        result matches Ok(length) ==> length <= chunk_bytes(
            pool.file_size as int,
            pool.chunk_size as int,
            index as int,
        ),
    ensures
        chunk_reported(pool, task, upload_id, index, result, elapsed, now).0.wf(),
        result matches Ok(length) ==> pool.completed_bytes + length <= pool.file_size,
{
    let (next, next_task) = chunk_reported(pool, task, upload_id, index, result, elapsed, now);
    pool.in_flight.index_of_first_ensures(index);
    let at = pool.in_flight.index_of_first(index)->0;
    assert(pool.in_flight[at] == index);
    let file_size = pool.file_size as int;
    let chunk_size = pool.chunk_size as int;
    lemma_bytes_of_remove(file_size, chunk_size, pool.in_flight, at);
    lemma_bytes_of_nonnegative(file_size, chunk_size, pool.in_flight.remove(at));
    lemma_bytes_before_bounded(file_size, chunk_size, pool.next_chunk_index as int);
    assert(next.in_flight == pool.in_flight.remove(at));
    assert forall|i: int, j: int|
        0 <= i < next.in_flight.len() && 0 <= j < next.in_flight.len() && i
            != j implies next.in_flight[i] != next.in_flight[j] by {
        let i0 = if i < at {
            i
        } else {
            i + 1
        };
        let j0 = if j < at {
            j
        } else {
            j + 1
        };
        assert(next.in_flight[i] == pool.in_flight[i0]);
        assert(next.in_flight[j] == pool.in_flight[j0]);
    }
}

impl ChunkPool {
    pub fn new(file_size: u64, plan: ChunkPlan) -> (pool: Self)
        requires
            plan.chunk_size >= 1,
        ensures
            pool@ == new_pool(file_size, plan),
            pool@.wf(),
    {
        let pool = ChunkPool {
            file_size,
            chunk_size: plan.chunk_size,
            total_chunks: plan.total_chunks,
            next_chunk_index: 0,
            completed_bytes: 0,
            in_flight: Vec::new(),
            failure: None,
        };
        assert(pool@.in_flight =~= Seq::empty());
        pool
    }

    /// Gives out the next chunk, unless the task is to stop or none is left.
    pub fn claim(&mut self, handle: &TaskHandle) -> (index: Option<u64>)
        requires
            old(self)@.wf(),
            old(self)@.in_flight.len() < PARALLEL_UPLOADS,
        ensures
            final(self)@.wf(),
            (final(self)@, index) == claimed(old(self)@, handle@),
    {
        if handle.cancel_requested || self.next_chunk_index >= self.total_chunks {
            return None;
        }
        let index = self.next_chunk_index;
        let ghost before = self@;
        self.in_flight.push(index);
        self.next_chunk_index = index + 1;
        proof {
            lemma_bytes_of_push(
                before.file_size as int,
                before.chunk_size as int,
                before.in_flight,
                index,
            );
            assert(self@.in_flight == before.in_flight.push(index));
        }
        Some(index)
    }

    /// Whether the chunk with this index is being sent.
    pub fn is_sending(&self, index: u64) -> (r: bool)
        ensures
            r == self@.sends(index),
    {
        crate::retry::holds(&self.in_flight, index)
    }

    fn release(&mut self, index: u64)
        requires
            old(self)@.sends(index),
        ensures
            final(self)@ == (PoolView {
                in_flight: without(old(self)@.in_flight, index),
                ..old(self)@
            }),
    {
        let ghost before = self.in_flight@;
        let count: usize = self.in_flight.len();
        let mut at: usize = 0;
        while self.in_flight[at] != index
            invariant
                count == before.len(),
                self@ == old(self)@,
                self.in_flight@ == before,
                before.contains(index),
                at < before.len(),
                forall|j: int| 0 <= j < at ==> before[j] != index,
            decreases before.len() - at,
        {
            proof {
                let k = before.index_of(index);
                assert(before[k] == index);
            }
            at = at + 1;
        }
        proof {
            before.index_of_first_ensures(index);
            assert(before.index_of_first(index)->0 == at);
        }
        let _ = self.in_flight.remove(at);
    }

    /// Takes in how the upload of a chunk has ended.
    pub fn report(
        &mut self,
        handle: &mut TaskHandle,
        upload_id: &str,
        index: u64,
        result: Result<usize, String>,
        elapsed: Elapsed,
        now: &str,
    )
        requires
            old(self)@.wf(),
            old(self)@.sends(index),
            result matches Ok(length) ==> length <= chunk_bytes(
                old(self)@.file_size as int,
                old(self)@.chunk_size as int,
                index as int,
            ),
        ensures
            final(self)@.wf(),
            (final(self)@, final(handle)@) == chunk_reported(
                old(self)@,
                old(handle)@,
                upload_id@,
                index,
                error_text(result),
                elapsed,
                now@,
            ),
    {
        proof {
            lemma_report_keeps_order(
                self@,
                handle@,
                upload_id@,
                index,
                error_text(result),
                elapsed,
                now@,
            );
        }
        self.release(index);
        match result {
            Ok(length) => {
                let length_text = decimal_text(length as u64);
                handle.append_log(
                    now,
                    "debug",
                    "分片上传成功",
                    Some(index),
                    Some("uploadedBytes=".to_owned().concat(length_text.as_str())),
                );
                self.completed_bytes = self.completed_bytes + length as u64;
                handle.update_progress_snapshot(
                    upload_id,
                    self.completed_bytes,
                    self.file_size,
                    elapsed,
                );
            },
            Err(error) => {
                let stopped = cancelled();
                if error == stopped {
                    handle.append_log(now, "warn", "分片上传被取消", Some(index), None);
                    handle.cancel_requested = true;
                } else {
                    handle.append_log(
                        now,
                        "warn",
                        "分片上传失败",
                        Some(index),
                        Some(error.clone()),
                    );
                    handle.cancel_requested = true;
                    if self.failure.is_none() {
                        self.failure = Some(error);
                    }
                }
            },
        }
    }

    /// Whether the workers have no more to do.
    pub fn finished(&self, handle: &TaskHandle) -> (r: bool)
        ensures
            r == is_finished(self@, handle@),
    {
        handle.cancel_requested || self.failure.is_some() || (self.next_chunk_index
            == self.total_chunks && self.in_flight.len() == 0)
    }

    /// What the upload of the chunks has come to once all workers have stopped.
    pub fn conclude(&self, handle: &mut TaskHandle, upload_id: &str, elapsed: Elapsed) -> (r: Result<
        (),
        String,
    >)
        requires
            is_finished(self@, old(handle)@),
        ensures
            (final(handle)@, error_text(r)) == pool_concluded(
                self@,
                old(handle)@,
                upload_id@,
                elapsed,
            ),
    {
        if handle.cancel_requested {
            return Err(cancelled());
        }
        if let Some(error) = &self.failure {
            return Err(error.clone());
        }
        handle.update_progress_snapshot(upload_id, self.file_size, self.file_size, elapsed);
        Ok(())
    }
}

/// Once a chunk has failed, no further chunk is given out and the upload ends as
/// cancelled.
pub proof fn law_failed_chunk_stops_upload(
    pool: PoolView,
    task: TaskView,
    upload_id: Seq<char>,
    index: u64,
    error: Seq<char>,
    elapsed: Elapsed,
    now: Seq<char>,
)
    ensures
        ({
            let (next, next_task) = chunk_reported(
                pool,
                task,
                upload_id,
                index,
                Err(error),
                elapsed,
                now,
            );
            &&& claimed(next, next_task).1 is None
            &&& pool_concluded(next, next_task, upload_id, elapsed).1 == Err::<(), Seq<char>>(
                cancelled_text(),
            )
        }),
{
}

/// Chunks are given out in order, so that none is given out twice.
pub proof fn law_chunk_given_out_once(pool: PoolView, task: TaskView)
    requires
        pool.wf(),
    ensures
        claimed(pool, task).1 matches Some(index) ==> {
            &&& index == pool.next_chunk_index
            &&& !pool.sends(index)
            &&& claimed(pool, task).0.next_chunk_index == index + 1
        },
{
    if let Some(index) = claimed(pool, task).1 {
        if pool.sends(index) {
            let i = pool.in_flight.index_of(index);
            assert(pool.in_flight[i] == index);
        }
    }
}

/// What happens while the chunks of an upload are sent.
pub enum PoolMove {
    /// A worker asks for a chunk.
    Claim,
    /// A worker reports how the upload of its chunk has ended.
    Report { index: u64, result: Result<usize, Seq<char>>, elapsed: Elapsed, now: Seq<char> },
    /// The task changes for another reason.
    Elsewhere(TaskView),
}

pub open spec fn pool_moved(
    pool: PoolView,
    task: TaskView,
    upload_id: Seq<char>,
    step: PoolMove,
) -> (PoolView, TaskView) {
    match step {
        PoolMove::Claim => (claimed(pool, task).0, task),
        PoolMove::Report { index, result, elapsed, now } => chunk_reported(
            pool,
            task,
            upload_id,
            index,
            result,
            elapsed,
            now,
        ),
        PoolMove::Elsewhere(changed) => (pool, changed),
    }
}

/// A worker asks for a chunk only where fewer than four are under way, and reports only a
/// chunk that it sends, with no more bytes than the chunk has. A task that is to stop is
/// never told to go on.
pub open spec fn is_move(pool: PoolView, task: TaskView, step: PoolMove) -> bool {
    match step {
        PoolMove::Claim => pool.in_flight.len() < PARALLEL_UPLOADS,
        PoolMove::Report { index, result, .. } => pool.sends(index) && (result matches Ok(length)
            ==> length <= chunk_bytes(
            pool.file_size as int,
            pool.chunk_size as int,
            index as int,
        )),
        PoolMove::Elsewhere(changed) => task.cancel_requested ==> changed.cancel_requested,
    }
}

/// The pool and the task after a run of moves.
pub open spec fn pool_after(
    pool: PoolView,
    task: TaskView,
    upload_id: Seq<char>,
    moves: Seq<PoolMove>,
) -> (PoolView, TaskView)
    decreases moves.len(),
{
    if moves.len() == 0 {
        (pool, task)
    } else {
        let (last_pool, last_task) = pool_after(pool, task, upload_id, moves.drop_last());
        pool_moved(last_pool, last_task, upload_id, moves.last())
    }
}

pub open spec fn is_run(
    pool: PoolView,
    task: TaskView,
    upload_id: Seq<char>,
    moves: Seq<PoolMove>,
) -> bool
    decreases moves.len(),
{
    moves.len() > 0 ==> {
        let (last_pool, last_task) = pool_after(pool, task, upload_id, moves.drop_last());
        is_run(pool, task, upload_id, moves.drop_last()) && is_move(
            last_pool,
            last_task,
            moves.last(),
        )
    }
}

/// The chunks that were reported in a run of moves, in order.
pub open spec fn reported(moves: Seq<PoolMove>) -> Seq<u64>
    decreases moves.len(),
{
    if moves.len() == 0 {
        Seq::empty()
    } else {
        match moves.last() {
            PoolMove::Report { index, .. } => reported(moves.drop_last()).push(index),
            _ => reported(moves.drop_last()),
        }
    }
}

/// Every chunk that was reported in a run of moves has been sent.
pub open spec fn all_sent(moves: Seq<PoolMove>) -> bool {
    forall|i: int|
        0 <= i < moves.len() ==> ((#[trigger] moves[i]) matches PoolMove::Report { result, .. }
            ==> result is Ok)
}

/// What holds after every run of moves: the chunks given out are those under way and those
/// reported, none is both, none is reported twice, and a chunk that was not sent makes the
/// task stop.
spec fn accounts_for_all(pool: PoolView, task: TaskView, moves: Seq<PoolMove>) -> bool {
    &&& pool.wf()
    &&& reported(moves).no_duplicates()
    &&& forall|index: u64|
        index < pool.next_chunk_index <==> pool.in_flight.contains(index) || #[trigger] reported(
            moves,
        ).contains(index)
    &&& forall|index: u64| #[trigger]
        reported(moves).contains(index) ==> !pool.in_flight.contains(index)
    &&& !task.cancel_requested ==> all_sent(moves)
}

proof fn lemma_claim_keeps_order(pool: PoolView, task: TaskView)
    requires
        pool.wf(),
        pool.in_flight.len() < PARALLEL_UPLOADS,
    ensures
        claimed(pool, task).0.wf(),
{
    let index = pool.next_chunk_index;
    lemma_bytes_of_push(
        pool.file_size as int,
        pool.chunk_size as int,
        pool.in_flight,
        index,
    );
}

proof fn lemma_run_accounts_for_all(
    pool: PoolView,
    task: TaskView,
    upload_id: Seq<char>,
    moves: Seq<PoolMove>,
)
    requires
        pool.wf(),
        pool.next_chunk_index == 0,
        is_run(pool, task, upload_id, moves),
    ensures
        ({
            let (last_pool, last_task) = pool_after(pool, task, upload_id, moves);
            &&& accounts_for_all(last_pool, last_task, moves)
            &&& last_pool.total_chunks == pool.total_chunks
        }),
    decreases moves.len(),
{
    if moves.len() == 0 {
        assert forall|index: u64| !pool.in_flight.contains(index) by {
            if pool.in_flight.contains(index) {
                let i = pool.in_flight.index_of(index);
                assert(pool.in_flight[i] < pool.next_chunk_index);
            }
        }
    } else {
        let front = moves.drop_last();
        lemma_run_accounts_for_all(pool, task, upload_id, front);
        let (before, before_task) = pool_after(pool, task, upload_id, front);
        let step = moves.last();
        let (after, after_task) = pool_moved(before, before_task, upload_id, step);
        assert(pool_after(pool, task, upload_id, moves) == (after, after_task));
        match step {
            PoolMove::Claim => {
                lemma_claim_keeps_order(before, before_task);
                lemma_claim_accounts(before, before_task, reported(front));
            },
            PoolMove::Report { index, result, elapsed, now } => {
                lemma_report_keeps_order(
                    before,
                    before_task,
                    upload_id,
                    index,
                    result,
                    elapsed,
                    now,
                );
                lemma_report_accounts(before, index, reported(front));
                assert(after.in_flight == without(before.in_flight, index));
            },
            PoolMove::Elsewhere(changed) => {},
        }
        if !after_task.cancel_requested {
            assert(!before_task.cancel_requested);
            assert forall|i: int| 0 <= i < moves.len() implies ((#[trigger] moves[i]) matches PoolMove::Report {
                result,
                ..
            } ==> result is Ok) by {
                if i < front.len() {
                    assert(front[i] == moves[i]);
                }
            }
        }
    }
}

proof fn lemma_claim_accounts(pool: PoolView, task: TaskView, done: Seq<u64>)
    requires
        pool.wf(),
        forall|index: u64|
            index < pool.next_chunk_index <==> pool.in_flight.contains(index)
                || #[trigger] done.contains(index),
        forall|index: u64| #[trigger] done.contains(index) ==> !pool.in_flight.contains(index),
    ensures
        ({
            let next = claimed(pool, task).0;
            &&& forall|index: u64|
                index < next.next_chunk_index <==> next.in_flight.contains(index)
                    || #[trigger] done.contains(index)
            &&& forall|index: u64| #[trigger]
                done.contains(index) ==> !next.in_flight.contains(index)
        }),
{
    let next = claimed(pool, task).0;
    if claimed(pool, task).1 is Some {
        let new = pool.next_chunk_index;
        assert(next.in_flight == pool.in_flight.push(new));
        assert forall|index: u64|
            next.in_flight.contains(index) <==> pool.in_flight.contains(index) || index == new by {
            if pool.in_flight.contains(index) {
                let i = pool.in_flight.index_of(index);
                assert(next.in_flight[i] == index);
            }
            if index == new {
                assert(next.in_flight[pool.in_flight.len() as int] == new);
            }
            if next.in_flight.contains(index) && index != new {
                let i = next.in_flight.index_of(index);
                assert(pool.in_flight[i] == index);
            }
        }
        assert forall|index: u64|
            index < next.next_chunk_index <==> next.in_flight.contains(index)
                || #[trigger] done.contains(index) by {
            assert(index < pool.next_chunk_index <==> pool.in_flight.contains(index)
                || done.contains(index));
        }
        assert forall|index: u64| #[trigger] done.contains(index) implies !next.in_flight.contains(
            index,
        ) by {
            assert(index < pool.next_chunk_index);
        }
    }
}

proof fn lemma_report_accounts(pool: PoolView, index: u64, done: Seq<u64>)
    requires
        pool.wf(),
        pool.sends(index),
        done.no_duplicates(),
        forall|i: u64|
            i < pool.next_chunk_index <==> pool.in_flight.contains(i) || #[trigger] done.contains(
                i,
            ),
        forall|i: u64| #[trigger] done.contains(i) ==> !pool.in_flight.contains(i),
    ensures
        done.push(index).no_duplicates(),
        forall|i: u64|
            i < pool.next_chunk_index <==> without(pool.in_flight, index).contains(i)
                || #[trigger] done.push(index).contains(i),
        forall|i: u64| #[trigger]
            done.push(index).contains(i) ==> !without(pool.in_flight, index).contains(i),
{
    let rest = without(pool.in_flight, index);
    let longer = done.push(index);
    pool.in_flight.index_of_first_ensures(index);
    let at = pool.in_flight.index_of_first(index)->0;
    assert(rest == pool.in_flight.remove(at));
    assert forall|i: u64| rest.contains(i) <==> pool.in_flight.contains(i) && i != index by {
        if rest.contains(i) {
            let k = rest.index_of(i);
            let old_k = if k < at {
                k
            } else {
                k + 1
            };
            assert(pool.in_flight[old_k] == i);
            assert(pool.in_flight[at] == index);
        }
        if pool.in_flight.contains(i) && i != index {
            let k = pool.in_flight.index_of(i);
            let new_k = if k < at {
                k
            } else {
                k - 1
            };
            assert(rest[new_k] == i);
        }
    }
    assert forall|i: u64| longer.contains(i) <==> done.contains(i) || i == index by {
        if done.contains(i) {
            let k = done.index_of(i);
            assert(longer[k] == i);
        }
        if i == index {
            assert(longer[done.len() as int] == index);
        }
        if longer.contains(i) && i != index {
            let k = longer.index_of(i);
            assert(done[k] == i);
        }
    }
    assert(!done.contains(index));
    assert forall|i: u64|
        i < pool.next_chunk_index <==> rest.contains(i) || #[trigger] longer.contains(i) by {
        assert(i < pool.next_chunk_index <==> pool.in_flight.contains(i) || done.contains(i));
    }
    assert forall|a: int, b: int|
        0 <= a < longer.len() && 0 <= b < longer.len() && a != b implies longer[a]
        != longer[b] by {
        if a == done.len() {
            assert(done.contains(done[b]));
        } else if b == done.len() {
            assert(done.contains(done[a]));
        }
    }
}

/// An upload whose chunks have been concluded well has sent every chunk: whatever the
/// order of claims and reports, each of the chunks was reported once, as sent, and no
/// other.
pub proof fn law_concluded_upload_has_sent_every_chunk(
    file_size: u64,
    plan: ChunkPlan,
    task: TaskView,
    upload_id: Seq<char>,
    moves: Seq<PoolMove>,
    elapsed: Elapsed,
)
    requires
        plan.chunk_size >= 1,
        is_run(new_pool(file_size, plan), task, upload_id, moves),
    ensures
        ({
            let (pool, last_task) = pool_after(
                new_pool(file_size, plan),
                task,
                upload_id,
                moves,
            );
            is_finished(pool, last_task) && pool_concluded(
                pool,
                last_task,
                upload_id,
                elapsed,
            ).1 is Ok ==> {
                &&& reported(moves).no_duplicates()
                &&& forall|index: u64| #[trigger]
                    reported(moves).contains(index) <==> index < plan.total_chunks
                &&& all_sent(moves)
            }
        }),
{
    let start = new_pool(file_size, plan);
    assert(start.wf());
    lemma_run_accounts_for_all(start, task, upload_id, moves);
    let (pool, last_task) = pool_after(start, task, upload_id, moves);
    if is_finished(pool, last_task) && pool_concluded(pool, last_task, upload_id, elapsed).1 is Ok {
        assert forall|index: u64| #[trigger]
            reported(moves).contains(index) <==> index < plan.total_chunks by {
            assert(!pool.in_flight.contains(index));
        }
    }
}

/// A pool starts with the whole plan before it: no chunk has been given out, none is under
/// way, nothing has arrived, and nothing has failed.
pub proof fn law_new_pool_has_all_before_it(file_size: u64, plan: ChunkPlan)
    ensures
        ({
            let pool = new_pool(file_size, plan);
            &&& pool.file_size == file_size
            &&& pool.chunk_size == plan.chunk_size
            &&& pool.total_chunks == plan.total_chunks
            &&& pool.next_chunk_index == 0
            &&& pool.completed_bytes == 0
            &&& pool.in_flight.len() == 0
            &&& pool.failure is None
        }),
{
}

/// A worker gets a chunk exactly where the task is not to stop and chunks are left; the chunk
/// is then under way, and nothing else of the pool changes.
pub proof fn law_chunk_is_given_out_while_any_is_left(pool: PoolView, task: TaskView)
    requires
        pool.next_chunk_index <= pool.total_chunks,
    ensures
        ({
            let (next, chunk) = claimed(pool, task);
            &&& chunk is Some <==> !task.cancel_requested && pool.next_chunk_index
                < pool.total_chunks
            &&& (chunk is None ==> next == pool)
            &&& (chunk matches Some(index) ==> {
                &&& index == pool.next_chunk_index
                &&& next.next_chunk_index == index + 1
                &&& next.in_flight.len() == pool.in_flight.len() + 1
                &&& next.in_flight.last() == index
                &&& forall|i: int|
                    0 <= i < pool.in_flight.len() ==> #[trigger] next.in_flight[i]
                        == pool.in_flight[i]
            })
            &&& next.completed_bytes == pool.completed_bytes
            &&& next.failure == pool.failure
            &&& next.file_size == pool.file_size
            &&& next.chunk_size == pool.chunk_size
            &&& next.total_chunks == pool.total_chunks
        }),
{
}

/// A chunk that has been sent counts with its bytes: they are added to what has arrived, and
/// that is what the task then shows; nothing is stopped.
pub proof fn law_sent_chunk_counts_with_its_bytes(
    pool: PoolView,
    task: TaskView,
    upload_id: Seq<char>,
    index: u64,
    length: usize,
    elapsed: Elapsed,
    now: Seq<char>,
)
    requires
        pool.completed_bytes + length <= u64::MAX,
    ensures
        ({
            let (next, next_task) = chunk_reported(
                pool,
                task,
                upload_id,
                index,
                Ok(length),
                elapsed,
                now,
            );
            &&& next.completed_bytes == pool.completed_bytes + length
            &&& next.failure == pool.failure
            &&& next_task.cancel_requested == task.cancel_requested
            &&& next_task.snapshot.uploaded_bytes == pool.completed_bytes + length
            &&& next_task.snapshot.total_bytes == pool.file_size
            &&& next_task.snapshot.status is Uploading
            &&& next_task.snapshot.upload_id == Some(upload_id)
            &&& next_task.snapshot.progress == (Progress::Capped {
                part: (pool.completed_bytes + length) as u64,
                whole: pool.file_size,
                cap: 99,
            })
            &&& next_task.snapshot.speed_bytes_per_second == (Speed::Average {
                bytes: (pool.completed_bytes + length) as u64,
                within: elapsed,
            })
            &&& is_log_with(
                task.logs,
                next_task.logs,
                LogView {
                    timestamp: now,
                    level: "debug"@,
                    message: "分片上传成功"@,
                    chunk_index: Some(index),
                    detail: Some("uploadedBytes="@ + decimal(length as nat)),
                },
            )
        }),
{
}

/// A chunk that has not been sent stops the task and counts for nothing. Its error is kept
/// as that of the upload, unless another was met before or the chunk was cancelled.
pub proof fn law_unsent_chunk_stops_the_task(
    pool: PoolView,
    task: TaskView,
    upload_id: Seq<char>,
    index: u64,
    error: Seq<char>,
    elapsed: Elapsed,
    now: Seq<char>,
)
    ensures
        ({
            let (next, next_task) = chunk_reported(
                pool,
                task,
                upload_id,
                index,
                Err(error),
                elapsed,
                now,
            );
            &&& next.completed_bytes == pool.completed_bytes
            &&& next_task.cancel_requested
            &&& next_task.snapshot == task.snapshot
            &&& next_task.active_pid == task.active_pid
            &&& if error == "__cancelled__"@ {
                &&& next.failure == pool.failure
                &&& is_log_with(
                    task.logs,
                    next_task.logs,
                    LogView {
                        timestamp: now,
                        level: "warn"@,
                        message: "分片上传被取消"@,
                        chunk_index: Some(index),
                        detail: None,
                    },
                )
            } else {
                &&& (pool.failure is None ==> next.failure == Some(error))
                &&& (pool.failure is Some ==> next.failure == pool.failure)
                &&& is_log_with(
                    task.logs,
                    next_task.logs,
                    LogView {
                        timestamp: now,
                        level: "warn"@,
                        message: "分片上传失败"@,
                        chunk_index: Some(index),
                        detail: Some(error),
                    },
                )
            }
        }),
{
}

/// A chunk that has been reported is no longer under way, and every other one still is; what
/// has been given out stays given out.
pub proof fn law_reported_chunk_is_no_longer_under_way(
    pool: PoolView,
    task: TaskView,
    upload_id: Seq<char>,
    index: u64,
    result: Result<usize, Seq<char>>,
    elapsed: Elapsed,
    now: Seq<char>,
)
    requires
        pool.wf(),
        pool.sends(index),
    ensures
        ({
            let next = chunk_reported(pool, task, upload_id, index, result, elapsed, now).0;
            &&& !next.sends(index)
            &&& forall|other: u64|
                other != index ==> (#[trigger] next.in_flight.contains(other)
                    <==> pool.in_flight.contains(other))
            &&& next.in_flight.len() == pool.in_flight.len() - 1
            &&& next.next_chunk_index == pool.next_chunk_index
            &&& next.total_chunks == pool.total_chunks
            &&& next.file_size == pool.file_size
            &&& next.chunk_size == pool.chunk_size
        }),
{
    let rest = without(pool.in_flight, index);
    pool.in_flight.index_of_first_ensures(index);
    let at = pool.in_flight.index_of_first(index)->0;
    assert(rest == pool.in_flight.remove(at));
    assert forall|i: u64| rest.contains(i) <==> pool.in_flight.contains(i) && i != index by {
        if rest.contains(i) {
            let k = rest.index_of(i);
            let old_k = if k < at {
                k
            } else {
                k + 1
            };
            assert(pool.in_flight[old_k] == i);
            assert(pool.in_flight[at] == index);
        }
        if pool.in_flight.contains(i) && i != index {
            let k = pool.in_flight.index_of(i);
            let new_k = if k < at {
                k
            } else {
                k - 1
            };
            assert(rest[new_k] == i);
        }
    }
}

/// The workers are done exactly where the task is to stop, one of them has met an error, or
/// no chunk is left and none is under way.
pub proof fn law_workers_are_done_when_nothing_is_left(pool: PoolView, task: TaskView)
    requires
        pool.next_chunk_index <= pool.total_chunks,
    ensures
        is_finished(pool, task) ==> claimed(pool, task).1 is None || pool.failure is Some,
        !task.cancel_requested && pool.failure is None && is_finished(pool, task)
            ==> pool.in_flight.len() == 0 && pool.next_chunk_index == pool.total_chunks,
        claimed(pool, task).1 is None && pool.in_flight.len() == 0 ==> is_finished(pool, task),
        task.cancel_requested || pool.failure is Some ==> is_finished(pool, task),
{
}

/// The chunks of an upload are concluded well exactly where the task is not to stop and no
/// worker has met an error, and the task then shows all bytes of the file. Otherwise they
/// end as cancelled, or with the error, and the task stays as it is.
pub proof fn law_chunks_end_well_unless_stopped(
    pool: PoolView,
    task: TaskView,
    upload_id: Seq<char>,
    elapsed: Elapsed,
)
    ensures
        ({
            let (after, result) = pool_concluded(pool, task, upload_id, elapsed);
            &&& result is Ok <==> !task.cancel_requested && pool.failure is None
            &&& (result is Err ==> after == task)
            &&& (task.cancel_requested ==> result == Err::<(), Seq<char>>("__cancelled__"@))
            &&& (!task.cancel_requested ==> (pool.failure matches Some(error) ==> result == Err::<
                (),
                Seq<char>,
            >(error)))
            &&& (result is Ok ==> {
                &&& after.snapshot.uploaded_bytes == pool.file_size
                &&& after.snapshot.total_bytes == pool.file_size
                &&& after.snapshot.status is Uploading
                &&& after.snapshot.upload_id == Some(upload_id)
                &&& after.snapshot.progress == (Progress::Capped {
                    part: pool.file_size,
                    whole: pool.file_size,
                    cap: 99,
                })
                &&& after.logs == task.logs
                &&& !after.cancel_requested
            })
        }),
{
}

/// No more than four chunks are ever under way, and a worker may ask for one while fewer are.
pub proof fn law_four_chunks_at_a_time(pool: PoolView, task: TaskView)
    requires
        pool.wf(),
    ensures
        pool.in_flight.len() <= 4,
        pool.in_flight.len() < 4 ==> claimed(pool, task).0.wf(),
        PARALLEL_UPLOADS == 4,
{
    if pool.in_flight.len() < 4 {
        lemma_claim_keeps_order(pool, task);
    }
}

} // verus!
