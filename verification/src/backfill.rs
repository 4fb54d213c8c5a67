//! Backfill plans: how a range of business dates is cut into chunks, and how
//! chunks and plans move from pending to done.

use vstd::prelude::*;

use crate::calendar::{number_in_range, numbers_in_range, Date, Timestamp};
use crate::manifest::random_uuid;
use crate::text::same;

verus! {

/// Attempts at a chunk before it fails for good.
pub const CHUNK_MAX_ATTEMPTS: i32 = 3;

/// Where a chunk stands.
#[derive(Debug, Clone, Copy, PartialEq, Eq, Structural)]
pub enum ChunkStatus {
    Pending,
    Running,
    Succeeded,
    Failed,
    Skipped,
}

impl ChunkStatus {
    pub open spec fn name(self) -> Seq<char> {
        match self {
            ChunkStatus::Pending => "pending"@,
            ChunkStatus::Running => "running"@,
            ChunkStatus::Succeeded => "succeeded"@,
            ChunkStatus::Failed => "failed"@,
            ChunkStatus::Skipped => "skipped"@,
        }
    }

    pub fn as_str(&self) -> (r: &'static str)
        ensures
            r@ == self.name(),
    {
        match self {
            ChunkStatus::Pending => "pending",
            ChunkStatus::Running => "running",
            ChunkStatus::Succeeded => "succeeded",
            ChunkStatus::Failed => "failed",
            ChunkStatus::Skipped => "skipped",
        }
    }

    /// The status with the given name.
    pub fn from_name(name: &str) -> (r: Option<ChunkStatus>)
        ensures
            match r {
                Some(s) => s.name() == name@,
                None => forall|s: ChunkStatus| #[trigger] s.name() != name@,
            },
    {
        if same(name, "pending") {
            Some(ChunkStatus::Pending)
        } else if same(name, "running") {
            Some(ChunkStatus::Running)
        } else if same(name, "succeeded") {
            Some(ChunkStatus::Succeeded)
        } else if same(name, "failed") {
            Some(ChunkStatus::Failed)
        } else if same(name, "skipped") {
            Some(ChunkStatus::Skipped)
        } else {
            None
        }
    }

    /// Whether the chunk will not be worked on again.
    pub open spec fn terminal(self) -> bool {
        self == ChunkStatus::Succeeded || self == ChunkStatus::Failed || self
            == ChunkStatus::Skipped
    }
}

/// Where a plan stands.
#[derive(Debug, Clone, Copy, PartialEq, Eq, Structural)]
pub enum PlanStatus {
    Pending,
    Running,
    Completed,
    Failed,
    Cancelled,
}

impl PlanStatus {
    pub open spec fn name(self) -> Seq<char> {
        match self {
            PlanStatus::Pending => "pending"@,
            PlanStatus::Running => "running"@,
            PlanStatus::Completed => "completed"@,
            PlanStatus::Failed => "failed"@,
            PlanStatus::Cancelled => "cancelled"@,
        }
    }

    pub fn as_str(&self) -> (r: &'static str)
        ensures
            r@ == self.name(),
    {
        match self {
            PlanStatus::Pending => "pending",
            PlanStatus::Running => "running",
            PlanStatus::Completed => "completed",
            PlanStatus::Failed => "failed",
            PlanStatus::Cancelled => "cancelled",
        }
    }

    /// The status with the given name.
    pub fn from_name(name: &str) -> (r: Option<PlanStatus>)
        ensures
            match r {
                Some(s) => s.name() == name@,
                None => forall|s: PlanStatus| #[trigger] s.name() != name@,
            },
    {
        if same(name, "pending") {
            Some(PlanStatus::Pending)
        } else if same(name, "running") {
            Some(PlanStatus::Running)
        } else if same(name, "completed") {
            Some(PlanStatus::Completed)
        } else if same(name, "failed") {
            Some(PlanStatus::Failed)
        } else if same(name, "cancelled") {
            Some(PlanStatus::Cancelled)
        } else {
            None
        }
    }
}

/// A backfill of a tenant's entities over a range of business dates.
#[derive(Debug)]
pub struct BackfillPlan {
    pub plan_id: u128,
    pub tenant_id: String,
    pub entity_types: Vec<String>,
    pub start_date: Date,
    pub end_date: Date,
    pub chunk_size_days: i32,
    pub status: PlanStatus,
    pub total_chunks: i32,
    pub completed_chunks: i32,
    pub failed_chunks: i32,
    pub triggered_by: String,
    pub error_message: Option<String>,
    pub created_at: Timestamp,
    pub started_at: Option<Timestamp>,
    pub completed_at: Option<Timestamp>,
}

/// A part of a plan: one entity over one window of business dates.
#[derive(Debug)]
pub struct BackfillChunk {
    pub chunk_id: u128,
    pub plan_id: u128,
    pub tenant_id: String,
    pub entity_type: String,
    pub window_start: Date,
    pub window_end: Date,
    /// Whether its run moves the incremental watermark.
    pub advance_watermark: bool,
    pub status: ChunkStatus,
    pub attempt_count: i32,
    pub max_attempts: i32,
    pub run_id: Option<u128>,
    pub error_message: Option<String>,
    pub created_at: Timestamp,
    pub started_at: Option<Timestamp>,
    pub finished_at: Option<Timestamp>,
}

/// A plan to be created.
#[derive(Debug)]
pub struct NewBackfillPlan {
    pub tenant_id: String,
    pub entity_types: Vec<String>,
    pub start_date: Date,
    pub end_date: Date,
    pub chunk_size_days: i32,
    pub triggered_by: String,
    /// Whether the run of each chunk moves the incremental watermark.
    pub advance_watermark: bool,
}

/// First day of the window with the given 0-based number.
pub open spec fn window_from(start: int, size: int, w: int) -> int {
    start + w * size
}

/// Day after the window with the given 0-based number: the last one may be short.
pub open spec fn window_until(start: int, end: int, size: int, w: int) -> int {
    if start + (w + 1) * size < end {
        start + (w + 1) * size
    } else {
        end
    }
}

/// Number of windows of the given size in a range.
pub open spec fn window_count(start: int, end: int, size: int) -> int {
    if start < end {
        (end - start + size - 1) / size
    } else {
        0
    }
}

impl NewBackfillPlan {
    /// Number of windows in the plan.
    pub open spec fn windows(self) -> int {
        window_count(
            self.start_date.number(),
            self.end_date.number(),
            self.chunk_size_days as int,
        )
    }

    /// Whether a chunk is the plan's, for the given window and entity: half-open,
    /// pending and not yet attempted.
    pub open spec fn is_chunk(self, c: BackfillChunk, plan_id: u128, w: int, e: int) -> bool {
        let start = self.start_date.number();
        let size = self.chunk_size_days as int;
        &&& c.plan_id == plan_id
        &&& c.tenant_id@ == self.tenant_id@
        &&& c.entity_type@ == self.entity_types@[e]@
        &&& c.window_start.number() == window_from(start, size, w)
        &&& c.window_end.number() == window_until(start, self.end_date.number(), size, w)
        &&& c.advance_watermark == self.advance_watermark
        &&& c.status == ChunkStatus::Pending
        &&& c.attempt_count == 0
        &&& c.max_attempts == CHUNK_MAX_ATTEMPTS
        &&& c.run_id is None && c.error_message is None
        &&& c.started_at is None && c.finished_at is None
    }
}

/// The chunks of a plan: each window of `chunk_size_days` for each entity, oldest
/// first. A range with days in it needs a positive size.
pub fn enumerate_chunks(plan: &NewBackfillPlan, plan_id: u128) -> (r: Vec<BackfillChunk>)
    requires
        plan.chunk_size_days > 0 || plan.start_date.number() >= plan.end_date.number(),
    ensures
        r@.len() == plan.windows() * plan.entity_types@.len(),
        forall|w: int, e: int|
            0 <= w < plan.windows() && 0 <= e < plan.entity_types@.len() ==> plan.is_chunk(
                #[trigger] r@[w * plan.entity_types@.len() + e],
                plan_id,
                w,
                e,
            ),
{
    let ghost start = plan.start_date.number();
    let ghost end = plan.end_date.number();
    let ghost size = plan.chunk_size_days as int;
    let ghost n = plan.entity_types@.len() as int;
    let mut out: Vec<BackfillChunk> = Vec::new();
    let mut cursor = plan.start_date;
    let ghost mut done: int = 0;
    proof {
        if start < end {
            assert((end - start + size - 1) / size >= 1) by (nonlinear_arith)
                requires
                    size > 0,
                    end - start >= 1,
            ;
        }
        assert(0 * n == 0) by (nonlinear_arith);
        assert(start + 0 * size == start) by (nonlinear_arith);
    }
    while cursor.is_before(&plan.end_date)
        invariant
            start == plan.start_date.number(),
            end == plan.end_date.number(),
            size == plan.chunk_size_days,
            n == plan.entity_types@.len(),
            size > 0 || start >= end,
            0 <= done <= plan.windows(),
            start < end ==> (cursor.number() == window_from(start, size, done) || (done
                == plan.windows() && cursor.number() == end)),
            start >= end ==> cursor.number() == start,
            start < end && cursor.number() < end ==> done < plan.windows(),
            start < end && cursor.number() >= end ==> done == plan.windows(),
            out@.len() == done * n,
            forall|w: int, e: int|
                0 <= w < done && 0 <= e < n ==> plan.is_chunk(
                    #[trigger] out@[w * n + e],
                    plan_id,
                    w,
                    e,
                ),
        decreases end - cursor.number(),
    {
        proof {
            use_type_invariant(&cursor);
            use_type_invariant(&plan.end_date);
            number_in_range(cursor);
            number_in_range(plan.end_date);
            numbers_in_range();
            window_step(start, end, size, done);
        }
        let left: i64 = plan.end_date.days_since(&cursor);
        let next = if left <= plan.chunk_size_days as i64 {
            plan.end_date
        } else {
            cursor.plus_days(plan.chunk_size_days).unwrap()
        };
        let ghost rows = out@;
        let mut e: usize = 0;
        while e < plan.entity_types.len()
            invariant
                e <= plan.entity_types.len(),
                n == plan.entity_types@.len(),
                start == plan.start_date.number(),
                end == plan.end_date.number(),
                size == plan.chunk_size_days,
                0 <= done,
                cursor.number() == window_from(start, size, done),
                next.number() == window_until(start, end, size, done),
                out@.len() == done * n + e,
                rows.len() == done * n,
                out@.take(rows.len() as int) == rows,
                forall|k: int|
                    0 <= k < e ==> plan.is_chunk(
                        #[trigger] out@[rows.len() + k],
                        plan_id,
                        done,
                        k,
                    ),
            decreases plan.entity_types.len() - e,
        {
            let ghost before = out@;
            out.push(
                BackfillChunk {
                    chunk_id: random_uuid(),
                    plan_id,
                    tenant_id: plan.tenant_id.clone(),
                    entity_type: plan.entity_types[e].clone(),
                    window_start: cursor,
                    window_end: next,
                    advance_watermark: plan.advance_watermark,
                    status: ChunkStatus::Pending,
                    attempt_count: 0,
                    max_attempts: CHUNK_MAX_ATTEMPTS,
                    run_id: None,
                    error_message: None,
                    created_at: Timestamp::now(),
                    started_at: None,
                    finished_at: None,
                },
            );
            e += 1;
            proof {
                assert(out@.take(rows.len() as int) =~= before.take(rows.len() as int));
                assert forall|k: int| 0 <= k < e implies plan.is_chunk(
                    #[trigger] out@[rows.len() + k],
                    plan_id,
                    done,
                    k,
                ) by {
                    if k < e - 1 {
                        assert(out@[rows.len() + k] == before[rows.len() + k]);
                    }
                }
            }
        }
        proof {
            assert((done + 1) * n == done * n + n) by (nonlinear_arith);
            assert forall|w: int, k: int| 0 <= w < done + 1 && 0 <= k < n implies plan.is_chunk(
                #[trigger] out@[w * n + k],
                plan_id,
                w,
                k,
            ) by {
                if w < done {
                    assert(w * n + k < done * n) by (nonlinear_arith)
                        requires
                            0 <= w < done,
                            0 <= k < n,
                    ;
                    assert(0 <= w * n + k) by (nonlinear_arith)
                        requires
                            0 <= w,
                            0 <= k < n,
                    ;
                    assert(out@.take(rows.len() as int)[w * n + k] == out@[w * n + k]);
                    assert(rows[w * n + k] == out@[w * n + k]);
                } else {
                    assert(out@[rows.len() + k] == out@[w * n + k]);
                }
            }
            done = done + 1;
        }
        cursor = next;
    }
    out
}

/// One window further.
proof fn window_step(start: int, end: int, size: int, w: int)
    requires
        start < end,
        size > 0,
        0 <= w < window_count(start, end, size),
        window_from(start, size, w) < end,
    ensures
        window_from(start, size, w + 1) == window_from(start, size, w) + size,
        window_until(start, end, size, w) == (if window_from(start, size, w) + size < end {
            window_from(start, size, w) + size
        } else {
            end
        }),
        window_from(start, size, w) + size < end ==> w + 1 < window_count(start, end, size),
        window_from(start, size, w) + size >= end ==> w + 1 == window_count(start, end, size),
{
    assert((w + 1) * size == w * size + size) by (nonlinear_arith);
    let total = end - start + size - 1;
    let c = total / size;
    assert(c * size <= total < c * size + size) by (nonlinear_arith)
        requires
            c == total / size,
            size > 0,
    ;
    if w * size + size < end - start {
        assert(w + 1 < c) by (nonlinear_arith)
            requires
                total < c * size + size,
                w * size + size < end - start,
                total == end - start + size - 1,
                size > 0,
        ;
    } else {
        assert(w + 1 >= c) by (nonlinear_arith)
            requires
                c * size <= total,
                w * size + size >= end - start,
                total == end - start + size - 1,
                size > 0,
        ;
    }
}

/// The windows of a plan cover each day of its range exactly once: they are
/// half-open, follow on one another, and the first starts and the last ends with
/// the range.
pub proof fn windows_partition_range(start: int, end: int, size: int, day: int)
    requires
        size > 0,
        start <= day < end,
    ensures
        exists|w: int|
            0 <= w < window_count(start, end, size) && #[trigger] window_from(start, size, w) <= day
                < window_until(start, end, size, w),
        forall|w: int|
            0 <= w < window_count(start, end, size) - 1 ==> #[trigger] window_until(
                start,
                end,
                size,
                w,
            ) == window_from(start, size, w + 1),
        window_from(start, size, 0) == start,
        window_until(start, end, size, window_count(start, end, size) - 1) == end,
{
    let c = window_count(start, end, size);
    let total = end - start + size - 1;
    assert(c * size <= total < c * size + size) by (nonlinear_arith)
        requires
            c == total / size,
            size > 0,
    ;
    assert(0 * size == 0) by (nonlinear_arith);
    let w = (day - start) / size;
    assert(w * size <= day - start < w * size + size) by (nonlinear_arith)
        requires
            w == (day - start) / size,
            size > 0,
    ;
    assert((w + 1) * size == w * size + size) by (nonlinear_arith);
    assert(w >= 0) by (nonlinear_arith)
        requires
            day - start >= 0,
            day - start < w * size + size,
            size > 0,
    ;
    assert(w < c) by (nonlinear_arith)
        requires
            w * size <= day - start,
            day - start < end - start,
            total < c * size + size,
            total == end - start + size - 1,
            size > 0,
    ;
    assert(window_from(start, size, w) <= day < window_until(start, end, size, w));
    assert forall|v: int| 0 <= v < c - 1 implies #[trigger] window_until(start, end, size, v)
        == window_from(start, size, v + 1) by {
        assert((v + 1) * size < end - start) by (nonlinear_arith)
            requires
                v + 1 <= c - 1,
                c * size <= total,
                total == end - start + size - 1,
                size > 0,
        ;
    }
    assert(c >= 1) by (nonlinear_arith)
        requires
            total < c * size + size,
            total >= size,
            size > 0,
    ;
    assert((c - 1 + 1) * size == c * size) by (nonlinear_arith);
}

impl BackfillPlan {
    /// The plan as it is created, with so many chunks.
    pub fn created(
        plan_id: u128,
        new: NewBackfillPlan,
        total_chunks: i32,
        now: Timestamp,
    ) -> (r: BackfillPlan)
        ensures
            r == (BackfillPlan {
                plan_id,
                tenant_id: new.tenant_id,
                entity_types: new.entity_types,
                start_date: new.start_date,
                end_date: new.end_date,
                chunk_size_days: new.chunk_size_days,
                status: PlanStatus::Pending,
                total_chunks,
                completed_chunks: 0,
                failed_chunks: 0,
                triggered_by: new.triggered_by,
                error_message: None,
                created_at: now,
                started_at: None,
                completed_at: None,
            }),
    {
        BackfillPlan {
            plan_id,
            tenant_id: new.tenant_id,
            entity_types: new.entity_types,
            start_date: new.start_date,
            end_date: new.end_date,
            chunk_size_days: new.chunk_size_days,
            status: PlanStatus::Pending,
            total_chunks,
            completed_chunks: 0,
            failed_chunks: 0,
            triggered_by: new.triggered_by,
            error_message: None,
            created_at: now,
            started_at: None,
            completed_at: None,
        }
    }

    /// The plan once a chunk of it is taken up.
    pub open spec fn begun(self, now: Timestamp) -> BackfillPlan {
        if self.status == PlanStatus::Pending {
            BackfillPlan {
                status: PlanStatus::Running,
                started_at: if self.started_at is Some {
                    self.started_at
                } else {
                    Some(now)
                },
                ..self
            }
        } else {
            self
        }
    }

    /// The plan once it is to be cancelled.
    pub open spec fn cancelled(self, now: Timestamp) -> BackfillPlan {
        if self.status == PlanStatus::Pending || self.status == PlanStatus::Running {
            BackfillPlan { status: PlanStatus::Cancelled, completed_at: Some(now), ..self }
        } else {
            self
        }
    }

    /// Mark the plan as running where it was pending, as the first of its chunks is
    /// taken up.
    pub fn begin(&mut self, now: Timestamp)
        ensures
            *final(self) == old(self).begun(now),
    {
        if self.status == PlanStatus::Pending {
            self.status = PlanStatus::Running;
            if self.started_at.is_none() {
                self.started_at = Some(now);
            }
        }
    }

    /// The plan after a recount of its chunks, which stand as given.
    pub open spec fn recounted(self, s: Seq<ChunkStatus>, now: Timestamp) -> BackfillPlan {
        let over = s.len() > 0 && all_terminal(s);
        BackfillPlan {
            completed_chunks: if s.len() > 0 {
                count_of(s, ChunkStatus::Succeeded) as i32
            } else {
                self.completed_chunks
            },
            failed_chunks: if s.len() > 0 {
                count_of(s, ChunkStatus::Failed) as i32
            } else {
                self.failed_chunks
            },
            status: if !over {
                self.status
            } else if count_of(s, ChunkStatus::Failed) == 0 {
                PlanStatus::Completed
            } else {
                PlanStatus::Failed
            },
            completed_at: if over {
                Some(now)
            } else {
                self.completed_at
            },
            ..self
        }
    }

    /// Recount the plan's chunks. Once all are done the plan is completed, or
    /// failed where any of them is.
    pub fn recount(&mut self, chunks: &Vec<BackfillChunk>, now: Timestamp)
        requires
            chunks@.len() <= i32::MAX,
        ensures
            *final(self) == old(self).recounted(chunk_statuses(chunks@), now),
    {
        let ghost s = chunk_statuses(chunks@);
        if chunks.len() == 0 {
            return;
        }
        let mut completed: i32 = 0;
        let mut failed: i32 = 0;
        let mut over = true;
        let mut i: usize = 0;
        while i < chunks.len()
            invariant
                i <= chunks.len() <= i32::MAX,
                s == chunk_statuses(chunks@),
                0 <= completed <= i,
                0 <= failed <= i,
                completed == count_of(s.take(i as int), ChunkStatus::Succeeded),
                failed == count_of(s.take(i as int), ChunkStatus::Failed),
                over == all_terminal(s.take(i as int)),
            decreases chunks.len() - i,
        {
            let status = chunks[i].status;
            proof {
                let upto = s.take(i + 1);
                assert(upto.drop_last() =~= s.take(i as int));
                assert(upto.last() == status);
                if all_terminal(upto) {
                    assert(upto[i as int] == status);
                    assert forall|k: int| 0 <= k < i implies (#[trigger] s.take(
                        i as int,
                    )[k]).terminal() by {
                        assert(upto[k] == s.take(i as int)[k]);
                    }
                }
                if all_terminal(s.take(i as int)) && status.terminal() {
                    assert forall|k: int| 0 <= k < i + 1 implies (#[trigger] upto[k]).terminal() by {
                        if k < i {
                            assert(upto[k] == s.take(i as int)[k]);
                        }
                    }
                }
            }
            match status {
                ChunkStatus::Succeeded => {
                    completed += 1;
                },
                ChunkStatus::Failed => {
                    failed += 1;
                },
                ChunkStatus::Skipped => {},
                _ => {
                    over = false;
                },
            }
            i += 1;
        }
        proof {
            assert(s.take(i as int) =~= s);
        }
        self.completed_chunks = completed;
        self.failed_chunks = failed;
        if over {
            self.status = if failed == 0 {
                PlanStatus::Completed
            } else {
                PlanStatus::Failed
            };
            self.completed_at = Some(now);
        }
    }

    /// Cancel the plan, unless it is over.
    pub fn cancel(&mut self, now: Timestamp)
        ensures
            *final(self) == old(self).cancelled(now),
    {
        if self.status == PlanStatus::Pending || self.status == PlanStatus::Running {
            self.status = PlanStatus::Cancelled;
            self.completed_at = Some(now);
        }
    }
}

/// Where each of the chunks stands.
pub open spec fn chunk_statuses(chunks: Seq<BackfillChunk>) -> Seq<ChunkStatus> {
    Seq::new(chunks.len(), |i: int| chunks[i].status)
}

/// How many chunks stand at the given status.
pub open spec fn count_of(s: Seq<ChunkStatus>, status: ChunkStatus) -> nat
    decreases s.len(),
{
    if s.len() == 0 {
        0
    } else {
        count_of(s.drop_last(), status) + (if s.last() == status {
            1nat
        } else {
            0
        })
    }
}

/// Whether no chunk will be worked on again.
pub open spec fn all_terminal(s: Seq<ChunkStatus>) -> bool {
    forall|i: int| 0 <= i < s.len() ==> (#[trigger] s[i]).terminal()
}

impl BackfillChunk {
    /// Whether a worker can take the chunk up: it is pending, and has attempts left.
    pub open spec fn claimable(self) -> bool {
        self.status == ChunkStatus::Pending && self.attempt_count < self.max_attempts
    }

    /// What holds of a chunk in every state: it was not attempted more often than
    /// allowed.
    pub open spec fn within_attempts(self) -> bool {
        0 <= self.attempt_count <= self.max_attempts
    }

    /// The chunk once it is taken up.
    pub open spec fn claimed(self, now: Timestamp) -> BackfillChunk {
        BackfillChunk {
            status: ChunkStatus::Running,
            started_at: Some(now),
            attempt_count: (self.attempt_count + 1) as i32,
            ..self
        }
    }

    /// The chunk once a run of it succeeded.
    pub open spec fn succeeded(self, run_id: u128, now: Timestamp) -> BackfillChunk {
        BackfillChunk {
            status: ChunkStatus::Succeeded,
            finished_at: Some(now),
            run_id: Some(run_id),
            error_message: None,
            ..self
        }
    }

    /// Whether the chunk becomes another when an attempt at it fails.
    pub open spec fn fails_as(self, after: BackfillChunk, error: Seq<char>, now: Timestamp) -> bool {
        let spent = self.attempt_count >= self.max_attempts;
        &&& after.status == (if spent {
            ChunkStatus::Failed
        } else {
            ChunkStatus::Pending
        })
        &&& after.finished_at == (if spent {
            Some(now)
        } else {
            None
        })
        &&& text_is(after.error_message, error)
        &&& after == (BackfillChunk {
            status: after.status,
            finished_at: after.finished_at,
            error_message: after.error_message,
            ..self
        })
    }

    /// The chunk once it is to be skipped.
    pub open spec fn skipped(self, now: Timestamp) -> BackfillChunk {
        if self.status == ChunkStatus::Pending {
            BackfillChunk { status: ChunkStatus::Skipped, finished_at: Some(now), ..self }
        } else {
            self
        }
    }

    /// Whether a worker can take the chunk up.
    pub fn is_claimable(&self) -> (r: bool)
        ensures
            r == self.claimable(),
    {
        self.status == ChunkStatus::Pending && self.attempt_count < self.max_attempts
    }

    /// Take the chunk up: one more attempt is under way.
    pub fn claim(&mut self, now: Timestamp)
        requires
            old(self).claimable(),
        ensures
            *final(self) == old(self).claimed(now),
            old(self).within_attempts() ==> final(self).within_attempts(),
    {
        self.status = ChunkStatus::Running;
        self.started_at = Some(now);
        self.attempt_count = self.attempt_count + 1;
    }

    /// The attempt succeeded.
    pub fn succeed(&mut self, run_id: u128, now: Timestamp)
        ensures
            *final(self) == old(self).succeeded(run_id, now),
    {
        self.status = ChunkStatus::Succeeded;
        self.finished_at = Some(now);
        self.run_id = Some(run_id);
        self.error_message = None;
    }

    /// The attempt failed. While attempts remain the chunk goes back to pending;
    /// after the last one it has failed.
    pub fn fail(&mut self, error: &str, now: Timestamp)
        ensures
            old(self).fails_as(*final(self), error@, now),
            old(self).within_attempts() ==> final(self).within_attempts(),
    {
        if self.attempt_count >= self.max_attempts {
            self.status = ChunkStatus::Failed;
            self.finished_at = Some(now);
        } else {
            self.status = ChunkStatus::Pending;
            self.finished_at = None;
        }
        self.error_message = Some(error.to_owned());
    }

    /// Skip the chunk where it is still pending.
    pub fn skip(&mut self, now: Timestamp)
        ensures
            *final(self) == old(self).skipped(now),
    {
        if self.status == ChunkStatus::Pending {
            self.status = ChunkStatus::Skipped;
            self.finished_at = Some(now);
        }
    }
}

/// Whether an optional text is the given one.
pub open spec fn text_is(s: Option<String>, text: Seq<char>) -> bool {
    s matches Some(t) && t@ == text
}

/// A chunk that failed can be taken up again exactly while attempts remain.
pub proof fn failed_chunk_is_retried(before: BackfillChunk, after: BackfillChunk)
    requires
        before.within_attempts(),
        after.attempt_count == before.attempt_count,
        after.max_attempts == before.max_attempts,
        after.status == (if before.attempt_count >= before.max_attempts {
            ChunkStatus::Failed
        } else {
            ChunkStatus::Pending
        }),
    ensures
        after.claimable() <==> before.attempt_count < before.max_attempts,
        after.status.terminal() <==> before.attempt_count == before.max_attempts,
{
}

/// A chunk will be worked on again if and only if it is pending or running.
pub proof fn open_chunks_are_pending_or_running(status: ChunkStatus)
    ensures
        !status.terminal() <==> status == ChunkStatus::Pending || status == ChunkStatus::Running,
{
}

/// Every chunk stands somewhere: the counts of all statuses add up to the number of
/// chunks, and a count is zero if and only if no chunk stands there.
pub proof fn counts_add_up(s: Seq<ChunkStatus>, status: ChunkStatus)
    ensures
        count_of(s, ChunkStatus::Pending) + count_of(s, ChunkStatus::Running) + count_of(
            s,
            ChunkStatus::Succeeded,
        ) + count_of(s, ChunkStatus::Failed) + count_of(s, ChunkStatus::Skipped) == s.len(),
        count_of(s, status) == 0 <==> !s.contains(status),
    decreases s.len(),
{
    if s.len() > 0 {
        let front = s.drop_last();
        counts_add_up(front, status);
        if front.contains(status) {
            let k = choose|k: int| 0 <= k < front.len() && front[k] == status;
            assert(s[k] == status);
        }
        if s.contains(status) && s.last() != status {
            let k = choose|k: int| 0 <= k < s.len() && s[k] == status;
            assert(front[k] == status);
        }
        if s.last() == status {
            assert(s[s.len() - 1] == status);
        }
    }
}

/// A recount counts the chunks that succeeded and those that failed. It ends the plan if
/// and only if there are chunks and none is pending or running: the plan is then failed
/// where a chunk is, else completed. It leaves the rest of the plan as it was.
pub proof fn plans_end_with_their_chunks(
    plan: BackfillPlan,
    s: Seq<ChunkStatus>,
    now: Timestamp,
)
    requires
        0 < s.len() <= i32::MAX,
    ensures
        ({
            let after = plan.recounted(s, now);
            let over = !s.contains(ChunkStatus::Pending) && !s.contains(ChunkStatus::Running);
            &&& after.completed_chunks == count_of(s, ChunkStatus::Succeeded)
            &&& after.failed_chunks == count_of(s, ChunkStatus::Failed)
            &&& over && s.contains(ChunkStatus::Failed) ==> after.status == PlanStatus::Failed
            &&& over && !s.contains(ChunkStatus::Failed) ==> after.status == PlanStatus::Completed
            &&& over ==> after.completed_at == Some(now)
            &&& !over ==> after.status == plan.status && after.completed_at == plan.completed_at
            &&& after.plan_id == plan.plan_id && after.total_chunks == plan.total_chunks
            &&& after.start_date == plan.start_date && after.end_date == plan.end_date
            &&& after.started_at == plan.started_at
        }),
{
    counts_add_up(s, ChunkStatus::Succeeded);
    counts_add_up(s, ChunkStatus::Failed);
    if all_terminal(s) {
        assert forall|i: int| 0 <= i < s.len() implies s[i] != ChunkStatus::Pending && s[i]
            != ChunkStatus::Running by {
            assert(s[i].terminal());
        }
    } else {
        let k = choose|k: int| 0 <= k < s.len() && !(#[trigger] s[k]).terminal();
        assert(s.contains(s[k]));
    }
}

/// A recount of no chunks changes nothing.
pub proof fn empty_recount_changes_nothing(plan: BackfillPlan, now: Timestamp)
    ensures
        plan.recounted(Seq::<ChunkStatus>::empty(), now) == plan,
{
}

/// Each window holds at least a day and at most as many as it may, and all but the last
/// hold as many as they may; a range without days has no windows.
pub proof fn windows_are_full_but_the_last(start: int, end: int, size: int, w: int)
    requires
        size > 0,
    ensures
        0 <= w < window_count(start, end, size) ==> {
            &&& window_until(start, end, size, w) - window_from(start, size, w) <= size
            &&& window_until(start, end, size, w) > window_from(start, size, w)
            &&& w + 1 < window_count(start, end, size) ==> window_until(start, end, size, w)
                - window_from(start, size, w) == size
            &&& start <= window_from(start, size, w)
            &&& window_until(start, end, size, w) <= end
        },
        start >= end <==> window_count(start, end, size) == 0,
{
    if start < end {
        windows_partition_range(start, end, size, start);
        let c = window_count(start, end, size);
        let total = end - start + size - 1;
        assert(c * size <= total < c * size + size) by (nonlinear_arith)
            requires
                c == total / size,
                size > 0,
        ;
        assert(c >= 1) by (nonlinear_arith)
            requires
                total < c * size + size,
                total >= size,
                size > 0,
        ;
        if 0 <= w < c {
            assert(w * size < end - start) by (nonlinear_arith)
                requires
                    w + 1 <= c,
                    c * size <= total,
                    total == end - start + size - 1,
                    size > 0,
            ;
            assert((w + 1) * size == w * size + size) by (nonlinear_arith);
            assert(w * size >= 0) by (nonlinear_arith)
                requires
                    w >= 0,
                    size > 0,
            ;
            if w + 1 < c {
                assert(window_until(start, end, size, w) == window_from(start, size, w + 1));
            }
        }
    }
}

/// A new chunk lies within its plan's range, is for one of its entities, and can be
/// taken up three times.
pub proof fn chunks_start_afresh(plan: NewBackfillPlan, c: BackfillChunk, plan_id: u128, w: int, e: int)
    requires
        plan.chunk_size_days > 0,
        0 <= w < plan.windows(),
        0 <= e < plan.entity_types@.len(),
        plan.is_chunk(c, plan_id, w, e),
    ensures
        plan.start_date.number() <= c.window_start.number() < c.window_end.number()
            <= plan.end_date.number(),
        c.window_end.number() - c.window_start.number() <= plan.chunk_size_days,
        c.tenant_id@ == plan.tenant_id@ && c.entity_type@ == plan.entity_types@[e]@,
        c.plan_id == plan_id,
        c.advance_watermark == plan.advance_watermark,
        c.claimable(),
        c.max_attempts == 3 && c.attempt_count == 0,
        c.within_attempts(),
{
    windows_are_full_but_the_last(
        plan.start_date.number(),
        plan.end_date.number(),
        plan.chunk_size_days as int,
        w,
    );
}

/// A chunk can be taken up if and only if it is pending and was attempted fewer times
/// than allowed.
pub proof fn spent_chunks_are_left(c: BackfillChunk)
    ensures
        c.claimable() ==> !c.status.terminal() && c.attempt_count < c.max_attempts,
        c.status == ChunkStatus::Running ==> !c.claimable(),
        c.attempt_count >= c.max_attempts ==> !c.claimable(),
        c.status == ChunkStatus::Pending && c.attempt_count < c.max_attempts ==> c.claimable(),
{
}

/// The names of statuses tell them apart.
pub proof fn status_names_differ(a: ChunkStatus, b: ChunkStatus, p: PlanStatus, q: PlanStatus)
    ensures
        a.name() == b.name() ==> a == b,
        p.name() == q.name() ==> p == q,
{
    reveal_strlit("pending");
    reveal_strlit("running");
    reveal_strlit("succeeded");
    reveal_strlit("failed");
    reveal_strlit("skipped");
    reveal_strlit("completed");
    reveal_strlit("cancelled");
    if a.name() == b.name() {
        assert(a.name().len() == b.name().len());
        assert(a.name()[0] == b.name()[0]);
    }
    if p.name() == q.name() {
        assert(p.name().len() == q.name().len());
        assert(p.name()[0] == q.name()[0] && p.name()[1] == q.name()[1]);
    }
}

/// A chunk that is taken up runs, has one attempt more and cannot be taken up by another. When
/// the attempt fails it can be taken up again if attempts remain, and else has failed for good;
/// the error is kept either way. Window, entity and plan never change.
pub proof fn failed_attempts_are_repeated(
    c: BackfillChunk,
    after: BackfillChunk,
    error: Seq<char>,
    start: Timestamp,
    end: Timestamp,
)
    requires
        c.claimable(),
        c.within_attempts(),
        c.claimed(start).fails_as(after, error, end),
    ensures
        c.claimed(start).status == ChunkStatus::Running,
        !c.claimed(start).claimable(),
        c.claimed(start).started_at == Some(start),
        after.attempt_count == c.attempt_count + 1,
        after.claimable() <==> c.attempt_count + 1 < c.max_attempts,
        after.status == ChunkStatus::Failed <==> c.attempt_count + 1 == c.max_attempts,
        after.finished_at is Some <==> after.status == ChunkStatus::Failed,
        after.error_message matches Some(m) && m@ == error,
        after.window_start == c.window_start && after.window_end == c.window_end,
        after.entity_type == c.entity_type && after.plan_id == c.plan_id,
        after.within_attempts(),
{
}

/// A chunk that succeeded is over, tells its run and no error, and keeps its window; one is
/// skipped if and only if it was still pending.
pub proof fn chunks_end_once(c: BackfillChunk, run_id: u128, now: Timestamp)
    ensures
        c.succeeded(run_id, now).status == ChunkStatus::Succeeded,
        c.succeeded(run_id, now).run_id == Some(run_id),
        c.succeeded(run_id, now).error_message is None,
        c.succeeded(run_id, now).finished_at == Some(now),
        c.succeeded(run_id, now).window_start == c.window_start,
        c.succeeded(run_id, now).window_end == c.window_end,
        !c.succeeded(run_id, now).claimable(),
        c.status == ChunkStatus::Pending ==> c.skipped(now).status == ChunkStatus::Skipped
            && c.skipped(now).finished_at == Some(now),
        c.status != ChunkStatus::Pending ==> c.skipped(now) == c,
        !c.skipped(now).claimable(),
{
}

/// A plan runs from when its first chunk is taken up, and is cancelled only while it is pending
/// or running: a plan that is over stays as it is.
pub proof fn plans_that_are_over_stay(plan: BackfillPlan, now: Timestamp)
    ensures
        plan.status == PlanStatus::Pending ==> plan.begun(now).status == PlanStatus::Running,
        plan.status != PlanStatus::Pending ==> plan.begun(now) == plan,
        plan.started_at is None && plan.status == PlanStatus::Pending ==> plan.begun(now).started_at
            == Some(now),
        plan.started_at is Some ==> plan.begun(now).started_at == plan.started_at,
        plan.status == PlanStatus::Pending || plan.status == PlanStatus::Running ==> plan.cancelled(
            now,
        ).status == PlanStatus::Cancelled && plan.cancelled(now).completed_at == Some(now),
        plan.status == PlanStatus::Completed || plan.status == PlanStatus::Failed || plan.status
            == PlanStatus::Cancelled ==> plan.cancelled(now) == plan,
        plan.cancelled(now).cancelled(now) == plan.cancelled(now),
{
}

} // verus!
