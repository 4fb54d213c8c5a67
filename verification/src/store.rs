//! Rows of the state store and the rules by which they change: checkpoints, runs,
//! tenants and schedules.

use vstd::prelude::*;

use crate::calendar::{Date, Timestamp};
use crate::error::{Error, ErrorView};
use crate::text::same;
use crate::types::{EntityType, TenantId};

verus! {

/// What a checkpoint is for.
#[derive(Debug)]
pub struct CheckpointKey {
    pub tenant: TenantId,
    pub entity_type: String,
}

impl CheckpointKey {
    pub fn new(tenant: TenantId, entity_type: &EntityType) -> (r: CheckpointKey)
        ensures
            r.tenant == tenant,
            r.entity_type@ == entity_type.name(),
    {
        CheckpointKey { tenant, entity_type: entity_type.as_str().to_owned() }
    }
}

/// How far a tenant's entity has been synced.
#[derive(Debug)]
pub struct Checkpoint {
    pub key: CheckpointKey,
    pub last_modified_watermark: Option<Timestamp>,
    pub last_sync_at: Option<Timestamp>,
    pub records_seen: i64,
}

/// Whether a new watermark would rewind a stored one. A checkpoint without a
/// watermark is a reset, and always allowed.
pub open spec fn regresses(stored: Option<Timestamp>, new: Option<Timestamp>) -> bool {
    stored is Some && new is Some && new->0.earlier_than(stored->0)
}

/// The refusal of a checkpoint that would rewind the watermark.
pub open spec fn regression_failure(cp: Checkpoint, stored: Timestamp) -> ErrorView {
    ErrorView::StateStore(
        "watermark regression refused: tenant="@ + cp.key.tenant@ + " entity="@
            + cp.key.entity_type@ + " existing="@ + stored.display_text() + " attempted="@
            + cp.last_modified_watermark->0.display_text(),
    )
}

/// Refuse a checkpoint that would rewind the stored watermark.
pub fn check_watermark(stored: Option<Timestamp>, cp: &Checkpoint) -> (r: Result<(), Error>)
    ensures
        match r {
            Ok(_) => !regresses(stored, cp.last_modified_watermark),
            Err(e) => regresses(stored, cp.last_modified_watermark) && e@ == regression_failure(
                *cp,
                stored->0,
            ),
        },
{
    if let Some(new) = cp.last_modified_watermark {
        if let Some(old) = stored {
            if new.is_before(&old) {
                return Err(
                    Error::StateStore(
                        "watermark regression refused: tenant=".to_owned().concat(
                            cp.key.tenant.as_str(),
                        ).concat(" entity=").concat(cp.key.entity_type.as_str()).concat(
                            " existing=",
                        ).concat(old.to_display().as_str()).concat(" attempted=").concat(
                            new.to_display().as_str(),
                        ),
                    ),
                );
            }
        }
    }
    Ok(())
}

/// The watermark stored after a checkpoint is offered: a refused one changes
/// nothing.
pub open spec fn watermark_after(stored: Option<Timestamp>, new: Option<Timestamp>) -> Option<
    Timestamp,
> {
    if regresses(stored, new) {
        stored
    } else {
        new
    }
}

/// Over any number of checkpoints with a watermark, the stored watermark never
/// goes back.
pub proof fn watermark_never_goes_back(start: Timestamp, offered: Seq<Timestamp>)
    ensures
        watermark_run(start, offered) is Some,
        !watermark_run(start, offered)->0.earlier_than(start),
    decreases offered.len(),
{
    if offered.len() > 0 {
        watermark_never_goes_back(start, offered.drop_last());
    }
}

/// The watermark stored after the given checkpoints, offered in order.
pub open spec fn watermark_run(start: Timestamp, offered: Seq<Timestamp>) -> Option<Timestamp>
    decreases offered.len(),
{
    if offered.len() == 0 {
        Some(start)
    } else {
        watermark_after(watermark_run(start, offered.drop_last()), Some(offered.last()))
    }
}

/// Where a run stands.
#[derive(Debug, Clone, Copy, PartialEq, Eq, Structural)]
pub enum RunStatus {
    Running,
    Succeeded,
    Failed,
    Cancelled,
}

impl RunStatus {
    pub open spec fn name(self) -> Seq<char> {
        match self {
            RunStatus::Running => "running"@,
            RunStatus::Succeeded => "succeeded"@,
            RunStatus::Failed => "failed"@,
            RunStatus::Cancelled => "cancelled"@,
        }
    }

    pub fn as_str(&self) -> (r: &'static str)
        ensures
            r@ == self.name(),
    {
        match self {
            RunStatus::Running => "running",
            RunStatus::Succeeded => "succeeded",
            RunStatus::Failed => "failed",
            RunStatus::Cancelled => "cancelled",
        }
    }

    /// The status with the given name.
    pub fn try_from(s: String) -> (r: Result<RunStatus, Error>)
        ensures
            match r {
                Ok(status) => status.name() == s@,
                Err(e) => {
                    &&& e@ == ErrorView::StateStore("unknown run status: "@ + s@)
                    &&& forall|status: RunStatus| #[trigger] status.name() != s@
                },
            },
    {
        if same(s.as_str(), "running") {
            Ok(RunStatus::Running)
        } else if same(s.as_str(), "succeeded") {
            Ok(RunStatus::Succeeded)
        } else if same(s.as_str(), "failed") {
            Ok(RunStatus::Failed)
        } else if same(s.as_str(), "cancelled") {
            Ok(RunStatus::Cancelled)
        } else {
            Err(Error::StateStore("unknown run status: ".to_owned().concat(s.as_str())))
        }
    }
}

/// A status is determined by its name.
pub proof fn run_status_name_is_injective(a: RunStatus, b: RunStatus)
    requires
        a.name() == b.name(),
    ensures
        a == b,
{
    reveal_strlit("running");
    reveal_strlit("succeeded");
    reveal_strlit("failed");
    reveal_strlit("cancelled");
    let n = a.name();
    let m = b.name();
    assert(n.len() == m.len());
    assert(n[0] == m[0]);
}

/// One run of one entity.
#[derive(Debug)]
pub struct SyncRun {
    pub run_id: u128,
    pub trigger_id: Option<u128>,
    pub tenant_id: String,
    pub entity_type: String,
    pub job_type: String,
    pub status: RunStatus,
    pub records_fetched: i64,
    pub records_loaded: i64,
    pub records_failed: i64,
    pub error_message: Option<String>,
    pub started_at: Timestamp,
    pub finished_at: Option<Timestamp>,
    pub triggered_by: String,
}

impl SyncRun {
    /// Finalise the run: status, counters, and when it finished.
    pub fn finish(
        &mut self,
        status: RunStatus,
        records_fetched: i64,
        records_loaded: i64,
        records_failed: i64,
        error_message: Option<String>,
        now: Timestamp,
    )
        ensures
            *final(self) == (SyncRun {
                status,
                records_fetched,
                records_loaded,
                records_failed,
                error_message,
                finished_at: Some(now),
                ..*old(self)
            }),
    {
        self.status = status;
        self.records_fetched = records_fetched;
        self.records_loaded = records_loaded;
        self.records_failed = records_failed;
        self.error_message = error_message;
        self.finished_at = Some(now);
    }
}

/// A tenant that the service knows.
#[derive(Debug)]
pub struct TenantRecord {
    pub tenant_id: String,
    pub tenant_name: Option<String>,
    pub short_code: Option<String>,
    pub is_active: bool,
    pub created_at: Timestamp,
    pub updated_at: Timestamp,
}

impl TenantRecord {
    /// A tenant seen for the first time.
    pub fn created(
        tenant_id: &str,
        tenant_name: Option<String>,
        short_code: Option<String>,
        now: Timestamp,
    ) -> (r: TenantRecord)
        ensures
            r.tenant_id@ == tenant_id@,
            r.tenant_name == tenant_name,
            r.short_code == short_code,
            r.is_active,
            r.created_at == now,
            r.updated_at == now,
    {
        TenantRecord {
            tenant_id: tenant_id.to_owned(),
            tenant_name,
            short_code,
            is_active: true,
            created_at: now,
            updated_at: now,
        }
    }

    /// The tenant once a name and a short code were taken over.
    pub open spec fn refreshed(
        self,
        tenant_name: Option<String>,
        short_code: Option<String>,
        now: Timestamp,
    ) -> TenantRecord {
        TenantRecord {
            tenant_name: if tenant_name is Some {
                tenant_name
            } else {
                self.tenant_name
            },
            short_code: if short_code is Some {
                short_code
            } else {
                self.short_code
            },
            updated_at: now,
            ..self
        }
    }

    /// Take over a name and a short code; what is not given stays.
    pub fn refresh(
        &mut self,
        tenant_name: Option<String>,
        short_code: Option<String>,
        now: Timestamp,
    )
        ensures
            *final(self) == old(self).refreshed(tenant_name, short_code, now),
    {
        if tenant_name.is_some() {
            self.tenant_name = tenant_name;
        }
        if short_code.is_some() {
            self.short_code = short_code;
        }
        self.updated_at = now;
    }
}

/// A schedule by which a tenant's entities are synced.
#[derive(Debug)]
pub struct SyncSchedule {
    pub schedule_id: u128,
    pub tenant_id: String,
    pub name: String,
    pub cron_expression: String,
    pub entities: Vec<String>,
    pub from_date: Option<Date>,
    pub to_date: Option<Date>,
    pub created_at: Timestamp,
    pub disabled_at: Option<Timestamp>,
    pub last_triggered_at: Option<Timestamp>,
}

/// A schedule to be created.
#[derive(Debug)]
pub struct NewSyncSchedule {
    pub schedule_id: u128,
    pub tenant_id: String,
    pub name: String,
    pub cron_expression: String,
    pub entities: Vec<String>,
    pub from_date: Option<Date>,
    pub to_date: Option<Date>,
}

impl SyncSchedule {
    /// The schedule as it is created: enabled, and never triggered.
    pub fn created(new: NewSyncSchedule, now: Timestamp) -> (r: SyncSchedule)
        ensures
            r == (SyncSchedule {
                schedule_id: new.schedule_id,
                tenant_id: new.tenant_id,
                name: new.name,
                cron_expression: new.cron_expression,
                entities: new.entities,
                from_date: new.from_date,
                to_date: new.to_date,
                created_at: now,
                disabled_at: None,
                last_triggered_at: None,
            }),
    {
        SyncSchedule {
            schedule_id: new.schedule_id,
            tenant_id: new.tenant_id,
            name: new.name,
            cron_expression: new.cron_expression,
            entities: new.entities,
            from_date: new.from_date,
            to_date: new.to_date,
            created_at: now,
            disabled_at: None,
            last_triggered_at: None,
        }
    }

    /// Whether a tenant sees the schedule: it is the tenant's and not disabled.
    pub open spec fn visible_to(self, tenant: Seq<char>) -> bool {
        self.tenant_id@ == tenant && self.disabled_at is None
    }

    /// The schedule once it is disabled.
    pub open spec fn disabled(self, now: Timestamp) -> SyncSchedule {
        if self.disabled_at is None {
            SyncSchedule { disabled_at: Some(now), ..self }
        } else {
            self
        }
    }

    /// The schedule once it was triggered.
    pub open spec fn triggered(self, now: Timestamp) -> SyncSchedule {
        if self.disabled_at is None {
            SyncSchedule { last_triggered_at: Some(now), ..self }
        } else {
            self
        }
    }

    /// Whether a tenant sees the schedule: it is the tenant's and not disabled.
    pub fn is_visible_to(&self, tenant_id: &str) -> (r: bool)
        ensures
            r == self.visible_to(tenant_id@),
    {
        same(self.tenant_id.as_str(), tenant_id) && self.disabled_at.is_none()
    }

    /// Disable the schedule. One that is disabled stays as it is.
    pub fn disable(&mut self, now: Timestamp)
        ensures
            *final(self) == old(self).disabled(now),
    {
        if self.disabled_at.is_none() {
            self.disabled_at = Some(now);
        }
    }

    /// Record that the schedule was triggered. One that is disabled stays as it is.
    pub fn touch_last_triggered(&mut self, now: Timestamp)
        ensures
            *final(self) == old(self).triggered(now),
    {
        if self.disabled_at.is_none() {
            self.last_triggered_at = Some(now);
        }
    }
}

/// A watermark is refused if and only if it is before the stored one. Any other is
/// taken, and so is a reset; a refused one changes nothing.
pub proof fn only_older_watermarks_are_refused(stored: Timestamp, new: Timestamp)
    ensures
        regresses(Some(stored), Some(new)) <==> new.unix() < stored.unix() || (new.unix()
            == stored.unix() && new.subsec() < stored.subsec()),
        !regresses(None, Some(new)),
        !regresses(Some(stored), None),
        !regresses(None, None),
        watermark_after(Some(stored), Some(new)) == Some(
            if new.earlier_than(stored) {
                stored
            } else {
                new
            },
        ),
        watermark_after(None, Some(new)) == Some(new),
        watermark_after(Some(stored), None) is None,
{
}

/// After any number of checkpoints the stored watermark is the latest that was offered,
/// or the first one where none was later.
pub proof fn watermark_is_the_latest(start: Timestamp, offered: Seq<Timestamp>, i: int)
    requires
        0 <= i < offered.len(),
    ensures
        watermark_run(start, offered) matches Some(w) && {
            &&& !w.earlier_than(offered[i])
            &&& !w.earlier_than(start)
            &&& w == start || offered.contains(w)
        },
    decreases offered.len(),
{
    let front = offered.drop_last();
    watermark_never_goes_back(start, front);
    watermark_never_goes_back(start, offered);
    if front.len() > 0 {
        watermark_is_the_latest(start, front, if i < front.len() {
            i
        } else {
            0
        });
        let w = watermark_run(start, front)->0;
        if front.contains(w) {
            let k = choose|k: int| 0 <= k < front.len() && front[k] == w;
            assert(offered[k] == w);
        }
    }
    assert(offered[offered.len() - 1] == offered.last());
}

/// A disabled schedule is seen by nobody and no longer triggered; it stays disabled since the
/// first time. One that is not is seen by its tenant alone, and triggering it keeps it so.
pub proof fn disabled_schedules_stay_disabled(
    s: SyncSchedule,
    now: Timestamp,
    later: Timestamp,
    tenant: Seq<char>,
)
    ensures
        !s.disabled(now).visible_to(tenant),
        s.disabled(now).disabled_at is Some,
        s.disabled_at is None ==> s.disabled(now).disabled_at == Some(now),
        s.disabled(now).disabled(later) == s.disabled(now),
        s.disabled(now).triggered(later) == s.disabled(now),
        s.disabled_at is None ==> (s.visible_to(tenant) <==> s.tenant_id@ == tenant),
        s.disabled_at is None ==> s.triggered(now).last_triggered_at == Some(now),
        s.triggered(now).visible_to(tenant) <==> s.visible_to(tenant),
        s.disabled(now).last_triggered_at == s.last_triggered_at,
{
}

/// A name or a short code that is given is taken over, and one that is not stays; a tenant
/// keeps its id and when it was created, and being refreshed neither hides nor shows it.
pub proof fn tenants_keep_what_is_not_given(
    t: TenantRecord,
    name: Option<String>,
    code: Option<String>,
    now: Timestamp,
)
    ensures
        name is Some ==> t.refreshed(name, code, now).tenant_name == name,
        name is None ==> t.refreshed(name, code, now).tenant_name == t.tenant_name,
        code is Some ==> t.refreshed(name, code, now).short_code == code,
        code is None ==> t.refreshed(name, code, now).short_code == t.short_code,
        t.refreshed(name, code, now).updated_at == now,
        t.refreshed(name, code, now).created_at == t.created_at,
        t.refreshed(name, code, now).tenant_id == t.tenant_id,
        t.refreshed(name, code, now).is_active == t.is_active,
{
}

} // verus!
