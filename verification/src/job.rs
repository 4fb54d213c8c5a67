//! A sync run: its units of work, how many of them are in flight, what each
//! uploads, and the manifest.
//!
//! A run is the product of tenants and entities. Each unit stands alone: its
//! failure becomes an outcome with an error and does not stop the others.

use vstd::prelude::*;
use vstd::string::StrSliceExecFns;
use vstd::utf8::encode_utf8;

use crate::calendar::{Date, Timestamp};
use crate::config::{GcsConfig, SyncConfig};
use crate::fetch::RawPage;
use crate::json::{pretty, Json};
use crate::key::{object_key, page_key, report_key, report_object_key};
use crate::manifest::{
    is_manifest, manifest_entries, manifest_key, manifest_meta, manifest_path, uuid_hyphenated,
    uuid_text, EntityOutcome, ManifestView, RunManifest,
};
use crate::meta::{
    entry, metadata, metadata_identifies_object, metadata_shows_the_fetch,
    metadata_shows_the_window, page_entries, report_entries, report_metadata, BaseFacts, MetaArgs,
    ObjectMeta, PageFacts, ReportFacts, ReportMetaArgs, SyncType,
};
use crate::mode::{compact_ts, FetchParams, SyncMode};
use crate::paging::PaginationOutcome;
use crate::report::{
    is_report_spec, is_signature, report_name, report_params, report_title, ReportSpec,
};
use crate::run::UnitDone;
use crate::sorted::{pairs, SortedMap};
use crate::text::{numeral, signed_numeral, text_of, texts};
use crate::types::EntityType;

verus! {

/// Units in flight at most. Xero caps each tenant's concurrency at this.
pub const MAX_CONCURRENCY: usize = 6;

/// The number of units in flight that a setting allows: at least one, at most
/// the cap.
pub fn concurrency(max_concurrent: usize) -> (r: usize)
    ensures
        r == limit_for(max_concurrent as int),
{
    if max_concurrent < 1 {
        1
    } else if max_concurrent > MAX_CONCURRENCY {
        MAX_CONCURRENCY
    } else {
        max_concurrent
    }
}

/// Tasks in flight at most where so many are asked for.
pub open spec fn limit_for(max_concurrent: int) -> int {
    if max_concurrent < 1 {
        1
    } else if max_concurrent > MAX_CONCURRENCY {
        MAX_CONCURRENCY as int
    } else {
        max_concurrent
    }
}

/// Units of work: every entity of the first tenant, then of the second, and so on.
pub open spec fn units(tenants: Seq<Seq<char>>, entities: Seq<EntityType>) -> Seq<
    (Seq<char>, EntityType),
>
    decreases tenants.len(),
{
    if tenants.len() == 0 {
        Seq::empty()
    } else {
        units(tenants.drop_last(), entities) + Seq::new(
            entities.len(),
            |i: int| (tenants.last(), entities[i]),
        )
    }
}

/// The value of a list of units.
pub open spec fn unit_values(v: Seq<(String, EntityType)>) -> Seq<(Seq<char>, EntityType)> {
    Seq::new(v.len(), |i: int| (v[i].0@, v[i].1))
}

/// Units of work: every entity of the first tenant, then of the second, and so on.
pub fn work_units(tenants: &Vec<String>, entities: &Vec<EntityType>) -> (r: Vec<
    (String, EntityType),
>)
    ensures
        unit_values(r@) == units(texts(tenants@), entities@),
{
    let ghost names = texts(tenants@);
    let mut r: Vec<(String, EntityType)> = Vec::new();
    let mut t: usize = 0;
    proof {
        assert(unit_values(r@) =~= units(names.take(0), entities@));
    }
    while t < tenants.len()
        invariant
            t <= tenants.len(),
            names == texts(tenants@),
            unit_values(r@) == units(names.take(t as int), entities@),
        decreases tenants.len() - t,
    {
        let ghost done = unit_values(r@);
        let ghost row = Seq::new(entities@.len(), |i: int| (names[t as int], entities@[i]));
        let mut e: usize = 0;
        proof {
            assert(done + row.take(0) =~= done);
        }
        while e < entities.len()
            invariant
                e <= entities.len(),
                t < tenants.len(),
                names == texts(tenants@),
                row == Seq::new(entities@.len(), |i: int| (names[t as int], entities@[i])),
                unit_values(r@) == done + row.take(e as int),
            decreases entities.len() - e,
        {
            let ghost before = unit_values(r@);
            r.push((tenants[t].clone(), entities[e]));
            e += 1;
            proof {
                assert(unit_values(r@) =~= before.push((names[t as int], entities@[e - 1])));
                assert(row.take(e as int) =~= row.take(e - 1).push(row[e - 1]));
                assert(unit_values(r@) =~= done + row.take(e as int));
            }
        }
        t += 1;
        proof {
            assert(row.take(e as int) =~= row);
            assert(names.take(t as int).drop_last() =~= names.take(t - 1));
            assert(names.take(t as int).last() == names[t - 1]);
        }
    }
    proof {
        assert(names.take(t as int) =~= names);
    }
    r
}

/// Which units of a run have been started, and how many of those are running.
#[derive(Debug)]
pub struct Pool {
    total: usize,
    limit: usize,
    next: usize,
    running: usize,
}

/// The mathematical value of a [`Pool`].
pub struct PoolView {
    pub total: nat,
    pub limit: nat,
    /// Units started so far: the first so many of the run.
    pub started: nat,
    /// Units started and not done.
    pub running: nat,
}

impl View for Pool {
    type V = PoolView;

    closed spec fn view(&self) -> PoolView {
        PoolView {
            total: self.total as nat,
            limit: self.limit as nat,
            started: self.next as nat,
            running: self.running as nat,
        }
    }
}

impl PoolView {
    /// What holds of every pool: no more units run than are allowed, and each
    /// that runs has been started.
    pub open spec fn wf(self) -> bool {
        &&& 1 <= self.limit <= MAX_CONCURRENCY
        &&& self.running <= self.limit
        &&& self.running <= self.started <= self.total
    }

    /// Whether a unit can be started now.
    pub open spec fn can_start(self) -> bool {
        self.started < self.total && self.running < self.limit
    }
}

impl Pool {
    #[verifier::type_invariant]
    pub open spec fn inv(self) -> bool {
        self@.wf()
    }

    /// A pool for so many units.
    pub fn new(total: usize, max_concurrent: usize) -> (r: Pool)
        ensures
            r@.total == total,
            r@.limit == limit_for(max_concurrent as int),
            r@.started == 0,
            r@.running == 0,
            r@.wf(),
    {
        let limit: usize = concurrency(max_concurrent);
        Pool { total, limit, next: 0, running: 0 }
    }

    /// Start the next unit, where there is one and the limit allows it. Units are
    /// started in order, each once.
    pub fn start(&mut self) -> (r: Option<usize>)
        ensures
            final(self)@.total == old(self)@.total,
            final(self)@.limit == old(self)@.limit,
            final(self)@.wf(),
            if old(self)@.can_start() {
                &&& r matches Some(n) && n == old(self)@.started
                &&& final(self)@.started == old(self)@.started + 1
                &&& final(self)@.running == old(self)@.running + 1
            } else {
                r is None && final(self)@ == old(self)@
            },
    {
        proof {
            use_type_invariant(&*self);
        }
        if self.next < self.total && self.running < self.limit {
            let unit: usize = self.next;
            let total: usize = self.total;
            let limit: usize = self.limit;
            let running: usize = self.running + 1;
            *self = Pool { total, limit, next: unit + 1, running };
            Some(unit)
        } else {
            None
        }
    }

    /// Count a unit as done.
    pub fn finish(&mut self)
        requires
            old(self)@.running > 0,
        ensures
            final(self)@.total == old(self)@.total,
            final(self)@.limit == old(self)@.limit,
            final(self)@.started == old(self)@.started,
            final(self)@.running == old(self)@.running - 1,
            final(self)@.wf(),
    {
        proof {
            use_type_invariant(&*self);
        }
        self.running = self.running - 1;
    }

    /// Units started and not done.
    pub fn running(&self) -> (r: usize)
        ensures
            r == self@.running,
    {
        self.running
    }
}

/// A run that can start no unit and has none running has started every unit.
pub proof fn idle_pool_is_done(pool: PoolView)
    requires
        pool.wf(),
        !pool.can_start(),
        pool.running == 0,
    ensures
        pool.started == pool.total,
{
}

/// What all runs have in common: where objects go, how windows are sized, and the
/// names of the organisations.
#[derive(Debug)]
pub struct SyncJob {
    gcs: GcsConfig,
    cfg: SyncConfig,
    org_names: SortedMap,
}

impl SyncJob {
    pub closed spec fn destination(self) -> GcsConfig {
        self.gcs
    }

    pub closed spec fn settings(self) -> SyncConfig {
        self.cfg
    }

    pub closed spec fn names(self) -> Map<Seq<char>, Seq<char>> {
        self.org_names@
    }

    pub fn new(gcs: GcsConfig, cfg: SyncConfig, org_names: SortedMap) -> (r: SyncJob)
        ensures
            r.destination() == gcs,
            r.settings() == cfg,
            r.names() == org_names@,
    {
        SyncJob { gcs, cfg, org_names }
    }

    /// Days of the incremental window.
    pub fn window_days(&self) -> (r: i64)
        ensures
            r == self.settings().window_days,
    {
        self.cfg.window_days
    }

    /// A unit of a run that started at one instant, synced at another. A tenant
    /// without a name has an empty one.
    pub fn unit(
        &self,
        tenant: &str,
        entity: &EntityType,
        run_id: u128,
        run_date: Date,
        started_at: &Timestamp,
        synced_at: &Timestamp,
    ) -> (r: UnitRun)
        ensures
            r.prefix@ == self.destination().prefix@,
            r.tenant@ == tenant@,
            r.org_name@ == (if self.names().contains_key(tenant@) {
                self.names()[tenant@]
            } else {
                ""@
            }),
            r.entity == *entity,
            r.run_date == run_date,
            r.ts@ == started_at.compact_text(),
            r.run_id == run_id,
            r.synced_at@ == synced_at.rfc3339_text(),
    {
        let org_name = match self.org_names.get(tenant) {
            Some(name) => name.to_owned(),
            None => "".to_owned(),
        };
        UnitRun {
            prefix: self.gcs.prefix.clone(),
            tenant: tenant.to_owned(),
            org_name,
            entity: *entity,
            run_date,
            ts: compact_ts(*started_at),
            run_id,
            synced_at: synced_at.to_rfc3339(),
        }
    }
}

/// A unit in a run.
#[derive(Debug)]
pub struct UnitRun {
    /// Prefix of the objects' keys.
    pub prefix: String,
    pub tenant: String,
    /// Display name of the tenant's organisation.
    pub org_name: String,
    pub entity: EntityType,
    pub run_date: Date,
    /// Compact timestamp of the run.
    pub ts: String,
    pub run_id: u128,
    pub synced_at: String,
}

/// The run id as keys show it: the first six characters.
pub open spec fn short_id(run_id: u128) -> Seq<char> {
    uuid_hyphenated(run_id).take(6)
}

/// The run id as keys show it: the first six characters.
pub fn run_id_short(run_id: u128) -> (r: String)
    ensures
        r@ == short_id(run_id),
{
    let text = uuid_text(run_id);
    text.as_str().substring_char(0, 6).to_owned()
}

/// An object to upload.
#[derive(Debug)]
pub struct Upload {
    pub key: String,
    pub body: Vec<u8>,
    pub meta: ObjectMeta,
}

/// Whether the bytes are a manifest as indented JSON.
pub open spec fn is_manifest_text(bytes: Seq<u8>, manifest: ManifestView) -> bool {
    exists|j: Json|
        #[trigger] is_manifest(j, manifest) && bytes == encode_utf8(pretty(j, ""@))
}

/// The upload of a run's manifest, as indented JSON.
pub fn manifest_upload(run_date: Date, run_id: u128, manifest: &RunManifest) -> (r: Upload)
    ensures
        r.key@ == manifest_path(run_date, run_id),
        is_manifest_text(r.body@, manifest@),
        r.meta@ == manifest_entries(),
{
    let tree = manifest.to_json();
    let text = tree.to_pretty_text();
    proof {
        assert(is_manifest(tree, manifest@));
    }
    Upload {
        key: manifest_key(run_date, run_id),
        body: text.as_str().as_bytes_vec(),
        meta: manifest_meta(),
    }
}

impl UnitRun {
    /// What the metadata of the unit's objects has in common.
    pub open spec fn facts(self, kind: SyncType, http_status: u16, record_count: i64) -> BaseFacts {
        BaseFacts {
            tenant_id: self.tenant@,
            org_name: self.org_name@,
            endpoint: self.entity.name(),
            sync_type: kind,
            http_status,
            record_count,
            run_id: uuid_hyphenated(self.run_id),
            synced_at: self.synced_at@,
        }
    }

    /// Whether an upload is that of a page.
    pub open spec fn is_page_upload(
        self,
        up: Upload,
        kind: SyncType,
        params: FetchParams,
        page: RawPage,
    ) -> bool {
        &&& up.key@ == page_key(
            self.prefix@,
            self.tenant@,
            self.entity.name(),
            self.run_date,
            self.ts@,
            short_id(self.run_id),
            page.page as nat,
        )
        &&& up.body == page.body
        &&& up.meta@ == page_entries(
            PageFacts {
                base: self.facts(kind, page.http_status, page.record_count as i64),
                page: page.page,
                modified_after: text_of(params.modified_after_str),
                business_from: text_of(params.business_from),
                business_to: text_of(params.business_to),
                where_filter: text_of(params.where_filter),
            },
        )
    }

    /// The upload of a page: its body byte for byte.
    pub fn page_upload(&self, mode: &SyncMode, params: &FetchParams, page: RawPage) -> (r: Upload)
        requires
            page.record_count <= i64::MAX,
        ensures
            self.is_page_upload(r, mode.kind(), *params, page),
    {
        let run_id = uuid_text(self.run_id);
        let short = run_id_short(self.run_id);
        let key = object_key(
            self.prefix.as_str(),
            self.tenant.as_str(),
            self.entity.as_str(),
            self.run_date,
            self.ts.as_str(),
            short.as_str(),
            page.page,
        );
        let meta = metadata(
            &MetaArgs {
                tenant_id: self.tenant.as_str(),
                org_name: self.org_name.as_str(),
                endpoint: self.entity.as_str(),
                sync_type: mode.sync_type(),
                modified_after: as_str(&params.modified_after_str),
                business_from: as_str(&params.business_from),
                business_to: as_str(&params.business_to),
                where_filter: as_str(&params.where_filter),
                page: page.page,
                record_count: page.record_count as i64,
                http_status: page.http_status,
                run_id: run_id.as_str(),
                synced_at: self.synced_at.as_str(),
            },
        );
        Upload { key, body: page.body, meta }
    }

    /// The uploads of all pages, in order.
    pub fn page_uploads(&self, mode: &SyncMode, params: &FetchParams, pages: Vec<RawPage>) -> (r:
        Vec<Upload>)
        requires
            total_count(pages@) <= i64::MAX,
        ensures
            r@.len() == pages@.len(),
            forall|i: int|
                0 <= i < pages@.len() ==> self.is_page_upload(
                    #[trigger] r@[i],
                    mode.kind(),
                    *params,
                    pages@[i],
                ),
    {
        let ghost all = pages@;
        let mut r: Vec<Upload> = Vec::new();
        for page in it: pages
            invariant
                it.seq() == all,
                total_count(all) <= i64::MAX,
                r@.len() == it.index(),
                forall|i: int|
                    0 <= i < it.index() ==> self.is_page_upload(
                        #[trigger] r@[i],
                        mode.kind(),
                        *params,
                        all[i],
                    ),
        {
            proof {
                part_of_total(all, it.index());
            }
            r.push(self.page_upload(mode, params, page));
        }
        r
    }

    /// What a unit whose pages were fetched and uploaded has to tell.
    pub fn fetched(&self, outcome: PaginationOutcome, records: i64) -> (r: UnitDone)
        ensures
            r.pages == outcome.pages_fetched,
            r.records == records,
            r.termination@ == outcome.termination.name(),
    {
        UnitDone {
            pages: outcome.pages_fetched,
            records,
            termination: outcome.termination.as_str().to_owned(),
        }
    }

    /// The day a report is as of: the mode's, or the run date outside the mode
    /// for reports.
    pub open spec fn report_day(self, mode: SyncMode) -> Date {
        match mode {
            SyncMode::Reports { as_of } => as_of,
            _ => self.run_date,
        }
    }

    /// The parameters of the unit's report.
    pub fn report_spec(&self, mode: &SyncMode) -> (r: ReportSpec)
        ensures
            is_report_spec(r, self.entity, self.report_day(*mode)),
    {
        let as_of = match mode {
            SyncMode::Reports { as_of } => *as_of,
            _ => self.run_date,
        };
        report_params(&self.entity, as_of)
    }

    /// The upload of a report: its body byte for byte.
    pub fn report_upload(&self, spec: &ReportSpec, page: RawPage) -> (r: Upload)
        requires
            page.record_count <= i64::MAX,
        ensures
            r.key@ == report_key(
                self.prefix@,
                self.tenant@,
                self.entity.name(),
                self.run_date,
                self.ts@,
                short_id(self.run_id),
                spec.period_key@,
            ),
            r.body == page.body,
            exists|signature: Seq<char>|
                #[trigger] is_signature(signature, pairs(spec.extra@)) && r.meta@ == report_entries(
                    ReportFacts {
                        base: self.facts(
                            SyncType::ReportSnapshot,
                            page.http_status,
                            page.record_count as i64,
                        ),
                        report: report_title(self.entity.path()),
                        report_date: text_of(spec.report_date),
                        report_from: text_of(spec.report_from),
                        report_to: text_of(spec.report_to),
                        report_params: signature,
                    },
                ),
    {
        let run_id = uuid_text(self.run_id);
        let short = run_id_short(self.run_id);
        let key = report_object_key(
            self.prefix.as_str(),
            self.tenant.as_str(),
            self.entity.as_str(),
            self.run_date,
            self.ts.as_str(),
            short.as_str(),
            spec.period_key.as_str(),
        );
        let signature = spec.params_signature();
        let report = report_name(&self.entity);
        let meta = report_metadata(
            &ReportMetaArgs {
                tenant_id: self.tenant.as_str(),
                org_name: self.org_name.as_str(),
                endpoint: self.entity.as_str(),
                report: report.as_str(),
                report_date: as_str(&spec.report_date),
                report_from: as_str(&spec.report_from),
                report_to: as_str(&spec.report_to),
                report_params: signature.as_str(),
                http_status: page.http_status,
                record_count: page.record_count as i64,
                run_id: run_id.as_str(),
                synced_at: self.synced_at.as_str(),
            },
        );
        assert(is_signature(signature@, pairs(spec.extra@)));
        Upload { key, body: page.body, meta }
    }

    /// What a unit whose report was fetched and uploaded has to tell.
    pub fn reported(&self, records: i64) -> (r: UnitDone)
        ensures
            r.pages == 1,
            r.records == records,
            r.termination@ == "report-snapshot"@,
    {
        UnitDone { pages: 1, records, termination: "report-snapshot".to_owned() }
    }
}

fn as_str(s: &Option<String>) -> (r: Option<&str>)
    ensures
        crate::meta::chars_in(r) == text_of(*s),
{
    match s {
        Some(s) => Some(s.as_str()),
        None => None,
    }
}

/// Records on all pages.
pub open spec fn total_count(pages: Seq<RawPage>) -> nat
    decreases pages.len(),
{
    if pages.len() == 0 {
        0
    } else {
        total_count(pages.drop_last()) + pages.last().record_count as nat
    }
}

proof fn part_of_total(pages: Seq<RawPage>, i: int)
    requires
        0 <= i < pages.len(),
    ensures
        pages[i].record_count <= total_count(pages),
    decreases pages.len(),
{
    if i < pages.len() - 1 {
        part_of_total(pages.drop_last(), i);
    }
}

proof fn total_grows(pages: Seq<RawPage>, n: int)
    requires
        0 <= n <= pages.len(),
    ensures
        total_count(pages.take(n)) <= total_count(pages),
    decreases pages.len() - n,
{
    if n < pages.len() {
        assert(pages.take(n + 1).drop_last() =~= pages.take(n));
        total_grows(pages, n + 1);
    } else {
        assert(pages.take(n) =~= pages);
    }
}

/// Records on all pages, unless they are more than 63 bits can count.
pub fn total_records(pages: &Vec<RawPage>) -> (r: Option<i64>)
    ensures
        match r {
            Some(n) => n == total_count(pages@),
            None => total_count(pages@) > i64::MAX,
        },
{
    let mut total: i64 = 0;
    let mut i: usize = 0;
    while i < pages.len()
        invariant
            i <= pages.len(),
            0 <= total,
            total == total_count(pages@.take(i as int)),
        decreases pages.len() - i,
    {
        proof {
            assert(pages@.take(i + 1).drop_last() =~= pages@.take(i as int));
            assert(pages@.take(i + 1).last() == pages@[i as int]);
            total_grows(pages@, i + 1);
        }
        if pages[i].record_count as u64 > (i64::MAX - total) as u64 {
            return None;
        }
        total = total + pages[i].record_count as i64;
        i += 1;
    }
    proof {
        assert(pages@.take(i as int) =~= pages@);
    }
    Some(total)
}

/// The manifest of a run.
pub fn run_manifest(
    run_id: u128,
    started_at: Timestamp,
    finished_at: Timestamp,
    mode: &SyncMode,
    outcomes: Vec<EntityOutcome>,
) -> (r: RunManifest)
    ensures
        r.run_id@ == uuid_hyphenated(run_id),
        r.started_at@ == started_at.rfc3339_text(),
        r.finished_at@ == finished_at.rfc3339_text(),
        r.mode@ == mode.kind().name(),
        match r.window_days {
            Some(n) => mode.days() == Some(n as int),
            None => mode.days() is None,
        },
        r.entities == outcomes,
{
    RunManifest {
        run_id: uuid_text(run_id),
        started_at: started_at.to_rfc3339(),
        finished_at: finished_at.to_rfc3339(),
        mode: mode.label().to_owned(),
        window_days: mode.window_days(),
        entities: outcomes,
    }
}

/// Whether a manifest is that of a run in chunks with one chunk more.
pub open spec fn is_merged(r: RunManifest, acc: RunManifest, chunk: RunManifest) -> bool {
    &&& r.run_id == acc.run_id
    &&& r.started_at == acc.started_at
    &&& r.finished_at == chunk.finished_at
    &&& r.mode == acc.mode
    &&& r.window_days == acc.window_days
    &&& r.entities@ == acc.entities@ + chunk.entities@
}

/// The manifest of a run in chunks: as the first chunk's, but with the end of the
/// last and the outcomes of all.
pub fn merge_manifest(merged: Option<RunManifest>, chunk: RunManifest) -> (r: RunManifest)
    ensures
        match merged {
            None => r == chunk,
            Some(acc) => is_merged(r, acc, chunk),
        },
{
    match merged {
        None => chunk,
        Some(acc) => {
            let mut entities = acc.entities;
            let mut more = chunk.entities;
            entities.append(&mut more);
            RunManifest {
                run_id: acc.run_id,
                started_at: acc.started_at,
                finished_at: chunk.finished_at,
                mode: acc.mode,
                window_days: acc.window_days,
                entities,
            }
        },
    }
}

/// Number of outcomes with an error.
pub open spec fn failures(v: Seq<EntityOutcome>) -> nat
    decreases v.len(),
{
    if v.len() == 0 {
        0
    } else {
        failures(v.drop_last()) + (if v.last().error is Some {
            1nat
        } else {
            0
        })
    }
}

/// Number of outcomes with an error.
pub fn count_failures(v: &Vec<EntityOutcome>) -> (r: usize)
    ensures
        r == failures(v@),
{
    let mut n: usize = 0;
    let mut i: usize = 0;
    while i < v.len()
        invariant
            n <= i <= v.len(),
            n == failures(v@.take(i as int)),
        decreases v.len() - i,
    {
        proof {
            assert(v@.take(i + 1).drop_last() =~= v@.take(i as int));
            assert(v@.take(i + 1).last() == v@[i as int]);
        }
        if v[i].error.is_some() {
            n += 1;
        }
        i += 1;
    }
    proof {
        assert(v@.take(i as int) =~= v@);
    }
    n
}

/// Every tenant is synced with every entity, and with no entity twice over: a run
/// has as many units as there are pairs of them, in order of the tenants.
pub proof fn units_are_all_pairs(tenants: Seq<Seq<char>>, entities: Seq<EntityType>, t: int, e: int)
    requires
        0 <= t < tenants.len(),
        0 <= e < entities.len(),
    ensures
        units(tenants, entities).len() == tenants.len() * entities.len(),
        0 <= t * entities.len() + e < units(tenants, entities).len(),
        units(tenants, entities)[t * entities.len() + e] == (tenants[t], entities[e]),
    decreases tenants.len(),
{
    let n = entities.len() as int;
    let front = tenants.drop_last();
    unit_count(front, entities);
    unit_count(tenants, entities);
    assert(front.len() * n + n == tenants.len() * n) by (nonlinear_arith)
        requires
            front.len() == tenants.len() - 1,
    ;
    if t < front.len() {
        units_are_all_pairs(front, entities, t, e);
    } else {
        assert(t * n + e >= front.len() * n);
    }
    assert(t * n + e < tenants.len() * n) by (nonlinear_arith)
        requires
            0 <= t < tenants.len(),
            0 <= e < n,
    ;
    assert(0 <= t * n + e) by (nonlinear_arith)
        requires
            0 <= t,
            0 <= e < n,
    ;
}

proof fn unit_count(tenants: Seq<Seq<char>>, entities: Seq<EntityType>)
    ensures
        units(tenants, entities).len() == tenants.len() * entities.len(),
    decreases tenants.len(),
{
    if tenants.len() > 0 {
        unit_count(tenants.drop_last(), entities);
        assert((tenants.len() - 1) * entities.len() + entities.len() == tenants.len()
            * entities.len()) by (nonlinear_arith);
    }
}

/// At least one task runs at a time and at most six, and as many as are asked for in
/// between.
pub proof fn limits_are_held_to_six(n: int)
    ensures
        1 <= limit_for(n) <= 6,
        1 <= n <= 6 ==> limit_for(n) == n,
        n < 1 ==> limit_for(n) == 1,
        n > 6 ==> limit_for(n) == 6,
{
}

/// A unit can be started if and only if one is left and fewer run than may.
pub proof fn pools_start_what_they_may(pool: PoolView)
    requires
        pool.wf(),
    ensures
        pool.can_start() <==> pool.started != pool.total && pool.running != pool.limit,
        pool.started == 0 && pool.total > 0 ==> pool.can_start(),
        pool.running <= 6,
{
}

/// A page is stored byte for byte, under a key of its own, and its metadata tells tenant,
/// endpoint, sync type, page, number of records and the window and filter that it was
/// fetched with.
pub proof fn page_uploads_tell_their_window(
    unit: UnitRun,
    up: Upload,
    kind: SyncType,
    params: FetchParams,
    page: RawPage,
)
    requires
        unit.is_page_upload(up, kind, params, page),
        page.record_count <= i64::MAX,
    ensures
        up.body@ == page.body@,
        entry(up.meta@, "x-business-from"@) == text_of(params.business_from),
        entry(up.meta@, "x-business-to"@) == text_of(params.business_to),
        entry(up.meta@, "x-modified-after"@) == text_of(params.modified_after_str),
        entry(up.meta@, "x-where"@) == text_of(params.where_filter),
        up.meta@["x-tenant-id"@] == unit.tenant@,
        up.meta@["x-org-name"@] == unit.org_name@,
        up.meta@["x-endpoint"@] == unit.entity.name(),
        up.meta@["x-sync-type"@] == kind.name(),
        up.meta@["x-page"@] == numeral(page.page as nat),
        up.meta@["x-record-count"@] == signed_numeral(page.record_count as int),
        up.meta@["x-http-status"@] == numeral(page.http_status as nat),
        up.meta@["x-run-id"@] == uuid_hyphenated(unit.run_id),
{
    let facts = PageFacts {
        base: unit.facts(kind, page.http_status, page.record_count as i64),
        page: page.page,
        modified_after: text_of(params.modified_after_str),
        business_from: text_of(params.business_from),
        business_to: text_of(params.business_to),
        where_filter: text_of(params.where_filter),
    };
    let report = ReportFacts {
        base: facts.base,
        report: ""@,
        report_date: None,
        report_from: None,
        report_to: None,
        report_params: ""@,
    };
    metadata_identifies_object(facts, report);
    metadata_shows_the_fetch(facts, report);
    metadata_shows_the_window(facts, report);
}

/// Reports are as of the mode's day where the mode is for reports, else of the day of the
/// run.
pub proof fn reports_are_of_the_modes_day(unit: UnitRun, mode: SyncMode, day: Date)
    ensures
        mode == (SyncMode::Reports { as_of: day }) ==> unit.report_day(mode) == day,
        !(mode is Reports) ==> unit.report_day(mode) == unit.run_date,
{
}

/// The records of two lists of pages are those of the one and those of the other; there are
/// none if and only if every page is empty.
pub proof fn record_counts_add_up(a: Seq<RawPage>, b: Seq<RawPage>)
    ensures
        total_count(a + b) == total_count(a) + total_count(b),
        total_count(b) == 0 <==> forall|i: int|
            0 <= i < b.len() ==> (#[trigger] b[i]).record_count == 0,
        b.len() == 1 ==> total_count(b) == b[0].record_count,
    decreases b.len(),
{
    if b.len() == 0 {
        assert(a + b =~= a);
    } else {
        let front = b.drop_last();
        record_counts_add_up(a, front);
        assert((a + b).drop_last() =~= a + front);
        assert((a + b).last() == b.last());
        if total_count(b) == 0 {
            assert forall|i: int| 0 <= i < b.len() implies (#[trigger] b[i]).record_count == 0 by {
                if i < front.len() {
                    assert(front[i] == b[i]);
                }
            }
        }
        if forall|i: int| 0 <= i < b.len() ==> (#[trigger] b[i]).record_count == 0 {
            assert(b[b.len() - 1].record_count == 0);
            assert forall|i: int| 0 <= i < front.len() implies (#[trigger] front[i]).record_count
                == 0 by {
                assert(front[i] == b[i]);
            }
        }
        if b.len() == 1 {
            assert(total_count(front) == 0);
        }
    }
}

/// The failures of two lists of outcomes are those of the one and those of the other; there
/// are none if and only if no outcome has an error.
pub proof fn failures_add_up(a: Seq<EntityOutcome>, b: Seq<EntityOutcome>)
    ensures
        failures(a + b) == failures(a) + failures(b),
        failures(b) <= b.len(),
        failures(b) == 0 <==> forall|i: int| 0 <= i < b.len() ==> (#[trigger] b[i]).error is None,
        failures(b) == b.len() <==> forall|i: int|
            0 <= i < b.len() ==> (#[trigger] b[i]).error is Some,
    decreases b.len(),
{
    if b.len() == 0 {
        assert(a + b =~= a);
    } else {
        let front = b.drop_last();
        failures_add_up(a, front);
        assert((a + b).drop_last() =~= a + front);
        assert((a + b).last() == b.last());
        assert(b[b.len() - 1] == b.last());
        assert forall|i: int| 0 <= i < front.len() implies #[trigger] front[i] == b[i] by {}
        if failures(b) == 0 {
            assert forall|i: int| 0 <= i < b.len() implies (#[trigger] b[i]).error is None by {
                if i < front.len() {
                    assert(front[i].error is None);
                }
            }
        }
        if forall|i: int| 0 <= i < b.len() ==> (#[trigger] b[i]).error is None {
            assert forall|i: int| 0 <= i < front.len() implies (#[trigger] front[i]).error is None by {
                assert(b[i].error is None);
            }
        }
        if failures(b) == b.len() {
            assert forall|i: int| 0 <= i < b.len() implies (#[trigger] b[i]).error is Some by {
                if i < front.len() {
                    assert(front[i].error is Some);
                }
            }
        }
        if forall|i: int| 0 <= i < b.len() ==> (#[trigger] b[i]).error is Some {
            assert forall|i: int| 0 <= i < front.len() implies (#[trigger] front[i]).error is Some by {
                assert(b[i].error is Some);
            }
        }
    }
}

/// A manifest of chunks loses no outcome: those of the chunks before come first and those of
/// the chunk after them, and the failures of both are counted. It starts with the first chunk
/// and ends with the last.
pub proof fn merged_manifests_keep_all_outcomes(
    r: RunManifest,
    acc: RunManifest,
    chunk: RunManifest,
)
    requires
        is_merged(r, acc, chunk),
    ensures
        r.entities@.len() == acc.entities@.len() + chunk.entities@.len(),
        acc.entities@.is_prefix_of(r.entities@),
        chunk.entities@.is_suffix_of(r.entities@),
        failures(r.entities@) == failures(acc.entities@) + failures(chunk.entities@),
        r.run_id@ == acc.run_id@ && r.mode@ == acc.mode@,
        r.started_at@ == acc.started_at@ && r.finished_at@ == chunk.finished_at@,
        r.window_days == acc.window_days,
{
    failures_add_up(acc.entities@, chunk.entities@);
    let all = r.entities@;
    let n = acc.entities@.len() as int;
    assert(all.subrange(0, n) =~= acc.entities@);
    assert(all.subrange(all.len() - chunk.entities@.len(), all.len() as int) =~= chunk.entities@);
}

} // verus!
