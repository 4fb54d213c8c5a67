//! What the HTTP service and its background workers decide: how a request is
//! answered, which runs it starts, and when a schedule fires.
//!
//! Each handler that alternates between outside work and decisions is cut into
//! steps. A step takes what the outside work gave and says what comes next.

use std::str::FromStr;

use vstd::prelude::*;

use crate::backfill::{BackfillChunk, BackfillPlan, NewBackfillPlan};
use crate::calendar::{is_instant, Date, Timestamp};
use crate::error::{Error, ErrorView};
use crate::json::{first_member, is_object, is_part, objects_have_their_parts, text_in, Json, Part};
use crate::manifest::{parse_uuid, reads_hyphenated, uuid_hyphenated, uuid_text, uuid_value};
use crate::store::{NewSyncSchedule, SyncRun, SyncSchedule};
use crate::text::{same, texts, trim, trimmed};
use crate::types::{entity_name_is_injective, EntityType};

verus! {

/// A reply of the service.
#[derive(Debug)]
pub struct Reply {
    pub status: u16,
    pub body: Json,
}

/// Whether a reply is an error with the given text.
pub open spec fn is_error(r: Reply, status: int, text: Seq<char>) -> bool {
    r.status == status && is_object(r.body, seq![("error"@, Part::Text(text))])
}

/// A reply with an error.
pub fn error_reply(status: u16, text: &str) -> (r: Reply)
    ensures
        is_error(r, status as int, text@),
{
    let mut entries: Vec<(String, Json)> = Vec::new();
    entries.push(("error".to_owned(), Json::Text(text.to_owned())));
    Reply { status, body: Json::Object(entries) }
}

/// The reply where a token could not be had.
pub fn no_token_reply(text: &str) -> (r: Reply)
    ensures
        is_error(r, 502, text@),
{
    error_reply(502, text)
}

/// The reply where the store failed.
pub fn store_failed_reply(text: &str) -> (r: Reply)
    ensures
        is_error(r, 500, text@),
{
    error_reply(500, text)
}

/// The reply to a health check.
pub fn health_reply() -> (r: Reply)
    ensures
        r.status == 200,
        is_object(
            r.body,
            seq![("service"@, Part::Text("xero_service_v2"@)), ("status"@, Part::Text("ok"@))],
        ),
{
    let mut entries: Vec<(String, Json)> = Vec::new();
    entries.push(("service".to_owned(), Json::Text("xero_service_v2".to_owned())));
    entries.push(("status".to_owned(), Json::Text("ok".to_owned())));
    Reply { status: 200, body: Json::Object(entries) }
}

/// The reply to a readiness check, given how the database answered.
pub fn ready_reply(database: Result<(), String>) -> (r: Reply)
    ensures
        match database {
            Ok(_) => r.status == 200 && is_object(
                r.body,
                seq![("postgres"@, Part::Text("up"@)), ("status"@, Part::Text("ok"@))],
            ),
            Err(m) => r.status == 503 && is_object(
                r.body,
                seq![("postgres"@, Part::Text(m@)), ("status"@, Part::Text("error"@))],
            ),
        },
{
    let mut entries: Vec<(String, Json)> = Vec::new();
    match database {
        Ok(_) => {
            entries.push(("postgres".to_owned(), Json::Text("up".to_owned())));
            entries.push(("status".to_owned(), Json::Text("ok".to_owned())));
            Reply { status: 200, body: Json::Object(entries) }
        },
        Err(m) => {
            entries.push(("postgres".to_owned(), Json::Text(m)));
            entries.push(("status".to_owned(), Json::Text("error".to_owned())));
            Reply { status: 503, body: Json::Object(entries) }
        },
    }
}

// Runs

/// The options of a run.
#[derive(Debug)]
pub struct RunOptions {
    pub modified_after: Option<Timestamp>,
    pub modified_before: Option<Timestamp>,
    pub business_date_after: Option<Date>,
    pub business_date_before: Option<Date>,
    pub trigger_id: Option<u128>,
    pub job_type: String,
    pub triggered_by: String,
    /// Whether a run over business dates moves the incremental watermark.
    pub advance_watermark: bool,
}

/// The window that a request asks for.
#[derive(Debug, Clone, Copy)]
pub struct RunWindow {
    pub modified_after: Option<Timestamp>,
    pub modified_before: Option<Timestamp>,
    pub business_date_after: Option<Date>,
    pub business_date_before: Option<Date>,
    pub advance_watermark: bool,
}

impl RunWindow {
    /// No window.
    pub fn open() -> (r: RunWindow)
        ensures
            r.modified_after is None && r.modified_before is None,
            r.business_date_after is None && r.business_date_before is None,
            !r.advance_watermark,
    {
        RunWindow {
            modified_after: None,
            modified_before: None,
            business_date_after: None,
            business_date_before: None,
            advance_watermark: false,
        }
    }
}

/// Whether the options have the given window, trigger and labels.
pub open spec fn is_run(
    o: RunOptions,
    window: RunWindow,
    trigger_id: u128,
    job_type: Seq<char>,
    triggered_by: Seq<char>,
) -> bool {
    &&& o.modified_after == window.modified_after
    &&& o.modified_before == window.modified_before
    &&& o.business_date_after == window.business_date_after
    &&& o.business_date_before == window.business_date_before
    &&& o.advance_watermark == window.advance_watermark
    &&& o.trigger_id == Some(trigger_id)
    &&& o.job_type@ == job_type
    &&& o.triggered_by@ == triggered_by
}

fn run_options(window: &RunWindow, trigger_id: u128, job_type: &str, triggered_by: &str) -> (r:
    RunOptions)
    ensures
        is_run(r, *window, trigger_id, job_type@, triggered_by@),
{
    RunOptions {
        modified_after: window.modified_after,
        modified_before: window.modified_before,
        business_date_after: window.business_date_after,
        business_date_before: window.business_date_before,
        trigger_id: Some(trigger_id),
        job_type: job_type.to_owned(),
        triggered_by: triggered_by.to_owned(),
        advance_watermark: window.advance_watermark,
    }
}

/// A text or its default.
pub open spec fn text_or(s: Option<String>, default: Seq<char>) -> Seq<char> {
    match s {
        Some(t) => t@,
        None => default,
    }
}

fn str_or<'a>(s: &'a Option<String>, default: &'a str) -> (r: &'a str)
    ensures
        r@ == text_or(*s, default@),
{
    match s {
        Some(t) => t.as_str(),
        None => default,
    }
}

/// A request for one or more runs.
#[derive(Debug)]
pub struct SyncRequest {
    pub window: RunWindow,
    pub job_type: Option<String>,
    pub triggered_by: Option<String>,
}

/// The options of a run that was asked for by itself.
pub fn sync_options(request: &SyncRequest, trigger_id: u128) -> (r: RunOptions)
    ensures
        is_run(
            r,
            request.window,
            trigger_id,
            text_or(request.job_type, "manual"@),
            text_or(request.triggered_by, "manual-api"@),
        ),
{
    run_options(
        &request.window,
        trigger_id,
        str_or(&request.job_type, "manual"),
        str_or(&request.triggered_by, "manual-api"),
    )
}

/// The options of each run of a schedule that fired: incremental.
pub fn cron_options(schedule_id: u128, trigger_id: u128) -> (r: RunOptions)
    ensures
        exists|open: RunWindow|
            {
                &&& #[trigger] is_run(
                    r,
                    open,
                    trigger_id,
                    "cron"@,
                    "cron:"@ + uuid_hyphenated(schedule_id),
                )
                &&& open.modified_after is None && open.modified_before is None
                &&& open.business_date_after is None && open.business_date_before is None
                &&& !open.advance_watermark
            },
{
    let by = "cron:".to_owned().concat(uuid_text(schedule_id).as_str());
    let open = RunWindow::open();
    let r = run_options(&open, trigger_id, "cron", by.as_str());
    assert(is_run(r, open, trigger_id, "cron"@, "cron:"@ + uuid_hyphenated(schedule_id)));
    r
}

/// Whether the options are those of a chunk's run.
pub open spec fn is_chunk_run(o: RunOptions, chunk: BackfillChunk) -> bool {
    &&& o.modified_after is None && o.modified_before is None
    &&& o.business_date_after == Some(chunk.window_start)
    &&& o.business_date_before == Some(chunk.window_end)
    &&& o.trigger_id == Some(chunk.plan_id)
    &&& o.job_type@ == "backfill_chunk"@
    &&& o.triggered_by@ == "backfill:"@ + uuid_hyphenated(chunk.plan_id)
    &&& o.advance_watermark == chunk.advance_watermark
}

/// The options of a chunk's run: its window of business dates. The watermark moves only
/// where the plan was asked to move it.
pub fn chunk_options(chunk: &BackfillChunk) -> (r: RunOptions)
    ensures
        is_chunk_run(r, *chunk),
{
    let by = "backfill:".to_owned().concat(uuid_text(chunk.plan_id).as_str());
    let window = RunWindow {
        modified_after: None,
        modified_before: None,
        business_date_after: Some(chunk.window_start),
        business_date_before: Some(chunk.window_end),
        advance_watermark: chunk.advance_watermark,
    };
    run_options(&window, chunk.plan_id, "backfill_chunk", by.as_str())
}

/// Whether the entities are those with the given keys.
pub open spec fn are_entities(v: Seq<EntityType>, names: Seq<Seq<char>>) -> bool {
    &&& v.len() == names.len()
    &&& forall|i: int| 0 <= i < v.len() ==> (#[trigger] v[i]).name() == names[i]
}

/// Whether a key is that of an entity.
pub open spec fn is_entity_name(name: Seq<char>) -> bool {
    exists|e: EntityType| #[trigger] e.name() == name
}

/// Whether the first key that is no entity's is the `i`-th.
pub open spec fn first_unknown(names: Seq<Seq<char>>, i: int) -> bool {
    &&& 0 <= i < names.len()
    &&& !is_entity_name(names[i])
    &&& forall|k: int| 0 <= k < i ==> is_entity_name(#[trigger] names[k])
}

/// The entities with the given keys; the first unknown one fails.
pub fn parse_entities(raw_entities: &[String]) -> (r: Result<Vec<EntityType>, Error>)
    ensures
        match r {
            Ok(v) => are_entities(v@, texts(raw_entities@)),
            Err(e) => exists|i: int|
                #[trigger] first_unknown(texts(raw_entities@), i) && e@ == ErrorView::Config(
                    "unknown entity: "@ + texts(raw_entities@)[i],
                ),
        },
{
    let ghost names = texts(raw_entities@);
    let mut v: Vec<EntityType> = Vec::new();
    let mut i: usize = 0;
    while i < raw_entities.len()
        invariant
            i <= raw_entities.len(),
            names == texts(raw_entities@),
            are_entities(v@, names.take(i as int)),
            forall|k: int| 0 <= k < i ==> is_entity_name(#[trigger] names[k]),
        decreases raw_entities.len() - i,
    {
        match EntityType::from_str(raw_entities[i].as_str()) {
            Ok(e) => {
                assert(e.name() == names[i as int]);
                v.push(e);
            },
            Err(e) => {
                assert(names[i as int] == raw_entities@[i as int]@);
                assert(first_unknown(names, i as int));
                return Err(e);
            },
        }
        i += 1;
        proof {
            assert(names.take(i as int) =~= names.take(i - 1).push(names[i - 1]));
        }
    }
    proof {
        assert(names.take(i as int) =~= names);
    }
    Ok(v)
}

/// The entity in the path of a request.
pub fn path_entity(name: &str) -> (r: Result<EntityType, Reply>)
    ensures
        match r {
            Ok(e) => e.name() == name@,
            Err(reply) => !is_entity_name(name@) && is_error(
                reply,
                400,
                "unknown entity: "@ + ErrorView::Config("unknown entity: "@ + name@).message(),
            ),
        },
{
    match EntityType::from_str(name) {
        Ok(e) => Ok(e),
        Err(e) => Err(
            error_reply(400, "unknown entity: ".to_owned().concat(e.message().as_str()).as_str()),
        ),
    }
}

/// Whether a reply refuses a list of entities.
pub open spec fn refuses_entities(reply: Reply, names: Seq<Seq<char>>) -> bool {
    if names.len() == 0 {
        is_error(reply, 400, "entities must not be empty"@)
    } else {
        exists|i: int|
            #[trigger] first_unknown(names, i) && is_error(
                reply,
                400,
                ErrorView::Config("unknown entity: "@ + names[i]).message(),
            )
    }
}

/// The entities that a request names: at least one, and all known.
pub fn request_entities(raw_entities: &Vec<String>) -> (r: Result<Vec<EntityType>, Reply>)
    ensures
        match r {
            Ok(v) => raw_entities@.len() > 0 && are_entities(v@, texts(raw_entities@)),
            Err(reply) => refuses_entities(reply, texts(raw_entities@)),
        },
{
    if raw_entities.len() == 0 {
        return Err(error_reply(400, "entities must not be empty"));
    }
    match parse_entities(raw_entities.as_slice()) {
        Ok(v) => Ok(v),
        Err(e) => Err(error_reply(400, e.message().as_str())),
    }
}

/// The entities of a schedule that is triggered: all known, but maybe none.
pub fn schedule_entities(schedule: &SyncSchedule) -> (r: Result<Vec<EntityType>, Reply>)
    ensures
        match r {
            Ok(v) => are_entities(v@, texts(schedule.entities@)),
            Err(reply) => exists|i: int|
                #[trigger] first_unknown(texts(schedule.entities@), i) && is_error(
                    reply,
                    400,
                    ErrorView::Config("unknown entity: "@ + texts(schedule.entities@)[i]).message(),
                ),
        },
{
    match parse_entities(schedule.entities.as_slice()) {
        Ok(v) => Ok(v),
        Err(e) => Err(error_reply(400, e.message().as_str())),
    }
}

/// Whether a JSON value is the outcome of one entity's run in the reply to a batch.
pub open spec fn is_outcome(j: Json, entity: EntityType, result: Result<u128, String>) -> bool {
    match result {
        Ok(id) => is_object(
            j,
            seq![
                ("entity"@, Part::Text(entity.name())),
                ("run_id"@, Part::Text(uuid_hyphenated(id))),
                ("status"@, Part::Text("ok"@)),
            ],
        ),
        Err(m) => is_object(
            j,
            seq![
                ("entity"@, Part::Text(entity.name())),
                ("error"@, Part::Text(m@)),
                ("status"@, Part::Text("error"@)),
            ],
        ),
    }
}

/// The outcome of one entity's run in the reply to a batch.
pub fn run_result(entity: &EntityType, result: Result<u128, String>) -> (r: Json)
    ensures
        is_outcome(r, *entity, result),
{
    let mut entries: Vec<(String, Json)> = Vec::new();
    entries.push(("entity".to_owned(), Json::Text(entity.as_str().to_owned())));
    match result {
        Ok(id) => {
            entries.push(("run_id".to_owned(), Json::Text(uuid_text(id))));
            entries.push(("status".to_owned(), Json::Text("ok".to_owned())));
        },
        Err(m) => {
            entries.push(("error".to_owned(), Json::Text(m)));
            entries.push(("status".to_owned(), Json::Text("error".to_owned())));
        },
    }
    Json::Object(entries)
}

/// The reply to a request for one run.
pub fn sync_reply(trigger_id: u128, result: Result<u128, String>) -> (r: Reply)
    ensures
        match result {
            Ok(id) => r.status == 200 && is_object(
                r.body,
                seq![
                    ("run_id"@, Part::Text(uuid_hyphenated(id))),
                    ("status"@, Part::Text("ok"@)),
                    ("trigger_id"@, Part::Text(uuid_hyphenated(trigger_id))),
                ],
            ),
            Err(m) => is_error(r, 500, m@),
        },
{
    match result {
        Ok(id) => {
            let mut entries: Vec<(String, Json)> = Vec::new();
            entries.push(("run_id".to_owned(), Json::Text(uuid_text(id))));
            entries.push(("status".to_owned(), Json::Text("ok".to_owned())));
            entries.push(("trigger_id".to_owned(), Json::Text(uuid_text(trigger_id))));
            Reply { status: 200, body: Json::Object(entries) }
        },
        Err(m) => error_reply(500, m.as_str()),
    }
}

/// Whether `body` is the reply to a batch: its trigger and the outcome of each run.
pub open spec fn is_batch_body(
    body: Json,
    schedule_id: Option<u128>,
    trigger_id: u128,
    results: Seq<Json>,
) -> bool {
    let n: int = if schedule_id is Some {
        1
    } else {
        0
    };
    &&& body matches Json::Object(entries)
    &&& entries@.len() == 3 + n
    &&& entries@[0].0@ == "results"@ && entries@[0].1.items() == Some(results)
    &&& schedule_id matches Some(id) ==> entries@[1].0@ == "schedule_id"@ && is_part(
        entries@[1].1,
        Part::Text(uuid_hyphenated(id)),
    )
    &&& entries@[1 + n].0@ == "status"@ && is_part(entries@[1 + n].1, Part::Text("ok"@))
    &&& entries@[2 + n].0@ == "trigger_id"@ && is_part(
        entries@[2 + n].1,
        Part::Text(uuid_hyphenated(trigger_id)),
    )
}

/// The reply to a batch of runs, or to a schedule that was triggered by hand.
pub fn batch_reply(schedule_id: Option<u128>, trigger_id: u128, results: Vec<Json>) -> (r: Reply)
    ensures
        r.status == 200,
        is_batch_body(r.body, schedule_id, trigger_id, results@),
{
    let mut entries: Vec<(String, Json)> = Vec::new();
    entries.push(("results".to_owned(), Json::Array(results)));
    if let Some(id) = schedule_id {
        entries.push(("schedule_id".to_owned(), Json::Text(uuid_text(id))));
    }
    entries.push(("status".to_owned(), Json::Text("ok".to_owned())));
    entries.push(("trigger_id".to_owned(), Json::Text(uuid_text(trigger_id))));
    Reply { status: 200, body: Json::Object(entries) }
}

/// A batch of runs, one entity after the other. A run that fails does not keep the
/// next from being started.
#[derive(Debug)]
pub struct BatchRun {
    schedule_id: Option<u128>,
    trigger_id: u128,
    window: RunWindow,
    job_type: String,
    triggered_by: String,
    entities: Vec<EntityType>,
    results: Vec<Json>,
}

impl BatchRun {
    /// The schedule that was triggered, where it is one.
    pub closed spec fn schedule(self) -> Option<u128> {
        self.schedule_id
    }

    pub closed spec fn trigger(self) -> u128 {
        self.trigger_id
    }

    /// The entities to run, in order.
    pub closed spec fn wanted(self) -> Seq<EntityType> {
        self.entities@
    }

    /// The outcomes of the runs that were made, in order.
    pub closed spec fn outcomes(self) -> Seq<Json> {
        self.results@
    }

    /// Whether the options are those of each run of the batch.
    pub closed spec fn runs_with(self, o: RunOptions) -> bool {
        is_run(o, self.window, self.trigger_id, self.job_type@, self.triggered_by@)
    }

    /// The runs that a request for a batch asks for.
    pub fn requested(request: &SyncRequest, entities: Vec<EntityType>, trigger_id: u128) -> (r:
        BatchRun)
        ensures
            r.schedule() is None,
            r.trigger() == trigger_id,
            r.wanted() == entities@,
            r.outcomes().len() == 0,
            forall|o: RunOptions| #[trigger]
                r.runs_with(o) == is_run(
                    o,
                    request.window,
                    trigger_id,
                    text_or(request.job_type, "backfill"@),
                    text_or(request.triggered_by, "manual-batch"@),
                ),
    {
        BatchRun {
            schedule_id: None,
            trigger_id,
            window: request.window,
            job_type: str_or(&request.job_type, "backfill").to_owned(),
            triggered_by: str_or(&request.triggered_by, "manual-batch").to_owned(),
            entities,
            results: Vec::new(),
        }
    }

    /// The runs of a schedule that is triggered by hand.
    pub fn triggered(
        schedule_id: u128,
        window: &RunWindow,
        entities: Vec<EntityType>,
        trigger_id: u128,
    ) -> (r: BatchRun)
        ensures
            r.schedule() == Some(schedule_id),
            r.trigger() == trigger_id,
            r.wanted() == entities@,
            r.outcomes().len() == 0,
            forall|o: RunOptions| #[trigger]
                r.runs_with(o) == is_run(o, *window, trigger_id, "scheduled"@, "manual-trigger"@),
    {
        BatchRun {
            schedule_id: Some(schedule_id),
            trigger_id,
            window: *window,
            job_type: "scheduled".to_owned(),
            triggered_by: "manual-trigger".to_owned(),
            entities,
            results: Vec::new(),
        }
    }

    /// The next run to make, until there was one for each entity.
    pub fn next(&self) -> (r: Option<(EntityType, RunOptions)>)
        ensures
            match r {
                Some((e, o)) => {
                    &&& self.outcomes().len() < self.wanted().len()
                    &&& e == self.wanted()[self.outcomes().len() as int]
                    &&& self.runs_with(o)
                },
                None => self.outcomes().len() >= self.wanted().len(),
            },
    {
        if self.results.len() < self.entities.len() {
            let options = run_options(
                &self.window,
                self.trigger_id,
                self.job_type.as_str(),
                self.triggered_by.as_str(),
            );
            Some((self.entities[self.results.len()], options))
        } else {
            None
        }
    }

    /// Take down how the next run went.
    pub fn done(&mut self, result: Result<u128, String>)
        requires
            old(self).outcomes().len() < old(self).wanted().len(),
        ensures
            final(self).schedule() == old(self).schedule(),
            final(self).trigger() == old(self).trigger(),
            final(self).wanted() == old(self).wanted(),
            forall|o: RunOptions| #[trigger] final(self).runs_with(o) == old(self).runs_with(o),
            final(self).outcomes().len() == old(self).outcomes().len() + 1,
            final(self).outcomes().drop_last() == old(self).outcomes(),
            is_outcome(
                final(self).outcomes().last(),
                old(self).wanted()[old(self).outcomes().len() as int],
                result,
            ),
    {
        let outcome = run_result(&self.entities[self.results.len()], result);
        self.results.push(outcome);
        proof {
            assert(self.results@.drop_last() =~= old(self).results@);
        }
    }

    /// The reply to the batch: the outcome of each run.
    pub fn reply(self) -> (r: Reply)
        ensures
            r.status == 200,
            is_batch_body(r.body, self.schedule(), self.trigger(), self.outcomes()),
    {
        batch_reply(self.schedule_id, self.trigger_id, self.results)
    }
}

/// The entities that a schedule runs when it fires: those it names that are known, in
/// order. A name that is unknown is passed over.
pub fn firing_entities(schedule: &SyncSchedule) -> (r: Vec<EntityType>)
    ensures
        are_entities(
            r@,
            texts(schedule.entities@).filter(|name: Seq<char>| is_entity_name(name)),
        ),
{
    let ghost names = texts(schedule.entities@);
    let ghost known = |name: Seq<char>| is_entity_name(name);
    let mut v: Vec<EntityType> = Vec::new();
    let mut i: usize = 0;
    proof {
        reveal(Seq::filter);
    }
    while i < schedule.entities.len()
        invariant
            i <= schedule.entities.len(),
            names == texts(schedule.entities@),
            known == (|name: Seq<char>| is_entity_name(name)),
            are_entities(v@, names.take(i as int).filter(known)),
        decreases schedule.entities.len() - i,
    {
        proof {
            reveal(Seq::filter);
            assert(names.take(i + 1).drop_last() =~= names.take(i as int));
            assert(names.take(i + 1).last() == names[i as int]);
            assert(names[i as int] == schedule.entities@[i as int]@);
        }
        match EntityType::from_str(schedule.entities[i].as_str()) {
            Ok(e) => {
                assert(e.name() == names[i as int]);
                v.push(e);
            },
            Err(_) => {},
        }
        i += 1;
    }
    proof {
        assert(names.take(i as int) =~= names);
    }
    v
}

// Queries

/// A number held to a range.
pub open spec fn clamped(n: int, low: int, high: int) -> int {
    if n < low {
        low
    } else if n > high {
        high
    } else {
        n
    }
}

fn clamp(n: i64, low: i64, high: i64) -> (r: i64)
    ensures
        r == clamped(n as int, low as int, high as int),
{
    if n < low {
        low
    } else if n > high {
        high
    } else {
        n
    }
}

/// How many runs a query lists: a hundred where it does not say, at most a
/// thousand.
pub fn runs_limit(limit: Option<i64>) -> (r: i64)
    ensures
        r == clamped(
            match limit {
                Some(n) => n as int,
                None => 100,
            },
            1,
            1000,
        ),
{
    clamp(
        match limit {
            Some(n) => n,
            None => 100,
        },
        1,
        1000,
    )
}

/// The runs of the named entity, or all where none is named, in order.
pub fn filter_runs(runs: Vec<SyncRun>, entity: Option<&str>) -> (r: Vec<SyncRun>)
    ensures
        r@ == runs@.filter(|run: SyncRun| names_run(entity, run)),
{
    let ghost all = runs@;
    let ghost keep = |run: SyncRun| names_run(entity, run);
    let mut kept: Vec<SyncRun> = Vec::new();
    proof {
        reveal(Seq::filter);
    }
    for run in it: runs
        invariant
            it.seq() == all,
            keep == (|run: SyncRun| names_run(entity, run)),
            kept@ == all.take(it.index()).filter(keep),
    {
        proof {
            reveal(Seq::filter);
            assert(all.take(it.index() + 1).drop_last() =~= all.take(it.index()));
        }
        let wanted = match entity {
            Some(name) => same(run.entity_type.as_str(), name),
            None => true,
        };
        if wanted {
            kept.push(run);
        }
    }
    proof {
        assert(all.take(all.len() as int) =~= all);
    }
    kept
}

/// Whether a run is of the named entity.
pub open spec fn names_run(entity: Option<&str>, run: SyncRun) -> bool {
    match entity {
        Some(name) => run.entity_type@ == name@,
        None => true,
    }
}

/// A request to stream rows again.
#[derive(Debug)]
pub struct BqReplayRequest {
    pub entity_type: Option<String>,
    pub limit: i64,
}

/// Rows streamed again where a request does not say how many.
pub fn default_replay_limit() -> (r: i64)
    ensures
        r == 500,
{
    500
}

/// How many rows a request streams again: between one and five thousand. Without
/// a request it is one.
pub fn replay_limit(request: &Option<BqReplayRequest>) -> (r: i64)
    ensures
        r == clamped(
            match request {
                Some(q) => q.limit as int,
                None => 0,
            },
            1,
            5000,
        ),
{
    clamp(
        match request {
            Some(q) => q.limit,
            None => 0,
        },
        1,
        5000,
    )
}

/// The reply to a request to stream rows again.
pub fn replay_reply(result: Result<(i64, i64), String>) -> (r: Reply)
    requires
        result matches Ok((candidates, accepted)) ==> 0 <= candidates && 0 <= accepted,
    ensures
        match result {
            Ok((candidates, accepted)) => r.status == 200 && is_object(
                r.body,
                seq![
                    ("accepted"@, Part::Int(accepted as int)),
                    ("candidates"@, Part::Int(candidates as int)),
                    (
                        "remaining"@,
                        Part::Int(
                            if candidates > accepted {
                                candidates - accepted
                            } else {
                                0
                            },
                        ),
                    ),
                    ("status"@, Part::Text("ok"@)),
                ],
            ),
            Err(m) => is_error(r, 500, m@),
        },
{
    match result {
        Ok((candidates, accepted)) => {
            let remaining: i64 = if candidates > accepted {
                candidates - accepted
            } else {
                0
            };
            let mut entries: Vec<(String, Json)> = Vec::new();
            entries.push(("accepted".to_owned(), Json::Int(accepted)));
            entries.push(("candidates".to_owned(), Json::Int(candidates)));
            entries.push(("remaining".to_owned(), Json::Int(remaining)));
            entries.push(("status".to_owned(), Json::Text("ok".to_owned())));
            Reply { status: 200, body: Json::Object(entries) }
        },
        Err(m) => error_reply(500, m.as_str()),
    }
}

// Schedules

/// A request to create a schedule.
#[derive(Debug)]
pub struct CreateScheduleRequest {
    pub name: String,
    pub cron_expression: String,
    pub entities: Vec<String>,
    pub from_date: Option<Date>,
    pub to_date: Option<Date>,
}

/// The schedule that a request describes.
pub fn new_schedule(
    schedule_id: u128,
    tenant_id: String,
    request: CreateScheduleRequest,
) -> (r: Result<NewSyncSchedule, Reply>)
    ensures
        match r {
            Ok(s) => {
                &&& request.entities@.len() > 0
                &&& trimmed(request.name@).len() > 0
                &&& s.schedule_id == schedule_id
                &&& s.tenant_id == tenant_id
                &&& s.name == request.name
                &&& s.cron_expression == request.cron_expression
                &&& texts(s.entities@) == texts(request.entities@)
                &&& forall|i: int|
                    0 <= i < request.entities@.len() ==> is_entity_name(
                        #[trigger] texts(request.entities@)[i],
                    )
                &&& s.from_date == request.from_date
                &&& s.to_date == request.to_date
            },
            Err(reply) => if request.entities@.len() > 0 && trimmed(request.name@).len() == 0 {
                is_error(reply, 400, "name must not be empty"@)
            } else {
                refuses_entities(reply, texts(request.entities@))
            },
        },
{
    if request.entities.len() == 0 {
        return Err(error_reply(400, "entities must not be empty"));
    }
    if trim(request.name.as_str()).is_empty() {
        return Err(error_reply(400, "name must not be empty"));
    }
    let parsed = request_entities(&request.entities)?;
    let ghost names = texts(request.entities@);
    let mut entities: Vec<String> = Vec::new();
    let mut i: usize = 0;
    while i < parsed.len()
        invariant
            i <= parsed.len(),
            are_entities(parsed@, names),
            texts(entities@) == names.take(i as int),
        decreases parsed.len() - i,
    {
        let ghost before = texts(entities@);
        entities.push(parsed[i].as_str().to_owned());
        i += 1;
        proof {
            assert(texts(entities@) =~= before.push(names[i - 1]));
            assert(names.take(i as int) =~= before.push(names[i - 1]));
        }
    }
    proof {
        assert(names.take(i as int) =~= names);
        assert forall|k: int| 0 <= k < names.len() implies is_entity_name(#[trigger] names[k]) by {
            assert(parsed@[k].name() == names[k]);
        }
    }
    Ok(
        NewSyncSchedule {
            schedule_id,
            tenant_id,
            name: request.name,
            cron_expression: request.cron_expression,
            entities,
            from_date: request.from_date,
            to_date: request.to_date,
        },
    )
}

/// The schedule that a path names. An id as replies show it names the same schedule.
pub fn path_schedule_id(text: &str) -> (r: Result<u128, Reply>)
    ensures
        reads_hyphenated(text@, r.ok()),
        match r {
            Ok(id) => uuid_value(text@) == Ok::<u128, Seq<char>>(id),
            Err(reply) => uuid_value(text@) is Err && is_error(
                reply,
                400,
                "invalid schedule id: "@ + uuid_value(text@)->Err_0,
            ),
        },
{
    match parse_uuid(text) {
        Ok(id) => Ok(id),
        Err(m) => Err(
            error_reply(400, "invalid schedule id: ".to_owned().concat(m.as_str()).as_str()),
        ),
    }
}

/// The schedule to trigger, given what the store found.
pub fn found_schedule(found: Option<SyncSchedule>) -> (r: Result<SyncSchedule, Reply>)
    ensures
        match r {
            Ok(s) => found == Some(s),
            Err(reply) => found is None && is_error(reply, 404, "schedule not found"@),
        },
{
    match found {
        Some(s) => Ok(s),
        None => Err(error_reply(404, "schedule not found")),
    }
}

/// Since when a schedule waits to fire: since it last did, or was created.
pub open spec fn waits_since(s: SyncSchedule) -> Timestamp {
    match s.last_triggered_at {
        Some(t) => t,
        None => s.created_at,
    }
}

/// The first event after an instant, in seconds and nanoseconds, of the schedule
/// that the `cron` crate reads from an expression: `cron::Schedule::from_str`, then
/// `Schedule::after`. `Ok(None)` where there is none, `Err` with the crate's words
/// where the expression is none.
pub uninterp spec fn cron_event_after(expression: Seq<char>, secs: int, nanos: int) -> Result<
    Option<(int, int)>,
    Seq<char>,
>;

/// The views of a reading of an expression.
pub open spec fn event_view(r: Result<Option<(i64, u32)>, String>) -> Result<
    Option<(int, int)>,
    Seq<char>,
> {
    match r {
        Ok(Some((s, n))) => Ok(Some((s as int, n as int))),
        Ok(None) => Ok(None),
        Err(m) => Err(m@),
    }
}

/// `cron::Schedule::from_str` and the first item of `cron::Schedule::after`, which
/// looks from one second after the instant on: an event comes in a later second.
/// Where that is past the calendar's end it would panic.
#[verifier::external_body]
fn cron_first_after(expression: &str, secs: i64, nanos: u32) -> (r: Result<
    Option<(i64, u32)>,
    String,
>)
    requires
        is_instant(secs as int, nanos as int),
        is_instant(secs + 1, 0),
    ensures
        event_view(r) == cron_event_after(expression@, secs as int, nanos as int),
        r matches Ok(Some(event)) ==> event.0 > secs,
{
    let schedule = cron::Schedule::from_str(expression).map_err(|e| e.to_string())?;
    let after = chrono::DateTime::<chrono::Utc>::from_timestamp(secs, nanos).unwrap();
    let event = schedule.after(&after).next();
    Ok(event.map(|t| (t.timestamp(), t.timestamp_subsec_nanos())))
}

/// Whether a schedule fires.
#[derive(Debug)]
pub enum Firing {
    /// It is due since the given seconds after 1970-01-01T00:00:00.
    Due(i64),
    /// Its next event has not come, or there is none.
    NotDue,
    /// Its expression cannot be read.
    Invalid(String),
}

/// Whether an event has come.
pub open spec fn has_come(secs: int, nanos: int, now: Timestamp) -> bool {
    !(now.unix() < secs || (now.unix() == secs && now.subsec() < nanos))
}

/// Whether an event has come.
pub fn is_due(secs: i64, nanos: u32, now: &Timestamp) -> (r: bool)
    ensures
        r == has_come(secs as int, nanos as int, *now),
{
    let s: i64 = now.unix_secs();
    let n: u32 = now.subsec_nanos();
    !(s < secs || (s == secs && n < nanos))
}

/// Whether a schedule fires, given its next event.
pub fn firing(event: Result<Option<(i64, u32)>, String>, now: &Timestamp) -> (r: Firing)
    ensures
        match event {
            Err(m) => r == Firing::Invalid(m),
            Ok(None) => r is NotDue,
            Ok(Some((secs, nanos))) => if has_come(secs as int, nanos as int, *now) {
                r == Firing::Due(secs)
            } else {
                r is NotDue
            },
        },
{
    match event {
        Err(m) => Firing::Invalid(m),
        Ok(None) => Firing::NotDue,
        Ok(Some((secs, nanos))) => if is_due(secs, nanos, now) {
            Firing::Due(secs)
        } else {
            Firing::NotDue
        },
    }
}

/// Whether a schedule fires now: its first event since it last fired, or since it
/// was created, has come. That event is later, so that a schedule which just fired
/// does not fire again.
pub fn check_schedule(schedule: &SyncSchedule, now: &Timestamp) -> (r: Firing)
    requires
        is_instant(waits_since(*schedule).unix() + 1, 0),
    ensures
        r matches Firing::Due(secs) ==> waits_since(*schedule).unix() < secs <= now.unix(),
        ({
            let since = waits_since(*schedule);
            let event = cron_event_after(
                schedule.cron_expression@,
                since.unix(),
                since.subsec(),
            );
            match event {
                Err(m) => r matches Firing::Invalid(text) && text@ == m,
                Ok(None) => r is NotDue,
                Ok(Some((secs, nanos))) => if has_come(secs, nanos, *now) {
                    r matches Firing::Due(s) && s == secs
                } else {
                    r is NotDue
                },
            }
        }),
{
    let since = match schedule.last_triggered_at {
        Some(t) => t,
        None => schedule.created_at,
    };
    proof {
        use_type_invariant(&since);
    }
    let secs: i64 = since.unix_secs();
    firing(cron_first_after(schedule.cron_expression.as_str(), secs, since.subsec_nanos()), now)
}

/// Claim a schedule for one firing: only where it is enabled and was not triggered
/// since it was read, with the given value of `last_triggered_at`.
pub fn try_claim(schedule: &mut SyncSchedule, seen: Option<Timestamp>, now: Timestamp) -> (r: bool)
    ensures
        r == (old(schedule).disabled_at is None && old(schedule).last_triggered_at == seen),
        r == claim_wins(*old(schedule), seen),
        *final(schedule) == (if r {
            SyncSchedule { last_triggered_at: Some(now), ..*old(schedule) }
        } else {
            *old(schedule)
        }),
{
    let unmoved = match (schedule.last_triggered_at, seen) {
        (Some(a), Some(b)) => a == b,
        (None, None) => true,
        _ => false,
    };
    if schedule.disabled_at.is_none() && unmoved {
        schedule.last_triggered_at = Some(now);
        true
    } else {
        false
    }
}

/// Whether a claim that saw the given value wins.
pub open spec fn claim_wins(s: SyncSchedule, seen: Option<Timestamp>) -> bool {
    s.disabled_at is None && s.last_triggered_at == seen
}

/// At most one replica fires a schedule for the same event: after one claim has
/// won, another that saw the same state loses.
pub proof fn claims_exclude_each_other(s: SyncSchedule, seen: Option<Timestamp>, now: Timestamp)
    requires
        claim_wins(s, seen),
        seen != Some(now),
    ensures
        !claim_wins(SyncSchedule { last_triggered_at: Some(now), ..s }, seen),
{
}

// Backfill

/// A request to start a backfill.
#[derive(Debug)]
pub struct StartBackfillRequest {
    pub entities: Vec<String>,
    pub start_date: Date,
    pub end_date: Date,
    pub chunk_size_days: i32,
    pub triggered_by: Option<String>,
    /// Whether the run of each chunk moves the incremental watermark.
    pub advance_watermark: bool,
}

/// Days per chunk where a request does not say.
pub fn default_chunk_size() -> (r: i32)
    ensures
        r == 30,
{
    30
}

/// Why a backfill cannot be started.
pub open spec fn backfill_refusal(q: StartBackfillRequest) -> Option<Seq<char>> {
    if q.entities@.len() == 0 {
        Some("entities must not be empty"@)
    } else if q.end_date.number() <= q.start_date.number() {
        Some("end_date must be strictly after start_date"@)
    } else if q.chunk_size_days < 1 || q.chunk_size_days > 365 {
        Some("chunk_size_days must be 1..=365"@)
    } else {
        None
    }
}

/// The plan that a request describes.
pub fn new_backfill(tenant_id: String, request: StartBackfillRequest) -> (r: Result<
    NewBackfillPlan,
    Reply,
>)
    ensures
        match r {
            Ok(p) => {
                &&& backfill_refusal(request) is None
                &&& forall|i: int|
                    0 <= i < request.entities@.len() ==> is_entity_name(
                        #[trigger] texts(request.entities@)[i],
                    )
                &&& p.tenant_id == tenant_id
                &&& p.entity_types == request.entities
                &&& p.start_date == request.start_date
                &&& p.end_date == request.end_date
                &&& p.chunk_size_days == request.chunk_size_days
                &&& p.triggered_by@ == text_or(request.triggered_by, "manual-backfill"@)
                &&& p.advance_watermark == request.advance_watermark
            },
            Err(reply) => match backfill_refusal(request) {
                Some(text) => is_error(reply, 400, text),
                None => exists|i: int|
                    #[trigger] first_unknown(texts(request.entities@), i) && is_error(
                        reply,
                        400,
                        "unknown entity: "@ + texts(request.entities@)[i],
                    ),
            },
        },
{
    if request.entities.len() == 0 {
        return Err(error_reply(400, "entities must not be empty"));
    }
    if !request.start_date.is_before(&request.end_date) {
        return Err(error_reply(400, "end_date must be strictly after start_date"));
    }
    if request.chunk_size_days < 1 || request.chunk_size_days > 365 {
        return Err(error_reply(400, "chunk_size_days must be 1..=365"));
    }
    let ghost names = texts(request.entities@);
    let mut i: usize = 0;
    while i < request.entities.len()
        invariant
            i <= request.entities.len(),
            names == texts(request.entities@),
            backfill_refusal(request) is None,
            forall|k: int| 0 <= k < i ==> is_entity_name(#[trigger] names[k]),
        decreases request.entities.len() - i,
    {
        match EntityType::from_str(request.entities[i].as_str()) {
            Ok(e) => {
                assert(e.name() == names[i as int]);
            },
            Err(_) => {
                assert(names[i as int] == request.entities@[i as int]@);
                assert(first_unknown(names, i as int));
                return Err(
                    error_reply(
                        400,
                        "unknown entity: ".to_owned().concat(
                            request.entities[i].as_str(),
                        ).as_str(),
                    ),
                );
            },
        }
        i += 1;
    }
    let triggered_by = str_or(&request.triggered_by, "manual-backfill").to_owned();
    Ok(
        NewBackfillPlan {
            tenant_id,
            entity_types: request.entities,
            start_date: request.start_date,
            end_date: request.end_date,
            chunk_size_days: request.chunk_size_days,
            triggered_by,
            advance_watermark: request.advance_watermark,
        },
    )
}

/// A plan that a request describes can be cut into chunks.
pub proof fn requested_plan_has_chunks(request: StartBackfillRequest)
    requires
        backfill_refusal(request) is None,
    ensures
        request.chunk_size_days > 0,
        crate::backfill::window_count(
            request.start_date.number(),
            request.end_date.number(),
            request.chunk_size_days as int,
        ) >= 1,
{
    let days = request.end_date.number() - request.start_date.number();
    let size = request.chunk_size_days as int;
    assert((days + size - 1) / size >= 1) by (nonlinear_arith)
        requires
            days >= 1,
            size >= 1,
    ;
}

/// The plan that a path names.
pub fn path_plan_id(text: &str) -> (r: Result<u128, Reply>)
    ensures
        reads_hyphenated(text@, r.ok()),
        match r {
            Ok(id) => uuid_value(text@) == Ok::<u128, Seq<char>>(id),
            Err(reply) => uuid_value(text@) is Err && is_error(reply, 400, "invalid plan_id"@),
        },
{
    match parse_uuid(text) {
        Ok(id) => Ok(id),
        Err(_) => Err(error_reply(400, "invalid plan_id")),
    }
}

/// The plan to show to a tenant, given what the store found: another tenant's is
/// not shown.
pub fn found_plan(found: Option<BackfillPlan>, tenant_id: &str) -> (r: Result<BackfillPlan, Reply>)
    ensures
        match r {
            Ok(p) => found == Some(p) && p.tenant_id@ == tenant_id@,
            Err(reply) => match found {
                Some(p) => p.tenant_id@ != tenant_id@ && is_error(
                    reply,
                    404,
                    "plan not found for tenant"@,
                ),
                None => is_error(reply, 404, "plan not found"@),
            },
        },
{
    match found {
        Some(p) => if same(p.tenant_id.as_str(), tenant_id) {
            Ok(p)
        } else {
            Err(error_reply(404, "plan not found for tenant"))
        },
        None => Err(error_reply(404, "plan not found")),
    }
}

/// What becomes of a chunk that was taken up.
#[derive(Debug)]
pub enum ChunkStep {
    /// Run it.
    Run(EntityType, RunOptions),
    /// Mark it as failed with the text, and report.
    Fail(String, Json),
    /// Mark it as succeeded by the run, and report.
    Succeed(u128, Json),
}

/// Whether a report is that of a chunk that failed before it ran.
pub open spec fn is_early_failure(report: Json, chunk: BackfillChunk, error: Seq<char>) -> bool {
    is_object(
        report,
        seq![
            ("chunk_id"@, Part::Text(uuid_hyphenated(chunk.chunk_id))),
            ("entity"@, Part::Text(chunk.entity_type@)),
            ("error"@, Part::Text(error)),
            ("status"@, Part::Text("failed"@)),
        ],
    )
}

fn early_failure(chunk: &BackfillChunk, error: &str) -> (r: Json)
    ensures
        is_early_failure(r, *chunk, error@),
{
    let mut entries: Vec<(String, Json)> = Vec::new();
    entries.push(("chunk_id".to_owned(), Json::Text(uuid_text(chunk.chunk_id))));
    entries.push(("entity".to_owned(), Json::Text(chunk.entity_type.clone())));
    entries.push(("error".to_owned(), Json::Text(error.to_owned())));
    entries.push(("status".to_owned(), Json::Text("failed".to_owned())));
    Json::Object(entries)
}

/// A chunk was taken up, and a token asked for: run it, or fail it where its entity
/// is unknown or there is no token.
pub fn start_chunk(chunk: &BackfillChunk, token: Result<(), String>) -> (r: ChunkStep)
    ensures
        if !is_entity_name(chunk.entity_type@) {
            let text = ErrorView::Config("unknown entity: "@ + chunk.entity_type@).message();
            r matches ChunkStep::Fail(m, report) && m@ == text && is_early_failure(
                report,
                *chunk,
                text,
            )
        } else {
            match token {
                Err(e) => r matches ChunkStep::Fail(m, report) && m@ == e@ && is_early_failure(
                    report,
                    *chunk,
                    "auth: "@ + e@,
                ),
                Ok(_) => {
                    &&& r matches ChunkStep::Run(entity, o)
                    &&& entity.name() == chunk.entity_type@
                    &&& o.business_date_after == Some(chunk.window_start)
                    &&& o.business_date_before == Some(chunk.window_end)
                    &&& o.modified_after is None && o.modified_before is None
                    &&& o.trigger_id == Some(chunk.plan_id)
                    &&& o.job_type@ == "backfill_chunk"@
                    &&& o.triggered_by@ == "backfill:"@ + uuid_hyphenated(chunk.plan_id)
                    &&& o.advance_watermark == chunk.advance_watermark
                },
            }
        },
{
    let entity = match EntityType::from_str(chunk.entity_type.as_str()) {
        Ok(e) => e,
        Err(e) => {
            let text = e.message();
            let report = early_failure(chunk, text.as_str());
            return ChunkStep::Fail(text, report);
        },
    };
    assert(entity.name() == chunk.entity_type@);
    match token {
        Err(e) => {
            let report = early_failure(chunk, "auth: ".to_owned().concat(e.as_str()).as_str());
            ChunkStep::Fail(e, report)
        },
        Ok(_) => ChunkStep::Run(entity, chunk_options(chunk)),
    }
}

/// A chunk's run ended: it succeeded or failed with it.
pub fn finish_chunk(chunk: &BackfillChunk, result: Result<u128, String>) -> (r: ChunkStep)
    ensures
        match result {
            Ok(run_id) => r matches ChunkStep::Succeed(id, report) && id == run_id && is_object(
                report,
                seq![
                    ("chunk_id"@, Part::Text(uuid_hyphenated(chunk.chunk_id))),
                    ("entity"@, Part::Text(chunk.entity_type@)),
                    ("plan_id"@, Part::Text(uuid_hyphenated(chunk.plan_id))),
                    ("run_id"@, Part::Text(uuid_hyphenated(run_id))),
                    ("status"@, Part::Text("ok"@)),
                    ("window_end"@, Part::Text(chunk.window_end.text())),
                    ("window_start"@, Part::Text(chunk.window_start.text())),
                ],
            ),
            Err(e) => r matches ChunkStep::Fail(m, report) && m@ == e@ && is_object(
                report,
                seq![
                    ("chunk_id"@, Part::Text(uuid_hyphenated(chunk.chunk_id))),
                    ("entity"@, Part::Text(chunk.entity_type@)),
                    ("error"@, Part::Text(e@)),
                    ("plan_id"@, Part::Text(uuid_hyphenated(chunk.plan_id))),
                    ("status"@, Part::Text("failed"@)),
                    ("window_end"@, Part::Text(chunk.window_end.text())),
                    ("window_start"@, Part::Text(chunk.window_start.text())),
                ],
            ),
        },
{
    let mut entries: Vec<(String, Json)> = Vec::new();
    entries.push(("chunk_id".to_owned(), Json::Text(uuid_text(chunk.chunk_id))));
    entries.push(("entity".to_owned(), Json::Text(chunk.entity_type.clone())));
    match result {
        Ok(run_id) => {
            entries.push(("plan_id".to_owned(), Json::Text(uuid_text(chunk.plan_id))));
            entries.push(("run_id".to_owned(), Json::Text(uuid_text(run_id))));
            entries.push(("status".to_owned(), Json::Text("ok".to_owned())));
            entries.push(("window_end".to_owned(), Json::Text(chunk.window_end.to_text())));
            entries.push(("window_start".to_owned(), Json::Text(chunk.window_start.to_text())));
            ChunkStep::Succeed(run_id, Json::Object(entries))
        },
        Err(e) => {
            entries.push(("error".to_owned(), Json::Text(e.clone())));
            entries.push(("plan_id".to_owned(), Json::Text(uuid_text(chunk.plan_id))));
            entries.push(("status".to_owned(), Json::Text("failed".to_owned())));
            entries.push(("window_end".to_owned(), Json::Text(chunk.window_end.to_text())));
            entries.push(("window_start".to_owned(), Json::Text(chunk.window_start.to_text())));
            ChunkStep::Fail(e, Json::Object(entries))
        },
    }
}

/// The reply to a request to run the next chunk.
pub fn run_next_reply(report: Result<Option<Json>, String>) -> (r: Reply)
    ensures
        match report {
            Ok(Some(j)) => r.status == 200 && r.body == j,
            Ok(None) => r.status == 200 && is_object(
                r.body,
                seq![
                    ("message"@, Part::Text("no pending chunks"@)),
                    ("status"@, Part::Text("idle"@)),
                ],
            ),
            Err(m) => is_error(r, 500, m@),
        },
{
    match report {
        Ok(Some(j)) => Reply { status: 200, body: j },
        Ok(None) => {
            let mut entries: Vec<(String, Json)> = Vec::new();
            entries.push(("message".to_owned(), Json::Text("no pending chunks".to_owned())));
            entries.push(("status".to_owned(), Json::Text("idle".to_owned())));
            Reply { status: 200, body: Json::Object(entries) }
        },
        Err(m) => error_reply(500, m.as_str()),
    }
}

/// A number that is held to a range lies in it, and stays as it is where it did.
pub proof fn clamped_numbers_lie_in_range(n: int, low: int, high: int)
    requires
        low <= high,
    ensures
        low <= clamped(n, low, high) <= high,
        low <= n <= high ==> clamped(n, low, high) == n,
        n <= low ==> clamped(n, low, high) == low,
        n >= high ==> clamped(n, low, high) == high,
{
}

/// A backfill is refused if and only if it names no entity, its range holds no day, or its
/// chunks would hold no day or more than a year of them.
pub proof fn backfills_are_refused_for_a_reason(q: StartBackfillRequest)
    ensures
        backfill_refusal(q) is None <==> q.entities@.len() > 0 && q.start_date.number()
            < q.end_date.number() && 1 <= q.chunk_size_days <= 365,
{
}

/// A schedule waits since it last fired, and since it was created where it never did. Once
/// triggered, it waits since then.
pub proof fn schedules_wait_since_they_fired(s: SyncSchedule, now: Timestamp)
    ensures
        waits_since(SyncSchedule { last_triggered_at: Some(now), ..s }) == now,
        s.last_triggered_at is None ==> waits_since(s) == s.created_at,
        s.last_triggered_at matches Some(t) ==> waits_since(s) == t,
{
}

/// A disabled schedule is never claimed, nor is one that was triggered since it was read;
/// any other is.
pub proof fn disabled_schedules_are_not_claimed(s: SyncSchedule, seen: Option<Timestamp>)
    ensures
        s.disabled_at is Some ==> !claim_wins(s, seen),
        s.last_triggered_at != seen ==> !claim_wins(s, seen),
        s.disabled_at is None ==> claim_wins(s, s.last_triggered_at),
{
}

/// A key names at most one entity, every entity has a key, and a list of keys names one list
/// of entities.
pub proof fn keys_name_entities(v: Seq<EntityType>, w: Seq<EntityType>, names: Seq<Seq<char>>)
    requires
        are_entities(v, names),
        are_entities(w, names),
    ensures
        v == w,
        forall|i: int| 0 <= i < names.len() ==> is_entity_name(#[trigger] names[i]),
        forall|i: int| !first_unknown(names, i),
{
    assert forall|i: int| 0 <= i < names.len() implies is_entity_name(#[trigger] names[i]) by {
        assert(v[i].name() == names[i]);
    }
    assert forall|i: int| 0 <= i < v.len() implies v[i] == w[i] by {
        assert(v[i].name() == names[i]);
        assert(w[i].name() == names[i]);
        entity_name_is_injective(v[i], w[i]);
    }
    assert(v =~= w);
}

/// The outcome of a run tells its entity, and whether it succeeded: `ok` with the run's id,
/// `error` with what went wrong.
pub proof fn outcomes_tell_entity_and_status(
    j: Json,
    entity: EntityType,
    result: Result<u128, String>,
)
    requires
        is_outcome(j, entity, result),
    ensures
        text_in(j, "entity"@) == Some(entity.name()),
        text_in(j, "status"@) == Some(
            if result is Ok {
                "ok"@
            } else {
                "error"@
            },
        ),
        result matches Ok(id) ==> text_in(j, "run_id"@) == Some(uuid_hyphenated(id)),
        result matches Err(m) ==> text_in(j, "error"@) == Some(m@),
{
    reveal_strlit("entity");
    reveal_strlit("run_id");
    reveal_strlit("status");
    reveal_strlit("error");
    assert("entity"@[0] == 'e' && "run_id"@[0] == 'r' && "status"@[0] == 's' && "error"@.len() == 5);
    assert("entity"@.len() == 6 && "status"@.len() == 6);
    let parts = match result {
        Ok(id) => seq![
            ("entity"@, Part::Text(entity.name())),
            ("run_id"@, Part::Text(uuid_hyphenated(id))),
            ("status"@, Part::Text("ok"@)),
        ],
        Err(m) => seq![
            ("entity"@, Part::Text(entity.name())),
            ("error"@, Part::Text(m@)),
            ("status"@, Part::Text("error"@)),
        ],
    };
    assert(is_object(j, parts));
    assert(parts[0].0 == "entity"@ && parts[2].0 == "status"@);
    objects_have_their_parts(j, parts, 0);
    objects_have_their_parts(j, parts, 1);
    objects_have_their_parts(j, parts, 2);
}

/// An error is told under `error`, with its text.
pub proof fn errors_tell_their_text(r: Reply, status: int, text: Seq<char>)
    requires
        is_error(r, status, text),
    ensures
        text_in(r.body, "error"@) == Some(text),
        r.status == status,
{
    let parts = seq![("error"@, Part::Text(text))];
    objects_have_their_parts(r.body, parts, 0);
}

/// A query that names an entity shows its runs and no others; one that names none shows all.
pub proof fn queries_show_the_named_runs(runs: Seq<SyncRun>, entity: Option<&str>, i: int)
    requires
        0 <= i < runs.len(),
    ensures
        runs.filter(|run: SyncRun| names_run(entity, run)).contains(runs[i]) <==> entity is None
            || runs[i].entity_type@ == entity->0@,
{
    let keep = |run: SyncRun| names_run(entity, run);
    let kept = runs.filter(keep);
    if keep(runs[i]) {
        runs.lemma_filter_contains(keep, i);
    }
    if kept.contains(runs[i]) {
        let k = choose|k: int| 0 <= k < kept.len() && kept[k] == runs[i];
        runs.lemma_filter_pred(keep, k);
    }
}

/// A list of entities is refused with status 400: an empty one, or one that names what is no
/// entity.
pub proof fn unknown_entities_are_refused(reply: Reply, names: Seq<Seq<char>>)
    requires
        refuses_entities(reply, names),
    ensures
        reply.status == 400,
        names.len() == 0 || exists|i: int| 0 <= i < names.len() && !is_entity_name(
            #[trigger] names[i],
        ),
{
    if names.len() > 0 {
        let i = choose|i: int|
            #[trigger] first_unknown(names, i) && is_error(
                reply,
                400,
                ErrorView::Config("unknown entity: "@ + names[i]).message(),
            );
        assert(!is_entity_name(names[i]));
    }
}

/// A run has the window, trigger and labels that it was asked for with, and the defaults for
/// labels that are not given.
pub proof fn runs_have_their_window(o: RunOptions, window: RunWindow, id: u128, s: Option<String>)
    requires
        is_run(o, window, id, text_or(s, "manual"@), text_or(s, "manual-api"@)),
    ensures
        o.modified_after == window.modified_after && o.modified_before == window.modified_before,
        o.business_date_after == window.business_date_after,
        o.business_date_before == window.business_date_before,
        o.advance_watermark == window.advance_watermark,
        o.trigger_id == Some(id),
        s matches Some(t) ==> o.job_type@ == t@ && o.triggered_by@ == t@,
        s is None ==> o.job_type@ == "manual"@ && o.triggered_by@ == "manual-api"@,
{
}

/// The reply to a batch holds the outcome of each of its runs, in order, and its trigger.
pub proof fn batch_replies_hold_all_outcomes(
    body: Json,
    schedule_id: Option<u128>,
    trigger_id: u128,
    results: Seq<Json>,
)
    requires
        is_batch_body(body, schedule_id, trigger_id, results),
    ensures
        body.field("results"@) matches Some(v) && v.items() == Some(results),
        text_in(body, "status"@) == Some("ok"@),
        text_in(body, "trigger_id"@) == Some(uuid_hyphenated(trigger_id)),
        schedule_id matches Some(id) ==> text_in(body, "schedule_id"@) == Some(uuid_hyphenated(id)),
{
    reveal_strlit("results");
    reveal_strlit("status");
    reveal_strlit("trigger_id");
    reveal_strlit("schedule_id");
    assert("results"@.len() == 7 && "status"@.len() == 6 && "trigger_id"@.len() == 10);
    assert("schedule_id"@.len() == 11);
    if let Json::Object(entries) = body {
        first_member(entries@, 0);
        first_member(entries@, 1);
        first_member(entries@, 2);
        if schedule_id is Some {
            first_member(entries@, 3);
        }
    }
}

/// An event comes at its instant: not before, and once it has come it stays so.
pub proof fn events_come_at_their_instant(at: Timestamp, now: Timestamp, later: Timestamp)
    ensures
        has_come(at.unix(), at.subsec(), now) <==> !now.earlier_than(at),
        has_come(at.unix(), at.subsec(), at),
        has_come(at.unix(), at.subsec(), now) && !later.earlier_than(now) ==> has_come(
            at.unix(),
            at.subsec(),
            later,
        ),
{
}

/// A chunk's run covers the chunk's window of business dates and no other, whenever its records
/// were modified; it belongs to the plan, and moves the watermark only where the plan was asked
/// to.
pub proof fn chunk_runs_cover_their_window(o: RunOptions, chunk: BackfillChunk)
    requires
        is_chunk_run(o, chunk),
    ensures
        o.business_date_after matches Some(d) && d.number() == chunk.window_start.number(),
        o.business_date_before matches Some(d) && d.number() == chunk.window_end.number(),
        o.modified_after is None && o.modified_before is None,
        o.trigger_id == Some(chunk.plan_id),
        o.job_type@ == "backfill_chunk"@,
        o.advance_watermark <==> chunk.advance_watermark,
{
}

} // verus!
