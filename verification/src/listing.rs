//! What the service shows of its plans, chunks, schedules, runs, checkpoints and stored
//! records.

use vstd::prelude::*;

use crate::backfill::{BackfillChunk, BackfillPlan};
use crate::bronze::BronzeSummary;
use crate::calendar::{Date, Timestamp};
use crate::json::{is_object, is_part, objects_have_their_parts, text_in, Json, Part};
use crate::manifest::{uuid_hyphenated, uuid_text};
use crate::service::Reply;
use crate::store::{Checkpoint, SyncRun, SyncSchedule};
use crate::text::texts;

verus! {

/// A text, where there is one.
pub open spec fn optional_text(v: Option<String>) -> Part {
    match v {
        Some(x) => Part::Text(x@),
        None => Part::Null,
    }
}

/// An id, where there is one.
pub open spec fn optional_id(v: Option<u128>) -> Part {
    match v {
        Some(x) => Part::Text(uuid_hyphenated(x)),
        None => Part::Null,
    }
}

/// A day, where there is one.
pub open spec fn optional_day(v: Option<Date>) -> Part {
    match v {
        Some(x) => Part::Text(x.text()),
        None => Part::Null,
    }
}

/// An instant, where there is one.
pub open spec fn optional_instant(v: Option<Timestamp>) -> Part {
    match v {
        Some(x) => Part::Text(x.zulu_text()),
        None => Part::Null,
    }
}

fn text_or_null(v: &Option<String>) -> (r: Json)
    ensures
        is_part(r, optional_text(*v)),
{
    match v {
        Some(x) => Json::Text(x.clone()),
        None => Json::Null,
    }
}

fn id_or_null(v: Option<u128>) -> (r: Json)
    ensures
        is_part(r, optional_id(v)),
{
    match v {
        Some(x) => Json::Text(uuid_text(x)),
        None => Json::Null,
    }
}

fn day_or_null(v: Option<Date>) -> (r: Json)
    ensures
        is_part(r, optional_day(v)),
{
    match v {
        Some(x) => Json::Text(x.to_text()),
        None => Json::Null,
    }
}

fn instant_or_null(v: Option<Timestamp>) -> (r: Json)
    ensures
        is_part(r, optional_instant(v)),
{
    match v {
        Some(x) => Json::Text(x.to_zulu_text()),
        None => Json::Null,
    }
}

fn texts_json(v: &Vec<String>) -> (r: Json)
    ensures
        is_part(r, Part::Texts(texts(v@))),
{
    let mut items: Vec<Json> = Vec::new();
    let mut i: usize = 0;
    while i < v.len()
        invariant
            i <= v.len(),
            items@.len() == i,
            forall|k: int| 0 <= k < i ==> (#[trigger] items@[k]).chars() == Some(v@[k]@),
        decreases v.len() - i,
    {
        items.push(Json::Text(v[i].clone()));
        i += 1;
    }
    Json::Array(items)
}

/// Whether the members are the first ones of an object with the given members.
#[verifier::opaque]
spec fn begin_as(entries: Seq<(String, Json)>, parts: Seq<(Seq<char>, Part)>) -> bool {
    &&& entries.len() <= parts.len()
    &&& forall|i: int|
        0 <= i < entries.len() ==> (#[trigger] entries[i]).0@ == parts[i].0 && is_part(
            entries[i].1,
            parts[i].1,
        )
}

/// No members yet.
fn no_members(parts: Ghost<Seq<(Seq<char>, Part)>>) -> (r: Vec<(String, Json)>)
    ensures
        r@.len() == 0,
        begin_as(r@, parts@),
{
    let r: Vec<(String, Json)> = Vec::new();
    proof {
        reveal(begin_as);
    }
    r
}

/// Add the next member.
fn add_member(
    entries: &mut Vec<(String, Json)>,
    name: &str,
    value: Json,
    parts: Ghost<Seq<(Seq<char>, Part)>>,
)
    requires
        begin_as(old(entries)@, parts@),
        old(entries)@.len() < parts@.len(),
        parts@[old(entries)@.len() as int].0 == name@,
        is_part(value, parts@[old(entries)@.len() as int].1),
    ensures
        begin_as(final(entries)@, parts@),
        final(entries)@.len() == old(entries)@.len() + 1,
{
    proof {
        reveal(begin_as);
    }
    entries.push((name.to_owned(), value));
}

/// The object of all members.
fn object(entries: Vec<(String, Json)>, parts: Ghost<Seq<(Seq<char>, Part)>>) -> (r: Json)
    requires
        begin_as(entries@, parts@),
        entries@.len() == parts@.len(),
    ensures
        is_object(r, parts@),
{
    proof {
        reveal(begin_as);
    }
    Json::Object(entries)
}

/// The members of a plan, in the order of their names.
pub open spec fn plan_parts(p: BackfillPlan) -> Seq<(Seq<char>, Part)> {
    seq![
        ("chunk_size_days"@, Part::Int(p.chunk_size_days as int)),
        ("completed_at"@, optional_instant(p.completed_at)),
        ("completed_chunks"@, Part::Int(p.completed_chunks as int)),
        ("created_at"@, Part::Text(p.created_at.zulu_text())),
        ("end_date"@, Part::Text(p.end_date.text())),
        ("entity_types"@, Part::Texts(texts(p.entity_types@))),
        ("error_message"@, optional_text(p.error_message)),
        ("failed_chunks"@, Part::Int(p.failed_chunks as int)),
        ("plan_id"@, Part::Text(uuid_hyphenated(p.plan_id))),
        ("start_date"@, Part::Text(p.start_date.text())),
        ("started_at"@, optional_instant(p.started_at)),
        ("status"@, Part::Text(p.status.name())),
        ("tenant_id"@, Part::Text(p.tenant_id@)),
        ("total_chunks"@, Part::Int(p.total_chunks as int)),
        ("triggered_by"@, Part::Text(p.triggered_by@)),
    ]
}

/// A plan as JSON.
pub fn plan_json(p: &BackfillPlan) -> (r: Json)
    ensures
        is_object(r, plan_parts(*p)),
{
    let ghost parts = plan_parts(*p);
    let mut entries = no_members(Ghost(parts));
    add_member(&mut entries, "chunk_size_days", Json::Int(p.chunk_size_days as i64), Ghost(parts));
    add_member(&mut entries, "completed_at", instant_or_null(p.completed_at), Ghost(parts));
    add_member(&mut entries, "completed_chunks", Json::Int(p.completed_chunks as i64), Ghost(parts));
    add_member(&mut entries, "created_at", Json::Text(p.created_at.to_zulu_text()), Ghost(parts));
    add_member(&mut entries, "end_date", Json::Text(p.end_date.to_text()), Ghost(parts));
    add_member(&mut entries, "entity_types", texts_json(&p.entity_types), Ghost(parts));
    add_member(&mut entries, "error_message", text_or_null(&p.error_message), Ghost(parts));
    add_member(&mut entries, "failed_chunks", Json::Int(p.failed_chunks as i64), Ghost(parts));
    add_member(&mut entries, "plan_id", Json::Text(uuid_text(p.plan_id)), Ghost(parts));
    add_member(&mut entries, "start_date", Json::Text(p.start_date.to_text()), Ghost(parts));
    add_member(&mut entries, "started_at", instant_or_null(p.started_at), Ghost(parts));
    add_member(&mut entries, "status", Json::Text(p.status.as_str().to_owned()), Ghost(parts));
    add_member(&mut entries, "tenant_id", Json::Text(p.tenant_id.clone()), Ghost(parts));
    add_member(&mut entries, "total_chunks", Json::Int(p.total_chunks as i64), Ghost(parts));
    add_member(&mut entries, "triggered_by", Json::Text(p.triggered_by.clone()), Ghost(parts));
    object(entries, Ghost(parts))
}

/// Whether a JSON value is an array of the given values.
pub open spec fn is_plan_list(j: Json, list: Seq<BackfillPlan>) -> bool {
    &&& j matches Json::Array(items)
    &&& items@.len() == list.len()
    &&& forall|i: int| 0 <= i < list.len() ==> is_object(#[trigger] items@[i], plan_parts(list[i]))
}

fn plan_list(list: &Vec<BackfillPlan>) -> (r: Json)
    ensures
        is_plan_list(r, list@),
{
    let mut items: Vec<Json> = Vec::new();
    let mut i: usize = 0;
    while i < list.len()
        invariant
            i <= list.len(),
            items@.len() == i,
            forall|k: int| 0 <= k < i ==> is_object(#[trigger] items@[k], plan_parts(list@[k])),
        decreases list.len() - i,
    {
        items.push(plan_json(&list[i]));
        i += 1;
    }
    Json::Array(items)
}

/// The members of a chunk, in the order of their names.
pub open spec fn chunk_parts(p: BackfillChunk) -> Seq<(Seq<char>, Part)> {
    seq![
        ("attempt_count"@, Part::Int(p.attempt_count as int)),
        ("chunk_id"@, Part::Text(uuid_hyphenated(p.chunk_id))),
        ("created_at"@, Part::Text(p.created_at.zulu_text())),
        ("entity_type"@, Part::Text(p.entity_type@)),
        ("error_message"@, optional_text(p.error_message)),
        ("finished_at"@, optional_instant(p.finished_at)),
        ("max_attempts"@, Part::Int(p.max_attempts as int)),
        ("plan_id"@, Part::Text(uuid_hyphenated(p.plan_id))),
        ("run_id"@, optional_id(p.run_id)),
        ("started_at"@, optional_instant(p.started_at)),
        ("status"@, Part::Text(p.status.name())),
        ("tenant_id"@, Part::Text(p.tenant_id@)),
        ("window_end"@, Part::Text(p.window_end.text())),
        ("window_start"@, Part::Text(p.window_start.text())),
    ]
}

/// A chunk as JSON.
pub fn chunk_json(p: &BackfillChunk) -> (r: Json)
    ensures
        is_object(r, chunk_parts(*p)),
{
    let ghost parts = chunk_parts(*p);
    let mut entries = no_members(Ghost(parts));
    add_member(&mut entries, "attempt_count", Json::Int(p.attempt_count as i64), Ghost(parts));
    add_member(&mut entries, "chunk_id", Json::Text(uuid_text(p.chunk_id)), Ghost(parts));
    add_member(&mut entries, "created_at", Json::Text(p.created_at.to_zulu_text()), Ghost(parts));
    add_member(&mut entries, "entity_type", Json::Text(p.entity_type.clone()), Ghost(parts));
    add_member(&mut entries, "error_message", text_or_null(&p.error_message), Ghost(parts));
    add_member(&mut entries, "finished_at", instant_or_null(p.finished_at), Ghost(parts));
    add_member(&mut entries, "max_attempts", Json::Int(p.max_attempts as i64), Ghost(parts));
    add_member(&mut entries, "plan_id", Json::Text(uuid_text(p.plan_id)), Ghost(parts));
    add_member(&mut entries, "run_id", id_or_null(p.run_id), Ghost(parts));
    add_member(&mut entries, "started_at", instant_or_null(p.started_at), Ghost(parts));
    add_member(&mut entries, "status", Json::Text(p.status.as_str().to_owned()), Ghost(parts));
    add_member(&mut entries, "tenant_id", Json::Text(p.tenant_id.clone()), Ghost(parts));
    add_member(&mut entries, "window_end", Json::Text(p.window_end.to_text()), Ghost(parts));
    add_member(&mut entries, "window_start", Json::Text(p.window_start.to_text()), Ghost(parts));
    object(entries, Ghost(parts))
}

/// Whether a JSON value is an array of the given values.
pub open spec fn is_chunk_list(j: Json, list: Seq<BackfillChunk>) -> bool {
    &&& j matches Json::Array(items)
    &&& items@.len() == list.len()
    &&& forall|i: int| 0 <= i < list.len() ==> is_object(#[trigger] items@[i], chunk_parts(list[i]))
}

fn chunk_list(list: &Vec<BackfillChunk>) -> (r: Json)
    ensures
        is_chunk_list(r, list@),
{
    let mut items: Vec<Json> = Vec::new();
    let mut i: usize = 0;
    while i < list.len()
        invariant
            i <= list.len(),
            items@.len() == i,
            forall|k: int| 0 <= k < i ==> is_object(#[trigger] items@[k], chunk_parts(list@[k])),
        decreases list.len() - i,
    {
        items.push(chunk_json(&list[i]));
        i += 1;
    }
    Json::Array(items)
}

/// The members of a schedule, in the order of their names.
pub open spec fn schedule_parts(p: SyncSchedule) -> Seq<(Seq<char>, Part)> {
    seq![
        ("created_at"@, Part::Text(p.created_at.zulu_text())),
        ("cron_expression"@, Part::Text(p.cron_expression@)),
        ("disabled_at"@, optional_instant(p.disabled_at)),
        ("entities"@, Part::Texts(texts(p.entities@))),
        ("from_date"@, optional_day(p.from_date)),
        ("last_triggered_at"@, optional_instant(p.last_triggered_at)),
        ("name"@, Part::Text(p.name@)),
        ("schedule_id"@, Part::Text(uuid_hyphenated(p.schedule_id))),
        ("tenant_id"@, Part::Text(p.tenant_id@)),
        ("to_date"@, optional_day(p.to_date)),
    ]
}

/// A schedule as JSON.
pub fn schedule_json(p: &SyncSchedule) -> (r: Json)
    ensures
        is_object(r, schedule_parts(*p)),
{
    let ghost parts = schedule_parts(*p);
    let mut entries = no_members(Ghost(parts));
    add_member(&mut entries, "created_at", Json::Text(p.created_at.to_zulu_text()), Ghost(parts));
    add_member(&mut entries, "cron_expression", Json::Text(p.cron_expression.clone()), Ghost(parts));
    add_member(&mut entries, "disabled_at", instant_or_null(p.disabled_at), Ghost(parts));
    add_member(&mut entries, "entities", texts_json(&p.entities), Ghost(parts));
    add_member(&mut entries, "from_date", day_or_null(p.from_date), Ghost(parts));
    add_member(&mut entries, "last_triggered_at", instant_or_null(p.last_triggered_at), Ghost(parts));
    add_member(&mut entries, "name", Json::Text(p.name.clone()), Ghost(parts));
    add_member(&mut entries, "schedule_id", Json::Text(uuid_text(p.schedule_id)), Ghost(parts));
    add_member(&mut entries, "tenant_id", Json::Text(p.tenant_id.clone()), Ghost(parts));
    add_member(&mut entries, "to_date", day_or_null(p.to_date), Ghost(parts));
    object(entries, Ghost(parts))
}

/// Whether a JSON value is an array of the given values.
pub open spec fn is_schedule_list(j: Json, list: Seq<SyncSchedule>) -> bool {
    &&& j matches Json::Array(items)
    &&& items@.len() == list.len()
    &&& forall|i: int| 0 <= i < list.len() ==> is_object(#[trigger] items@[i], schedule_parts(list[i]))
}

fn schedule_list(list: &Vec<SyncSchedule>) -> (r: Json)
    ensures
        is_schedule_list(r, list@),
{
    let mut items: Vec<Json> = Vec::new();
    let mut i: usize = 0;
    while i < list.len()
        invariant
            i <= list.len(),
            items@.len() == i,
            forall|k: int| 0 <= k < i ==> is_object(#[trigger] items@[k], schedule_parts(list@[k])),
        decreases list.len() - i,
    {
        items.push(schedule_json(&list[i]));
        i += 1;
    }
    Json::Array(items)
}

/// The members of a run, in the order of their names.
pub open spec fn run_parts(p: SyncRun) -> Seq<(Seq<char>, Part)> {
    seq![
        ("entity_type"@, Part::Text(p.entity_type@)),
        ("error_message"@, optional_text(p.error_message)),
        ("finished_at"@, optional_instant(p.finished_at)),
        ("job_type"@, Part::Text(p.job_type@)),
        ("records_failed"@, Part::Int(p.records_failed as int)),
        ("records_fetched"@, Part::Int(p.records_fetched as int)),
        ("records_loaded"@, Part::Int(p.records_loaded as int)),
        ("run_id"@, Part::Text(uuid_hyphenated(p.run_id))),
        ("started_at"@, Part::Text(p.started_at.zulu_text())),
        ("status"@, Part::Text(p.status.name())),
        ("tenant_id"@, Part::Text(p.tenant_id@)),
        ("trigger_id"@, optional_id(p.trigger_id)),
        ("triggered_by"@, Part::Text(p.triggered_by@)),
    ]
}

/// A run as JSON.
pub fn run_json(p: &SyncRun) -> (r: Json)
    ensures
        is_object(r, run_parts(*p)),
{
    let ghost parts = run_parts(*p);
    let mut entries = no_members(Ghost(parts));
    add_member(&mut entries, "entity_type", Json::Text(p.entity_type.clone()), Ghost(parts));
    add_member(&mut entries, "error_message", text_or_null(&p.error_message), Ghost(parts));
    add_member(&mut entries, "finished_at", instant_or_null(p.finished_at), Ghost(parts));
    add_member(&mut entries, "job_type", Json::Text(p.job_type.clone()), Ghost(parts));
    add_member(&mut entries, "records_failed", Json::Int(p.records_failed), Ghost(parts));
    add_member(&mut entries, "records_fetched", Json::Int(p.records_fetched), Ghost(parts));
    add_member(&mut entries, "records_loaded", Json::Int(p.records_loaded), Ghost(parts));
    add_member(&mut entries, "run_id", Json::Text(uuid_text(p.run_id)), Ghost(parts));
    add_member(&mut entries, "started_at", Json::Text(p.started_at.to_zulu_text()), Ghost(parts));
    add_member(&mut entries, "status", Json::Text(p.status.as_str().to_owned()), Ghost(parts));
    add_member(&mut entries, "tenant_id", Json::Text(p.tenant_id.clone()), Ghost(parts));
    add_member(&mut entries, "trigger_id", id_or_null(p.trigger_id), Ghost(parts));
    add_member(&mut entries, "triggered_by", Json::Text(p.triggered_by.clone()), Ghost(parts));
    object(entries, Ghost(parts))
}

/// Whether a JSON value is an array of the given values.
pub open spec fn is_run_list(j: Json, list: Seq<SyncRun>) -> bool {
    &&& j matches Json::Array(items)
    &&& items@.len() == list.len()
    &&& forall|i: int| 0 <= i < list.len() ==> is_object(#[trigger] items@[i], run_parts(list[i]))
}

fn run_list(list: &Vec<SyncRun>) -> (r: Json)
    ensures
        is_run_list(r, list@),
{
    let mut items: Vec<Json> = Vec::new();
    let mut i: usize = 0;
    while i < list.len()
        invariant
            i <= list.len(),
            items@.len() == i,
            forall|k: int| 0 <= k < i ==> is_object(#[trigger] items@[k], run_parts(list@[k])),
        decreases list.len() - i,
    {
        items.push(run_json(&list[i]));
        i += 1;
    }
    Json::Array(items)
}

/// The members of what is stored of an entity, in the order of their names.
pub open spec fn summary_parts(p: BronzeSummary) -> Seq<(Seq<char>, Part)> {
    seq![
        ("distinct_runs_touching"@, Part::Int(p.distinct_runs_touching as int)),
        ("entity_type"@, Part::Text(p.entity_type@)),
        ("most_recent"@, optional_instant(p.most_recent)),
        ("row_count"@, Part::Int(p.row_count as int)),
    ]
}

/// What is stored of an entity as JSON.
pub fn summary_json(p: &BronzeSummary) -> (r: Json)
    ensures
        is_object(r, summary_parts(*p)),
{
    let ghost parts = summary_parts(*p);
    let mut entries = no_members(Ghost(parts));
    add_member(&mut entries, "distinct_runs_touching", Json::Int(p.distinct_runs_touching), Ghost(parts));
    add_member(&mut entries, "entity_type", Json::Text(p.entity_type.clone()), Ghost(parts));
    add_member(&mut entries, "most_recent", instant_or_null(p.most_recent), Ghost(parts));
    add_member(&mut entries, "row_count", Json::Int(p.row_count), Ghost(parts));
    object(entries, Ghost(parts))
}

/// Whether a JSON value is an array of the given values.
pub open spec fn is_summary_list(j: Json, list: Seq<BronzeSummary>) -> bool {
    &&& j matches Json::Array(items)
    &&& items@.len() == list.len()
    &&& forall|i: int| 0 <= i < list.len() ==> is_object(#[trigger] items@[i], summary_parts(list[i]))
}

fn summary_list(list: &Vec<BronzeSummary>) -> (r: Json)
    ensures
        is_summary_list(r, list@),
{
    let mut items: Vec<Json> = Vec::new();
    let mut i: usize = 0;
    while i < list.len()
        invariant
            i <= list.len(),
            items@.len() == i,
            forall|k: int| 0 <= k < i ==> is_object(#[trigger] items@[k], summary_parts(list@[k])),
        decreases list.len() - i,
    {
        items.push(summary_json(&list[i]));
        i += 1;
    }
    Json::Array(items)
}

/// Whether a JSON value is a checkpoint.
pub open spec fn is_checkpoint(j: Json, p: Checkpoint) -> bool {
    &&& j matches Json::Object(entries)
    &&& entries@.len() == 4
    &&& entries@[0].0@ == "key"@ && is_object(
        entries@[0].1,
        seq![
            ("entity_type"@, Part::Text(p.key.entity_type@)),
            ("tenant"@, Part::Text(p.key.tenant@)),
        ],
    )
    &&& entries@[1].0@ == "last_modified_watermark"@ && is_part(
        entries@[1].1,
        optional_instant(p.last_modified_watermark),
    )
    &&& entries@[2].0@ == "last_sync_at"@ && is_part(
        entries@[2].1,
        optional_instant(p.last_sync_at),
    )
    &&& entries@[3].0@ == "records_seen"@ && is_part(
        entries@[3].1,
        Part::Int(p.records_seen as int),
    )
}

/// A checkpoint as JSON.
pub fn checkpoint_json(p: &Checkpoint) -> (r: Json)
    ensures
        is_checkpoint(r, *p),
{
    let mut key: Vec<(String, Json)> = Vec::new();
    key.push(("entity_type".to_owned(), Json::Text(p.key.entity_type.clone())));
    key.push(("tenant".to_owned(), Json::Text(p.key.tenant.as_str().to_owned())));
    let mut entries: Vec<(String, Json)> = Vec::new();
    entries.push(("key".to_owned(), Json::Object(key)));
    entries.push(
        ("last_modified_watermark".to_owned(), instant_or_null(p.last_modified_watermark)),
    );
    entries.push(("last_sync_at".to_owned(), instant_or_null(p.last_sync_at)));
    entries.push(("records_seen".to_owned(), Json::Int(p.records_seen)));
    Json::Object(entries)
}

/// Whether a JSON value is an array of the given checkpoints.
pub open spec fn is_checkpoint_list(j: Json, list: Seq<Checkpoint>) -> bool {
    &&& j matches Json::Array(items)
    &&& items@.len() == list.len()
    &&& forall|i: int| 0 <= i < list.len() ==> is_checkpoint(#[trigger] items@[i], list[i])
}

fn checkpoint_list(list: &Vec<Checkpoint>) -> (r: Json)
    ensures
        is_checkpoint_list(r, list@),
{
    let mut items: Vec<Json> = Vec::new();
    let mut i: usize = 0;
    while i < list.len()
        invariant
            i <= list.len(),
            items@.len() == i,
            forall|k: int| 0 <= k < i ==> is_checkpoint(#[trigger] items@[k], list@[k]),
        decreases list.len() - i,
    {
        items.push(checkpoint_json(&list[i]));
        i += 1;
    }
    Json::Array(items)
}

/// The value of the member with the given number, where the reply succeeded and that
/// member has the given name.
pub open spec fn shown(r: Reply, members: int, at: int, name: Seq<char>) -> Option<Json> {
    match r.body {
        Json::Object(entries) => if r.status == 200 && entries@.len() == members
            && entries@[at].0@ == name {
            Some(entries@[at].1)
        } else {
            None
        },
        _ => None,
    }
}

/// Whether a reply of so many members says `ok` in the one with the given number.
pub open spec fn says_ok(r: Reply, members: int, at: int) -> bool {
    shown(r, members, at, "status"@) matches Some(j) && is_part(j, Part::Text("ok"@))
}

fn status_ok() -> (r: (String, Json))
    ensures
        r.0@ == "status"@,
        is_part(r.1, Part::Text("ok"@)),
{
    ("status".to_owned(), Json::Text("ok".to_owned()))
}

/// A reply that says nothing but that the request was carried out.
pub fn done_reply() -> (r: Reply)
    ensures
        r.status == 200,
        is_object(r.body, seq![("status"@, Part::Text("ok"@))]),
{
    let mut entries: Vec<(String, Json)> = Vec::new();
    entries.push(status_ok());
    Reply { status: 200, body: Json::Object(entries) }
}

/// The reply to a backfill that was started: its plan, how many chunks it was cut into,
/// and whether they move the watermark.
pub fn backfill_started_reply(plan: &BackfillPlan, chunks_created: u32, advance_watermark: bool) -> (r:
    Reply)
    ensures
        shown(r, 4, 0, "advance_watermark"@) == Some(Json::Bool(advance_watermark)),
        shown(r, 4, 1, "chunks_created"@) == Some(Json::Int(chunks_created as i64)),
        shown(r, 4, 2, "plan"@) matches Some(j) && is_object(j, plan_parts(*plan)),
        says_ok(r, 4, 3),
{
    let mut entries: Vec<(String, Json)> = Vec::new();
    entries.push(("advance_watermark".to_owned(), Json::Bool(advance_watermark)));
    entries.push(("chunks_created".to_owned(), Json::Int(chunks_created as i64)));
    entries.push(("plan".to_owned(), plan_json(plan)));
    entries.push(status_ok());
    Reply { status: 200, body: Json::Object(entries) }
}

/// The reply to a query for one plan: the plan and its chunks.
pub fn plan_reply(plan: &BackfillPlan, chunks: &Vec<BackfillChunk>) -> (r: Reply)
    ensures
        shown(r, 3, 0, "chunks"@) matches Some(j) && is_chunk_list(j, chunks@),
        shown(r, 3, 1, "plan"@) matches Some(j) && is_object(j, plan_parts(*plan)),
        says_ok(r, 3, 2),
{
    let mut entries: Vec<(String, Json)> = Vec::new();
    entries.push(("chunks".to_owned(), chunk_list(chunks)));
    entries.push(("plan".to_owned(), plan_json(plan)));
    entries.push(status_ok());
    Reply { status: 200, body: Json::Object(entries) }
}

/// The reply to the creation of a schedule.
pub fn schedule_reply(schedule: &SyncSchedule) -> (r: Reply)
    ensures
        shown(r, 2, 0, "schedule"@) matches Some(j) && is_object(j, schedule_parts(*schedule)),
        says_ok(r, 2, 1),
{
    let mut entries: Vec<(String, Json)> = Vec::new();
    entries.push(("schedule".to_owned(), schedule_json(schedule)));
    entries.push(status_ok());
    Reply { status: 200, body: Json::Object(entries) }
}

/// The reply to a query for plans.
pub fn plans_reply(list: &Vec<BackfillPlan>) -> (r: Reply)
    ensures
        shown(r, 2, 0, "plans"@) matches Some(j) && is_plan_list(j, list@),
        says_ok(r, 2, 1),
{
    let mut entries: Vec<(String, Json)> = Vec::new();
    entries.push(("plans".to_owned(), plan_list(list)));
    entries.push(status_ok());
    Reply { status: 200, body: Json::Object(entries) }
}

/// The reply to a query for schedules.
pub fn schedules_reply(list: &Vec<SyncSchedule>) -> (r: Reply)
    ensures
        shown(r, 2, 0, "schedules"@) matches Some(j) && is_schedule_list(j, list@),
        says_ok(r, 2, 1),
{
    let mut entries: Vec<(String, Json)> = Vec::new();
    entries.push(("schedules".to_owned(), schedule_list(list)));
    entries.push(status_ok());
    Reply { status: 200, body: Json::Object(entries) }
}

/// The reply to a query for runs.
pub fn runs_reply(list: &Vec<SyncRun>) -> (r: Reply)
    ensures
        shown(r, 2, 0, "runs"@) matches Some(j) && is_run_list(j, list@),
        says_ok(r, 2, 1),
{
    let mut entries: Vec<(String, Json)> = Vec::new();
    entries.push(("runs".to_owned(), run_list(list)));
    entries.push(status_ok());
    Reply { status: 200, body: Json::Object(entries) }
}

/// The reply to a query for checkpoints.
pub fn checkpoints_reply(list: &Vec<Checkpoint>) -> (r: Reply)
    ensures
        shown(r, 2, 0, "checkpoints"@) matches Some(j) && is_checkpoint_list(j, list@),
        says_ok(r, 2, 1),
{
    let mut entries: Vec<(String, Json)> = Vec::new();
    entries.push(("checkpoints".to_owned(), checkpoint_list(list)));
    entries.push(status_ok());
    Reply { status: 200, body: Json::Object(entries) }
}

/// The reply to a query for what is stored, entity by entity.
pub fn summary_reply(list: &Vec<BronzeSummary>) -> (r: Reply)
    ensures
        says_ok(r, 2, 0),
        shown(r, 2, 1, "summary"@) matches Some(j) && is_summary_list(j, list@),
{
    let mut entries: Vec<(String, Json)> = Vec::new();
    entries.push(status_ok());
    entries.push(("summary".to_owned(), summary_list(list)));
    Reply { status: 200, body: Json::Object(entries) }
}

/// A plan is shown as it stands: its status, its range, and how many of its chunks are done.
#[verifier::rlimit(40)]
pub proof fn plans_are_shown_as_they_stand(j: Json, p: BackfillPlan)
    requires
        is_object(j, plan_parts(p)),
    ensures
        j.field("chunk_size_days"@) matches Some(v) && is_part(v, Part::Int(p.chunk_size_days as int)),
        j.field("completed_at"@) matches Some(v) && is_part(v, optional_instant(p.completed_at)),
        j.field("completed_chunks"@) matches Some(v) && is_part(v, Part::Int(p.completed_chunks as int)),
        text_in(j, "created_at"@) == Some(p.created_at.zulu_text()),
        text_in(j, "end_date"@) == Some(p.end_date.text()),
        j.field("entity_types"@) matches Some(v) && is_part(v, Part::Texts(texts(p.entity_types@))),
        j.field("error_message"@) matches Some(v) && is_part(v, optional_text(p.error_message)),
        j.field("failed_chunks"@) matches Some(v) && is_part(v, Part::Int(p.failed_chunks as int)),
        text_in(j, "plan_id"@) == Some(uuid_hyphenated(p.plan_id)),
        text_in(j, "start_date"@) == Some(p.start_date.text()),
        j.field("started_at"@) matches Some(v) && is_part(v, optional_instant(p.started_at)),
        text_in(j, "status"@) == Some(p.status.name()),
        text_in(j, "tenant_id"@) == Some(p.tenant_id@),
        j.field("total_chunks"@) matches Some(v) && is_part(v, Part::Int(p.total_chunks as int)),
        text_in(j, "triggered_by"@) == Some(p.triggered_by@),
{
    reveal_strlit("chunk_size_days");
    reveal_strlit("completed_at");
    reveal_strlit("completed_chunks");
    reveal_strlit("created_at");
    reveal_strlit("end_date");
    reveal_strlit("entity_types");
    reveal_strlit("error_message");
    reveal_strlit("failed_chunks");
    reveal_strlit("plan_id");
    reveal_strlit("start_date");
    reveal_strlit("started_at");
    reveal_strlit("status");
    reveal_strlit("tenant_id");
    reveal_strlit("total_chunks");
    reveal_strlit("triggered_by");
    assert("chunk_size_days"@.len() == 15);
    assert("completed_at"@.len() == 12);
    assert("completed_chunks"@.len() == 16);
    assert("created_at"@.len() == 10);
    assert("end_date"@.len() == 8);
    assert("entity_types"@.len() == 12);
    assert("error_message"@.len() == 13);
    assert("failed_chunks"@.len() == 13);
    assert("plan_id"@.len() == 7);
    assert("start_date"@.len() == 10);
    assert("started_at"@.len() == 10);
    assert("status"@.len() == 6);
    assert("tenant_id"@.len() == 9);
    assert("total_chunks"@.len() == 12);
    assert("triggered_by"@.len() == 12);
    assert("completed_at"@[0] == 'c');
    assert("created_at"@[0] == 'c');
    assert("entity_types"@[0] == 'e');
    assert("error_message"@[0] == 'e');
    assert("failed_chunks"@[0] == 'f');
    assert("start_date"@[0] == 's');
    assert("start_date"@[5] == '_');
    assert("started_at"@[0] == 's');
    assert("started_at"@[5] == 'e');
    assert("total_chunks"@[0] == 't');
    assert("total_chunks"@[1] == 'o');
    assert("triggered_by"@[0] == 't');
    assert("triggered_by"@[1] == 'r');
    let parts = plan_parts(p);
    assert(parts[0].0 == "chunk_size_days"@);
    assert(parts[1].0 == "completed_at"@);
    assert(parts[2].0 == "completed_chunks"@);
    assert(parts[3].0 == "created_at"@);
    assert(parts[4].0 == "end_date"@);
    assert(parts[5].0 == "entity_types"@);
    assert(parts[6].0 == "error_message"@);
    assert(parts[7].0 == "failed_chunks"@);
    assert(parts[8].0 == "plan_id"@);
    assert(parts[9].0 == "start_date"@);
    assert(parts[10].0 == "started_at"@);
    assert(parts[11].0 == "status"@);
    assert(parts[12].0 == "tenant_id"@);
    assert(parts[13].0 == "total_chunks"@);
    assert(parts[14].0 == "triggered_by"@);
    objects_have_their_parts(j, parts, 0);
    objects_have_their_parts(j, parts, 1);
    objects_have_their_parts(j, parts, 2);
    objects_have_their_parts(j, parts, 3);
    objects_have_their_parts(j, parts, 4);
    objects_have_their_parts(j, parts, 5);
    objects_have_their_parts(j, parts, 6);
    objects_have_their_parts(j, parts, 7);
    objects_have_their_parts(j, parts, 8);
    objects_have_their_parts(j, parts, 9);
    objects_have_their_parts(j, parts, 10);
    objects_have_their_parts(j, parts, 11);
    objects_have_their_parts(j, parts, 12);
    objects_have_their_parts(j, parts, 13);
    objects_have_their_parts(j, parts, 14);
}

/// A chunk is shown as it stands: its status, its window and its attempts.
#[verifier::rlimit(40)]
pub proof fn chunks_are_shown_as_they_stand(j: Json, p: BackfillChunk)
    requires
        is_object(j, chunk_parts(p)),
    ensures
        j.field("attempt_count"@) matches Some(v) && is_part(v, Part::Int(p.attempt_count as int)),
        text_in(j, "chunk_id"@) == Some(uuid_hyphenated(p.chunk_id)),
        text_in(j, "created_at"@) == Some(p.created_at.zulu_text()),
        text_in(j, "entity_type"@) == Some(p.entity_type@),
        j.field("error_message"@) matches Some(v) && is_part(v, optional_text(p.error_message)),
        j.field("finished_at"@) matches Some(v) && is_part(v, optional_instant(p.finished_at)),
        j.field("max_attempts"@) matches Some(v) && is_part(v, Part::Int(p.max_attempts as int)),
        text_in(j, "plan_id"@) == Some(uuid_hyphenated(p.plan_id)),
        j.field("run_id"@) matches Some(v) && is_part(v, optional_id(p.run_id)),
        j.field("started_at"@) matches Some(v) && is_part(v, optional_instant(p.started_at)),
        text_in(j, "status"@) == Some(p.status.name()),
        text_in(j, "tenant_id"@) == Some(p.tenant_id@),
        text_in(j, "window_end"@) == Some(p.window_end.text()),
        text_in(j, "window_start"@) == Some(p.window_start.text()),
{
    reveal_strlit("attempt_count");
    reveal_strlit("chunk_id");
    reveal_strlit("created_at");
    reveal_strlit("entity_type");
    reveal_strlit("error_message");
    reveal_strlit("finished_at");
    reveal_strlit("max_attempts");
    reveal_strlit("plan_id");
    reveal_strlit("run_id");
    reveal_strlit("started_at");
    reveal_strlit("status");
    reveal_strlit("tenant_id");
    reveal_strlit("window_end");
    reveal_strlit("window_start");
    assert("attempt_count"@.len() == 13);
    assert("chunk_id"@.len() == 8);
    assert("created_at"@.len() == 10);
    assert("entity_type"@.len() == 11);
    assert("error_message"@.len() == 13);
    assert("finished_at"@.len() == 11);
    assert("max_attempts"@.len() == 12);
    assert("plan_id"@.len() == 7);
    assert("run_id"@.len() == 6);
    assert("started_at"@.len() == 10);
    assert("status"@.len() == 6);
    assert("tenant_id"@.len() == 9);
    assert("window_end"@.len() == 10);
    assert("window_start"@.len() == 12);
    assert("attempt_count"@[0] == 'a');
    assert("created_at"@[0] == 'c');
    assert("entity_type"@[0] == 'e');
    assert("error_message"@[0] == 'e');
    assert("finished_at"@[0] == 'f');
    assert("max_attempts"@[0] == 'm');
    assert("run_id"@[0] == 'r');
    assert("started_at"@[0] == 's');
    assert("status"@[0] == 's');
    assert("window_end"@[0] == 'w');
    assert("window_start"@[0] == 'w');
    let parts = chunk_parts(p);
    assert(parts[0].0 == "attempt_count"@);
    assert(parts[1].0 == "chunk_id"@);
    assert(parts[2].0 == "created_at"@);
    assert(parts[3].0 == "entity_type"@);
    assert(parts[4].0 == "error_message"@);
    assert(parts[5].0 == "finished_at"@);
    assert(parts[6].0 == "max_attempts"@);
    assert(parts[7].0 == "plan_id"@);
    assert(parts[8].0 == "run_id"@);
    assert(parts[9].0 == "started_at"@);
    assert(parts[10].0 == "status"@);
    assert(parts[11].0 == "tenant_id"@);
    assert(parts[12].0 == "window_end"@);
    assert(parts[13].0 == "window_start"@);
    objects_have_their_parts(j, parts, 0);
    objects_have_their_parts(j, parts, 1);
    objects_have_their_parts(j, parts, 2);
    objects_have_their_parts(j, parts, 3);
    objects_have_their_parts(j, parts, 4);
    objects_have_their_parts(j, parts, 5);
    objects_have_their_parts(j, parts, 6);
    objects_have_their_parts(j, parts, 7);
    objects_have_their_parts(j, parts, 8);
    objects_have_their_parts(j, parts, 9);
    objects_have_their_parts(j, parts, 10);
    objects_have_their_parts(j, parts, 11);
    objects_have_their_parts(j, parts, 12);
    objects_have_their_parts(j, parts, 13);
}

/// A schedule is shown as it stands: its expression, its entities and when it last fired.
#[verifier::rlimit(40)]
pub proof fn schedules_are_shown_as_they_stand(j: Json, p: SyncSchedule)
    requires
        is_object(j, schedule_parts(p)),
    ensures
        text_in(j, "created_at"@) == Some(p.created_at.zulu_text()),
        text_in(j, "cron_expression"@) == Some(p.cron_expression@),
        j.field("disabled_at"@) matches Some(v) && is_part(v, optional_instant(p.disabled_at)),
        j.field("entities"@) matches Some(v) && is_part(v, Part::Texts(texts(p.entities@))),
        j.field("from_date"@) matches Some(v) && is_part(v, optional_day(p.from_date)),
        j.field("last_triggered_at"@) matches Some(v) && is_part(v, optional_instant(p.last_triggered_at)),
        text_in(j, "name"@) == Some(p.name@),
        text_in(j, "schedule_id"@) == Some(uuid_hyphenated(p.schedule_id)),
        text_in(j, "tenant_id"@) == Some(p.tenant_id@),
        j.field("to_date"@) matches Some(v) && is_part(v, optional_day(p.to_date)),
{
    reveal_strlit("created_at");
    reveal_strlit("cron_expression");
    reveal_strlit("disabled_at");
    reveal_strlit("entities");
    reveal_strlit("from_date");
    reveal_strlit("last_triggered_at");
    reveal_strlit("name");
    reveal_strlit("schedule_id");
    reveal_strlit("tenant_id");
    reveal_strlit("to_date");
    assert("created_at"@.len() == 10);
    assert("cron_expression"@.len() == 15);
    assert("disabled_at"@.len() == 11);
    assert("entities"@.len() == 8);
    assert("from_date"@.len() == 9);
    assert("last_triggered_at"@.len() == 17);
    assert("name"@.len() == 4);
    assert("schedule_id"@.len() == 11);
    assert("tenant_id"@.len() == 9);
    assert("to_date"@.len() == 7);
    assert("disabled_at"@[0] == 'd');
    assert("from_date"@[0] == 'f');
    assert("schedule_id"@[0] == 's');
    assert("tenant_id"@[0] == 't');
    let parts = schedule_parts(p);
    assert(parts[0].0 == "created_at"@);
    assert(parts[1].0 == "cron_expression"@);
    assert(parts[2].0 == "disabled_at"@);
    assert(parts[3].0 == "entities"@);
    assert(parts[4].0 == "from_date"@);
    assert(parts[5].0 == "last_triggered_at"@);
    assert(parts[6].0 == "name"@);
    assert(parts[7].0 == "schedule_id"@);
    assert(parts[8].0 == "tenant_id"@);
    assert(parts[9].0 == "to_date"@);
    objects_have_their_parts(j, parts, 0);
    objects_have_their_parts(j, parts, 1);
    objects_have_their_parts(j, parts, 2);
    objects_have_their_parts(j, parts, 3);
    objects_have_their_parts(j, parts, 4);
    objects_have_their_parts(j, parts, 5);
    objects_have_their_parts(j, parts, 6);
    objects_have_their_parts(j, parts, 7);
    objects_have_their_parts(j, parts, 8);
    objects_have_their_parts(j, parts, 9);
}

/// A run is shown as it stands: its status and its counts.
#[verifier::rlimit(40)]
pub proof fn runs_are_shown_as_they_stand(j: Json, p: SyncRun)
    requires
        is_object(j, run_parts(p)),
    ensures
        text_in(j, "entity_type"@) == Some(p.entity_type@),
        j.field("error_message"@) matches Some(v) && is_part(v, optional_text(p.error_message)),
        j.field("finished_at"@) matches Some(v) && is_part(v, optional_instant(p.finished_at)),
        text_in(j, "job_type"@) == Some(p.job_type@),
        j.field("records_failed"@) matches Some(v) && is_part(v, Part::Int(p.records_failed as int)),
        j.field("records_fetched"@) matches Some(v) && is_part(v, Part::Int(p.records_fetched as int)),
        j.field("records_loaded"@) matches Some(v) && is_part(v, Part::Int(p.records_loaded as int)),
        text_in(j, "run_id"@) == Some(uuid_hyphenated(p.run_id)),
        text_in(j, "started_at"@) == Some(p.started_at.zulu_text()),
        text_in(j, "status"@) == Some(p.status.name()),
        text_in(j, "tenant_id"@) == Some(p.tenant_id@),
        j.field("trigger_id"@) matches Some(v) && is_part(v, optional_id(p.trigger_id)),
        text_in(j, "triggered_by"@) == Some(p.triggered_by@),
{
    reveal_strlit("entity_type");
    reveal_strlit("error_message");
    reveal_strlit("finished_at");
    reveal_strlit("job_type");
    reveal_strlit("records_failed");
    reveal_strlit("records_fetched");
    reveal_strlit("records_loaded");
    reveal_strlit("run_id");
    reveal_strlit("started_at");
    reveal_strlit("status");
    reveal_strlit("tenant_id");
    reveal_strlit("trigger_id");
    reveal_strlit("triggered_by");
    assert("entity_type"@.len() == 11);
    assert("error_message"@.len() == 13);
    assert("finished_at"@.len() == 11);
    assert("job_type"@.len() == 8);
    assert("records_failed"@.len() == 14);
    assert("records_fetched"@.len() == 15);
    assert("records_loaded"@.len() == 14);
    assert("run_id"@.len() == 6);
    assert("started_at"@.len() == 10);
    assert("status"@.len() == 6);
    assert("tenant_id"@.len() == 9);
    assert("trigger_id"@.len() == 10);
    assert("triggered_by"@.len() == 12);
    assert("entity_type"@[0] == 'e');
    assert("finished_at"@[0] == 'f');
    assert("records_failed"@[8] == 'f');
    assert("records_loaded"@[8] == 'l');
    assert("run_id"@[0] == 'r');
    assert("started_at"@[0] == 's');
    assert("status"@[0] == 's');
    assert("trigger_id"@[0] == 't');
    let parts = run_parts(p);
    assert(parts[0].0 == "entity_type"@);
    assert(parts[1].0 == "error_message"@);
    assert(parts[2].0 == "finished_at"@);
    assert(parts[3].0 == "job_type"@);
    assert(parts[4].0 == "records_failed"@);
    assert(parts[5].0 == "records_fetched"@);
    assert(parts[6].0 == "records_loaded"@);
    assert(parts[7].0 == "run_id"@);
    assert(parts[8].0 == "started_at"@);
    assert(parts[9].0 == "status"@);
    assert(parts[10].0 == "tenant_id"@);
    assert(parts[11].0 == "trigger_id"@);
    assert(parts[12].0 == "triggered_by"@);
    objects_have_their_parts(j, parts, 0);
    objects_have_their_parts(j, parts, 1);
    objects_have_their_parts(j, parts, 2);
    objects_have_their_parts(j, parts, 3);
    objects_have_their_parts(j, parts, 4);
    objects_have_their_parts(j, parts, 5);
    objects_have_their_parts(j, parts, 6);
    objects_have_their_parts(j, parts, 7);
    objects_have_their_parts(j, parts, 8);
    objects_have_their_parts(j, parts, 9);
    objects_have_their_parts(j, parts, 10);
    objects_have_their_parts(j, parts, 11);
    objects_have_their_parts(j, parts, 12);
}

/// What is stored of an entity is shown with its counts.
pub proof fn summaries_are_shown_as_they_stand(j: Json, p: BronzeSummary)
    requires
        is_object(j, summary_parts(p)),
    ensures
        j.field("distinct_runs_touching"@) matches Some(v) && is_part(v, Part::Int(p.distinct_runs_touching as int)),
        text_in(j, "entity_type"@) == Some(p.entity_type@),
        j.field("most_recent"@) matches Some(v) && is_part(v, optional_instant(p.most_recent)),
        j.field("row_count"@) matches Some(v) && is_part(v, Part::Int(p.row_count as int)),
{
    reveal_strlit("distinct_runs_touching");
    reveal_strlit("entity_type");
    reveal_strlit("most_recent");
    reveal_strlit("row_count");
    assert("distinct_runs_touching"@.len() == 22);
    assert("entity_type"@.len() == 11);
    assert("most_recent"@.len() == 11);
    assert("row_count"@.len() == 9);
    assert("entity_type"@[0] == 'e');
    assert("most_recent"@[0] == 'm');
    let parts = summary_parts(p);
    assert(parts[0].0 == "distinct_runs_touching"@);
    assert(parts[1].0 == "entity_type"@);
    assert(parts[2].0 == "most_recent"@);
    assert(parts[3].0 == "row_count"@);
    objects_have_their_parts(j, parts, 0);
    objects_have_their_parts(j, parts, 1);
    objects_have_their_parts(j, parts, 2);
    objects_have_their_parts(j, parts, 3);
}

/// What is not there is shown as null; an instant, a day and an id as their texts.
pub proof fn missing_values_are_null(at: Timestamp, day: Date, id: u128, text: String)
    ensures
        optional_instant(None) is Null,
        optional_day(None) is Null,
        optional_id(None) is Null,
        optional_text(None) is Null,
        optional_instant(Some(at)) == Part::Text(at.zulu_text()),
        optional_day(Some(day)) == Part::Text(day.text()),
        optional_id(Some(id)) == Part::Text(uuid_hyphenated(id)),
        optional_text(Some(text)) == Part::Text(text@),
{
}

} // verus!
