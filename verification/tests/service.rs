use xero_service::backfill::{enumerate_chunks, BackfillChunk, BackfillPlan, NewBackfillPlan};
use xero_service::bronze::BronzeSummary;
use xero_service::calendar::{Date, Timestamp};
use xero_service::json::{parse, Json};
use xero_service::listing::{
    backfill_started_reply, checkpoints_reply, chunk_json, done_reply, plan_reply, plans_reply,
    runs_reply, schedule_json, schedule_reply, schedules_reply, summary_reply,
};
use xero_service::service::{
    batch_reply, check_schedule, chunk_options, cron_options, default_chunk_size,
    default_replay_limit, error_reply, filter_runs, finish_chunk, firing, firing_entities,
    found_plan, found_schedule, health_reply, is_due, new_backfill, new_schedule, no_token_reply,
    parse_entities, path_entity, path_plan_id, path_schedule_id, ready_reply, replay_limit,
    replay_reply, request_entities, run_next_reply, run_result, runs_limit, schedule_entities,
    start_chunk, store_failed_reply, sync_options, sync_reply, try_claim, BatchRun,
    BqReplayRequest, ChunkStep, CreateScheduleRequest, Firing, Reply, RunWindow,
    StartBackfillRequest, SyncRequest,
};
use xero_service::store::{Checkpoint, CheckpointKey, RunStatus, SyncRun, SyncSchedule};
use xero_service::{EntityType, TenantId};

fn d(y: i32, m: u32, day: u32) -> Date {
    Date::from_ymd_opt(y, m, day).expect("valid date")
}

fn at(secs: i64) -> Timestamp {
    Timestamp::from_unix(secs, 0).unwrap()
}

fn json(text: &str) -> Json {
    parse(text.as_bytes()).expect("valid JSON")
}

fn error_text(reply: &Reply) -> (u16, String) {
    (reply.status, reply.body.get("error").unwrap().as_str().unwrap().to_owned())
}

fn refused<T>(r: Result<T, Reply>) -> (u16, String) {
    match r {
        Ok(_) => panic!("not refused"),
        Err(reply) => error_text(&reply),
    }
}

#[test]
fn checks_report_health_and_readiness() {
    assert_eq!(
        health_reply().body.to_text(),
        r#"{"service":"xero_service_v2","status":"ok"}"#
    );
    assert_eq!(ready_reply(Ok(())).body.to_text(), r#"{"postgres":"up","status":"ok"}"#);
    let down = ready_reply(Err("gone".to_owned()));
    assert_eq!(down.status, 503);
    assert_eq!(down.body.to_text(), r#"{"postgres":"gone","status":"error"}"#);
    assert_eq!(error_text(&error_reply(418, "teapot")), (418, "teapot".to_owned()));
}

#[test]
fn entities_in_requests_have_to_be_known() {
    assert_eq!(path_entity("bills").unwrap(), EntityType::Bills);
    assert_eq!(
        refused(path_entity("banana")),
        (400, "unknown entity: config: unknown entity: banana".to_owned())
    );
    let names = |list: &[&str]| list.iter().map(|s| s.to_string()).collect::<Vec<_>>();
    assert_eq!(
        parse_entities(&names(&["bills", "quotes"])).unwrap(),
        [EntityType::Bills, EntityType::Quotes]
    );
    assert_eq!(
        parse_entities(&names(&["bills", "x", "y"])).unwrap_err().message(),
        "config: unknown entity: x"
    );
    assert_eq!(
        refused(request_entities(&Vec::new())),
        (400, "entities must not be empty".to_owned())
    );
    assert_eq!(
        refused(request_entities(&names(&["x"]))),
        (400, "config: unknown entity: x".to_owned())
    );
    assert_eq!(request_entities(&names(&["users"])).unwrap(), [EntityType::Users]);
}

#[test]
fn run_options_have_defaults_by_origin() {
    let mut window = RunWindow::open();
    window.business_date_after = Some(d(2026, 1, 1));
    window.advance_watermark = true;
    let mut request = SyncRequest { window, job_type: None, triggered_by: None };
    let o = sync_options(&request, 5);
    assert_eq!((o.job_type.as_str(), o.triggered_by.as_str()), ("manual", "manual-api"));
    assert_eq!(o.trigger_id, Some(5));
    assert_eq!(o.business_date_after, Some(d(2026, 1, 1)));
    assert!(o.advance_watermark);
    let bills = || vec![EntityType::Bills];
    let (_, o) = BatchRun::requested(&request, bills(), 5).next().unwrap();
    assert_eq!((o.job_type.as_str(), o.triggered_by.as_str()), ("backfill", "manual-batch"));
    assert_eq!((o.trigger_id, o.business_date_after), (Some(5), Some(d(2026, 1, 1))));
    request.job_type = Some("j".to_owned());
    request.triggered_by = Some("me".to_owned());
    let (_, o) = BatchRun::requested(&request, bills(), 5).next().unwrap();
    assert_eq!((o.job_type.as_str(), o.triggered_by.as_str()), ("j", "me"));
    let (_, o) = BatchRun::triggered(9, &window, bills(), 5).next().unwrap();
    assert_eq!((o.job_type.as_str(), o.triggered_by.as_str()), ("scheduled", "manual-trigger"));
    let o = cron_options(1, 2);
    assert_eq!(o.job_type, "cron");
    assert_eq!(o.triggered_by, "cron:00000000-0000-0000-0000-000000000001");
    assert!(o.business_date_after.is_none() && !o.advance_watermark);
}

#[test]
fn run_replies_name_trigger_and_outcome() {
    assert_eq!(
        sync_reply(1, Ok(2)).body.to_text(),
        r#"{"run_id":"00000000-0000-0000-0000-000000000002","status":"ok","trigger_id":"00000000-0000-0000-0000-000000000001"}"#
    );
    assert_eq!(error_text(&sync_reply(1, Err("bad".to_owned()))), (500, "bad".to_owned()));
    let ok = run_result(&EntityType::Bills, Ok(2));
    let failed = run_result(&EntityType::Users, Err("no".to_owned()));
    assert_eq!(failed.to_text(), r#"{"entity":"users","error":"no","status":"error"}"#);
    let reply = batch_reply(None, 1, vec![ok, failed]);
    assert_eq!(
        reply.body.to_text(),
        r#"{"results":[{"entity":"bills","run_id":"00000000-0000-0000-0000-000000000002","status":"ok"},{"entity":"users","error":"no","status":"error"}],"status":"ok","trigger_id":"00000000-0000-0000-0000-000000000001"}"#
    );
    let reply = batch_reply(Some(3), 1, Vec::new());
    assert_eq!(
        reply.body.get("schedule_id").unwrap().as_str(),
        Some("00000000-0000-0000-0000-000000000003")
    );
}

#[test]
fn limits_are_held_to_their_ranges() {
    assert_eq!(runs_limit(None), 100);
    assert_eq!(runs_limit(Some(0)), 1);
    assert_eq!(runs_limit(Some(5000)), 1000);
    let request = |limit: i64| Some(BqReplayRequest { entity_type: None, limit });
    assert_eq!(replay_limit(&None), 1);
    assert_eq!(replay_limit(&request(default_replay_limit())), 500);
    assert_eq!(replay_limit(&request(i64::MAX)), 5000);
    assert_eq!(default_chunk_size(), 30);
    assert_eq!(
        replay_reply(Ok((7, 3))).body.to_text(),
        r#"{"accepted":3,"candidates":7,"remaining":4,"status":"ok"}"#
    );
    assert_eq!(error_text(&replay_reply(Err("x".to_owned()))), (500, "x".to_owned()));
}

#[test]
fn runs_are_filtered_by_entity() {
    let run = |entity: &str| SyncRun {
        run_id: 1,
        trigger_id: None,
        tenant_id: "t".into(),
        entity_type: entity.into(),
        job_type: "manual".into(),
        status: RunStatus::Running,
        records_fetched: 0,
        records_loaded: 0,
        records_failed: 0,
        error_message: None,
        started_at: at(0),
        finished_at: None,
        triggered_by: "x".into(),
    };
    let runs = || vec![run("bills"), run("users"), run("bills")];
    assert_eq!(filter_runs(runs(), None).len(), 3);
    assert_eq!(filter_runs(runs(), Some("bills")).len(), 2);
    assert!(filter_runs(runs(), Some("x")).is_empty());
}

fn schedule_request(name: &str, entities: &[&str]) -> CreateScheduleRequest {
    CreateScheduleRequest {
        name: name.to_owned(),
        cron_expression: "0 0 * * * *".to_owned(),
        entities: entities.iter().map(|s| s.to_string()).collect(),
        from_date: None,
        to_date: Some(d(2026, 1, 1)),
    }
}

#[test]
fn schedules_are_validated_before_they_are_created() {
    let s = new_schedule(4, "t".to_owned(), schedule_request("nightly", &["bills"])).unwrap();
    assert_eq!(s.entities, ["bills"]);
    assert_eq!(s.schedule_id, 4);
    assert_eq!(
        refused(new_schedule(4, "t".to_owned(), schedule_request(" ", &[]))),
        (400, "entities must not be empty".to_owned())
    );
    assert_eq!(
        refused(new_schedule(4, "t".to_owned(), schedule_request(" ", &["x"]))),
        (400, "name must not be empty".to_owned())
    );
    assert_eq!(
        refused(new_schedule(4, "t".to_owned(), schedule_request("n", &["bills", "x"]))),
        (400, "config: unknown entity: x".to_owned())
    );
    let mut s = SyncSchedule::created(s, at(10));
    assert!(s.is_visible_to("t") && !s.is_visible_to("u"));
    s.touch_last_triggered(at(11));
    assert_eq!(s.last_triggered_at, Some(at(11)));
    s.disable(at(12));
    s.disable(at(13));
    s.touch_last_triggered(at(14));
    assert_eq!((s.disabled_at, s.last_triggered_at), (Some(at(12)), Some(at(11))));
    assert!(!s.is_visible_to("t"));
    assert_eq!(refused(found_schedule(None)), (404, "schedule not found".to_owned()));
    assert_eq!(schedule_entities(&s).unwrap(), [EntityType::Bills]);
    s.entities = Vec::new();
    assert!(schedule_entities(&s).unwrap().is_empty());
    s.entities = vec!["x".to_owned()];
    assert_eq!(refused(schedule_entities(&s)), (400, "config: unknown entity: x".to_owned()));
    assert!(found_schedule(Some(s)).is_ok());
}

#[test]
fn ids_in_paths_are_uuids() {
    assert_eq!(path_plan_id("00000000-0000-0000-0000-00000000000a").unwrap(), 10);
    assert_eq!(refused(path_plan_id("x")), (400, "invalid plan_id".to_owned()));
    assert_eq!(path_schedule_id("0000000000000000000000000000000A").unwrap(), 10);
    let (status, text) = refused(path_schedule_id("x"));
    assert_eq!(status, 400);
    let want = uuid::Uuid::parse_str("x").unwrap_err().to_string();
    assert_eq!(text, format!("invalid schedule id: {want}"));
}

fn schedule(cron: &str, created: i64, last: Option<i64>) -> SyncSchedule {
    let mut request = schedule_request("n", &["bills"]);
    request.cron_expression = cron.to_owned();
    let mut s = SyncSchedule::created(new_schedule(1, "t".to_owned(), request).unwrap(), at(created));
    s.last_triggered_at = last.map(at);
    s
}

#[test]
fn schedules_fire_once_their_next_event_has_come() {
    let hourly = "0 0 * * * *";
    assert!(matches!(check_schedule(&schedule(hourly, 100, None), &at(3599)), Firing::NotDue));
    assert!(matches!(check_schedule(&schedule(hourly, 100, None), &at(3600)), Firing::Due(3600)));
    assert!(matches!(
        check_schedule(&schedule(hourly, 100, Some(3605)), &at(7000)),
        Firing::NotDue
    ));
    assert!(matches!(
        check_schedule(&schedule(hourly, 100, Some(3600)), &at(7200)),
        Firing::Due(7200)
    ));
    assert!(matches!(
        check_schedule(&schedule("every now and then", 100, None), &at(9999)),
        Firing::Invalid(_)
    ));
    assert!(matches!(check_schedule(&schedule("0 0 0 1 1 * 2001", 2_000_000_000, None), &at(2_100_000_000)), Firing::NotDue));
    assert!(matches!(firing(Ok(None), &at(0)), Firing::NotDue));
    assert!(matches!(firing(Err("bad".to_owned()), &at(0)), Firing::Invalid(_)));
    assert!(is_due(5, 0, &at(5)) && !is_due(5, 1, &at(5)));
}

#[test]
fn only_one_claim_wins() {
    let mut s = schedule("0 0 * * * *", 100, None);
    assert!(try_claim(&mut s, None, at(3600)));
    assert!(!try_claim(&mut s, None, at(3601)));
    assert_eq!(s.last_triggered_at, Some(at(3600)));
    assert!(try_claim(&mut s, Some(at(3600)), at(7200)));
    s.disable(at(7300));
    assert!(!try_claim(&mut s, Some(at(7200)), at(9999)));
}

fn backfill_request(entities: &[&str], end: Date, size: i32) -> StartBackfillRequest {
    StartBackfillRequest {
        entities: entities.iter().map(|s| s.to_string()).collect(),
        start_date: d(2026, 1, 1),
        end_date: end,
        chunk_size_days: size,
        triggered_by: None,
        advance_watermark: false,
    }
}

#[test]
fn backfills_are_validated_before_they_start() {
    let start = |entities: &[&str], end: Date, size: i32| {
        new_backfill("t".to_owned(), backfill_request(entities, end, size))
    };
    let plan = start(&["bills"], d(2026, 2, 1), 30).unwrap();
    assert_eq!(plan.triggered_by, "manual-backfill");
    assert_eq!(plan.entity_types, ["bills"]);
    assert!(!plan.advance_watermark);
    assert_eq!(
        refused(start(&[], d(2026, 2, 1), 30)).1,
        "entities must not be empty"
    );
    assert_eq!(
        refused(start(&["bills"], d(2026, 1, 1), 30)).1,
        "end_date must be strictly after start_date"
    );
    for size in [0, 366] {
        assert_eq!(
            refused(start(&["bills"], d(2026, 2, 1), size)).1,
            "chunk_size_days must be 1..=365"
        );
    }
    assert_eq!(
        refused(start(&["bills", "x"], d(2026, 2, 1), 365)),
        (400, "unknown entity: x".to_owned())
    );
}

#[test]
fn plans_are_shown_to_their_tenant() {
    let plan = || {
        let new = new_backfill("t".to_owned(), backfill_request(&["bills"], d(2026, 2, 1), 30)).unwrap();
        BackfillPlan::created(9, new, 2, at(0))
    };
    assert_eq!(found_plan(Some(plan()), "t").unwrap().plan_id, 9);
    assert_eq!(
        refused(found_plan(Some(plan()), "u")),
        (404, "plan not found for tenant".to_owned())
    );
    assert_eq!(refused(found_plan(None, "t")), (404, "plan not found".to_owned()));
}

fn chunk(entity: &str) -> BackfillChunk {
    let plan = NewBackfillPlan {
        tenant_id: "t".into(),
        entity_types: vec![entity.into()],
        start_date: d(2026, 1, 1),
        end_date: d(2026, 1, 31),
        chunk_size_days: 30,
        triggered_by: "test".into(),
        advance_watermark: false,
    };
    let mut c = enumerate_chunks(&plan, 2).remove(0);
    c.chunk_id = 1;
    c
}

#[test]
fn chunks_run_over_their_window() {
    let c = chunk("bills");
    match start_chunk(&c, Ok(())) {
        ChunkStep::Run(entity, options) => {
            assert_eq!(entity, EntityType::Bills);
            assert_eq!(options.business_date_before, Some(d(2026, 1, 31)));
            assert_eq!(options.job_type, "backfill_chunk");
            assert_eq!(options.triggered_by, "backfill:00000000-0000-0000-0000-000000000002");
            assert_eq!(chunk_options(&c).trigger_id, options.trigger_id);
        }
        other => panic!("unexpected {other:?}"),
    }
    match start_chunk(&c, Err("expired".to_owned())) {
        ChunkStep::Fail(mark, report) => {
            assert_eq!(mark, "expired");
            assert_eq!(
                report.to_text(),
                r#"{"chunk_id":"00000000-0000-0000-0000-000000000001","entity":"bills","error":"auth: expired","status":"failed"}"#
            );
        }
        other => panic!("unexpected {other:?}"),
    }
    match start_chunk(&chunk("x"), Ok(())) {
        ChunkStep::Fail(mark, report) => {
            assert_eq!(mark, "config: unknown entity: x");
            assert_eq!(report.get("error").unwrap().as_str(), Some("config: unknown entity: x"));
        }
        other => panic!("unexpected {other:?}"),
    }
}

#[test]
fn chunks_end_with_their_run() {
    let c = chunk("bills");
    match finish_chunk(&c, Ok(3)) {
        ChunkStep::Succeed(run, report) => {
            assert_eq!(run, 3);
            assert_eq!(
                report.to_text(),
                r#"{"chunk_id":"00000000-0000-0000-0000-000000000001","entity":"bills","plan_id":"00000000-0000-0000-0000-000000000002","run_id":"00000000-0000-0000-0000-000000000003","status":"ok","window_end":"2026-01-31","window_start":"2026-01-01"}"#
            );
        }
        other => panic!("unexpected {other:?}"),
    }
    match finish_chunk(&c, Err("down".to_owned())) {
        ChunkStep::Fail(mark, report) => {
            assert_eq!(mark, "down");
            assert_eq!(report.get("status").unwrap().as_str(), Some("failed"));
            assert_eq!(report.get("window_start").unwrap().as_str(), Some("2026-01-01"));
        }
        other => panic!("unexpected {other:?}"),
    }
    assert_eq!(
        run_next_reply(Ok(None)).body.to_text(),
        r#"{"message":"no pending chunks","status":"idle"}"#
    );
    assert_eq!(error_text(&run_next_reply(Err("x".to_owned()))), (500, "x".to_owned()));
    assert_eq!(run_next_reply(Ok(Some(Json::Null))).status, 200);
}

#[test]
fn ids_are_read_as_replies_show_them() {
    for id in [0u128, 1, 0x0123_4567_89ab_cdef_0f1e_2d3c_4b5a_6978, u128::MAX] {
        let text = run_id_text(id);
        assert_eq!(path_plan_id(&text).unwrap(), id);
        assert_eq!(path_schedule_id(&text).unwrap(), id);
    }
}

fn run_id_text(id: u128) -> String {
    let reply = sync_reply(0, Ok(id));
    reply.body.get("run_id").and_then(|j| j.as_str()).unwrap().to_owned()
}

#[test]
fn fired_schedules_do_not_fire_again_at_once() {
    let every_second = "* * * * * *";
    let mut s = schedule(every_second, 100, None);
    assert!(matches!(check_schedule(&s, &at(100)), Firing::NotDue));
    assert!(matches!(check_schedule(&s, &at(101)), Firing::Due(101)));
    assert!(try_claim(&mut s, None, at(101)));
    assert!(matches!(check_schedule(&s, &at(101)), Firing::NotDue));
    assert!(!try_claim(&mut s, None, at(101)));
}

#[test]
fn batches_run_every_entity_whatever_fails() {
    let window = RunWindow::open();
    let entities = vec![EntityType::Bills, EntityType::Users];
    let mut batch = BatchRun::triggered(3, &window, entities, 1);
    assert_eq!(batch.next().unwrap().0, EntityType::Bills);
    batch.done(Err("no".to_owned()));
    assert_eq!(batch.next().unwrap().0, EntityType::Users);
    batch.done(Ok(2));
    assert!(batch.next().is_none());
    let reply = batch.reply();
    assert_eq!(reply.status, 200);
    assert_eq!(
        reply.body.to_text(),
        r#"{"results":[{"entity":"bills","error":"no","status":"error"},{"entity":"users","run_id":"00000000-0000-0000-0000-000000000002","status":"ok"}],"schedule_id":"00000000-0000-0000-0000-000000000003","status":"ok","trigger_id":"00000000-0000-0000-0000-000000000001"}"#
    );
    assert!(BatchRun::triggered(3, &window, Vec::new(), 1).next().is_none());
}

#[test]
fn firing_passes_over_unknown_entities() {
    let mut s = schedule("* * * * * *", 0, None);
    s.entities = vec!["bills".to_owned(), "nope".to_owned(), "users".to_owned()];
    assert_eq!(firing_entities(&s), [EntityType::Bills, EntityType::Users]);
    s.entities.clear();
    assert!(firing_entities(&s).is_empty());
}

#[test]
fn outside_failures_have_their_status() {
    assert_eq!(error_text(&no_token_reply("x")), (502, "x".to_owned()));
    assert_eq!(error_text(&store_failed_reply("x")), (500, "x".to_owned()));
}

#[test]
fn chunks_move_the_watermark_only_where_asked() {
    for advance in [false, true] {
        let mut request = backfill_request(&["bills", "users"], d(2026, 3, 1), 30);
        request.advance_watermark = advance;
        let plan = new_backfill("t".to_owned(), request).unwrap();
        let chunks = enumerate_chunks(&plan, 2);
        assert_eq!(chunks.len(), 4);
        for c in &chunks {
            assert_eq!(chunk_options(c).advance_watermark, advance);
            match start_chunk(c, Ok(())) {
                ChunkStep::Run(_, options) => assert_eq!(options.advance_watermark, advance),
                other => panic!("unexpected {other:?}"),
            }
        }
    }
}

#[test]
fn started_backfills_are_shown_with_their_plan() {
    let new = new_backfill("t".to_owned(), backfill_request(&["bills"], d(2026, 2, 1), 30)).unwrap();
    let plan = BackfillPlan::created(9, new, 2, at(0));
    let shown = r#"{"chunk_size_days":30,"completed_at":null,"completed_chunks":0,"created_at":"1970-01-01T00:00:00Z","end_date":"2026-02-01","entity_types":["bills"],"error_message":null,"failed_chunks":0,"plan_id":"00000000-0000-0000-0000-000000000009","start_date":"2026-01-01","started_at":null,"status":"pending","tenant_id":"t","total_chunks":2,"triggered_by":"manual-backfill"}"#;
    let reply = backfill_started_reply(&plan, 2, true);
    assert_eq!(reply.status, 200);
    assert_eq!(
        reply.body.to_text(),
        format!(r#"{{"advance_watermark":true,"chunks_created":2,"plan":{shown},"status":"ok"}}"#)
    );
    assert_eq!(
        plan_reply(&plan, &Vec::new()).body.to_text(),
        format!(r#"{{"chunks":[],"plan":{shown},"status":"ok"}}"#)
    );
    assert_eq!(
        plans_reply(&vec![plan]).body.to_text(),
        format!(r#"{{"plans":[{shown}],"status":"ok"}}"#)
    );
}

#[test]
fn stored_values_are_shown_by_name() {
    let mut c = chunk("bills");
    c.created_at = Timestamp::from_unix(1, 5_000_000).unwrap();
    c.claim(at(2));
    c.succeed(7, at(3));
    assert_eq!(
        chunk_json(&c).to_text(),
        r#"{"attempt_count":1,"chunk_id":"00000000-0000-0000-0000-000000000001","created_at":"1970-01-01T00:00:01.005Z","entity_type":"bills","error_message":null,"finished_at":"1970-01-01T00:00:03Z","max_attempts":3,"plan_id":"00000000-0000-0000-0000-000000000002","run_id":"00000000-0000-0000-0000-000000000007","started_at":"1970-01-01T00:00:02Z","status":"succeeded","tenant_id":"t","window_end":"2026-01-31","window_start":"2026-01-01"}"#
    );
    let mut s = schedule("* * * * * *", 0, Some(5));
    s.from_date = Some(d(2026, 1, 1));
    let shown = schedule_json(&s).to_text();
    assert!(shown.starts_with(r#"{"created_at":"1970-01-01T00:00:00Z","cron_expression":"* * * * * *","disabled_at":null,"entities":["#));
    assert!(shown.contains(r#""from_date":"2026-01-01","last_triggered_at":"1970-01-01T00:00:05Z""#));
    assert_eq!(
        schedule_reply(&s).body.to_text(),
        format!(r#"{{"schedule":{shown},"status":"ok"}}"#)
    );
    assert_eq!(schedules_reply(&Vec::new()).body.to_text(), r#"{"schedules":[],"status":"ok"}"#);
    assert_eq!(runs_reply(&Vec::new()).body.to_text(), r#"{"runs":[],"status":"ok"}"#);
    assert_eq!(done_reply().body.to_text(), r#"{"status":"ok"}"#);
    let cp = Checkpoint {
        key: CheckpointKey { tenant: TenantId::new("t"), entity_type: "bills".into() },
        last_modified_watermark: Some(at(1)),
        last_sync_at: None,
        records_seen: 4,
    };
    assert_eq!(
        checkpoints_reply(&vec![cp]).body.to_text(),
        r#"{"checkpoints":[{"key":{"entity_type":"bills","tenant":"t"},"last_modified_watermark":"1970-01-01T00:00:01Z","last_sync_at":null,"records_seen":4}],"status":"ok"}"#
    );
    let stored = BronzeSummary {
        entity_type: "bills".into(),
        row_count: 3,
        distinct_runs_touching: 2,
        most_recent: None,
    };
    assert_eq!(
        summary_reply(&vec![stored]).body.to_text(),
        r#"{"status":"ok","summary":[{"distinct_runs_touching":2,"entity_type":"bills","most_recent":null,"row_count":3}]}"#
    );
}
