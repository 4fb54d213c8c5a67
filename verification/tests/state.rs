use uuid::Uuid;

use xero_service::backfill::{
    enumerate_chunks, BackfillChunk, BackfillPlan, ChunkStatus, NewBackfillPlan, PlanStatus,
};
use xero_service::bronze::{
    count_accepted, failed_positions, group_rows, record_id_for_entity, replay_marks,
    BigQueryStreamingSink, BqError, BqRow, BronzeUpsert, BronzeWrite, NoopBqSink, StoredRecord,
};
use xero_service::calendar::{Date, Timestamp};
use xero_service::json::{parse, Json};
use xero_service::store::{
    check_watermark, Checkpoint, CheckpointKey, RunStatus, SyncRun, TenantRecord,
};
use xero_service::{EntityType, TenantId};


fn d(y: i32, m: u32, day: u32) -> Date {
    Date::from_ymd_opt(y, m, day).unwrap()
}

#[test]
fn enumerate_chunks_splits_evenly() {
    let plan = NewBackfillPlan {
        tenant_id: "t".into(),
        entity_types: vec!["invoices".into()],
        start_date: d(2023, 1, 1),
        end_date: d(2023, 4, 1),
        chunk_size_days: 30,
        triggered_by: "test".into(),
        advance_watermark: false,
    };
    let chunks = enumerate_chunks(&plan, Uuid::new_v4().as_u128());
    // 90 days / 30 = 3 chunks
    assert_eq!(chunks.len(), 3);
    assert_eq!(chunks[0].window_start, d(2023, 1, 1));
    assert_eq!(chunks[0].window_end, d(2023, 1, 31));
    assert_eq!(chunks[2].window_end, d(2023, 4, 1));
}

#[test]
fn enumerate_chunks_caps_final_chunk() {
    let plan = NewBackfillPlan {
        tenant_id: "t".into(),
        entity_types: vec!["invoices".into()],
        start_date: d(2023, 1, 1),
        end_date: d(2023, 2, 5),
        chunk_size_days: 30,
        triggered_by: "test".into(),
        advance_watermark: false,
    };
    let chunks = enumerate_chunks(&plan, Uuid::new_v4().as_u128());
    assert_eq!(chunks.len(), 2);
    assert_eq!(chunks[1].window_start, d(2023, 1, 31));
    assert_eq!(chunks[1].window_end, d(2023, 2, 5));
}

#[test]
fn enumerate_chunks_cross_entities() {
    // 30-day range with chunk_size=30 → exactly one sub-window per entity.
    let plan = NewBackfillPlan {
        tenant_id: "t".into(),
        entity_types: vec!["invoices".into(), "payments".into()],
        start_date: d(2023, 1, 1),
        end_date: d(2023, 1, 31),
        chunk_size_days: 30,
        triggered_by: "test".into(),
        advance_watermark: false,
    };
    let chunks = enumerate_chunks(&plan, Uuid::new_v4().as_u128());
    assert_eq!(chunks.len(), 2, "one sub-window × 2 entities");
    assert!(chunks.iter().any(|c| c.entity_type == "invoices"));
    assert!(chunks.iter().any(|c| c.entity_type == "payments"));
}

#[test]
fn three_year_monthly_yields_36_chunks_per_entity() {
    let plan = NewBackfillPlan {
        tenant_id: "t".into(),
        entity_types: vec!["invoices".into()],
        start_date: d(2023, 5, 1),
        end_date: d(2026, 5, 1),
        chunk_size_days: 30,
        triggered_by: "test".into(),
        advance_watermark: false,
    };
    let chunks = enumerate_chunks(&plan, Uuid::new_v4().as_u128());
    // 1096 days / 30 = 36.5 → 37 chunks (last shorter)
    assert!(chunks.len() >= 36 && chunks.len() <= 38);
}

#[test]
fn table_id_adds_xero_prefix() {
    assert_eq!(BigQueryStreamingSink::table_id("invoices"), "xero_invoices");
    assert_eq!(
        BigQueryStreamingSink::table_id("bank_transactions"),
        "xero_bank_transactions"
    );
    assert_eq!(
        BigQueryStreamingSink::table_id("tracking_categories"),
        "xero_tracking_categories"
    );
}

fn json(text: &str) -> Json {
    parse(text.as_bytes()).expect("valid JSON")
}

fn row(entity: &str, id: &str) -> BqRow {
    BqRow {
        tenant_id: "t".into(),
        entity_type: entity.into(),
        record_id: id.into(),
        payload: json("{}"),
        first_seen_at: at(1, 0),
        last_seen_at: at(2, 5_000_000),
        last_run_id: 7,
    }
}

fn at(secs: i64, nanos: u32) -> Timestamp {
    Timestamp::from_unix(secs, nanos).unwrap()
}

#[test]
fn noop_sink_returns_zero_and_is_inactive() {
    let s = NoopBqSink;
    assert!(!s.is_active());
    assert_eq!(s.insert(&vec![row("invoices", "1")]).unwrap(), 0);
}

#[test]
fn chunks_are_pending_and_belong_to_the_plan() {
    let plan = NewBackfillPlan {
        tenant_id: "t".into(),
        entity_types: vec!["invoices".into(), "payments".into()],
        start_date: d(2023, 1, 1),
        end_date: d(2023, 3, 1),
        chunk_size_days: 30,
        triggered_by: "test".into(),
        advance_watermark: false,
    };
    let chunks = enumerate_chunks(&plan, 42);
    let shape: Vec<(&str, Date, Date)> = chunks
        .iter()
        .map(|c| (c.entity_type.as_str(), c.window_start, c.window_end))
        .collect();
    assert_eq!(
        shape,
        [
            ("invoices", d(2023, 1, 1), d(2023, 1, 31)),
            ("payments", d(2023, 1, 1), d(2023, 1, 31)),
            ("invoices", d(2023, 1, 31), d(2023, 3, 1)),
            ("payments", d(2023, 1, 31), d(2023, 3, 1)),
        ]
    );
    assert!(chunks.iter().all(|c| c.plan_id == 42 && c.max_attempts == 3 && c.attempt_count == 0));
    assert!(chunks.iter().all(|c| c.status.as_str() == "pending" && c.is_claimable()));
    assert_ne!(chunks[0].chunk_id, chunks[1].chunk_id);
    let empty = NewBackfillPlan { start_date: d(2023, 3, 1), chunk_size_days: 0, ..plan };
    assert!(enumerate_chunks(&empty, 42).is_empty());
}

#[test]
fn statuses_are_read_by_their_names() {
    for name in ["pending", "running", "succeeded", "failed", "skipped"] {
        assert_eq!(ChunkStatus::from_name(name).unwrap().as_str(), name);
    }
    for name in ["pending", "running", "completed", "failed", "cancelled"] {
        assert_eq!(PlanStatus::from_name(name).unwrap().as_str(), name);
    }
    assert_eq!(ChunkStatus::from_name("completed"), None);
    assert_eq!(PlanStatus::from_name("Pending"), None);
}

fn one_chunk() -> BackfillChunk {
    let plan = NewBackfillPlan {
        tenant_id: "t".into(),
        entity_types: vec!["invoices".into()],
        start_date: d(2023, 1, 1),
        end_date: d(2023, 1, 2),
        chunk_size_days: 30,
        triggered_by: "test".into(),
        advance_watermark: false,
    };
    enumerate_chunks(&plan, 1).remove(0)
}

#[test]
fn failed_chunks_are_retried_until_attempts_run_out() {
    let mut chunk = one_chunk();
    for attempt in 1..=3 {
        assert!(chunk.is_claimable());
        chunk.claim(at(attempt, 0));
        assert_eq!(chunk.status, ChunkStatus::Running);
        chunk.fail("down", at(attempt, 1));
    }
    assert_eq!(chunk.status, ChunkStatus::Failed);
    assert_eq!(chunk.attempt_count, 3);
    assert_eq!(chunk.finished_at, Some(at(3, 1)));
    assert_eq!(chunk.error_message.as_deref(), Some("down"));
    assert!(!chunk.is_claimable());
}

fn plan() -> BackfillPlan {
    let new = NewBackfillPlan {
        tenant_id: "t".into(),
        entity_types: vec!["invoices".into()],
        start_date: d(2023, 1, 1),
        end_date: d(2023, 1, 3),
        chunk_size_days: 1,
        triggered_by: "test".into(),
        advance_watermark: false,
    };
    BackfillPlan::created(1, new, 2, at(0, 0))
}

#[test]
fn plans_end_with_their_last_chunk() {
    let mut p = plan();
    p.begin(at(1, 0));
    p.begin(at(2, 0));
    assert_eq!(p.status, PlanStatus::Running);
    assert_eq!(p.started_at, Some(at(1, 0)));
    let mut chunks = vec![one_chunk(), one_chunk()];
    chunks[0].succeed(9, at(3, 0));
    p.recount(&chunks, at(3, 0));
    assert_eq!((p.completed_chunks, p.failed_chunks), (1, 0));
    assert_eq!(p.status, PlanStatus::Running);
    chunks[1].skip(at(4, 0));
    chunks[0].skip(at(4, 0));
    assert_eq!(chunks[0].status, ChunkStatus::Succeeded);
    p.recount(&chunks, at(4, 0));
    assert_eq!(p.status.as_str(), "completed");
    assert_eq!(p.completed_at, Some(at(4, 0)));
    chunks[1].max_attempts = 0;
    chunks[1].fail("x", at(5, 0));
    p.recount(&chunks, at(5, 0));
    assert_eq!(p.status, PlanStatus::Failed);
    assert_eq!(p.failed_chunks, 1);
    p.cancel(at(6, 0));
    assert_eq!(p.status, PlanStatus::Failed);
    let mut q = plan();
    q.cancel(at(6, 0));
    assert_eq!(q.status, PlanStatus::Cancelled);
    q.recount(&Vec::new(), at(7, 0));
    assert_eq!(q.completed_at, Some(at(6, 0)));
}

#[test]
fn watermarks_do_not_go_back() {
    let checkpoint = |watermark: Option<Timestamp>| Checkpoint {
        key: CheckpointKey::new(TenantId::new("t"), &EntityType::Invoices),
        last_modified_watermark: watermark,
        last_sync_at: None,
        records_seen: 0,
    };
    let stored = Some(at(1_000_000, 0));
    assert!(check_watermark(stored, &checkpoint(stored)).is_ok());
    assert!(check_watermark(stored, &checkpoint(None)).is_ok());
    assert!(check_watermark(None, &checkpoint(stored)).is_ok());
    assert_eq!(
        check_watermark(stored, &checkpoint(Some(at(999_999, 0)))).unwrap_err().message(),
        "state store: watermark regression refused: tenant=t entity=invoices \
         existing=1970-01-12 13:46:40 UTC attempted=1970-01-12 13:46:39 UTC"
    );
}

#[test]
fn run_statuses_round_trip() {
    for status in [RunStatus::Running, RunStatus::Succeeded, RunStatus::Failed, RunStatus::Cancelled] {
        assert_eq!(RunStatus::try_from(status.as_str().to_owned()).unwrap(), status);
    }
    assert_eq!(
        RunStatus::try_from("paused".to_owned()).unwrap_err().message(),
        "state store: unknown run status: paused"
    );
}

#[test]
fn runs_and_tenants_take_over_what_is_given() {
    let mut run = SyncRun {
        run_id: 1,
        trigger_id: None,
        tenant_id: "t".into(),
        entity_type: "invoices".into(),
        job_type: "manual".into(),
        status: RunStatus::Running,
        records_fetched: 0,
        records_loaded: 0,
        records_failed: 0,
        error_message: None,
        started_at: at(0, 0),
        finished_at: None,
        triggered_by: "x".into(),
    };
    run.finish(RunStatus::Failed, 3, 2, 1, Some("oops".into()), at(9, 0));
    assert_eq!((run.records_fetched, run.records_loaded, run.records_failed), (3, 2, 1));
    assert_eq!(run.finished_at, Some(at(9, 0)));
    let mut tenant = TenantRecord::created("t", Some("Old".into()), None, at(0, 0));
    tenant.refresh(None, Some("code".into()), at(5, 0));
    assert_eq!(tenant.tenant_name.as_deref(), Some("Old"));
    assert_eq!(tenant.short_code.as_deref(), Some("code"));
    assert_eq!(tenant.updated_at, at(5, 0));
    assert!(tenant.is_active);
}

#[test]
fn records_are_identified_by_their_own_field() {
    let id = |e: &EntityType, text: &str| record_id_for_entity(e, &json(text));
    assert_eq!(id(&EntityType::Invoices, r#"{"InvoiceID":"a"}"#).as_deref(), Some("a"));
    assert_eq!(id(&EntityType::Invoices, r#"{"InvoiceID":""}"#), None);
    assert_eq!(id(&EntityType::Invoices, r#"{"InvoiceID":-12}"#).as_deref(), Some("-12"));
    assert_eq!(id(&EntityType::Invoices, r#"{"InvoiceID":1.5}"#), None);
    assert_eq!(id(&EntityType::Invoices, r#"{"ContactID":"a"}"#), None);
    assert_eq!(id(&EntityType::TaxRates, r#"{"TaxType":"GST"}"#).as_deref(), Some("GST"));
}

#[test]
fn reports_are_identified_by_parameters_and_day() {
    let id = |text: &str| record_id_for_entity(&EntityType::ReportBalanceSheet, &json(text));
    let morning = id(r#"{"_params":{"date":"2026-05-31","a":"1"},"_run_date":"2026-06-17T03:00:01+00:00"}"#);
    let evening = id(r#"{"_params":{"date":"2026-05-31","a":"1"},"_run_date":"2026-06-17T23:00:01+00:00"}"#);
    let next_day = id(r#"{"_params":{"date":"2026-05-31","a":"1"},"_run_date":"2026-06-18T03:00:01+00:00"}"#);
    assert_eq!(
        morning.as_deref(),
        Some("report_balance_sheet:a=1&date=2026-05-31:2026-06-17")
    );
    assert_eq!(morning, evening);
    assert_ne!(morning, next_day);
    assert_eq!(id(r#"{"ReportID":"x"}"#), None);
    assert_eq!(id(r#"{"_params":{"date":5},"_run_date":"2026-06-18"}"#), None);
}

#[test]
fn upserts_write_only_what_changed() {
    let mut up = BronzeUpsert::new("t", &EntityType::Invoices, 7, at(100, 0));
    let stored = |text: &str| {
        Some(StoredRecord { payload: json(text), first_seen_at: at(5, 0) })
    };
    assert_eq!(up.take(json(r#"{"InvoiceID":"a"}"#), None), Some(BronzeWrite::Insert));
    assert_eq!(
        up.take(json(r#"{"InvoiceID":"b","y":2}"#), stored(r#"{"y":2,"InvoiceID":"b"}"#)),
        Some(BronzeWrite::Keep)
    );
    assert_eq!(
        up.take(json(r#"{"InvoiceID":"c","x":2}"#), stored(r#"{"InvoiceID":"c","x":1}"#)),
        Some(BronzeWrite::Update)
    );
    assert_eq!(up.take(json(r#"{"ContactID":"d"}"#), None), None);
    let stats = up.stats();
    assert_eq!(
        (stats.inserted, stats.updated, stats.unchanged, stats.skipped_invalid),
        (1, 1, 1, 1)
    );
    assert_eq!(up.rows().len(), 2);
    assert_eq!(up.rows()[0].first_seen_at, at(100, 0));
    assert_eq!(up.rows()[1].first_seen_at, at(5, 0));
    assert_eq!(up.rows()[1].entity_type, "invoices");
    assert_eq!((up.rows()[0].record_id.as_str(), up.rows()[1].record_id.as_str()), ("a", "c"));
    assert_eq!(up.synced_ids(&vec![true, false]), ["a"]);
    assert_eq!(up.synced_ids(&vec![false, true]), ["c"]);
    assert_eq!(up.synced_ids(&vec![true, true]), ["a", "c"]);
    // A record whose last row was rejected stays unmarked, though an earlier one was taken.
    up.take(json(r#"{"InvoiceID":"a","x":9}"#), stored(r#"{"InvoiceID":"a"}"#));
    assert_eq!(up.synced_ids(&vec![true, true, false]), ["c"]);
}

#[test]
fn streamed_rows_carry_their_columns() {
    let mut r = row("invoices", "r1");
    r.payload = json(r#"{"b":"x","a":[1,null]}"#);
    let insert = BigQueryStreamingSink::insert_row(&r, &at(3, 0));
    assert_eq!(insert.insert_id, "t:r1:2005");
    let column = |k: &str, v: &str| (k.to_owned(), v.to_owned());
    assert_eq!(
        insert.columns,
        [
            column("tenant_id", "t"),
            column("record_id", "r1"),
            column("payload", r#"{"a":[1,null],"b":"x"}"#),
            column("first_seen_at", "1970-01-01T00:00:01+00:00"),
            column("last_seen_at", "1970-01-01T00:00:02.005+00:00"),
            column("last_run_id", "00000000-0000-0000-0000-000000000007"),
            column("synced_at", "1970-01-01T00:00:03+00:00"),
        ]
    );
    let mut accepted = vec![false; 5];
    BigQueryStreamingSink::accept(&mut accepted, &vec![0, 2, 4], &Some(vec![1]));
    assert_eq!(accepted, [true, false, false, false, true]);
    BigQueryStreamingSink::accept(&mut accepted, &vec![1, 3], &None);
    assert_eq!(accepted, [true, false, false, false, true]);
    BigQueryStreamingSink::accept(&mut accepted, &vec![3], &Some(Vec::new()));
    assert_eq!(count_accepted(&accepted), 3);
    assert_eq!(failed_positions(&vec![Some(2), Some(0)]), Some(vec![2, 0]));
    assert_eq!(failed_positions(&vec![Some(2), None]), None);
    assert_eq!(failed_positions(&vec![Some(-1)]), None);
    assert_eq!(BqError::Init("x".into()).message(), "bq init: x");
    assert_eq!(BqError::Insert("x".into()).message(), "bq insert: x");
    let sink = BigQueryStreamingSink { project_id: "p".into(), dataset_id: "d".into() };
    assert!(sink.is_active());
}

#[test]
fn replays_mark_accepted_rows_by_entity() {
    let rows = vec![
        row("invoices", "i1"),
        row("payments", "p1"),
        row("invoices", "i2"),
        row("quotes", "q1"),
    ];
    assert_eq!(
        replay_marks(&rows, &vec![true, true, true, false]),
        [
            ("invoices".to_owned(), vec!["i1".to_owned(), "i2".to_owned()]),
            ("payments".to_owned(), vec!["p1".to_owned()]),
        ]
    );
    // The first row was rejected: it stays unmarked and the others are marked.
    assert_eq!(
        replay_marks(&rows, &vec![false, true, true, true]),
        [
            ("payments".to_owned(), vec!["p1".to_owned()]),
            ("invoices".to_owned(), vec!["i2".to_owned()]),
            ("quotes".to_owned(), vec!["q1".to_owned()]),
        ]
    );
    assert!(replay_marks(&rows, &vec![false; 4]).is_empty());
    assert_eq!(replay_marks(&rows, &vec![true; 4]).len(), 3);
    assert_eq!(group_rows(&rows, &vec![true; 4])[0].1, [0, 2]);
}
