use xero_service::calendar::{Date, Timestamp};
use xero_service::fetch::RawPage;
use xero_service::job::{
    concurrency, count_failures, merge_manifest, run_id_short, run_manifest, total_records,
    work_units, Pool, SyncJob, UnitRun,
};
use xero_service::meta::SyncType;
use xero_service::mode::{
    business_date_where, compact_ts, entity_params, fetch_params, incremental_modified_after,
    is_pulled_in_full, rolling_window, window_is_in_calendar, SyncMode,
};
use xero_service::paging::PaginationOutcome;
use xero_service::report::{report_name, report_params, ReportSpec};
use xero_service::run::{unit_outcome, JobRun, UnitDone};
use xero_service::sorted::SortedMap;
use xero_service::{EntityType, GcsConfig, SyncConfig};

fn d(y: i32, m: u32, day: u32) -> Date {
    Date::from_ymd_opt(y, m, day).expect("valid date")
}


fn now() -> Timestamp {
    at(17)
}

fn at(day: u32) -> Timestamp {
    Timestamp::midnight(&d(2026, 6, day)).plus_seconds(3 * 3600 + 1).unwrap()
}

fn run_date() -> Date {
    d(2026, 6, 17)
}

#[test]
fn compact_ts_is_iso8601_compact_utc() {
    assert_eq!(compact_ts(now()), "20260617T030001Z");
}

#[test]
fn incremental_subtracts_window_days() {
    let ma = incremental_modified_after(now(), 3);
    assert_eq!(ma, at(14));
}

#[test]
fn rolling_window_is_inclusive_of_both_ends() {
    let (from, to) = rolling_window(run_date(), 30);
    assert_eq!(to, run_date());
    // 30-day inclusive window: run_date - 29.
    assert_eq!(from, d(2026, 5, 19));
}

#[test]
fn rolling_window_collapses_to_single_day_for_nonpositive_days() {
    let (from, to) = rolling_window(run_date(), 0);
    assert_eq!(from, to);
    let (from, to) = rolling_window(run_date(), 1);
    assert_eq!(from, to);
}

#[test]
fn business_date_where_drops_leading_zeros() {
    let from = d(2026, 3, 5);
    let to = d(2026, 6, 17);
    assert_eq!(
        business_date_where(from, to),
        "Date >= DateTime(2026,3,5) && Date <= DateTime(2026,6,17)"
    );
}

#[test]
fn incremental_sets_modified_after_only() {
    let p = fetch_params(&SyncMode::Incremental, now(), run_date(), 3);
    assert_eq!(
        p.modified_after,
        Some(at(14))
    );
    assert!(p.extras.where_clause.is_none());
    assert!(p.modified_after_str.is_some());
    assert!(p.business_from.is_none());
    assert!(p.where_filter.is_none());
}

#[test]
fn open_sweep_sets_where_no_modified_window() {
    let p = fetch_params(
        &SyncMode::OpenSweep {
            where_clause: "Status==\"AUTHORISED\"".to_owned(),
        },
        now(),
        run_date(),
        3,
    );
    assert!(p.modified_after.is_none());
    assert_eq!(
        p.extras.where_clause.as_deref(),
        Some("Status==\"AUTHORISED\"")
    );
    assert_eq!(p.where_filter.as_deref(), Some("Status==\"AUTHORISED\""));
}

#[test]
fn rolling_full_sets_business_window_via_where() {
    let p = fetch_params(&SyncMode::RollingFull { days: 30 }, now(), run_date(), 3);
    assert!(p.modified_after.is_none());
    assert_eq!(p.business_from.as_deref(), Some("2026-05-19"));
    assert_eq!(p.business_to.as_deref(), Some("2026-06-17"));
    assert!(p
        .extras
        .where_clause
        .as_deref()
        .unwrap()
        .contains("Date >="));
}

#[test]
fn backfill_sets_explicit_business_window() {
    let from = d(2020, 1, 1);
    let to = d(2026, 6, 17);
    let p = fetch_params(&SyncMode::Backfill { from, to }, now(), run_date(), 3);
    assert_eq!(p.business_from.as_deref(), Some("2020-01-01"));
    assert_eq!(p.business_to.as_deref(), Some("2026-06-17"));
    assert!(p.extras.where_clause.is_some());
}

#[test]
fn master_sets_no_filter() {
    let p = fetch_params(&SyncMode::Master, now(), run_date(), 3);
    assert!(p.modified_after.is_none());
    assert!(p.extras.where_clause.is_none());
    assert!(p.modified_after_str.is_none());
    assert!(p.business_from.is_none());
    assert!(p.business_to.is_none());
    assert!(p.where_filter.is_none());
    assert!(p.extras.extra.is_empty());
}

#[test]
fn sync_type_maps_each_mode() {
    assert_eq!(SyncMode::Incremental.sync_type(), SyncType::Incremental);
    assert_eq!(
        SyncMode::OpenSweep {
            where_clause: "x".into()
        }
        .sync_type(),
        SyncType::OpenSweep
    );
    assert_eq!(
        SyncMode::RollingFull { days: 30 }.sync_type(),
        SyncType::RollingFull
    );
    assert_eq!(SyncMode::Master.sync_type(), SyncType::Master);
    assert_eq!(
        SyncMode::Backfill {
            from: run_date(),
            to: run_date(),
        }
        .sync_type(),
        SyncType::Backfill
    );
    assert_eq!(
        SyncMode::Reports { as_of: run_date() }.sync_type(),
        SyncType::ReportSnapshot
    );
}

#[test]
fn window_days_only_for_windowed_modes() {
    assert_eq!(SyncMode::Incremental.window_days(), None);
    assert_eq!(SyncMode::Master.window_days(), None);
    assert_eq!(SyncMode::RollingFull { days: 90 }.window_days(), Some(90));
    let from = d(2026, 5, 18);
    let to = d(2026, 6, 17);
    assert_eq!(SyncMode::Backfill { from, to }.window_days(), Some(30));
}



#[test]
fn report_params_asof_for_balance_sheet() {
    let spec = report_params(&EntityType::ReportBalanceSheet, run_date());
    assert_eq!(spec.period_key, "asof-2026-06-17");
    assert_eq!(spec.report_date.as_deref(), Some("2026-06-17"));
    assert!(spec.report_from.is_none());
    assert_eq!(
        spec.extra,
        vec![("date".to_owned(), "2026-06-17".to_owned())]
    );
}

#[test]
fn report_params_period_for_profit_and_loss_is_month_to_date() {
    let spec = report_params(&EntityType::ReportProfitAndLoss, run_date());
    assert_eq!(spec.report_from.as_deref(), Some("2026-06-01"));
    assert_eq!(spec.report_to.as_deref(), Some("2026-06-17"));
    assert!(spec.report_date.is_none());
    assert_eq!(spec.period_key, "2026-06-01_2026-06-17");
    assert_eq!(
        spec.extra,
        vec![
            ("fromDate".to_owned(), "2026-06-01".to_owned()),
            ("toDate".to_owned(), "2026-06-17".to_owned()),
        ]
    );
}

#[test]
fn report_params_signature_is_sorted() {
    let spec = report_params(&EntityType::ReportProfitAndLoss, run_date());
    // fromDate sorts before toDate.
    assert_eq!(
        spec.params_signature(),
        "fromDate=2026-06-01&toDate=2026-06-17"
    );
}

#[test]
fn run_id_short_is_first_six_chars() {
    let run_id = uuid::Uuid::parse_str("5f3c9a2e-0000-0000-0000-000000000000").unwrap();
    assert_eq!(run_id_short(run_id.as_u128()), "5f3c9a");
}

#[test]
fn max_concurrency_clamp_bounds() {
    assert_eq!(concurrency(0), 1);
    assert_eq!(concurrency(100), 6);
    assert_eq!(concurrency(4), 4);
}

#[test]
fn windows_beyond_the_calendar_are_recognised() {
    assert!(window_is_in_calendar(&SyncMode::Incremental, now(), run_date(), 3));
    assert!(!window_is_in_calendar(&SyncMode::Incremental, now(), run_date(), i64::MAX));
    assert!(!window_is_in_calendar(&SyncMode::RollingFull { days: i64::MAX }, now(), run_date(), 3));
    assert!(window_is_in_calendar(&SyncMode::RollingFull { days: i64::MIN }, now(), run_date(), 3));
    assert!(window_is_in_calendar(&SyncMode::Master, now(), run_date(), i64::MAX));
}

#[test]
fn incremental_window_is_recorded_in_rfc3339() {
    let p = fetch_params(&SyncMode::Incremental, now(), run_date(), 3);
    assert_eq!(p.modified_after_str.as_deref(), Some("2026-06-14T03:00:01+00:00"));
}

#[test]
fn mode_labels_are_the_sync_types() {
    assert_eq!(SyncMode::Incremental.label(), "incremental");
    assert_eq!(SyncMode::Reports { as_of: run_date() }.label(), "report-snapshot");
}

#[test]
fn signatures_do_not_depend_on_order() {
    let spec = |extra: Vec<(String, String)>| ReportSpec {
        extra,
        period_key: String::new(),
        report_date: None,
        report_from: None,
        report_to: None,
    };
    let p = |k: &str, v: &str| (k.to_owned(), v.to_owned());
    let a = spec(vec![p("b", "2"), p("a", "1"), p("b", "0")]).params_signature();
    let b = spec(vec![p("b", "0"), p("b", "2"), p("a", "1")]).params_signature();
    assert_eq!(a, "a=1&b=0&b=2");
    assert_eq!(a, b);
    assert_eq!(spec(Vec::new()).params_signature(), "");
}

#[test]
fn units_pair_every_tenant_with_every_entity() {
    let tenants = vec!["a".to_owned(), "b".to_owned()];
    let entities = vec![EntityType::Invoices, EntityType::Accounts];
    let units = work_units(&tenants, &entities);
    let names: Vec<(&str, &str)> = units.iter().map(|(t, e)| (t.as_str(), e.as_str())).collect();
    assert_eq!(
        names,
        [("a", "invoices"), ("a", "accounts"), ("b", "invoices"), ("b", "accounts")]
    );
    assert!(work_units(&Vec::new(), &entities).is_empty());
}

#[test]
fn pool_starts_each_unit_once_within_its_limit() {
    let mut pool = Pool::new(5, 2);
    assert_eq!(pool.start(), Some(0));
    assert_eq!(pool.start(), Some(1));
    assert_eq!(pool.start(), None);
    let mut started = 2;
    while pool.running() > 0 {
        pool.finish();
        if let Some(unit) = pool.start() {
            assert_eq!(unit, started);
            started += 1;
        }
        assert!(pool.running() <= 2);
    }
    assert_eq!(started, 5);
}

fn unit(entity: EntityType) -> UnitRun {
    UnitRun {
        prefix: "raw/xero".to_owned(),
        tenant: "t1".to_owned(),
        org_name: "Org".to_owned(),
        entity,
        run_date: run_date(),
        ts: compact_ts(now()),
        run_id: 0x5f3c9a2e_0000_0000_0000_000000000000,
        synced_at: now().to_rfc3339(),
    }
}

#[test]
fn job_names_the_tenants_organisation() {
    let gcs = GcsConfig { bucket: "b".to_owned(), prefix: "p".to_owned() };
    let cfg = SyncConfig {
        window_days: 3,
        rolling_full_tight_days: 30,
        rolling_full_wide_days: 90,
        max_concurrent: 6,
    };
    let mut names = SortedMap::new();
    names.insert("a", "A Ltd");
    let job = SyncJob::new(gcs, cfg, names);
    assert_eq!(job.window_days(), 3);
    let unit = |tenant: &str| job.unit(tenant, &EntityType::Users, 9, run_date(), &now(), &at(18));
    assert_eq!(unit("a").org_name, "A Ltd");
    assert_eq!(unit("b").org_name, "");
    assert_eq!(unit("a").ts, "20260617T030001Z");
    assert_eq!(unit("a").synced_at, "2026-06-18T03:00:01+00:00");
}

#[test]
fn entities_without_business_dates_are_pulled_in_full() {
    let mode = SyncMode::Backfill { from: d(2020, 1, 1), to: run_date() };
    assert!(is_pulled_in_full(&mode, &EntityType::Accounts));
    assert!(!is_pulled_in_full(&mode, &EntityType::Invoices));
    let p = entity_params(&mode, &EntityType::Accounts, now(), run_date(), 3);
    assert!(p.extras.where_clause.is_none() && p.business_from.is_none());
    let p = entity_params(&mode, &EntityType::Invoices, now(), run_date(), 3);
    assert_eq!(p.business_from.as_deref(), Some("2020-01-01"));
    let p = entity_params(&SyncMode::Incremental, &EntityType::Accounts, now(), run_date(), 3);
    assert!(p.modified_after.is_some());
}

fn raw_page(n: u32, records: usize) -> RawPage {
    RawPage {
        page: n,
        body: vec![n as u8, 0xff],
        http_status: 200,
        record_count: records,
        fetched_at: now(),
    }
}

#[test]
fn pages_are_uploaded_byte_for_byte() {
    let unit = unit(EntityType::Invoices);
    let mode = SyncMode::RollingFull { days: 30 };
    let params = fetch_params(&mode, now(), run_date(), 3);
    let pages = vec![raw_page(1, 2), raw_page(2, 0)];
    assert_eq!(total_records(&pages), Some(2));
    let uploads = unit.page_uploads(&mode, &params, pages);
    assert_eq!(uploads.len(), 2);
    assert_eq!(
        uploads[1].key,
        "raw/xero/t1/2.0/invoices/2026-06-17/20260617T030001Z_5f3c9a_p002.json"
    );
    assert_eq!(uploads[1].body, [2, 0xff]);
    let meta = &uploads[0].meta;
    assert_eq!(meta.get("x-org-name"), Some("Org"));
    assert_eq!(meta.get("x-record-count"), Some("2"));
    assert_eq!(meta.get("x-business-from"), Some("2026-05-19"));
    assert_eq!(meta.get("x-run-id"), Some("5f3c9a2e-0000-0000-0000-000000000000"));
    assert_eq!(meta.get("x-synced-at"), Some("2026-06-17T03:00:01+00:00"));
    assert_eq!(meta.get("x-where"), None);
}

#[test]
fn reports_are_uploaded_under_their_period() {
    let unit = unit(EntityType::ReportProfitAndLoss);
    let spec = unit.report_spec(&SyncMode::Reports { as_of: d(2026, 5, 31) });
    assert_eq!(spec.period_key, "2026-05-01_2026-05-31");
    let upload = unit.report_upload(&spec, raw_page(1, 1));
    assert_eq!(
        upload.key,
        "raw/xero/t1/2.0/report_profit_and_loss/2026-06-17/20260617T030001Z_5f3c9a__2026_05_01_2026_05_31.json"
    );
    assert_eq!(upload.meta.get("x-report-params"), Some("fromDate=2026-05-01&toDate=2026-05-31"));
    assert_eq!(upload.meta.get("x-report"), Some("ProfitAndLoss"));
    assert_eq!(upload.meta.get("x-endpoint"), Some("report_profit_and_loss"));
    assert_eq!(report_name(&EntityType::ReportBalanceSheet), "BalanceSheet");
    assert_eq!(report_name(&EntityType::Invoices), "Invoices");
    assert_eq!(unit.report_spec(&SyncMode::Master).report_to.as_deref(), Some("2026-06-17"));
}

#[test]
fn outcomes_tell_success_from_failure() {
    let unit = unit(EntityType::Invoices);
    let done = unit.fetched(PaginationOutcome::single_page(), 7);
    assert_eq!((done.pages, done.records), (1, 7));
    assert_eq!(done.termination, "ended_on_empty_page");
    let report = unit.reported(1);
    assert_eq!((report.pages, report.records), (1, 1));
    assert_eq!(report.termination, "report-snapshot");
    let done = unit_outcome("t1", &EntityType::Invoices, Ok(done));
    assert_eq!((done.tenant.as_str(), done.endpoint.as_str()), ("t1", "invoices"));
    assert_eq!(done.error, None);
    let failed = unit_outcome("t1", &EntityType::Bills, Err("rate limited".to_owned()));
    assert_eq!((failed.endpoint.as_str(), failed.pages, failed.records), ("bills", 0, 0));
    assert_eq!(failed.termination, "error");
    assert_eq!(failed.error.as_deref(), Some("rate limited"));
    assert_eq!(count_failures(&vec![done, failed]), 1);
}

#[test]
fn runs_have_one_outcome_for_each_unit() {
    let tenants = vec!["a".to_owned(), "b".to_owned()];
    let entities = vec![EntityType::Invoices, EntityType::Bills];
    let mut run = JobRun::new(9, at(1), &tenants, &entities, 3);
    assert_eq!((run.start(), run.start(), run.start()), (Some(0), Some(1), Some(2)));
    assert_eq!(run.start(), None);
    assert!(run.is_running(2) && !run.is_running(3) && !run.is_running(99));
    assert_eq!(run.unit(2), ("b", &EntityType::Invoices));
    // Units finish in any order, and one that fails does not touch the others.
    run.finish(2, Err("down".to_owned()));
    assert!(!run.is_running(2));
    assert_eq!(run.start(), Some(3));
    let done = |records| {
        Ok(UnitDone { pages: 1, records, termination: "ended_on_empty_page".to_owned() })
    };
    run.finish(0, done(5));
    run.finish(3, done(0));
    assert_eq!(run.start(), None);
    run.finish(1, done(2));
    let manifest = run.into_manifest(&SyncMode::Master, at(2));
    assert_eq!(manifest.run_id, "00000000-0000-0000-0000-000000000009");
    assert_eq!((manifest.mode.as_str(), manifest.window_days), ("master", None));
    let shown: Vec<(&str, &str, i64, Option<&str>)> = manifest
        .entities
        .iter()
        .map(|o| (o.tenant.as_str(), o.endpoint.as_str(), o.records, o.error.as_deref()))
        .collect();
    assert_eq!(
        shown,
        [
            ("b", "invoices", 0, Some("down")),
            ("a", "invoices", 5, None),
            ("b", "bills", 0, None),
            ("a", "bills", 2, None),
        ]
    );
}

#[test]
fn chunk_manifests_are_merged() {
    let mode = SyncMode::Backfill { from: d(2026, 5, 18), to: run_date() };
    let unit = unit(EntityType::Invoices);
    let first = run_manifest(9, at(1), at(2), &mode, vec![unit_outcome("t1", &EntityType::Invoices, Err("x".to_owned()))]);
    assert_eq!(first.run_id, "00000000-0000-0000-0000-000000000009");
    assert_eq!(first.window_days, Some(30));
    assert_eq!(first.mode, "backfill");
    let merged = merge_manifest(None, first);
    let second = run_manifest(9, at(3), at(4), &SyncMode::Master, vec![unit_outcome("t1", &EntityType::Invoices, Ok(unit.reported(1)))]);
    let merged = merge_manifest(Some(merged), second);
    assert_eq!(merged.started_at, "2026-06-01T03:00:01+00:00");
    assert_eq!(merged.finished_at, "2026-06-04T03:00:01+00:00");
    assert_eq!(merged.entities.len(), 2);
    assert_eq!(merged.mode, "backfill");
}
