use xero_service::calendar::Date;
use xero_service::config::env_from;
use xero_service::mode::SyncMode;
use xero_service::resolve::{
    apply_overrides, backfill_chunks, org_names, parse_range, resolve_entities,
    resolve_gcs_config, resolve_mode, resolve_run, resolve_tenants, transactional_entities,
    BackfillScope, ModeScope, RunPlan, SyncArgs,
};
use xero_service::{EntityType, SyncConfig, XeroCustomConnectionConfig};

fn d(y: i32, m: u32, day: u32) -> Date {
    Date::from_ymd_opt(y, m, day).expect("valid date")
}

fn cfg() -> SyncConfig {
    SyncConfig {
        window_days: 3,
        rolling_full_tight_days: 30,
        rolling_full_wide_days: 90,
        max_concurrent: 6,
    }
}

#[test]
fn resolve_tenants_defaults_to_all_configured() {
    let configured = vec!["a".to_string(), "b".to_string()];
    assert_eq!(
        resolve_tenants(&[], &configured).unwrap(),
        vec!["a".to_string(), "b".to_string()]
    );
}

#[test]
fn resolve_tenants_rejects_unconfigured_request() {
    let configured = vec!["a".to_string()];
    assert!(resolve_tenants(&["z".to_string()], &configured).is_err());
}

#[test]
fn resolve_tenants_errors_when_none_configured() {
    assert!(resolve_tenants(&[], &[]).is_err());
}

#[test]
fn parse_range_splits_from_to() {
    let (from, to) = parse_range("2020-01-01:2026-06-17").unwrap();
    assert_eq!(from, d(2020, 1, 1));
    assert_eq!(to, d(2026, 6, 17));
}

#[test]
fn parse_range_rejects_reversed_and_malformed() {
    assert!(parse_range("2026-06-17:2020-01-01").is_err());
    assert!(parse_range("2020-01-01").is_err());
    assert!(parse_range("not-a-date:2020-01-01").is_err());
}

#[test]
fn backfill_chunks_are_contiguous_and_inclusive() {
    let chunks = backfill_chunks(d(2026, 1, 1), d(2026, 3, 31), 1);
    assert_eq!(
        chunks,
        vec![
            (d(2026, 1, 1), d(2026, 1, 31)),
            (d(2026, 2, 1), d(2026, 2, 28)),
            (d(2026, 3, 1), d(2026, 3, 31)),
        ]
    );
}

#[test]
fn backfill_chunks_caps_final_chunk_at_to() {
    // `to` falls inside the first month-chunk, so there is exactly one chunk
    // capped at `to` (never extending to the natural chunk end of 02-14).
    let chunks = backfill_chunks(d(2026, 1, 15), d(2026, 2, 10), 1);
    assert_eq!(chunks, vec![(d(2026, 1, 15), d(2026, 2, 10))]);
}

#[test]
fn backfill_chunks_single_day_range() {
    let chunks = backfill_chunks(d(2026, 6, 17), d(2026, 6, 17), 1);
    assert_eq!(chunks, vec![(d(2026, 6, 17), d(2026, 6, 17))]);
}

#[test]
fn backfill_chunks_multi_month_size() {
    let chunks = backfill_chunks(d(2026, 1, 1), d(2026, 6, 30), 3);
    assert_eq!(
        chunks,
        vec![
            (d(2026, 1, 1), d(2026, 3, 31)),
            (d(2026, 4, 1), d(2026, 6, 30)),
        ]
    );
}

#[test]
fn backfill_chunks_zero_months_clamps_to_one() {
    let chunks = backfill_chunks(d(2026, 1, 1), d(2026, 2, 28), 0);
    assert_eq!(chunks.first().unwrap(), &(d(2026, 1, 1), d(2026, 1, 31)));
}

#[test]
fn transactional_excludes_master() {
    let tx = transactional_entities();
    assert!(tx.iter().all(|e| !e.is_master()));
    assert!(tx.contains(&EntityType::Invoices));
    assert!(!tx.contains(&EntityType::Accounts));
}

#[test]
fn resolve_mode_precedence() {
    let cfg = cfg();
    let rd = d(2026, 6, 17);

    // reports beats everything else
    let mut a = SyncArgs::with_entities(vec![]);
    a.reports = true;
    a.where_clause = Some("x".into());
    assert!(matches!(
        resolve_mode(&a, rd, &cfg).unwrap().0,
        SyncMode::Reports { .. }
    ));

    // where → open-sweep
    let mut a = SyncArgs::with_entities(vec![]);
    a.where_clause = Some("Status==\"AUTHORISED\"".into());
    assert_eq!(
        resolve_mode(&a, rd, &cfg).unwrap().0,
        SyncMode::OpenSweep {
            where_clause: "Status==\"AUTHORISED\"".into()
        }
    );

    // business window → rolling-full with inclusive day count, anchored at `to`
    let mut a = SyncArgs::with_entities(vec![]);
    a.business_from = Some(d(2026, 5, 18));
    a.business_to = Some(d(2026, 6, 17));
    let (mode, anchor) = resolve_mode(&a, rd, &cfg).unwrap();
    assert_eq!(mode, SyncMode::RollingFull { days: 31 });
    assert_eq!(anchor, d(2026, 6, 17));

    // full-with-window uses configured tight days
    let mut a = SyncArgs::with_entities(vec![]);
    a.full_with_window = true;
    assert_eq!(
        resolve_mode(&a, rd, &cfg).unwrap().0,
        SyncMode::RollingFull { days: 30 }
    );

    // full (master) → master
    let mut a = SyncArgs::with_entities(vec![]);
    a.full = true;
    assert_eq!(resolve_mode(&a, rd, &cfg).unwrap().0, SyncMode::Master);

    // default → incremental, anchored at run_date
    let (mode, anchor) = resolve_mode(&SyncArgs::with_entities(vec![]), rd, &cfg).unwrap();
    assert_eq!(mode, SyncMode::Incremental);
    assert_eq!(anchor, rd);
}

#[test]
fn resolve_mode_rejects_business_to_before_from() {
    let mut a = SyncArgs::with_entities(vec![]);
    a.business_from = Some(d(2026, 6, 17));
    a.business_to = Some(d(2026, 1, 1));
    assert!(resolve_mode(&a, d(2026, 6, 17), &cfg()).is_err());
}

#[test]
fn resolve_entities_defaults_per_mode() {
    let a = SyncArgs::with_entities(vec![]);
    let master = resolve_entities(&a, ModeScope(&SyncMode::Master)).unwrap();
    assert_eq!(master, EntityType::master_data().to_vec());

    let reports = resolve_entities(
        &a,
        ModeScope(&SyncMode::Reports {
            as_of: d(2026, 6, 17),
        }),
    )
    .unwrap();
    assert_eq!(reports, EntityType::reports_default().to_vec());
    // Per-contact aged reports are excluded from the default set (they need
    // a contactId; aging is derived downstream).
    assert!(!reports.contains(&EntityType::ReportAgedReceivablesByContact));
    assert!(!reports.contains(&EntityType::ReportAgedPayablesByContact));

    let open = resolve_entities(
        &a,
        ModeScope(&SyncMode::OpenSweep {
            where_clause: "x".into(),
        }),
    )
    .unwrap();
    assert_eq!(open, EntityType::open_status().to_vec());

    let backfill = resolve_entities(&a, BackfillScope).unwrap();
    assert_eq!(backfill, EntityType::all().to_vec());
}

#[test]
fn resolve_entities_rejects_report_outside_reports_mode() {
    let a = SyncArgs::with_entities(vec![EntityType::ReportBalanceSheet]);
    let err = resolve_entities(&a, ModeScope(&SyncMode::Incremental)).unwrap_err();
    assert!(err.contains("only valid with --reports"));
}

#[test]
fn resolve_entities_rejects_non_report_in_reports_mode() {
    let a = SyncArgs::with_entities(vec![EntityType::Invoices]);
    let scope = ModeScope(&SyncMode::Reports {
        as_of: d(2026, 6, 17),
    });
    let err = resolve_entities(&a, scope).unwrap_err();
    assert!(err.contains("only accepts report entities"));
}


#[test]
fn apply_overrides_replaces_window_and_concurrency() {
    let base = SyncConfig {
        window_days: 3,
        rolling_full_tight_days: 30,
        rolling_full_wide_days: 90,
        max_concurrent: 6,
    };
    let mut a = SyncArgs::with_entities(vec![]);
    a.window_days = Some(7);
    a.max_concurrent = Some(2);
    let cfg = apply_overrides(base.clone(), &a);
    assert_eq!(cfg.window_days, 7);
    assert_eq!(cfg.max_concurrent, 2);

    // No flags → config untouched.
    let cfg = apply_overrides(base.clone(), &SyncArgs::with_entities(vec![]));
    assert_eq!(cfg.window_days, 3);
    assert_eq!(cfg.max_concurrent, 6);
}

#[test]
fn resolve_gcs_config_yields_prefix_in_dry_run() {
    // Dry-run must always succeed and always carry a non-empty prefix,
    // whether or not GCS_BUCKET happens to be set in the environment.
    let mut a = SyncArgs::with_entities(vec![]);
    a.dry_run = true;
    for vars in [
        env_from(&[]),
        env_from(&[("GCS_BUCKET", "b")]),
        env_from(&[("GCS_PREFIX", " ")]),
        env_from(&[("GCS_PREFIX", "staging")]),
    ] {
        let cfg = resolve_gcs_config(&a, &vars).expect("dry-run must not require a bucket");
        assert!(!cfg.prefix.is_empty());
    }
}

#[test]
fn open_sweep_without_a_filter_beats_business_dates() {
    let mut a = SyncArgs::with_entities(vec![]);
    a.no_window = true;
    a.full = true;
    a.business_from = Some(d(2026, 5, 18));
    let (mode, anchor) = resolve_mode(&a, d(2026, 6, 17), &cfg()).unwrap();
    assert_eq!(mode, SyncMode::OpenSweep { where_clause: String::new() });
    assert_eq!(anchor, d(2026, 6, 17));
}

#[test]
fn business_dates_need_a_start_and_default_to_the_run_date() {
    let mut a = SyncArgs::with_entities(vec![]);
    a.business_to = Some(d(2026, 6, 17));
    assert_eq!(
        resolve_mode(&a, d(2026, 6, 17), &cfg()).unwrap_err(),
        "--business-to requires --business-from"
    );
    let mut a = SyncArgs::with_entities(vec![]);
    a.business_from = Some(d(2026, 6, 10));
    let (mode, anchor) = resolve_mode(&a, d(2026, 6, 17), &cfg()).unwrap();
    assert_eq!(mode, SyncMode::RollingFull { days: 8 });
    assert_eq!(anchor, d(2026, 6, 17));
    a.business_to = Some(d(2026, 6, 9));
    assert_eq!(
        resolve_mode(&a, d(2026, 6, 17), &cfg()).unwrap_err(),
        "--business-to (2026-06-09) precedes --business-from (2026-06-10)"
    );
}

#[test]
fn reports_are_as_of_the_given_day() {
    let mut a = SyncArgs::with_entities(vec![]);
    a.reports = true;
    let (mode, _) = resolve_mode(&a, d(2026, 6, 17), &cfg()).unwrap();
    assert_eq!(mode, SyncMode::Reports { as_of: d(2026, 6, 17) });
    a.as_of = Some(d(2026, 5, 31));
    let (mode, anchor) = resolve_mode(&a, d(2026, 6, 17), &cfg()).unwrap();
    assert_eq!(mode, SyncMode::Reports { as_of: d(2026, 5, 31) });
    assert_eq!(anchor, d(2026, 6, 17));
}

#[test]
fn ranges_name_what_is_wrong_with_them() {
    assert_eq!(
        parse_range("2020-01-01").unwrap_err(),
        "--backfill must be FROM:TO (YYYY-MM-DD:YYYY-MM-DD)"
    );
    assert_eq!(
        parse_range(" x :2020-01-01").unwrap_err(),
        "invalid backfill FROM date:  x "
    );
    assert_eq!(
        parse_range("2020-01-01:2020-02-30").unwrap_err(),
        "invalid backfill TO date: 2020-02-30"
    );
    assert_eq!(
        parse_range("2026-06-17:2020-01-01").unwrap_err(),
        "backfill TO (2020-01-01) precedes FROM (2026-06-17)"
    );
    assert_eq!(
        parse_range(" 2020-01-01 : 2020-01-01 ").unwrap(),
        (d(2020, 1, 1), d(2020, 1, 1))
    );
}

#[test]
fn month_ends_are_clamped_and_chunks_stay_contiguous() {
    let chunks = backfill_chunks(d(2026, 1, 31), d(2026, 4, 15), 1);
    assert_eq!(
        chunks,
        vec![
            (d(2026, 1, 31), d(2026, 2, 27)),
            (d(2026, 2, 28), d(2026, 3, 27)),
            (d(2026, 3, 28), d(2026, 4, 15)),
        ]
    );
    assert!(backfill_chunks(d(2026, 1, 2), d(2026, 1, 1), 1).is_empty());
    assert_eq!(
        backfill_chunks(d(2026, 1, 1), d(2026, 1, 2), u32::MAX),
        vec![(d(2026, 1, 1), d(2026, 1, 2))]
    );
}

#[test]
fn unconfigured_tenants_are_named() {
    let configured = vec!["a".to_string()];
    assert_eq!(
        resolve_tenants(&["a".to_string(), "z".to_string()], &configured).unwrap_err(),
        "requested tenant not configured: z"
    );
    assert_eq!(
        resolve_tenants(&[], &[]).unwrap_err(),
        "no custom-connection tenants configured (set XERO_ORG_N_* / XERO_CC_*)"
    );
    assert_eq!(resolve_tenants(&["a".to_string()], &configured).unwrap(), ["a"]);
}

#[test]
fn rolling_full_covers_transactional_entities() {
    let a = SyncArgs::with_entities(vec![]);
    let mode = SyncMode::RollingFull { days: 30 };
    let entities = resolve_entities(&a, ModeScope(&mode)).unwrap();
    assert_eq!(entities.len(), 19);
    assert_eq!(entities, transactional_entities());
    let a = SyncArgs::with_entities(vec![EntityType::Employees]);
    assert_eq!(resolve_entities(&a, BackfillScope).unwrap(), [EntityType::Employees]);
}

#[test]
fn real_runs_need_a_bucket() {
    let a = SyncArgs::with_entities(vec![]);
    assert_eq!(
        resolve_gcs_config(&a, &env_from(&[])).unwrap_err().message(),
        "config: missing required env var: GCS_BUCKET"
    );
    let reserved = env_from(&[("GCS_BUCKET", "b"), ("GCS_PREFIX", "_manifests")]);
    assert_eq!(
        resolve_gcs_config(&a, &reserved).unwrap_err().message(),
        "config: GCS_PREFIX must not start with '_manifests' (reserved manifest namespace): _manifests"
    );
}

#[test]
fn organisations_are_named_by_their_connection() {
    let connection = |tenant: &str, name: Option<&str>| XeroCustomConnectionConfig {
        tenant_name: name.map(str::to_owned),
        tenant_id: tenant.to_owned(),
        client_id: String::new(),
        client_secret: String::new(),
    };
    let list = vec![connection("a", Some("A Ltd")), connection("b", None)];
    let names = org_names(&list);
    assert_eq!(names.get("a"), Some("A Ltd"));
    assert_eq!(names.get("b"), None);
    assert_eq!(names.len(), 1);
}

#[test]
fn texts_of_ranges_are_read_as_those_ranges() {
    for (from, to) in [
        (d(2024, 2, 29), d(2024, 2, 29)),
        (d(0, 1, 1), d(9999, 12, 31)),
        (d(-262143, 1, 1), d(262142, 12, 31)),
    ] {
        let text = format!("{}:{}", from.to_text(), to.to_text());
        assert_eq!(parse_range(&text).unwrap(), (from, to));
    }
}

#[test]
fn backfills_come_before_every_mode() {
    let run_date = d(2026, 6, 17);
    let mut args = SyncArgs::with_entities(vec![EntityType::Invoices]);
    args.full = true;
    args.backfill = Some("2026-01-01:2026-03-31".to_owned());
    let (plan, entities) = resolve_run(&args, run_date, &cfg()).unwrap();
    assert!(matches!(plan, RunPlan::Backfill(f, t) if f == d(2026, 1, 1) && t == d(2026, 3, 31)));
    assert_eq!(entities, [EntityType::Invoices]);
    // Entities that do not fit are told before a range that cannot be read.
    args.backfill = Some("nope".to_owned());
    args.entity = vec![EntityType::ReportBalanceSheet];
    assert_eq!(
        resolve_run(&args, run_date, &cfg()).unwrap_err(),
        "report entity report_balance_sheet is only valid with --reports"
    );
    args.entity = Vec::new();
    assert_eq!(
        resolve_run(&args, run_date, &cfg()).unwrap_err(),
        "--backfill must be FROM:TO (YYYY-MM-DD:YYYY-MM-DD)"
    );
    args.backfill = None;
    let (plan, entities) = resolve_run(&args, run_date, &cfg()).unwrap();
    assert!(matches!(plan, RunPlan::Once(SyncMode::Master, anchor) if anchor == run_date));
    assert_eq!(entities, EntityType::master_data());
    args.business_to = Some(run_date);
    assert_eq!(
        resolve_run(&args, run_date, &cfg()).unwrap_err(),
        "--business-to requires --business-from"
    );
}
