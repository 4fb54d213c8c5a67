use std::collections::BTreeMap;

use xero_service::calendar::Date;
use xero_service::error::GcsError;
use xero_service::job::manifest_upload;
use xero_service::json::parse;
use xero_service::key::{object_key, report_object_key, sanitize_segment};
use xero_service::manifest::{manifest_key, manifest_meta, EntityOutcome, RunManifest};
use xero_service::meta::{
    metadata, report_metadata, sidecar_bytes, sidecar_key, MetaArgs, ObjectMeta, ReportMetaArgs,
    SyncType,
};
use xero_service::sink::{raw_writes, validate_bucket, LocalDirSink};
use xero_service::sorted::{before, SortedMap};


fn date() -> Date {
    Date::from_ymd_opt(2026, 6, 17).expect("valid date")
}

#[test]
fn sanitize_strips_slashes_for_report_paths() {
    // The load-bearing guarantee: the output must NEVER contain a slash.
    assert_eq!(
        sanitize_segment("Reports/ProfitAndLoss"),
        "reports_profitandloss"
    );
    assert!(!sanitize_segment("Reports/ProfitAndLoss").contains('/'));
    assert!(!sanitize_segment("Reports/AgedReceivablesByContact").contains('/'));
    assert!(!sanitize_segment("Reports/BalanceSheet").contains('/'));
    // Already-safe snake_case ids pass through unchanged.
    assert_eq!(sanitize_segment("bank_transactions"), "bank_transactions");
    assert_eq!(
        sanitize_segment("report_profit_and_loss"),
        "report_profit_and_loss"
    );
}

#[test]
fn sanitize_lowercases_and_replaces_non_alphanumeric() {
    assert_eq!(sanitize_segment("Invoices"), "invoices");
    assert_eq!(sanitize_segment("Tax Rates"), "tax_rates");
    assert_eq!(sanitize_segment("a.b-c"), "a_b_c");
}

#[test]
fn sanitize_maps_non_ascii_alphanumeric_to_underscore() {
    // Non-ASCII letters are not ASCII-alphanumeric → mapped to '_'.
    assert_eq!(sanitize_segment("café"), "caf_");
    assert_eq!(sanitize_segment("Ærø"), "_r_");
}

#[test]
fn sanitize_output_never_contains_slash() {
    for input in [
        "Reports/ProfitAndLoss",
        "a/b/c/d",
        "///",
        "Reports/Aged/By/Contact",
    ] {
        assert!(
            !sanitize_segment(input).contains('/'),
            "slash leaked for input {input:?}"
        );
    }
}

#[test]
fn object_key_matches_documented_layout() {
    let key = object_key(
        "raw/xero",
        "e0c3a1b2",
        "invoices",
        date(),
        "20260617T030001Z",
        "5f3c9a",
        1,
    );
    assert_eq!(
        key,
        "raw/xero/e0c3a1b2/2.0/invoices/2026-06-17/20260617T030001Z_5f3c9a_p001.json"
    );
}

#[test]
fn object_key_zero_pads_page_to_three_digits() {
    let key = object_key("raw/xero", "t", "invoices", date(), "TS", "rid", 42);
    assert!(key.ends_with("TS_rid_p042.json"), "got {key}");

    let key = object_key("raw/xero", "t", "invoices", date(), "TS", "rid", 7);
    assert!(key.ends_with("TS_rid_p007.json"), "got {key}");

    let key = object_key("raw/xero", "t", "invoices", date(), "TS", "rid", 123);
    assert!(key.ends_with("TS_rid_p123.json"), "got {key}");
}

#[test]
fn object_key_sanitizes_report_endpoint_into_single_segment() {
    let key = object_key(
        "raw/xero",
        "t",
        "Reports/ProfitAndLoss",
        date(),
        "TS",
        "rid",
        1,
    );
    // Endpoint slash must NOT introduce an extra path segment.
    assert!(key.contains("/reports_profitandloss/"), "got {key}");
    assert_eq!(
        key,
        "raw/xero/t/2.0/reports_profitandloss/2026-06-17/TS_rid_p001.json"
    );
}

#[test]
fn object_key_run_id_short_is_sanitized() {
    let key = object_key("raw/xero", "t", "invoices", date(), "TS", "5F3C-9A", 1);
    assert!(key.ends_with("TS_5f3c_9a_p001.json"), "got {key}");
}

#[test]
fn object_key_contains_api_version_segment() {
    let key = object_key("raw/xero", "t", "invoices", date(), "TS", "rid", 1);
    assert!(key.contains("/2.0/"), "missing api version: {key}");
}

#[test]
fn report_object_key_uses_double_underscore_period_suffix() {
    let key = report_object_key(
        "raw/xero",
        "t",
        "report_balance_sheet",
        date(),
        "20260617T030001Z",
        "5f3c9a",
        "asof-2026-06-17",
    );
    assert_eq!(
        key,
        "raw/xero/t/2.0/report_balance_sheet/2026-06-17/20260617T030001Z_5f3c9a__asof_2026_06_17.json"
    );
}

#[test]
fn report_object_key_has_no_page_suffix() {
    let key = report_object_key(
        "raw/xero",
        "t",
        "report_profit_and_loss",
        date(),
        "TS",
        "rid",
        "2026-06-01_2026-06-17",
    );
    assert!(!key.contains("_p0"), "report key must not have page: {key}");
    assert!(key.ends_with("__2026_06_01_2026_06_17.json"), "got {key}");
}

#[test]
fn report_object_key_sanitizes_run_id_short() {
    // A UUID-style run_id (hyphens + upper-case) must be flattened and
    // lowercased exactly like object_key does — every filename segment is
    // slash-free and lowercased.
    let key = report_object_key(
        "raw/xero",
        "t",
        "report_balance_sheet",
        date(),
        "TS",
        "5F3C-9A",
        "asof-2026-06-17",
    );
    assert!(
        key.contains("TS_5f3c_9a__asof_2026_06_17.json"),
        "run_id must be sanitized: {key}"
    );
    assert!(!key.contains("5F3C-9A"), "raw run_id leaked: {key}");
}

#[test]
fn report_object_key_sanitizes_period_key() {
    let key = report_object_key(
        "raw/xero",
        "t",
        "report_balance_sheet",
        date(),
        "TS",
        "rid",
        "asof-2026/06/17",
    );
    // Period key slashes must be flattened — no extra path segments.
    assert!(key.ends_with("__asof_2026_06_17.json"), "got {key}");
    // Slash count is fixed regardless of the period key's own slashes:
    // prefix(raw/xero=1) + tenant + api + endpoint + run_date + filename = 6.
    assert_eq!(key.matches('/').count(), 6, "unexpected segments: {key}");
}


#[test]
fn sync_type_as_str_uses_documented_wire_values() {
    assert_eq!(SyncType::Incremental.as_str(), "incremental");
    assert_eq!(SyncType::OpenSweep.as_str(), "open-sweep");
    assert_eq!(SyncType::RollingFull.as_str(), "rolling-full");
    assert_eq!(SyncType::Master.as_str(), "master");
    assert_eq!(SyncType::Backfill.as_str(), "backfill");
    assert_eq!(SyncType::ReportSnapshot.as_str(), "report-snapshot");
}

fn page_args() -> MetaArgs<'static> {
    MetaArgs {
        tenant_id: "e0c3a1b2",
        org_name: "Aquatiq Australia Pty Ltd",
        endpoint: "invoices",
        sync_type: SyncType::Incremental,
        modified_after: Some("2026-06-14T03:00:00Z"),
        business_from: None,
        business_to: None,
        where_filter: None,
        page: 1,
        record_count: 137,
        http_status: 200,
        run_id: "5f3c9a2e",
        synced_at: "2026-06-17T03:00:01Z",
    }
}

#[test]
fn metadata_includes_all_required_base_keys() {
    let meta = metadata(&page_args());
    assert_eq!(meta.get("x-vendor"), Some("xero"));
    assert_eq!(meta.get("x-tenant-id"), Some("e0c3a1b2"));
    assert_eq!(meta.get("x-org-name"), Some("Aquatiq Australia Pty Ltd"));
    assert_eq!(meta.get("x-endpoint"), Some("invoices"));
    assert_eq!(meta.get("x-api-version"), Some("2.0"));
    assert_eq!(meta.get("x-sync-type"), Some("incremental"));
    assert_eq!(meta.get("x-page"), Some("1"));
    assert_eq!(meta.get("x-record-count"), Some("137"));
    assert_eq!(meta.get("x-http-status"), Some("200"));
    assert_eq!(meta.get("x-run-id"), Some("5f3c9a2e"));
    assert_eq!(meta.get("x-synced-at"), Some("2026-06-17T03:00:01Z"));
}

#[test]
fn metadata_emits_optional_modified_after_when_present() {
    let meta = metadata(&page_args());
    assert_eq!(meta.get("x-modified-after"), Some("2026-06-14T03:00:00Z"));
    assert!(meta.get("x-business-from").is_none());
    assert!(meta.get("x-business-to").is_none());
    assert!(meta.get("x-where").is_none());
}

#[test]
fn metadata_omits_modified_after_when_none() {
    let mut args = page_args();
    args.modified_after = None;
    let meta = metadata(&args);
    assert!(meta.get("x-modified-after").is_none());
}

#[test]
fn metadata_emits_business_window_and_where_for_rolling_and_sweep() {
    let args = MetaArgs {
        sync_type: SyncType::RollingFull,
        modified_after: None,
        business_from: Some("2026-03-19"),
        business_to: Some("2026-06-17"),
        where_filter: Some("Status==\"AUTHORISED\""),
        ..page_args()
    };
    let meta = metadata(&args);
    assert_eq!(meta.get("x-sync-type"), Some("rolling-full"));
    assert_eq!(meta.get("x-business-from"), Some("2026-03-19"));
    assert_eq!(meta.get("x-business-to"), Some("2026-06-17"));
    assert_eq!(meta.get("x-where"), Some("Status==\"AUTHORISED\""));
}

#[test]
fn metadata_ordering_is_deterministic() {
    let a = metadata(&page_args());
    let b = metadata(&page_args());
    let ka: Vec<_> = a.entries().iter().map(|(k, _)| k).collect();
    let kb: Vec<_> = b.entries().iter().map(|(k, _)| k).collect();
    assert_eq!(ka, kb);
    assert!(ka.windows(2).all(|w| w[0] <= w[1]));
}

fn report_asof_args() -> ReportMetaArgs<'static> {
    ReportMetaArgs {
        tenant_id: "t",
        org_name: "Org",
        endpoint: "report_balance_sheet",
        report: "BalanceSheet",
        report_date: Some("2026-06-17"),
        report_from: None,
        report_to: None,
        report_params: "date=2026-06-17",
        http_status: 200,
        record_count: 1,
        run_id: "rid",
        synced_at: "2026-06-17T03:00:01Z",
    }
}

#[test]
fn report_metadata_asof_variant() {
    let meta = report_metadata(&report_asof_args());
    assert_eq!(meta.get("x-sync-type"), Some("report-snapshot"));
    assert_eq!(meta.get("x-report"), Some("BalanceSheet"));
    assert_eq!(meta.get("x-report-date"), Some("2026-06-17"));
    assert_eq!(meta.get("x-report-params"), Some("date=2026-06-17"));
    assert!(meta.get("x-report-from").is_none());
    assert!(meta.get("x-report-to").is_none());
    // A report object has no x-page.
    assert!(meta.get("x-page").is_none());
}

#[test]
fn report_metadata_period_variant() {
    let args = ReportMetaArgs {
        report: "ProfitAndLoss",
        endpoint: "report_profit_and_loss",
        report_date: None,
        report_from: Some("2026-06-01"),
        report_to: Some("2026-06-17"),
        report_params: "fromDate=2026-06-01&toDate=2026-06-17",
        ..report_asof_args()
    };
    let meta = report_metadata(&args);
    assert_eq!(meta.get("x-report-from"), Some("2026-06-01"));
    assert_eq!(meta.get("x-report-to"), Some("2026-06-17"));
    assert!(meta.get("x-report-date").is_none());
}

#[test]
fn sidecar_key_appends_meta_json() {
    assert_eq!(
        sidecar_key("raw/xero/t/2.0/invoices/2026-06-17/TS_rid_p001.json"),
        "raw/xero/t/2.0/invoices/2026-06-17/TS_rid_p001.json.meta.json"
    );
}

#[test]
fn sidecar_bytes_is_pretty_json_round_trippable() {
    let meta = metadata(&page_args());
    let bytes = sidecar_bytes(&meta);
    let text = String::from_utf8(bytes).expect("utf8");
    // Pretty JSON is indented (multi-line).
    assert!(text.contains('\n'));
    let parsed: BTreeMap<String, String> = serde_json::from_str(&text).expect("parse back");
    let entries: BTreeMap<String, String> = meta.entries().iter().cloned().collect();
    assert_eq!(parsed, entries);
}

fn run_id() -> u128 {
    uuid::Uuid::parse_str("5f3c9a2e-0000-0000-0000-000000000000").expect("valid uuid").as_u128()
}

#[test]
fn manifest_key_matches_documented_layout() {
    assert_eq!(
        manifest_key(date(), run_id()),
        "_manifests/xero/2026-06-17/5f3c9a2e-0000-0000-0000-000000000000.json"
    );
}

#[test]
fn manifest_key_lives_outside_raw_prefix() {
    let key = manifest_key(date(), run_id());
    assert!(
        !key.starts_with("raw/"),
        "manifest leaked into raw prefix: {key}"
    );
    assert!(key.starts_with("_manifests/"), "got {key}");
}

#[test]
fn local_dir_sink_rejects_parent_dir_traversal_key() {
    let sink = LocalDirSink::new("/tmp/out");
    let err = sink.resolve_within_root("../../etc/passwd").expect_err("traversal key must be rejected");
    assert!(matches!(err, GcsError::Io(_)), "expected Io error, got {err:?}");
    assert_eq!(
        err.message(),
        "io error: key \"../../etc/passwd\" escapes the sink root directory"
    );
}

#[test]
fn local_dir_sink_rejects_absolute_key() {
    for root in ["/tmp", "./out"] {
        let sink = LocalDirSink::new(root);
        let err = sink
            .resolve_within_root("/tmp/xero_escape_attempt.json")
            .expect_err("absolute key must be rejected");
        assert!(matches!(err, GcsError::Io(_)), "expected Io error, got {err:?}");
    }
}

#[test]
fn local_dir_sink_allows_interior_parent_dir() {
    let sink = LocalDirSink::new("./out");
    assert_eq!(
        sink.resolve_within_root("a/b/../c/file.json").expect("interior .. should resolve"),
        ["a", "c", "file.json"]
    );
}

#[test]
fn local_dir_sink_creates_nested_directories() {
    let sink = LocalDirSink::new("./out");
    assert_eq!(
        sink.resolve_within_root("a/deeply/nested/key/file.json").unwrap(),
        ["a", "deeply", "nested", "key", "file.json"]
    );
    assert_eq!(sink.root(), "./out");
}

#[test]
fn paths_are_walked_part_by_part() {
    let sink = LocalDirSink::new("out");
    assert_eq!(sink.resolve_within_root("a//./b").unwrap(), ["a", "b"]);
    assert!(sink.resolve_within_root("a/..").unwrap().is_empty());
    assert!(sink.resolve_within_root("").unwrap().is_empty());
    assert!(sink.resolve_within_root("a/../..").is_err());
    assert!(sink.resolve_within_root("a/../../a").is_err());
}

#[test]
fn refused_keys_are_shown_escaped() {
    let err = LocalDirSink::new("out").resolve_within_root("../\n").unwrap_err();
    assert_eq!(err.message(), "io error: key \"../\\n\" escapes the sink root directory");
}

#[test]
fn writes_are_the_object_and_its_sidecar() {
    let meta = metadata(&page_args());
    let (object, side) = raw_writes("k.json", b"{ }".to_vec(), &meta);
    assert_eq!(object.key, "k.json");
    assert_eq!(object.body, b"{ }");
    assert!(object.carries_metadata);
    assert_eq!(side.key, "k.json.meta.json");
    assert_eq!(side.body, sidecar_bytes(&meta));
    assert!(!side.carries_metadata);
}

#[test]
fn sidecar_reads_back_as_the_metadata() {
    let meta = metadata(&MetaArgs { org_name: "A \"B\" \u{1F600}\n", ..page_args() });
    let tree = parse(&sidecar_bytes(&meta)).unwrap();
    for (k, v) in meta.entries() {
        assert_eq!(tree.get(k).and_then(|j| j.as_str()), Some(v.as_str()));
    }
}

#[test]
fn buckets_need_a_name() {
    assert!(validate_bucket("b").is_ok());
    assert_eq!(
        validate_bucket(" \t").unwrap_err().message(),
        "gcs config error: bucket name must not be empty"
    );
}

#[test]
fn manifest_metadata_tags_vendor_and_kind() {
    let meta = manifest_meta();
    assert_eq!(meta.get("x-vendor"), Some("xero"));
    assert_eq!(meta.get("x-sync-type"), Some("manifest"));
    assert_eq!(meta.len(), 2);
    assert!(!meta.is_empty());
}

#[test]
fn full_run_lands_documented_gcs_layout() {
    let tenant = "e0c3a1b2-1111-2222-3333-444455556666";
    let ts = "20260617T030001Z";
    for page in 1u32..=2 {
        let key = object_key("raw/xero", tenant, "invoices", date(), ts, "5f3c9a2e", page);
        assert_eq!(
            key,
            format!("raw/xero/{tenant}/2.0/invoices/2026-06-17/{ts}_5f3c9a2e_p00{page}.json")
        );
        assert_eq!(key.matches('/').count(), 6);
        let args = MetaArgs {
            tenant_id: tenant,
            org_name: "Aquatiq Australia Pty Ltd",
            endpoint: "invoices",
            sync_type: SyncType::Incremental,
            modified_after: Some("2026-06-14T03:00:00Z"),
            page,
            record_count: 100,
            http_status: 200,
            run_id: "5f3c9a2e-0000-0000-0000-000000000000",
            synced_at: "2026-06-17T03:00:01Z",
            ..Default::default()
        };
        let meta = metadata(&args);
        assert_eq!(meta.get("x-vendor"), Some("xero"));
        assert_eq!(meta.get("x-api-version"), Some("2.0"));
        assert_eq!(meta.get("x-endpoint"), Some("invoices"));
        assert_eq!(meta.get("x-tenant-id"), Some(tenant));
        assert!(meta.entries().iter().all(|(k, _)| k.starts_with("x-")));
    }
    let report = report_object_key(
        "raw/xero",
        tenant,
        "report_balance_sheet",
        date(),
        ts,
        "5f3c9a2e",
        "asof-2026-06-17",
    );
    assert!(report.ends_with("__asof_2026_06_17.json"));
    assert!(!report.contains("_p0"));
    assert_eq!(report.matches('/').count(), 6);
    let meta = report_metadata(&ReportMetaArgs {
        tenant_id: tenant,
        report: "BalanceSheet",
        ..Default::default()
    });
    assert_eq!(meta.get("x-sync-type"), Some("report-snapshot"));
    assert_eq!(meta.get("x-report"), Some("BalanceSheet"));
    let manifest = manifest_key(date(), run_id());
    assert_eq!(manifest, "_manifests/xero/2026-06-17/5f3c9a2e-0000-0000-0000-000000000000.json");
    assert_eq!(manifest.matches('/').count(), 3);
}

#[test]
fn pages_past_a_thousand_keep_distinct_keys() {
    let key = |page| object_key("p", "t", "e", date(), "TS", "r", page);
    assert!(key(1000).ends_with("_p1000.json"));
    assert!(key(0).ends_with("_p000.json"));
    assert_ne!(key(100), key(1000));
    assert_eq!(sanitize_segment(&sanitize_segment("A/b C")), "a_b_c");
}

#[test]
fn sorted_maps_do_not_remember_insertion_order() {
    let mut a = SortedMap::new();
    a.insert("b", "1");
    a.insert("a", "2");
    a.insert("b", "3");
    let mut b = SortedMap::new();
    b.insert("a", "2");
    b.insert("b", "3");
    assert_eq!(a.entries(), b.entries());
    assert_eq!(a.len(), 2);
    assert_eq!(a.get("b"), Some("3"));
    assert_eq!(a.get("c"), None);
    assert!(before("a", "ab") && before("Z", "a") && !before("a", "a") && before("z", "\u{e9}"));
}

#[test]
fn sidecars_are_indented_by_two_spaces() {
    let mut map = SortedMap::new();
    assert_eq!(sidecar_bytes(&ObjectMeta::from_map(SortedMap::new())), b"{}");
    map.insert("b", "2\n\u{1}\u{7f}\u{e9}");
    map.insert("a", "\"\\/\t\r\u{8}\u{c}\u{1f}");
    let text = String::from_utf8(sidecar_bytes(&ObjectMeta::from_map(map))).unwrap();
    assert_eq!(
        text,
        "{\n  \"a\": \"\\\"\\\\/\\t\\r\\b\\f\\u001f\",\n  \"b\": \"2\\n\\u0001\u{7f}\u{e9}\"\n}"
    );
}

fn sample_manifest() -> RunManifest {
    RunManifest {
        run_id: "rid".to_string(),
        started_at: "2026-06-17T03:00:00Z".to_string(),
        finished_at: "2026-06-17T03:01:00Z".to_string(),
        mode: "incremental".to_string(),
        window_days: Some(3),
        entities: vec![EntityOutcome {
            tenant: "t".to_string(),
            endpoint: "invoices".to_string(),
            pages: 2,
            records: 137,
            termination: "empty-page".to_string(),
            error: None,
        }],
    }
}

#[test]
fn manifest_round_trips_through_json() {
    let m = sample_manifest();
    let json = m.to_json().to_text();
    let back = RunManifest::from_json(&parse(json.as_bytes()).expect("parse")).expect("read back");
    assert_eq!(m, back);
    // `error: None` is omitted from the serialized form.
    assert!(
        !json.contains("\"error\""),
        "null error should be skipped: {json}"
    );
    assert_eq!(
        json,
        r#"{"run_id":"rid","started_at":"2026-06-17T03:00:00Z","finished_at":"2026-06-17T03:01:00Z","mode":"incremental","window_days":3,"entities":[{"tenant":"t","endpoint":"invoices","pages":2,"records":137,"termination":"empty-page"}]}"#
    );
}

#[test]
fn entity_outcome_keeps_error_when_present() {
    let e = EntityOutcome {
        tenant: "t".to_string(),
        endpoint: "invoices".to_string(),
        pages: 0,
        records: 0,
        termination: "error".to_string(),
        error: Some("rate limited".to_string()),
    };
    let json = e.to_json().to_text();
    assert!(json.contains("rate limited"), "got {json}");
    assert_eq!(EntityOutcome::from_json(&e.to_json()), Some(e));
}

#[test]
fn manifests_without_a_member_are_not_read() {
    let m = sample_manifest();
    let text = m.to_json().to_text();
    let read = |text: &str| RunManifest::from_json(&parse(text.as_bytes()).expect("valid JSON"));
    assert_eq!(read(&text.replace("\"window_days\":3,", "")).unwrap().window_days, None);
    assert_eq!(read(&text.replace(":3,", ":null,")).unwrap().window_days, None);
    assert_eq!(read(&text.replace(":3,", ":\"3\",")), None);
    assert_eq!(read(&text.replace("\"mode\"", "\"made\"")), None);
    assert_eq!(read(&text.replace("\"pages\":2", "\"pages\":-2")), None);
    assert_eq!(read(&text.replace("\"pages\":2", "\"pages\":4294967296")), None);
    assert_eq!(read("[]"), None);
}

#[test]
fn write_manifest_lands_outside_raw_prefix() {
    let run_date = date();
    let run_id = 0x5f3c9a2e_0000_0000_0000_000000000000u128;
    let m = RunManifest {
        run_id: "5f3c9a2e-0000-0000-0000-000000000000".to_string(),
        ..sample_manifest()
    };
    let upload = manifest_upload(run_date, run_id, &m);
    let key = manifest_key(run_date, run_id);
    assert!(!key.starts_with("raw/"));
    assert_eq!(upload.key, key);
    let back = RunManifest::from_json(&parse(&upload.body).expect("parse manifest"));
    assert_eq!(back, Some(m));
    let pretty: serde_json::Value = serde_json::from_slice(&upload.body).expect("valid JSON");
    assert_eq!(pretty["entities"][0]["records"], 137);
    assert_eq!(upload.meta.get("x-sync-type"), Some("manifest"));
    assert!(String::from_utf8(upload.body).unwrap().starts_with(
        "{\n  \"run_id\": \"5f3c9a2e-0000-0000-0000-000000000000\",\n  \"started_at\": "
    ));
}

#[test]
fn local_dir_sink_round_trips_object_and_sidecar() {
    let sink = LocalDirSink::new("/data/out");
    let key = "raw/xero/t/2.0/invoices/2026-06-17/TS_rid_p001.json";
    let body = br#"{"Id":"x","Status":"OK","Invoices":[]}"#;
    let mut map = SortedMap::new();
    map.insert("x-vendor", "xero");
    map.insert("x-endpoint", "invoices");
    map.insert("x-page", "1");
    let meta = ObjectMeta::from_map(map);
    let (object, side) = raw_writes(key, body.to_vec(), &meta);
    // Object body matches verbatim.
    assert_eq!(object.body, body);
    assert_eq!(
        sink.resolve_within_root(&object.key).unwrap().join("/"),
        "raw/xero/t/2.0/invoices/2026-06-17/TS_rid_p001.json"
    );
    // Sidecar stands beside it and parses back to the same map.
    assert_eq!(
        sink.resolve_within_root(&side.key).unwrap().join("/"),
        "raw/xero/t/2.0/invoices/2026-06-17/TS_rid_p001.json.meta.json"
    );
    let parsed: BTreeMap<String, String> =
        serde_json::from_slice(&side.body).expect("parse sidecar");
    let entries: BTreeMap<String, String> = meta.entries().iter().cloned().collect();
    assert_eq!(parsed, entries);
}

#[test]
fn indented_documents_have_a_line_for_each_value() {
    let tree = parse(br#"{"a":[],"b":{},"c":[1,[true,null]],"d":{"e":"x\"y"}}"#).unwrap();
    assert_eq!(
        tree.to_pretty_text(),
        "{\n  \"a\": [],\n  \"b\": {},\n  \"c\": [\n    1,\n    [\n      true,\n      null\n    ]\n  ],\n  \"d\": {\n    \"e\": \"x\\\"y\"\n  }\n}"
    );
    let value: serde_json::Value = serde_json::from_str(&tree.to_text()).unwrap();
    assert_eq!(tree.to_pretty_text(), serde_json::to_string_pretty(&value).unwrap());
    assert_eq!(parse(b"[]").unwrap().to_pretty_text(), "[]");
    assert_eq!(parse(b"7").unwrap().to_pretty_text(), "7");
}
