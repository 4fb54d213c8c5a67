use xero_service::calendar::Date;
use xero_service::config::{env_from, is_reserved_prefix, numbered_org_indices};
use xero_service::manifest::manifest_key;
use xero_service::sorted::SortedMap;
use xero_service::{AppConfig, GcsConfig, SyncConfig};


#[test]
fn custom_connection_uses_org_credentials() {
    let cfg = AppConfig::from_pairs([
        ("XERO_CONNECTION_TYPE", "custom"),
        ("XERO_ORG_1_NAME", "Aquatiq Australia Pty Ltd"),
        ("XERO_ORG_1_CLIENT_ID", "org-client-id"),
        ("XERO_ORG_1_CLIENT_SECRET", "org-client-secret"),
        ("XERO_ORG_1_TENANT_ID", "tenant-123"),
    ])
    .unwrap();

    assert_eq!(cfg.xero_cc_client_id.as_deref(), Some("org-client-id"));
    assert_eq!(
        cfg.xero_cc_client_secret.as_deref(),
        Some("org-client-secret")
    );
    assert_eq!(cfg.xero_cc_tenant_id.as_deref(), Some("tenant-123"));
    assert_eq!(
        cfg.xero_cc_tenant_name.as_deref(),
        Some("Aquatiq Australia Pty Ltd")
    );
}

#[test]
fn custom_connection_defaults_without_connection_type() {
    // XERO_CONNECTION_TYPE is optional — custom-connection is implied.
    let cfg = AppConfig::from_pairs([
        ("XERO_ORG_1_CLIENT_ID", "org-client-id"),
        ("XERO_ORG_1_CLIENT_SECRET", "org-client-secret"),
        ("XERO_ORG_1_TENANT_ID", "tenant-123"),
    ])
    .unwrap();

    assert_eq!(cfg.xero_cc_client_id.as_deref(), Some("org-client-id"));
    assert_eq!(cfg.xero_cc_tenant_id.as_deref(), Some("tenant-123"));
}

#[test]
fn custom_connection_can_select_numbered_org_credentials() {
    let cfg = AppConfig::from_pairs([
        ("XERO_CONNECTION_TYPE", "custom"),
        ("XERO_CUSTOM_CONNECTION_ORG_INDEX", "2"),
        ("XERO_ORG_1_NAME", "Aquatiq Australia Pty Ltd"),
        ("XERO_ORG_1_CLIENT_ID", "au-client-id"),
        ("XERO_ORG_1_CLIENT_SECRET", "au-client-secret"),
        ("XERO_ORG_1_TENANT_ID", "au-tenant"),
        ("XERO_ORG_2_NAME", "Aquatiq New Zealand Limited"),
        ("XERO_ORG_2_CLIENT_ID", "nz-client-id"),
        ("XERO_ORG_2_CLIENT_SECRET", "nz-client-secret"),
        ("XERO_ORG_2_TENANT_ID", "nz-tenant"),
    ])
    .unwrap();

    assert_eq!(cfg.xero_cc_client_id.as_deref(), Some("nz-client-id"));
    assert_eq!(
        cfg.xero_cc_client_secret.as_deref(),
        Some("nz-client-secret")
    );
    assert_eq!(cfg.xero_cc_tenant_id.as_deref(), Some("nz-tenant"));
    assert_eq!(
        cfg.xero_cc_tenant_name.as_deref(),
        Some("Aquatiq New Zealand Limited")
    );
}

#[test]
fn custom_connection_collects_all_numbered_org_credentials() {
    let cfg = AppConfig::from_pairs([
        ("XERO_CONNECTION_TYPE", "custom"),
        ("XERO_ORG_1_NAME", "Aquatiq Australia Pty Ltd"),
        ("XERO_ORG_1_CLIENT_ID", "au-client-id"),
        ("XERO_ORG_1_CLIENT_SECRET", "au-client-secret"),
        ("XERO_ORG_1_TENANT_ID", "au-tenant"),
        ("XERO_ORG_2_NAME", "Aquatiq New Zealand Limited"),
        ("XERO_ORG_2_CLIENT_ID", "nz-client-id"),
        ("XERO_ORG_2_CLIENT_SECRET", "nz-client-secret"),
        ("XERO_ORG_2_TENANT_ID", "nz-tenant"),
    ])
    .unwrap();

    assert_eq!(cfg.xero_cc_connections.len(), 2);
    assert!(cfg
        .xero_cc_connections
        .iter()
        .any(|conn| conn.tenant_id == "au-tenant" && conn.client_id == "au-client-id"));
    assert!(cfg
        .xero_cc_connections
        .iter()
        .any(|conn| conn.tenant_id == "nz-tenant" && conn.client_id == "nz-client-id"));
}

#[test]
fn missing_credentials_is_a_config_error() {
    let err = AppConfig::from_pairs([("XERO_CONNECTION_TYPE", "custom")]).unwrap_err();
    assert!(err
        .message()
        .contains("missing custom connection credentials"));
}

#[test]
fn non_custom_connection_type_is_rejected() {
    for ty in ["pkce", "oauth", "oauth_pkce", "hybrid", "mixed", "bogus"] {
        let err = AppConfig::from_pairs([
            ("XERO_CONNECTION_TYPE", ty),
            ("XERO_ORG_1_CLIENT_ID", "org-client-id"),
            ("XERO_ORG_1_CLIENT_SECRET", "org-client-secret"),
            ("XERO_ORG_1_TENANT_ID", "tenant-123"),
        ])
        .unwrap_err();
        assert!(
            err.message().contains("unsupported XERO_CONNECTION_TYPE"),
            "expected rejection for connection type {ty}, got: {err:?}"
        );
    }
}

fn map<const N: usize>(pairs: [(&str, &str); N]) -> SortedMap {
    env_from(&pairs)
}

#[test]
fn gcs_config_uses_default_prefix() {
    let cfg = GcsConfig::from_map(&map([("GCS_BUCKET", "my-bucket")])).unwrap();
    assert_eq!(cfg.bucket, "my-bucket");
    assert_eq!(cfg.prefix, "raw/xero");
}

#[test]
fn gcs_config_overrides_prefix() {
    let cfg = GcsConfig::from_map(&map([
        ("GCS_BUCKET", "my-bucket"),
        ("GCS_PREFIX", "staging/xero"),
    ]))
    .unwrap();
    assert_eq!(cfg.bucket, "my-bucket");
    assert_eq!(cfg.prefix, "staging/xero");
}

#[test]
fn gcs_config_requires_bucket() {
    let err = GcsConfig::from_map(&map([("GCS_PREFIX", "staging/xero")])).unwrap_err();
    assert!(err.message().contains("GCS_BUCKET"));
}

#[test]
fn gcs_config_rejects_manifests_prefix() {
    let err = GcsConfig::from_map(&map([
        ("GCS_BUCKET", "my-bucket"),
        ("GCS_PREFIX", "_manifests/xero"),
    ]))
    .unwrap_err();
    assert!(err.message().contains("_manifests"));
}

#[test]
fn gcs_config_rejects_leading_slash_manifests_prefix() {
    let err = GcsConfig::from_map(&map([
        ("GCS_BUCKET", "my-bucket"),
        ("GCS_PREFIX", "/_manifests/xero"),
    ]))
    .unwrap_err();
    assert!(err.message().contains("_manifests"));
}

#[test]
fn sync_config_uses_defaults() {
    let cfg = SyncConfig::from_map(&map([])).unwrap();
    assert_eq!(cfg.window_days, 3);
    assert_eq!(cfg.rolling_full_tight_days, 30);
    assert_eq!(cfg.rolling_full_wide_days, 90);
    assert_eq!(cfg.max_concurrent, 6);
}

#[test]
fn sync_config_overrides_all_fields() {
    let cfg = SyncConfig::from_map(&map([
        ("SYNC_WINDOW_DAYS", "7"),
        ("SYNC_ROLLING_FULL_TIGHT_DAYS", "45"),
        ("SYNC_ROLLING_FULL_WIDE_DAYS", "180"),
        ("SYNC_MAX_CONCURRENT", "12"),
    ]))
    .unwrap();
    assert_eq!(cfg.window_days, 7);
    assert_eq!(cfg.rolling_full_tight_days, 45);
    assert_eq!(cfg.rolling_full_wide_days, 180);
    assert_eq!(cfg.max_concurrent, 12);
}

#[test]
fn sync_config_rejects_malformed_value() {
    let err = SyncConfig::from_map(&map([("SYNC_MAX_CONCURRENT", "lots")])).unwrap_err();
    assert!(err.message().contains("SYNC_MAX_CONCURRENT"));
}

#[test]
fn later_assignments_of_a_variable_count() {
    let cfg = GcsConfig::from_map(&map([("GCS_BUCKET", "one"), ("GCS_BUCKET", " two ")])).unwrap();
    assert_eq!(cfg.bucket, "two");
}

#[test]
fn incomplete_credentials_name_the_missing_variable() {
    let err = AppConfig::from_pairs([("XERO_CC_CLIENT_ID", "id")]).unwrap_err();
    assert_eq!(err.message(), "config: missing required env var: XERO_CC_TENANT_ID");
    let err = AppConfig::from_pairs([("XERO_ORG_3_TENANT_ID", "t")]).unwrap_err();
    assert_eq!(err.message(), "config: missing required env var: XERO_ORG_3_CLIENT_ID");
    let err = AppConfig::from_pairs([
        ("XERO_ORG_3_TENANT_ID", "t"),
        ("XERO_ORG_3_CLIENT_ID", "c"),
    ])
    .unwrap_err();
    assert_eq!(err.message(), "config: missing required env var: XERO_ORG_3_CLIENT_SECRET");
}

#[test]
fn selected_organisation_has_to_be_configured() {
    let err = AppConfig::from_pairs([
        ("XERO_ORG_2_CLIENT_ID", "c"),
        ("XERO_ORG_2_CLIENT_SECRET", "s"),
        ("XERO_ORG_2_TENANT_ID", "t"),
    ])
    .unwrap_err();
    assert_eq!(
        err.message(),
        "config: missing required env var: XERO_CC_CLIENT_ID or XERO_ORG_1_CLIENT_ID"
    );
}

#[test]
fn organisation_index_has_to_be_positive() {
    for index in ["0", "-1", "x", "70000", "+"] {
        let err = AppConfig::from_pairs([("XERO_ORG_INDEX", index)]).unwrap_err();
        assert_eq!(
            err.message(),
            format!("config: XERO_CUSTOM_CONNECTION_ORG_INDEX must be a positive integer, got: {index}")
        );
    }
}

#[test]
fn connections_are_deduplicated_by_tenant_and_ordered_by_number() {
    let cfg = AppConfig::from_pairs([
        ("XERO_CC_CLIENT_ID", "cc"),
        ("XERO_CC_CLIENT_SECRET", "s"),
        ("XERO_CC_TENANT_ID", "shared"),
        ("XERO_ORG_10_CLIENT_ID", "ten"),
        ("XERO_ORG_10_CLIENT_SECRET", "s"),
        ("XERO_ORG_10_TENANT_ID", "t10"),
        ("XERO_ORG_2_CLIENT_ID", "two"),
        ("XERO_ORG_2_CLIENT_SECRET", "s"),
        ("XERO_ORG_2_TENANT_ID", "t2"),
        ("XERO_ORG_3_CLIENT_ID", "three"),
        ("XERO_ORG_3_CLIENT_SECRET", "s"),
        ("XERO_ORG_3_TENANT_ID", "shared"),
        ("RUST_LOG", "debug"),
    ])
    .unwrap();
    let ids: Vec<&str> = cfg.xero_cc_connections.iter().map(|c| c.client_id.as_str()).collect();
    assert_eq!(ids, ["cc", "two", "ten"]);
    assert_eq!(cfg.log_level, "debug");
    assert_eq!(cfg.xero_cc_client_id.as_deref(), Some("cc"));
}

#[test]
fn numbered_indices_ascend_and_ignore_other_names() {
    let vars = map([
        ("XERO_ORG_7_NAME", "x"),
        ("XERO_ORG_12_TENANT_ID", "x"),
        ("XERO_ORG_3_CLIENT_SECRET", "x"),
        ("XERO_ORG_0_NAME", "x"),
        ("XERO_ORG_X_NAME", "x"),
        ("XERO_ORG_5_REGION", "x"),
        ("XERO_ORG_9", "x"),
    ]);
    assert_eq!(numbered_org_indices(&vars), [3, 7, 12]);
}

#[test]
fn malformed_numbers_name_the_fault() {
    let err = SyncConfig::from_map(&map([("SYNC_WINDOW_DAYS", "3d")])).unwrap_err();
    assert_eq!(err.message(), "config: invalid SYNC_WINDOW_DAYS: invalid digit found in string");
    let err = SyncConfig::from_map(&map([("SYNC_ROLLING_FULL_WIDE_DAYS", "9223372036854775808")]))
        .unwrap_err();
    assert_eq!(
        err.message(),
        "config: invalid SYNC_ROLLING_FULL_WIDE_DAYS: number too large to fit in target type"
    );
    let err = SyncConfig::from_map(&map([("SYNC_ROLLING_FULL_TIGHT_DAYS", "-9223372036854775809")]))
        .unwrap_err();
    assert_eq!(
        err.message(),
        "config: invalid SYNC_ROLLING_FULL_TIGHT_DAYS: number too small to fit in target type"
    );
    let cfg = SyncConfig::from_map(&map([("SYNC_WINDOW_DAYS", " -4 "), ("SYNC_MAX_CONCURRENT", "+2")]))
        .unwrap();
    assert_eq!(cfg.window_days, -4);
    assert_eq!(cfg.max_concurrent, 2);
}

#[test]
fn manifests_never_lie_in_an_admitted_prefix() {
    let date = Date::from_ymd_opt(2026, 6, 17).unwrap();
    let key = manifest_key(date, 1);
    for prefix in ["raw/xero", "_man", "/x", "_manifest"] {
        assert!(!is_reserved_prefix(prefix));
        assert!(!key.starts_with(&format!("{prefix}/")));
    }
    assert!(is_reserved_prefix("//_manifests-old"));
}
