use xero_service::error::GcsError;
use xero_service::{EntityType, Error, TenantId};


#[test]
fn entity_round_trips_from_str() {
    let e = "invoices".parse::<EntityType>().unwrap();
    assert_eq!(e, EntityType::Invoices);
    assert_eq!(e.as_str(), "invoices");
    assert_eq!(e.xero_path(), "Invoices");
}

#[test]
fn bills_alias_uses_invoices_api_path() {
    let e = "bills".parse::<EntityType>().unwrap();
    assert_eq!(e, EntityType::Bills);
    assert_eq!(e.as_str(), "bills");
    assert_eq!(e.xero_path(), "Invoices");
    assert_eq!(e.id_field(), "InvoiceID");
}

#[test]
fn unknown_entity_returns_error() {
    assert!("banana".parse::<EntityType>().is_err());
}

#[test]
fn entity_all_includes_accounting_api_sync_endpoints() {
    assert_eq!(EntityType::all().len(), 28);
    assert!(!EntityType::all().contains(&EntityType::Bills));
    assert!(!EntityType::all().contains(&EntityType::Employees));
}

#[test]
fn entity_id_field_is_mapped() {
    assert_eq!(EntityType::Invoices.id_field(), "InvoiceID");
    assert_eq!(EntityType::Contacts.id_field(), "ContactID");
    assert_eq!(EntityType::TaxRates.id_field(), "TaxType");
}

#[test]
fn report_variants_round_trip_from_str() {
    for (s, want, path) in [
        (
            "report_profit_and_loss",
            EntityType::ReportProfitAndLoss,
            "Reports/ProfitAndLoss",
        ),
        (
            "report_balance_sheet",
            EntityType::ReportBalanceSheet,
            "Reports/BalanceSheet",
        ),
        (
            "report_trial_balance",
            EntityType::ReportTrialBalance,
            "Reports/TrialBalance",
        ),
        (
            "report_aged_receivables_by_contact",
            EntityType::ReportAgedReceivablesByContact,
            "Reports/AgedReceivablesByContact",
        ),
        (
            "report_aged_payables_by_contact",
            EntityType::ReportAgedPayablesByContact,
            "Reports/AgedPayablesByContact",
        ),
        (
            "report_bank_summary",
            EntityType::ReportBankSummary,
            "Reports/BankSummary",
        ),
        (
            "report_budget_summary",
            EntityType::ReportBudgetSummary,
            "Reports/BudgetSummary",
        ),
        (
            "report_executive_summary",
            EntityType::ReportExecutiveSummary,
            "Reports/ExecutiveSummary",
        ),
    ] {
        let parsed = s.parse::<EntityType>().unwrap();
        assert_eq!(parsed, want, "parse {s}");
        assert_eq!(parsed.as_str(), s, "as_str round-trip for {s}");
        assert_eq!(parsed.xero_path(), path, "xero_path for {s}");
        assert!(parsed.is_report(), "{s} must be a report");
    }
}

#[test]
fn report_variants_are_not_in_all_but_are_in_all_reports() {
    // The 28-entity full-sync invariant MUST be preserved: reports are
    // explicit-invoke only.
    assert_eq!(EntityType::all().len(), 28);
    for r in EntityType::all_reports() {
        assert!(
            !EntityType::all().contains(r),
            "{} must not be in all()",
            r.as_str()
        );
        assert!(r.is_report(), "{} must report is_report()=true", r.as_str());
    }
    assert_eq!(EntityType::all_reports().len(), 8);
}

#[test]
fn non_report_entities_are_not_reports() {
    assert!(!EntityType::Invoices.is_report());
    assert!(!EntityType::ContactGroups.is_report());
    assert!(!EntityType::Budgets.is_report());
}

#[test]
fn master_data_has_exactly_nine_members() {
    assert_eq!(EntityType::master_data().len(), 9);
}

#[test]
fn master_data_contains_expected_set() {
    let expected = [
        EntityType::Accounts,
        EntityType::Contacts,
        EntityType::Items,
        EntityType::TaxRates,
        EntityType::TrackingCategories,
        EntityType::Currencies,
        EntityType::Organisations,
        EntityType::Users,
        EntityType::BrandingThemes,
    ];
    for entity in expected {
        assert!(
            EntityType::master_data().contains(&entity),
            "{} must be master data",
            entity.as_str()
        );
        assert!(
            entity.is_master(),
            "{} must report is_master()",
            entity.as_str()
        );
    }
}

#[test]
fn master_data_excludes_employees() {
    assert!(!EntityType::master_data().contains(&EntityType::Employees));
    assert!(!EntityType::Employees.is_master());
}

#[test]
fn non_master_entities_are_not_master() {
    assert!(!EntityType::Invoices.is_master());
    assert!(!EntityType::Bills.is_master());
    assert!(!EntityType::Journals.is_master());
    assert!(!EntityType::ReportBalanceSheet.is_master());
}

#[test]
fn open_status_is_invoices_and_bills() {
    assert_eq!(EntityType::open_status().len(), 2);
    assert!(EntityType::open_status().contains(&EntityType::Invoices));
    assert!(EntityType::open_status().contains(&EntityType::Bills));
}

#[test]
fn open_status_excludes_unrelated_entities() {
    assert!(!EntityType::open_status().contains(&EntityType::Accounts));
    assert!(!EntityType::open_status().contains(&EntityType::Payments));
}

#[test]
fn every_entity_key_round_trips() {
    for e in EntityType::all().iter().chain(EntityType::all_reports()) {
        assert_eq!(EntityType::from_str(e.as_str()).unwrap(), *e);
    }
    assert_eq!(EntityType::from_str("employees").unwrap(), EntityType::Employees);
    assert_eq!(EntityType::from_str("bills").unwrap(), EntityType::Bills);
}

#[test]
fn unknown_entity_error_names_it() {
    let err = EntityType::from_str("banana").unwrap_err();
    assert_eq!(err.message(), "config: unknown entity: banana");
    assert!(EntityType::from_str("Invoices").is_err());
    assert!(EntityType::from_str("").is_err());
}

#[test]
fn default_reports_leave_out_the_per_contact_ones() {
    assert_eq!(EntityType::reports_default().len(), 6);
    assert!(!EntityType::reports_default().contains(&EntityType::ReportAgedPayablesByContact));
    assert!(EntityType::Invoices.is_date_windowable());
    assert!(!EntityType::Journals.is_date_windowable());
}

#[test]
fn tenant_ids_compare_by_text() {
    let a = TenantId::new("a5f3b2");
    assert_eq!(a.as_str(), "a5f3b2");
    assert_eq!(a, a.clone());
    assert_ne!(a, TenantId::new("other"));
}

#[test]
fn error_messages_name_their_area() {
    assert_eq!(Error::Auth("x".to_owned()).message(), "auth: x");
    assert_eq!(Error::StateStore("x".to_owned()).message(), "state store: x");
    assert_eq!(Error::XeroApi("x".to_owned()).message(), "xero api: x");
    assert_eq!(Error::Config("x".to_owned()).message(), "config: x");
    assert_eq!(Error::Sync("x".to_owned()).message(), "sync: x");
    assert_eq!(Error::Serde("x".to_owned()).message(), "serialization: x");
    assert_eq!(Error::Http("x".to_owned()).message(), "http: x");
    assert_eq!(GcsError::Upload("x".to_owned()).message(), "gcs upload failed: x");
    assert_eq!(GcsError::Io("x".to_owned()).message(), "io error: x");
    assert_eq!(GcsError::Serde("x".to_owned()).message(), "serde error: x");
    assert_eq!(GcsError::Auth("x".to_owned()).message(), "gcs auth failed: x");
    assert_eq!(GcsError::Config("x".to_owned()).message(), "gcs config error: x");
}
