use xero_service::calendar::{Date, Timestamp};
use xero_service::client::{judge, Reaction, RequestLoop, RetryPolicy, Verdict, XeroApiClient};
use xero_service::fetch::{
    complete_records, detail_id, expands_details, fetch_report_query, fetch_report_raw_query,
    first_record_from_body, records_from_body, report_result, wrap_report_record,
    wrap_report_record_at, Expansion, FetchPlan, RawFetch, RawPage, RecordFetch,
};
use xero_service::headers::Headers;
use xero_service::json::{parse, Json};
use xero_service::paging::{
    max_pages_per_entity, should_stop_offset_pagination, should_stop_page_pagination, Cursor,
    PageMode, PaginationOutcome, Pick, TerminationReason,
};
use xero_service::query::{
    bill_where_clause, business_date_query, extra_query_pairs, page_query, report_params_on,
    resolve_report_params, supports_page_pagination, validate_report_params, DateWindow,
    ExtraQuery,
};
use xero_service::records::{
    filter_records_by_business_date_window, filter_records_by_modified_window,
    max_journal_number_from_bytes, parse_date_value, parse_datetime_value, parse_xero_json_date,
    record_business_date, record_count_from_bytes, record_modified_at,
};
use xero_service::{EntityType, Error};

fn json(text: &str) -> Json {
    parse(text.as_bytes()).expect("valid JSON")
}

fn text<'a>(value: &'a Json, key: &str) -> &'a str {
    value.get(key).and_then(|v| v.as_str()).expect("text member")
}

fn day(y: i32, m: u32, d: u32) -> Date {
    Date::from_ymd_opt(y, m, d).expect("valid date")
}

fn at(y: i32, m: u32, d: u32, hour: i64, minute: i64, second: i64) -> Timestamp {
    Timestamp::midnight(&day(y, m, d))
        .plus_seconds(hour * 3600 + minute * 60 + second)
        .expect("in the calendar")
}

fn has(query: &[(String, String)], key: &str, value: &str) -> bool {
    query.iter().any(|(k, v)| k == key && v == value)
}


#[test]
fn filters_records_to_half_open_modified_window() {
    let records = vec![
        json(r#"{"UpdatedDateUTC": "2026-04-26T23:59:59Z", "InvoiceID": "in"}"#),
        json(r#"{"UpdatedDateUTC": "2026-04-27T00:00:00Z", "InvoiceID": "out"}"#),
    ];

    let filtered = filter_records_by_modified_window(
        records,
        Some(at(2026, 4, 20, 0, 0, 0)),
        Some(at(2026, 4, 27, 0, 0, 0)),
    );

    assert_eq!(filtered.len(), 1);
    assert_eq!(text(&filtered[0], "InvoiceID"), "in");
}

#[test]
fn parses_xero_json_date_format_for_window_filtering() {
    let records = vec![
        json(r#"{"UpdatedDateUTC": "/Date(1777247999000+0000)/", "InvoiceID": "in"}"#),
        json(r#"{"UpdatedDateUTC": "/Date(1777248000000+0000)/", "InvoiceID": "out"}"#),
    ];

    let filtered = filter_records_by_modified_window(
        records,
        Some(at(2026, 4, 26, 0, 0, 0)),
        Some(at(2026, 4, 27, 0, 0, 0)),
    );

    assert_eq!(filtered.len(), 1);
    assert_eq!(text(&filtered[0], "InvoiceID"), "in");
}

#[test]
fn filters_records_to_half_open_business_date_window() {
    let window = DateWindow::new(
        day(2026, 4, 20),
        day(2026, 4, 27),
    )
    .unwrap();
    let records = vec![
        json(r#"{"Date": "/Date(1776643200000+0000)/", "InvoiceID": "in"}"#),
        json(r#"{"Date": "/Date(1777248000000+0000)/", "InvoiceID": "out"}"#),
    ];

    let filtered =
        filter_records_by_business_date_window(&EntityType::Invoices, records, window);

    assert_eq!(filtered.len(), 1);
    assert_eq!(text(&filtered[0], "InvoiceID"), "in");
}

#[test]
fn filters_journals_by_journal_date() {
    let window = DateWindow::new(
        day(2026, 4, 20),
        day(2026, 4, 27),
    )
    .unwrap();
    let records = vec![
        json(r#"{"JournalDate": "/Date(1776816000000+0000)/", "JournalID": "in"}"#),
        json(r#"{"JournalDate": "/Date(1777248000000+0000)/", "JournalID": "out"}"#),
    ];

    let filtered =
        filter_records_by_business_date_window(&EntityType::Journals, records, window);

    assert_eq!(filtered.len(), 1);
    assert_eq!(text(&filtered[0], "JournalID"), "in");
}

#[test]
fn business_date_query_uses_where_for_invoice_dates() {
    let window = DateWindow::new(
        day(2026, 4, 20),
        day(2026, 4, 27),
    )
    .unwrap();

    let query = business_date_query(&EntityType::Invoices, window, 3, 100).unwrap();

    assert!(has(&query, "page", "3"));
    assert!(has(&query, "pageSize", "100"));
    assert!(query.iter().any(|(key, value)| {
        key == "where"
            && value.contains("Date>=DateTime(2026, 4, 20)")
            && value.contains("Date<DateTime(2026, 4, 27)")
    }));
}

#[test]
fn bills_alias_adds_purchase_invoice_filter() {
    let extra = ExtraQuery {
        where_clause: Some("Status==\"AUTHORISED\"".to_owned()),
        ..ExtraQuery::default()
    };

    let query = extra_query_pairs(&extra, &EntityType::Bills);
    let where_clause = query
        .iter()
        .find(|(key, _)| key == "where")
        .map(|(_, value)| value.as_str());

    assert_eq!(
        where_clause,
        Some(r#"Type=="ACCPAY" && (Status=="AUTHORISED")"#)
    );
}

#[test]
fn quote_business_date_query_omits_page_size_param() {
    let window = DateWindow::new(
        day(2026, 4, 20),
        day(2026, 4, 27),
    )
    .unwrap();

    let query = business_date_query(&EntityType::Quotes, window, 2, 100).unwrap();

    assert!(has(&query, "page", "2"));
    assert!(!query.iter().any(|(key, _)| key == "pageSize"));
}

#[test]
fn business_date_query_uses_date_from_to_for_purchase_orders() {
    let window = DateWindow::new(
        day(2026, 4, 20),
        day(2026, 4, 27),
    )
    .unwrap();

    let query = business_date_query(&EntityType::PurchaseOrders, window, 1, 100).unwrap();

    assert!(has(&query, "DateFrom", "2026-04-20"));
    assert!(has(&query, "DateTo", "2026-04-26"));
}

#[test]
fn business_date_query_omits_page_params_for_non_paginated_endpoint() {
    let window = DateWindow::new(
        day(2026, 4, 20),
        day(2026, 4, 27),
    )
    .unwrap();

    let query = business_date_query(&EntityType::BatchPayments, window, 1, 100).unwrap();

    assert!(query.iter().any(|(key, _)| key == "where"));
    assert!(!query.iter().any(|(key, _)| key == "page"));
    assert!(!query.iter().any(|(key, _)| key == "pageSize"));
}

#[test]
fn items_are_not_treated_as_paginated() {
    assert!(!supports_page_pagination(&EntityType::Items));
}

#[test]
fn report_default_params_match_spec_shape() {
    // Date-range reports take fromDate + toDate.
    let pnl = resolve_report_params(&EntityType::ReportProfitAndLoss, &[]);
    assert!(pnl.iter().any(|(k, _)| k == "fromDate"));
    assert!(pnl.iter().any(|(k, _)| k == "toDate"));
    // Single as-of-date reports take `date`.
    let bs = resolve_report_params(&EntityType::ReportBalanceSheet, &[]);
    assert_eq!(bs.len(), 1);
    assert_eq!(bs[0].0, "date");
    // BudgetSummary takes date + periods + timeframe.
    let budget = resolve_report_params(&EntityType::ReportBudgetSummary, &[]);
    assert!(budget.iter().any(|(k, _)| k == "periods"));
    assert!(budget.iter().any(|(k, v)| k == "timeframe" && v == "1"));
}

#[test]
fn report_params_override_wins_and_is_sorted() {
    let overrides = vec![
        ("date".to_owned(), "2026-05-31".to_owned()),
        ("contactId".to_owned(), "abc-123".to_owned()),
    ];
    let p = resolve_report_params(&EntityType::ReportBalanceSheet, &overrides);
    // override replaces the default `date`
    let date = p.iter().find(|(k, _)| k == "date").map(|(_, v)| v.as_str());
    assert_eq!(date, Some("2026-05-31"));
    // extra key carried through
    assert!(p.iter().any(|(k, v)| k == "contactId" && v == "abc-123"));
    // sorted by key → deterministic id-synthesis input
    let keys: Vec<&String> = p.iter().map(|(k, _)| k).collect();
    let mut sorted = keys.clone();
    sorted.sort();
    assert_eq!(keys, sorted, "params must be key-sorted");
}

#[test]
fn aged_by_contact_report_requires_contact_id() {
    let params = resolve_report_params(&EntityType::ReportAgedReceivablesByContact, &[]);
    let err = validate_report_params(&EntityType::ReportAgedReceivablesByContact, &params)
        .unwrap_err();

    assert!(err.message().contains("contactId"));

    let params = resolve_report_params(
        &EntityType::ReportAgedReceivablesByContact,
        &[(
            "contactId".to_owned(),
            "00000000-0000-0000-0000-000000000000".to_owned(),
        )],
    );
    validate_report_params(&EntityType::ReportAgedReceivablesByContact, &params).unwrap();
}

#[test]
fn wrap_report_record_has_params_run_date_and_report() {
    let params = vec![("date".to_owned(), "2026-05-31".to_owned())];
    let raw = json(r#"{"Reports": [{"ReportName": "BalanceSheet", "Rows": []}]}"#);
    let wrapped = wrap_report_record(&params, raw);
    assert_eq!(text(wrapped.get("_params").unwrap(), "date"), "2026-05-31");
    assert!(wrapped.get("_run_date").unwrap().as_str().is_some());
    assert!(wrapped.get("Report").unwrap().get("Reports").unwrap().as_array().is_some());
}

#[test]
fn short_non_final_page_does_not_terminate_page_pagination() {
    // A page with fewer records than page_size is NOT the end of data —
    // the only reliable end signal is an empty page. Pagination MUST
    // continue to the next page.
    let page_size = 100usize;
    let short_page = 37usize; // < page_size, but non-empty
    assert!(short_page < page_size);
    assert!(
        !should_stop_page_pagination(short_page),
        "a short non-empty page must NOT stop pagination"
    );
}

#[test]
fn empty_page_terminates_page_pagination() {
    assert!(
        should_stop_page_pagination(0),
        "an empty page must stop pagination"
    );
}

#[test]
fn full_page_continues_page_pagination() {
    assert!(
        !should_stop_page_pagination(100),
        "a full page must continue pagination"
    );
}

#[test]
fn max_pages_cap_bounds_page_pagination_loop() {
    // Simulate the fetch loop's bounding logic: even if Xero kept
    // returning full (non-terminating) pages forever, the
    // XERO_MAX_PAGES_PER_ENTITY cap must stop it. Records-per-page is
    // chosen so the predicate never signals stop, isolating the cap.
    let cap = 5u32;
    let records_per_page = 100usize; // never triggers should_stop_page_pagination
    let mut pages_fetched = 0u32;
    let mut page = 1u32;
    let mut capped = false;
    loop {
        if page > cap {
            capped = true;
            break;
        }
        pages_fetched += 1;
        if should_stop_page_pagination(records_per_page) {
            break;
        }
        page += 1;
    }
    assert!(capped, "loop must be bounded by the max-pages cap");
    assert_eq!(
        pages_fetched, cap,
        "exactly `cap` pages fetched before stop"
    );
}

#[test]
fn short_non_final_page_does_not_terminate_offset_pagination() {
    // < 100 records on an offset page is NOT the end — keep going so
    // long as the offset advances.
    let short = 42usize;
    let current = 100i64;
    let next = 142i64; // offset advanced
    assert!(
        !should_stop_offset_pagination(short, current, next),
        "a short offset page with advancing offset must NOT stop"
    );
}

#[test]
fn empty_page_terminates_offset_pagination() {
    assert!(
        should_stop_offset_pagination(0, 100, 100),
        "an empty offset page must stop"
    );
}

#[test]
fn non_advancing_offset_terminates_offset_pagination() {
    // Guards against an infinite loop when the offset can't advance.
    assert!(
        should_stop_offset_pagination(100, 500, 500),
        "a non-advancing offset must stop"
    );
    assert!(
        should_stop_offset_pagination(100, 500, 400),
        "a regressing offset must stop"
    );
}

/// A walk by page number over pages with the given record counts; further pages
/// are full.
fn simulate_page_loop(cap: u32, page_record_counts: &[usize]) -> PaginationOutcome {
    let mut cursor = Cursor::new(PageMode::Numbered, cap);
    while let Some(pick) = cursor.next() {
        let page = match pick {
            Pick::Page(n) => n,
            other => panic!("not a page number: {other:?}"),
        };
        let count = page_record_counts.get((page - 1) as usize).copied().unwrap_or(100);
        assert_eq!(should_stop_page_pagination(count), count == 0);
        cursor = cursor.advanced(count, None);
    }
    cursor.outcome().unwrap()
}

/// A walk by offset over pages with the given record counts; further pages are
/// full. A short page does not advance the offset.
fn simulate_offset_loop(cap: u32, page_record_counts: &[usize]) -> PaginationOutcome {
    let mut cursor = Cursor::new(PageMode::Offset, cap);
    while let Some(pick) = cursor.next() {
        let (offset, pages) = match pick {
            Pick::Offset(offset, pages) => (offset, pages),
            other => panic!("not an offset: {other:?}"),
        };
        let count = page_record_counts.get((pages - 1) as usize).copied().unwrap_or(100);
        let next = if count >= 100 { offset + 100 } else { offset };
        cursor = cursor.advanced(count, Some(next));
    }
    cursor.outcome().unwrap()
}

#[test]
fn page_loop_that_hits_cap_reports_hit_max_pages_cap() {
    // Every page is full (never empty), so only the cap can stop it.
    let outcome = simulate_page_loop(3, &[100, 100, 100, 100, 100]);
    assert_eq!(outcome.termination, TerminationReason::HitMaxPagesCap);
    assert!(outcome.termination.is_suspect(), "cap-hit must be suspect");
    assert_eq!(
        outcome.pages_fetched, 3,
        "exactly `cap` pages fetched before the cap fires"
    );
}

#[test]
fn page_loop_that_ends_on_empty_reports_ended_on_empty_page() {
    // Two full pages, then an empty page terminates cleanly, well under cap.
    let outcome = simulate_page_loop(10, &[100, 100, 0]);
    assert_eq!(outcome.termination, TerminationReason::EndedOnEmptyPage);
    assert!(
        !outcome.termination.is_suspect(),
        "a clean empty-page stop is healthy, not suspect"
    );
    assert_eq!(
        outcome.pages_fetched, 2,
        "counts the two data-bearing pages; the terminating empty page is not counted"
    );
}

#[test]
fn offset_loop_that_hits_cap_reports_hit_max_pages_cap() {
    let outcome = simulate_offset_loop(4, &[100, 100, 100, 100, 100]);
    assert_eq!(outcome.termination, TerminationReason::HitMaxPagesCap);
    assert!(outcome.termination.is_suspect());
    assert_eq!(outcome.pages_fetched, 4);
}

#[test]
fn offset_loop_that_ends_on_empty_reports_ended_on_empty_page() {
    let outcome = simulate_offset_loop(10, &[100, 0]);
    assert_eq!(outcome.termination, TerminationReason::EndedOnEmptyPage);
    assert!(!outcome.termination.is_suspect());
    assert_eq!(outcome.pages_fetched, 2);
}

#[test]
fn offset_loop_that_stalls_reports_offset_not_advancing() {
    // A short page that does not advance the offset is a healthy stop.
    let outcome = simulate_offset_loop(10, &[42]);
    assert_eq!(outcome.termination, TerminationReason::OffsetNotAdvancing);
    assert!(!outcome.termination.is_suspect());
    assert_eq!(outcome.pages_fetched, 1);
}

#[test]
fn termination_reason_str_and_suspect_flags() {
    assert_eq!(
        TerminationReason::EndedOnEmptyPage.as_str(),
        "ended_on_empty_page"
    );
    assert_eq!(
        TerminationReason::HitMaxPagesCap.as_str(),
        "hit_max_pages_cap"
    );
    assert_eq!(
        TerminationReason::OffsetNotAdvancing.as_str(),
        "offset_not_advancing"
    );
    assert!(TerminationReason::HitMaxPagesCap.is_suspect());
    assert!(!TerminationReason::EndedOnEmptyPage.is_suspect());
    assert!(!TerminationReason::OffsetNotAdvancing.is_suspect());
}

fn raw_page_from_fixture(entity: &EntityType, page: u32, raw_json: &str) -> RawPage {
    RawPage::accepted(entity, page, 200, raw_json.as_bytes().to_vec(), Timestamp::now())
}

#[test]
fn raw_page_holds_exact_bytes_verbatim() {
    // Deliberately irregular whitespace + key order: the body must be kept
    // byte-for-byte, NOT reserialized (which would normalize formatting).
    let raw =
        "{\n  \"Invoices\": [ {\"InvoiceID\":\"a\",\"Total\": 1.50} ],\n\"Foo\":\"bar\"\n}";
    let page = raw_page_from_fixture(&EntityType::Invoices, 1, raw);

    assert_eq!(
        page.body.as_slice(),
        raw.as_bytes(),
        "RawPage.body must hold the exact response bytes verbatim"
    );
    assert_eq!(page.page, 1);
    assert_eq!(page.http_status, 200);
}

#[test]
fn record_count_from_bytes_counts_entity_array_len() {
    let raw = r#"{"Invoices":[{"InvoiceID":"a"},{"InvoiceID":"b"},{"InvoiceID":"c"}]}"#;
    assert_eq!(
        record_count_from_bytes(&EntityType::Invoices, raw.as_bytes()),
        3
    );

    // Empty array → terminal page.
    let empty = r#"{"Invoices":[]}"#;
    assert_eq!(
        record_count_from_bytes(&EntityType::Invoices, empty.as_bytes()),
        0
    );
}

#[test]
fn record_count_from_bytes_zero_for_missing_array_or_bad_json() {
    // Array under a different key than the entity path → 0.
    let other = r#"{"Contacts":[{"ContactID":"x"}]}"#;
    assert_eq!(
        record_count_from_bytes(&EntityType::Invoices, other.as_bytes()),
        0
    );
    // Malformed JSON → 0 (treated as terminal, never panics).
    assert_eq!(
        record_count_from_bytes(&EntityType::Invoices, b"{not json"),
        0
    );
}

#[test]
fn raw_page_record_count_drives_page_stop_predicate() {
    let full = raw_page_from_fixture(
        &EntityType::Invoices,
        1,
        r#"{"Invoices":[{"InvoiceID":"a"}]}"#,
    );
    let empty = raw_page_from_fixture(&EntityType::Invoices, 2, r#"{"Invoices":[]}"#);

    assert_eq!(full.record_count, 1);
    assert!(!should_stop_page_pagination(full.record_count));
    assert_eq!(empty.record_count, 0);
    assert!(should_stop_page_pagination(empty.record_count));
}

#[test]
fn max_journal_number_from_bytes_extracts_largest() {
    let raw = r#"{"Journals":[{"JournalNumber":10},{"JournalNumber":42},{"JournalNumber":7}]}"#;
    assert_eq!(
        max_journal_number_from_bytes(&EntityType::Journals, raw.as_bytes()),
        Some(42)
    );
    // No records / bad json → None (offset stays put → pagination stops).
    assert_eq!(
        max_journal_number_from_bytes(&EntityType::Journals, br#"{"Journals":[]}"#),
        None
    );
    assert_eq!(
        max_journal_number_from_bytes(&EntityType::Journals, b"oops"),
        None
    );
}

#[test]
fn window_has_to_hold_a_day() {
    let err = DateWindow::new(day(2026, 4, 27), day(2026, 4, 27)).unwrap_err();
    assert_eq!(
        err.message(),
        "config: business date window must be half-open with start < end, got 2026-04-27..2026-04-27"
    );
    assert!(DateWindow::new(day(2026, 4, 26), day(2026, 4, 27)).is_ok());
}

#[test]
fn entities_without_business_dates_are_refused() {
    let window = DateWindow::new(day(2026, 4, 20), day(2026, 4, 27)).unwrap();
    let err = business_date_query(&EntityType::Contacts, window, 1, 100).unwrap_err();
    assert_eq!(
        err.message(),
        "config: contacts does not expose a supported business-date filter"
    );
}

#[test]
fn first_day_of_the_calendar_has_no_day_before() {
    let first = day(-262143, 1, 1);
    let window = DateWindow { start: first, end_exclusive: first };
    let err = business_date_query(&EntityType::Quotes, window, 1, 100).unwrap_err();
    assert_eq!(
        err.message(),
        "config: business date window end cannot be converted to inclusive DateTo: -262143-01-01"
    );
}

#[test]
fn blank_filters_are_not_sent() {
    let mut extra = ExtraQuery::new();
    extra.where_clause = Some("   ".to_owned());
    assert!(extra_query_pairs(&extra, &EntityType::Invoices).is_empty());
    extra.where_clause = Some(" Status==\"PAID\"\u{2003}".to_owned());
    assert_eq!(
        extra_query_pairs(&extra, &EntityType::Invoices),
        [("where".to_owned(), "Status==\"PAID\"".to_owned())]
    );
    assert_eq!(bill_where_clause(None), "Type==\"ACCPAY\"");
    assert_eq!(bill_where_clause(Some(" ")), "Type==\"ACCPAY\"");
}

#[test]
fn knobs_are_sent_in_order_where_they_apply() {
    let extra = ExtraQuery {
        page_size: Some(50),
        where_clause: None,
        order: Some("Date DESC".to_owned()),
        ids: Some("a,b".to_owned()),
        include_archived: true,
        summary_only: true,
        statuses: Some("PAID".to_owned()),
        expand_lines: false,
        extra: vec![("x".to_owned(), "y".to_owned())],
    };
    let names = |e: &EntityType| -> Vec<String> {
        extra_query_pairs(&extra, e).into_iter().map(|(k, _)| k).collect()
    };
    assert_eq!(
        names(&EntityType::Contacts),
        ["order", "IDs", "includeArchived", "summaryOnly", "Statuses", "x"]
    );
    assert_eq!(
        names(&EntityType::TrackingCategories),
        ["order", "IDs", "includeArchived", "Statuses", "x"]
    );
    assert_eq!(names(&EntityType::Quotes), ["order", "IDs", "Status", "x"]);
}

#[test]
fn report_defaults_are_the_day_of_the_run() {
    let params = report_params_on(&EntityType::ReportBudgetSummary, &day(2026, 6, 17), &[]);
    assert_eq!(
        params,
        [
            ("date".to_owned(), "2026-06-17".to_owned()),
            ("periods".to_owned(), "3".to_owned()),
            ("timeframe".to_owned(), "1".to_owned()),
        ]
    );
    let twice = [
        ("date".to_owned(), "a".to_owned()),
        ("date".to_owned(), "b".to_owned()),
    ];
    let params = report_params_on(&EntityType::ReportBalanceSheet, &day(2026, 6, 17), &twice);
    assert_eq!(params, [("date".to_owned(), "b".to_owned())]);
}

#[test]
fn report_queries_refuse_other_entities() {
    let today = day(2026, 6, 17);
    let extra = ExtraQuery::new();
    assert_eq!(
        fetch_report_query(&EntityType::Invoices, &today, &extra).unwrap_err().message(),
        "config: invoices is not a report entity; fetch_report only handles Reports/*"
    );
    assert_eq!(
        fetch_report_raw_query(&EntityType::Invoices, &today, &extra).unwrap_err().message(),
        "config: invoices is not a report entity; fetch_report_raw only handles Reports/*"
    );
    assert_eq!(
        fetch_report_raw_query(&EntityType::ReportAgedPayablesByContact, &today, &extra)
            .unwrap_err()
            .message(),
        "config: report_aged_payables_by_contact requires extra_params contactId=<xero-contact-uuid>"
    );
    let params = fetch_report_query(&EntityType::ReportTrialBalance, &today, &extra).unwrap();
    assert_eq!(params, [("date".to_owned(), "2026-06-17".to_owned())]);
}

#[test]
fn dates_are_read_in_all_their_forms() {
    let read = |s: &str| parse_date_value(&Json::Text(s.to_owned()));
    assert_eq!(read("2026-04-26T23:59:59Z"), Some(day(2026, 4, 26)));
    assert_eq!(read("2026-04-27T01:00:00+02:00"), Some(day(2026, 4, 26)));
    assert_eq!(read(" /Date(1776643200000+0000)/ "), Some(day(2026, 4, 20)));
    assert_eq!(read("2026-04-20"), Some(day(2026, 4, 20)));
    assert_eq!(read("2026-04-20T10:11:12"), Some(day(2026, 4, 20)));
    assert_eq!(read("20 April"), None);
    assert_eq!(parse_date_value(&Json::Int(5)), None);
    let instant = parse_datetime_value(&Json::Text("2026-04-26T23:59:59.25Z".to_owned())).unwrap();
    assert_eq!(instant.unix_secs(), 1777247999);
    assert_eq!(instant.subsec_nanos(), 250_000_000);
    assert!(parse_datetime_value(&Json::Text("2026-04-26".to_owned())).is_none());
}

#[test]
fn xero_json_dates_may_precede_1970() {
    let t = parse_xero_json_date("/Date(-1500+1300)/").unwrap();
    assert_eq!(t.unix_secs(), -2);
    assert_eq!(t.subsec_nanos(), 500_000_000);
    assert!(parse_xero_json_date("/Date(1-2)/").is_none());
    assert!(parse_xero_json_date("/Date()/").is_none());
    assert!(parse_xero_json_date("Date(5)").is_none());
    assert!(parse_xero_json_date("/Date(9223372036854775807)/").is_none());
}

#[test]
fn first_readable_modification_field_counts() {
    let record = json(r#"{"UpdatedDateUTC": "soon", "updated_at": "2026-04-26T00:00:00Z"}"#);
    assert_eq!(record_modified_at(&record), Some(at(2026, 4, 26, 0, 0, 0)));
    let record = json(r#"{"Date": 5, "DateString": "2026-04-20T00:00:00"}"#);
    assert_eq!(record_business_date(&EntityType::Invoices, &record), Some(day(2026, 4, 20)));
    assert_eq!(record_business_date(&EntityType::Journals, &record), None);
    assert_eq!(record_business_date(&EntityType::Contacts, &record), None);
}

#[test]
fn records_without_a_modification_time_pass_only_open_windows() {
    let records = || vec![json(r#"{"A": 1}"#)];
    assert_eq!(filter_records_by_modified_window(records(), None, None).len(), 1);
    let since = Some(at(2026, 4, 26, 0, 0, 0));
    assert_eq!(filter_records_by_modified_window(records(), since, None).len(), 1);
    assert_eq!(filter_records_by_modified_window(records(), None, since).len(), 0);
}

#[test]
fn journal_numbers_may_be_texts() {
    let raw = br#"{"Journals":[{"JournalNumber":"10"},{"JournalNumber":"x"},{},{"JournalNumber":-3}]}"#;
    assert_eq!(max_journal_number_from_bytes(&EntityType::Journals, raw), Some(10));
}

#[test]
fn page_cap_defaults_to_unbounded() {
    assert_eq!(max_pages_per_entity(None), u32::MAX);
    assert_eq!(max_pages_per_entity(Some("0")), u32::MAX);
    assert_eq!(max_pages_per_entity(Some("many")), u32::MAX);
    assert_eq!(max_pages_per_entity(Some("12")), 12);
    assert_eq!(max_pages_per_entity(Some("4294967296")), u32::MAX);
}

#[test]
fn requests_carry_credentials_tenant_and_watermark() {
    let client = XeroApiClient::new("t1");
    let r = client.request(
        "tok",
        &EntityType::Bills,
        Some(at(2026, 6, 17, 3, 0, 1)),
        vec![("page".to_owned(), "1".to_owned())],
    );
    assert_eq!(r.url, "https://api.xero.com/api.xro/2.0/Invoices");
    let header = |k: &str, v: &str| (k.to_owned(), v.to_owned());
    assert_eq!(
        r.headers,
        [
            header("Authorization", "Bearer tok"),
            header("Accept", "application/json"),
            header("Xero-tenant-id", "t1"),
            header("If-Modified-Since", "2026-06-17T03:00:01"),
        ]
    );
    let client = XeroApiClient::new_with_tenant_header("t1", false);
    let mut extra = ExtraQuery::new();
    extra.expand_lines = true;
    let r = client.request_one("tok", &EntityType::Budgets, "b-1", &extra);
    assert_eq!(r.url, "https://api.xero.com/api.xro/2.0/Budgets/b-1");
    assert_eq!(r.headers.len(), 2);
    assert_eq!(r.query, [header("BudgetLines", "true")]);
    assert_eq!(client.tenant_id(), "t1");
}

#[test]
fn rate_limited_request_is_given_up_after_the_last_retry() {
    let mut headers = Headers::new();
    headers.push("retry-after", Some("17".to_owned()));
    let mut attempts = RequestLoop::new(RetryPolicy::records(), "Invoices");
    let mut sent = 0;
    let error = loop {
        sent += 1;
        match attempts.on_response(429, &headers) {
            Reaction::RetryAfterSecs(secs) => assert_eq!(secs, 17),
            Reaction::Fail(e) => break e,
            other => panic!("unexpected {other:?}"),
        }
    };
    assert_eq!(sent, 6);
    assert_eq!(error.message(), "xero api: 429 Invoices after 5 attempts");
}

#[test]
fn server_errors_back_off_and_end_with_the_body() {
    let headers = Headers::new();
    let mut attempts = RequestLoop::new(RetryPolicy::report(), "Reports/BalanceSheet");
    let mut waited = Vec::new();
    while let Reaction::RetryAfterMillis(ms) = attempts.on_response(503, &headers) {
        waited.push(ms);
    }
    assert_eq!(waited.len(), 5);
    for (ms, floor) in waited.iter().zip([500u64, 1000, 2000, 4000, 8000]) {
        assert!(*ms >= floor && *ms < floor + floor / 4);
    }
    assert_eq!(
        attempts.rejection(503, "down").message(),
        "xero api: 503 Reports/BalanceSheet: down"
    );
}

#[test]
fn transport_errors_are_retried_while_transient() {
    let mut attempts = RequestLoop::new(RetryPolicy::single_record(), "Budgets/1");
    assert!(matches!(attempts.on_transport_error(true, "reset"), Reaction::RetryAfterMillis(_)));
    match attempts.on_transport_error(false, "bad url") {
        Reaction::Fail(e) => assert_eq!(e.message(), "xero api: bad url"),
        other => panic!("unexpected {other:?}"),
    }
    for _ in 0..4 {
        assert!(matches!(attempts.on_transport_error(true, "reset"), Reaction::RetryAfterMillis(_)));
    }
    assert!(matches!(attempts.on_transport_error(true, "reset"), Reaction::Fail(_)));
}

#[test]
fn replies_are_judged_by_policy() {
    assert_eq!(judge(RetryPolicy::records(), 0, 304), Verdict::NotModified);
    assert_eq!(judge(RetryPolicy::report(), 0, 304), Verdict::Reject);
    assert_eq!(judge(RetryPolicy::single_record(), 0, 304), Verdict::Reject);
    assert_eq!(judge(RetryPolicy::single_record(), 0, 503), Verdict::BackOff);
    assert_eq!(judge(RetryPolicy::single_record(), 5, 503), Verdict::Reject);
    assert_eq!(judge(RetryPolicy::records(), 0, 500), Verdict::BackOff);
    assert_eq!(judge(RetryPolicy::records(), 5, 500), Verdict::Reject);
    assert_eq!(judge(RetryPolicy::records(), 4, 429), Verdict::WaitAsTold);
    assert_eq!(judge(RetryPolicy::records(), 5, 429), Verdict::GiveUp);
    assert_eq!(judge(RetryPolicy::records(), 0, 404), Verdict::Reject);
    assert_eq!(judge(RetryPolicy::records(), 5, 204), Verdict::Accept);
    assert_eq!(judge(RetryPolicy::records(), 0, 600), Verdict::Reject);
}

fn page(entity: &EntityType, n: u32, body: &str) -> RawPage {
    RawPage::accepted(entity, n, 200, body.as_bytes().to_vec(), Timestamp::now())
}

#[test]
fn raw_fetch_walks_pages_until_an_empty_one() {
    let mut extra = ExtraQuery::new();
    extra.page_size = Some(50);
    extra.order = Some("Date".to_owned());
    let plan = FetchPlan::with_extras(&EntityType::Invoices, None, &extra);
    let mut fetch = RawFetch::start(plan, 10);
    let first = fetch.next().unwrap();
    assert_eq!(first.number, 1);
    assert!(has(&first.query, "order", "Date"));
    assert!(has(&first.query, "page", "1"));
    assert!(has(&first.query, "pageSize", "50"));
    fetch.accept(page(&EntityType::Invoices, 1, r#"{"Invoices":[{}]}"#));
    assert!(has(&fetch.next().unwrap().query, "page", "2"));
    assert!(fetch.outcome().is_none());
    fetch.accept(page(&EntityType::Invoices, 2, r#"{"Invoices":[]}"#));
    assert!(fetch.next().is_none());
    let outcome = fetch.outcome().unwrap();
    assert_eq!(outcome.pages_fetched, 1);
    assert_eq!(outcome.termination, TerminationReason::EndedOnEmptyPage);
    assert_eq!(fetch.into_pages().len(), 2);
}

#[test]
fn raw_fetch_of_journals_follows_the_largest_number() {
    let plan = FetchPlan::with_extras(&EntityType::Journals, None, &ExtraQuery::new());
    let mut fetch = RawFetch::start(plan, 10);
    assert_eq!(fetch.next().unwrap().query, [("offset".to_owned(), "0".to_owned())]);
    fetch.accept(page(
        &EntityType::Journals,
        1,
        r#"{"Journals":[{"JournalNumber":7},{"JournalNumber":5}]}"#,
    ));
    assert_eq!(fetch.next().unwrap().query, [("offset".to_owned(), "7".to_owned())]);
    fetch.accept(page(&EntityType::Journals, 2, r#"{"Journals":[{"JournalNumber":7}]}"#));
    let outcome = fetch.outcome().unwrap();
    assert_eq!(outcome.pages_fetched, 2);
    assert_eq!(outcome.termination, TerminationReason::OffsetNotAdvancing);
}

#[test]
fn endpoints_without_pages_are_asked_once() {
    let plan = FetchPlan::with_extras(&EntityType::Accounts, None, &ExtraQuery::new());
    let mut fetch = RawFetch::start(plan, 1);
    assert!(fetch.next().unwrap().query.is_empty());
    fetch.accept(RawPage::not_modified(1, Timestamp::now()));
    assert_eq!(fetch.outcome(), Some(PaginationOutcome::single_page()));
    let pages = fetch.into_pages();
    assert_eq!(pages[0].http_status, 304);
    assert_eq!(pages[0].record_count, 0);
    assert!(pages[0].body.is_empty());
}

#[test]
fn complete_fetches_fail_at_the_cap() {
    let entity = EntityType::Invoices;
    let mut fetch = RecordFetch::start(FetchPlan::plain(&entity, None, 100), 2);
    while let Some(request) = fetch.next() {
        assert!(has(&request.query, "pageSize", "100"));
        fetch.accept(vec![json(r#"{"InvoiceID":"a"}"#)]);
    }
    let cap = fetch.max_pages();
    let result = fetch.into_modified(None, None).unwrap();
    assert_eq!(result.records.len(), 2);
    let err = complete_records(&entity, result, cap).unwrap_err();
    assert_eq!(err.message(), "xero api: Invoices exceeded max page limit (2)");
}

#[test]
fn booked_records_are_kept_and_the_rest_dropped() {
    let window = DateWindow::new(day(2026, 4, 20), day(2026, 4, 27)).unwrap();
    let plan = FetchPlan::by_business_date(&EntityType::Journals, window, 100).unwrap();
    assert_eq!(plan.modified_after, Some(at(2026, 4, 20, 0, 0, 0)));
    let mut fetch = RecordFetch::start(plan, 10);
    fetch.accept(vec![
        json(r#"{"JournalDate":"2026-04-26","JournalNumber":1}"#),
        json(r#"{"JournalDate":"2026-04-27","JournalNumber":2}"#),
    ]);
    assert_eq!(fetch.next().unwrap().query, [("offset".to_owned(), "2".to_owned())]);
    fetch.accept(Vec::new());
    let result = fetch.into_booked(window).unwrap();
    assert_eq!(result.records.len(), 1);
    assert_eq!(result.outcome.pages_fetched, 2);
}

#[test]
fn bodies_that_are_no_json_fail() {
    let err = records_from_body(&EntityType::Invoices, b"oops").unwrap_err();
    assert_eq!(err.message(), "xero api: error decoding response body");
    assert_eq!(records_from_body(&EntityType::Invoices, b"{}").unwrap().len(), 0);
    let first = first_record_from_body(
        &EntityType::Budgets,
        br#"{"Budgets":[{"BudgetID":"b1"},{"BudgetID":"b2"}]}"#,
    );
    assert_eq!(text(&first.unwrap().unwrap(), "BudgetID"), "b1");
    assert!(first_record_from_body(&EntityType::Budgets, b"[").is_err());
    assert!(first_record_from_body(&EntityType::Budgets, b"[]").unwrap().is_none());
}

#[test]
fn details_replace_listed_records_where_there_are_any() {
    let mut extra = ExtraQuery::new();
    assert!(!expands_details(&EntityType::Budgets, &extra));
    extra.expand_lines = true;
    assert!(expands_details(&EntityType::Budgets, &extra));
    assert!(expands_details(&EntityType::ContactGroups, &extra));
    assert!(!expands_details(&EntityType::Invoices, &extra));
    let listed = json(r#"{"BudgetID":"b1"}"#);
    assert_eq!(detail_id(&EntityType::Budgets, &listed).as_deref(), Some("b1"));
    assert!(detail_id(&EntityType::Contacts, &listed).is_none());
    let detail = json(r#"{"BudgetID":"b1","BudgetLines":[]}"#);
    let records = vec![
        json(r#"{"No":1}"#),
        listed,
        json(r#"{"BudgetID":5}"#),
        json(r#"{"BudgetID":"b2"}"#),
        json(r#"{"BudgetID":"b3"}"#),
    ];
    let mut expansion = Expansion::start(&EntityType::Budgets, records);
    assert_eq!(expansion.next().as_deref(), Some("b1"));
    expansion.accept(Ok(Some(detail)));
    assert_eq!(expansion.next().as_deref(), Some("b2"));
    expansion.accept(Ok(None));
    assert_eq!(expansion.next().as_deref(), Some("b3"));
    expansion.accept(Err(Error::XeroApi("down".to_owned())));
    assert!(expansion.next().is_none());
    let texts: Vec<String> = expansion.into_records().iter().map(|r| r.to_text()).collect();
    assert_eq!(
        texts,
        [
            r#"{"No":1}"#,
            r#"{"BudgetID":"b1","BudgetLines":[]}"#,
            r#"{"BudgetID":5}"#,
            r#"{"BudgetID":"b2"}"#,
            r#"{"BudgetID":"b3"}"#,
        ]
    );
}

#[test]
fn one_page_is_asked_for_by_its_number() {
    let pair = |k: &str, v: &str| (k.to_owned(), v.to_owned());
    assert_eq!(
        page_query(&EntityType::Invoices, 3, 50),
        [pair("page", "3"), pair("pageSize", "50")]
    );
    assert_eq!(page_query(&EntityType::Quotes, 3, 50), [pair("page", "3")]);
}

#[test]
fn reports_are_wrapped_with_their_parameters() {
    let params = [("date".to_owned(), "2026-05-31".to_owned())];
    let result = report_result(&params, &at(2026, 6, 1, 2, 3, 4), br#"{"Reports":[]}"#).unwrap();
    assert_eq!(result.outcome, PaginationOutcome::single_page());
    assert_eq!(
        result.records[0].to_text(),
        r#"{"Report":{"Reports":[]},"_params":{"date":"2026-05-31"},"_run_date":"2026-06-01T02:03:04+00:00"}"#
    );
    assert!(report_result(&params, &at(2026, 6, 1, 0, 0, 0), b"<html>").is_err());
    let again = wrap_report_record_at(&params, &at(2026, 6, 1, 2, 3, 4), json(r#"{"Reports":[]}"#));
    assert!(again.same(&result.records[0]));
}

#[test]
fn json_texts_read_back_as_the_same_value() {
    let source = r#"{"b":[1,-2,3.5,null,true],"a":"q\"\n\u00e9","c":{"z":18446744073709551615}}"#;
    let tree = json(source);
    assert!(json(&tree.to_text()).same(&tree));
    assert!(!json(r#"{"b":[1]}"#).same(&json(r#"{"b":[2]}"#)));
    assert!(json(r#"{"x":1,"y":2}"#).same(&json(r#"{"y":2,"x":1}"#)));
    assert!(!json("1").same(&json("1.0")));
    assert!(json("-0.0").same(&json("0.0")));
    assert_eq!(tree.get("c").unwrap().to_text(), r#"{"z":18446744073709551615}"#);
    assert_eq!(tree.get("b").unwrap().as_array().unwrap().len(), 5);
}

#[test]
fn deep_documents_are_not_read() {
    let deep = format!("{}{}", "[".repeat(200), "]".repeat(200));
    assert!(parse(deep.as_bytes()).is_none());
    let fine = format!("{}{}", "[".repeat(100), "]".repeat(100));
    assert_eq!(json(&fine).to_text(), fine);
}

#[test]
fn nested_numbers_are_read_from_their_own_text() {
    let text = r#"{"a":[[{"b":0.30000000000000004}],1.0000000000000002,123456789.12345678901234567],"c":2.2250738585072011e-308}"#;
    let once: serde_json::Value = serde_json::from_str(text).unwrap();
    assert_eq!(json(text).to_text(), once.to_string());
    // The last of two members with one name counts, at every level.
    assert_eq!(json(r#"{"a":{"b":1,"b":[2]},"a":{"b":3,"b": [4 ]}}"#).to_text(), r#"{"a":{"b":[4]}}"#);
}

#[test]
fn requests_for_one_record_are_sent_again_after_server_errors() {
    let headers = Headers::new();
    let mut attempts = RequestLoop::new(RetryPolicy::single_record(), "Budgets/1");
    assert!(matches!(attempts.on_response(503, &headers), Reaction::RetryAfterMillis(_)));
    assert!(matches!(attempts.on_response(200, &headers), Reaction::Accept));
    let budget =
        first_record_from_body(&EntityType::Budgets, br#"{"Budgets":[{"BudgetID":"b"}]}"#);
    assert_eq!(budget.unwrap().unwrap().to_text(), r#"{"BudgetID":"b"}"#);
}
