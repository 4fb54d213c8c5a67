//! Query parameters of Xero requests: filters, business-date windows and
//! report parameters.

use vstd::prelude::*;

use crate::calendar::{
    date_numbered, every_day_has_a_date, first_day, number_in_range, number_is_injective, Date,
    Timestamp,
};
use crate::error::{Error, ErrorView};
use crate::sorted::{
    ascending, assign_all, assigned, has_name, map_of, pairs, place, push_pair, SortedMap,
};
use crate::text::{
    decimal, is_digit, numeral, numeral_denotes, same, signed_decimal, signed_numeral, text_of, trim,
    trimmed,
};
use crate::types::{default_reports_need_no_contact, reports_are_recognised, EntityType};

verus! {

/// Query parameters in order: names and values.
pub type Pairs = Seq<(Seq<char>, Seq<char>)>;

/// Extra query knobs that a caller can pass through to a fetch. All are
/// optional: [`ExtraQuery::new`] adds no parameter.
#[derive(Debug)]
pub struct ExtraQuery {
    /// Override of the default page size of 100, for paginated endpoints.
    pub page_size: Option<u32>,
    /// Xero `where=` filter, passed through as it is.
    pub where_clause: Option<String>,
    /// Xero `order=` clause, e.g. `"Date DESC"`.
    pub order: Option<String>,
    /// Comma-separated IDs filter (Xero's `IDs=`).
    pub ids: Option<String>,
    /// Add `includeArchived=true` where Xero supports it.
    pub include_archived: bool,
    /// Add `summaryOnly=true` where Xero supports it.
    pub summary_only: bool,
    /// Xero `Statuses=` filter, e.g. `"AUTHORISED,PAID"`.
    pub statuses: Option<String>,
    /// For per-record detail endpoints, fetch each listed record individually.
    pub expand_lines: bool,
    /// Free-form extra query parameters.
    pub extra: Vec<(String, String)>,
}

impl ExtraQuery {
    /// No knob set.
    pub fn new() -> (r: ExtraQuery)
        ensures
            r.page_size is None,
            r.where_clause is None,
            r.order is None,
            r.ids is None,
            !r.include_archived,
            !r.summary_only,
            r.statuses is None,
            !r.expand_lines,
            r.extra@.len() == 0,
    {
        ExtraQuery {
            page_size: None,
            where_clause: None,
            order: None,
            ids: None,
            include_archived: false,
            summary_only: false,
            statuses: None,
            expand_lines: false,
            extra: Vec::new(),
        }
    }
}

impl Default for ExtraQuery {
    fn default() -> (r: ExtraQuery)
        ensures
            r.page_size is None,
            r.where_clause is None,
            r.order is None,
            r.ids is None,
            !r.include_archived,
            !r.summary_only,
            r.statuses is None,
            !r.expand_lines,
            r.extra@.len() == 0,
    {
        ExtraQuery::new()
    }
}

/// Whether there are days from a date on before another.
pub open spec fn has_days(start: Date, end_exclusive: Date) -> bool {
    start.number() < end_exclusive.number()
}

/// A half-open window of business dates.
#[derive(Debug, Clone, Copy, PartialEq, Eq, Structural)]
pub struct DateWindow {
    pub start: Date,
    pub end_exclusive: Date,
}

impl DateWindow {
    /// Whether a date lies in the window.
    pub open spec fn holds(self, date: Date) -> bool {
        self.start.number() <= date.number() < self.end_exclusive.number()
    }

    /// The window, which has to hold at least one day.
    pub fn new(start: Date, end_exclusive: Date) -> (r: Result<DateWindow, Error>)
        ensures
            match r {
                Ok(w) => {
                    &&& has_days(start, end_exclusive)
                    &&& w.start == start
                    &&& w.end_exclusive == end_exclusive
                },
                Err(e) => {
                    &&& !has_days(start, end_exclusive)
                    &&& e@ == ErrorView::Config(
                        "business date window must be half-open with start < end, got "@
                            + start.text() + ".."@ + end_exclusive.text(),
                    )
                },
            },
    {
        if !start.is_before(&end_exclusive) {
            let m = "business date window must be half-open with start < end, got ".to_owned();
            return Err(
                Error::Config(
                    m.concat(start.to_text().as_str()).concat("..").concat(
                        end_exclusive.to_text().as_str(),
                    ),
                ),
            );
        }
        Ok(DateWindow { start, end_exclusive })
    }
}

/// How an endpoint is restricted to a window of business dates.
#[derive(Debug, Clone, Copy)]
pub enum BusinessDateQueryMode {
    /// A `where=` filter on the named field.
    Where(&'static str),
    /// The parameters `DateFrom` and `DateTo`.
    DateFromTo,
    /// No filter: the named field is compared after the fetch.
    LocalOnly(&'static str),
}

/// The kinds of business-date restriction, with the field each goes by.
pub enum DateFilter {
    Where(Seq<char>),
    DateFromTo,
    LocalOnly(Seq<char>),
}

impl View for BusinessDateQueryMode {
    type V = DateFilter;

    open spec fn view(&self) -> DateFilter {
        match self {
            BusinessDateQueryMode::Where(f) => DateFilter::Where(f@),
            BusinessDateQueryMode::DateFromTo => DateFilter::DateFromTo,
            BusinessDateQueryMode::LocalOnly(f) => DateFilter::LocalOnly(f@),
        }
    }
}

/// How an entity is restricted to a window of business dates, where it can be.
pub open spec fn date_filter(entity: EntityType) -> Option<DateFilter> {
    match entity {
        EntityType::BatchPayments
        | EntityType::Bills
        | EntityType::BankTransactions
        | EntityType::BankTransfers
        | EntityType::CreditNotes
        | EntityType::Invoices
        | EntityType::ManualJournals
        | EntityType::Overpayments
        | EntityType::Payments
        | EntityType::Prepayments
        | EntityType::Receipts => Some(DateFilter::Where("Date"@)),
        EntityType::PurchaseOrders | EntityType::Quotes => Some(DateFilter::DateFromTo),
        EntityType::Journals => Some(DateFilter::LocalOnly("JournalDate"@)),
        _ => None,
    }
}

/// How an entity is restricted to a window of business dates, where it can be.
pub fn business_date_query_mode(entity: &EntityType) -> (r: Option<BusinessDateQueryMode>)
    ensures
        match r {
            Some(m) => date_filter(*entity) == Some(m@),
            None => date_filter(*entity) is None,
        },
{
    match entity {
        EntityType::BatchPayments
        | EntityType::Bills
        | EntityType::BankTransactions
        | EntityType::BankTransfers
        | EntityType::CreditNotes
        | EntityType::Invoices
        | EntityType::ManualJournals
        | EntityType::Overpayments
        | EntityType::Payments
        | EntityType::Prepayments
        | EntityType::Receipts => Some(BusinessDateQueryMode::Where("Date")),
        EntityType::PurchaseOrders | EntityType::Quotes => Some(BusinessDateQueryMode::DateFromTo),
        EntityType::Journals => Some(BusinessDateQueryMode::LocalOnly("JournalDate")),
        _ => None,
    }
}

/// Whether an endpoint serves its records page by page.
pub open spec fn is_paged(entity: EntityType) -> bool {
    match entity {
        EntityType::BankTransactions
        | EntityType::Bills
        | EntityType::Contacts
        | EntityType::CreditNotes
        | EntityType::Invoices
        | EntityType::LinkedTransactions
        | EntityType::ManualJournals
        | EntityType::Overpayments
        | EntityType::Payments
        | EntityType::Prepayments
        | EntityType::PurchaseOrders
        | EntityType::Quotes => true,
        _ => false,
    }
}

/// Whether an endpoint serves its records page by page.
pub fn supports_page_pagination(entity: &EntityType) -> (r: bool)
    ensures
        r == is_paged(*entity),
        r <==> *entity == EntityType::BankTransactions || *entity == EntityType::Bills || *entity
            == EntityType::Contacts || *entity == EntityType::CreditNotes || *entity
            == EntityType::Invoices || *entity == EntityType::LinkedTransactions || *entity
            == EntityType::ManualJournals || *entity == EntityType::Overpayments || *entity
            == EntityType::Payments || *entity == EntityType::Prepayments || *entity
            == EntityType::PurchaseOrders || *entity == EntityType::Quotes,
{
    match entity {
        EntityType::BankTransactions
        | EntityType::Bills
        | EntityType::Contacts
        | EntityType::CreditNotes
        | EntityType::Invoices
        | EntityType::LinkedTransactions
        | EntityType::ManualJournals
        | EntityType::Overpayments
        | EntityType::Payments
        | EntityType::Prepayments
        | EntityType::PurchaseOrders
        | EntityType::Quotes => true,
        _ => false,
    }
}

/// Whether an endpoint takes a page size.
pub open spec fn takes_page_size(entity: EntityType) -> bool {
    match entity {
        EntityType::BankTransactions
        | EntityType::Bills
        | EntityType::Contacts
        | EntityType::CreditNotes
        | EntityType::Invoices
        | EntityType::ManualJournals
        | EntityType::Overpayments
        | EntityType::Payments
        | EntityType::Prepayments
        | EntityType::PurchaseOrders => true,
        _ => false,
    }
}

/// Whether an endpoint takes a page size.
pub fn supports_page_size(entity: &EntityType) -> (r: bool)
    ensures
        r == takes_page_size(*entity),
        r <==> *entity == EntityType::BankTransactions || *entity == EntityType::Bills || *entity
            == EntityType::Contacts || *entity == EntityType::CreditNotes || *entity
            == EntityType::Invoices || *entity == EntityType::ManualJournals || *entity
            == EntityType::Overpayments || *entity == EntityType::Payments || *entity
            == EntityType::Prepayments || *entity == EntityType::PurchaseOrders,
{
    match entity {
        EntityType::BankTransactions
        | EntityType::Bills
        | EntityType::Contacts
        | EntityType::CreditNotes
        | EntityType::Invoices
        | EntityType::ManualJournals
        | EntityType::Overpayments
        | EntityType::Payments
        | EntityType::Prepayments
        | EntityType::PurchaseOrders => true,
        _ => false,
    }
}

/// Only a paged endpoint takes a page size.
pub proof fn page_size_needs_pages(entity: EntityType)
    requires
        takes_page_size(entity),
    ensures
        is_paged(entity),
{
}

/// A date as a Xero filter literal: `DateTime(year, month, day)`.
pub open spec fn filter_literal(date: Date) -> Seq<char> {
    "DateTime("@ + signed_numeral(date.y()) + ", "@ + numeral(date.m() as nat) + ", "@ + numeral(
        date.d() as nat,
    ) + ")"@
}

/// The filter for a field within a window.
pub open spec fn window_filter(field: Seq<char>, window: DateWindow) -> Seq<char> {
    field + ">="@ + filter_literal(window.start) + " && "@ + field + "<"@ + filter_literal(
        window.end_exclusive,
    )
}

fn date_literal(date: &Date) -> (r: String)
    ensures
        r@ == filter_literal(*date),
{
    proof {
        use_type_invariant(date);
    }
    "DateTime(".to_owned().concat(signed_decimal(date.year() as i64).as_str()).concat(", ").concat(
        decimal(date.month() as u64).as_str(),
    ).concat(", ").concat(decimal(date.day() as u64).as_str()).concat(")")
}

/// The filter for a field within a window.
pub fn where_date_window(field: &str, window: DateWindow) -> (r: String)
    ensures
        r@ == window_filter(field@, window),
{
    field.to_owned().concat(">=").concat(date_literal(&window.start).as_str()).concat(
        " && ",
    ).concat(field).concat("<").concat(date_literal(&window.end_exclusive).as_str())
}

/// The last day of a window.
pub fn inclusive_end_date(window: DateWindow) -> (r: Result<Date, Error>)
    ensures
        match r {
            Ok(d) => {
                &&& window.end_exclusive.number() > first_day()
                &&& d == date_numbered(window.end_exclusive.number() - 1)
                &&& d.number() == window.end_exclusive.number() - 1
            },
            Err(e) => {
                &&& window.end_exclusive.number() == first_day()
                &&& e@ == ErrorView::Config(
                    "business date window end cannot be converted to inclusive DateTo: "@
                        + window.end_exclusive.text(),
                )
            },
        },
{
    let end = window.end_exclusive;
    proof {
        use_type_invariant(&end);
        number_in_range(end);
    }
    match end.plus_days(-1) {
        Some(d) => {
            proof {
                number_is_injective(d, date_numbered(end.number() - 1));
            }
            Ok(d)
        },
        None => Err(
            Error::Config(
                "business date window end cannot be converted to inclusive DateTo: ".to_owned().concat(
                    end.to_text().as_str(),
                ),
            ),
        ),
    }
}

/// The parameters that restrict a request to a window of business dates.
pub open spec fn restriction(entity: EntityType, window: DateWindow) -> Pairs {
    match date_filter(entity) {
        Some(DateFilter::Where(field)) => seq![("where"@, window_filter(field, window))],
        Some(DateFilter::DateFromTo) => seq![
            ("DateFrom"@, window.start.text()),
            ("DateTo"@, date_numbered(window.end_exclusive.number() - 1).text()),
        ],
        _ => seq![],
    }
}

/// Why a request cannot be restricted to a window of business dates.
pub open spec fn restriction_failure(entity: EntityType, window: DateWindow) -> Option<ErrorView> {
    match date_filter(entity) {
        None => Some(
            ErrorView::Config(
                entity.name() + " does not expose a supported business-date filter"@,
            ),
        ),
        Some(DateFilter::DateFromTo) => if window.end_exclusive.number() == first_day() {
            Some(
                ErrorView::Config(
                    "business date window end cannot be converted to inclusive DateTo: "@
                        + window.end_exclusive.text(),
                ),
            )
        } else {
            None
        },
        Some(_) => None,
    }
}

/// The parameters that restrict a request to a window of business dates.
pub fn window_restriction(entity: &EntityType, window: DateWindow) -> (r: Result<
    Vec<(String, String)>,
    Error,
>)
    ensures
        match r {
            Ok(q) => restriction_failure(*entity, window) is None && pairs(q@) == restriction(
                *entity,
                window,
            ),
            Err(e) => restriction_failure(*entity, window) == Some(e@),
        },
{
    let mut query: Vec<(String, String)> = Vec::new();
    match business_date_query_mode(entity) {
        None => {
            return Err(
                Error::Config(
                    entity.as_str().to_owned().concat(
                        " does not expose a supported business-date filter",
                    ),
                ),
            );
        },
        Some(BusinessDateQueryMode::Where(field)) => {
            push_pair(&mut query, "where", where_date_window(field, window).as_str());
        },
        Some(BusinessDateQueryMode::DateFromTo) => {
            let last = inclusive_end_date(window)?;
            push_pair(&mut query, "DateFrom", window.start.to_text().as_str());
            push_pair(&mut query, "DateTo", last.to_text().as_str());
        },
        Some(BusinessDateQueryMode::LocalOnly(_)) => {},
    }
    proof {
        assert(pairs(query@) =~= restriction(*entity, window));
    }
    Ok(query)
}

/// The parameters that pick a page.
pub open spec fn page_pairs(entity: EntityType, page: u32, page_size: u32) -> Pairs {
    let number: Pairs = if is_paged(entity) {
        seq![("page"@, numeral(page as nat))]
    } else {
        seq![]
    };
    let size: Pairs = if takes_page_size(entity) {
        seq![("pageSize"@, numeral(page_size as nat))]
    } else {
        seq![]
    };
    number + size
}

/// Query parameters of a request for a page: its number, and its size where the
/// endpoint takes one.
pub fn page_query(entity: &EntityType, page: u32, page_size: u32) -> (r: Vec<(String, String)>)
    ensures
        pairs(r@) == seq![("page"@, numeral(page as nat))] + (if takes_page_size(*entity) {
            seq![("pageSize"@, numeral(page_size as nat))]
        } else {
            seq![]
        }),
{
    let mut query: Vec<(String, String)> = Vec::new();
    push_pair(&mut query, "page", decimal(page as u64).as_str());
    if supports_page_size(entity) {
        push_pair(&mut query, "pageSize", decimal(page_size as u64).as_str());
    }
    proof {
        let size: Pairs = if takes_page_size(*entity) {
            seq![("pageSize"@, numeral(page_size as nat))]
        } else {
            seq![]
        };
        assert(pairs(query@) =~= seq![("page"@, numeral(page as nat))] + size);
    }
    query
}

/// Append the parameters that pick a page.
pub fn push_page_pairs(
    query: &mut Vec<(String, String)>,
    entity: &EntityType,
    page: u32,
    page_size: u32,
)
    ensures
        pairs(final(query)@) == pairs(old(query)@) + page_pairs(*entity, page, page_size),
{
    if supports_page_pagination(entity) {
        push_pair(query, "page", decimal(page as u64).as_str());
    }
    if supports_page_size(entity) {
        push_pair(query, "pageSize", decimal(page_size as u64).as_str());
    }
    proof {
        assert(pairs(query@) =~= pairs(old(query)@) + page_pairs(*entity, page, page_size));
    }
}

/// Parameters of one request for a window of business dates, the restriction
/// first.
pub fn business_date_query(
    entity: &EntityType,
    window: DateWindow,
    page: u32,
    page_size: u32,
) -> (r: Result<Vec<(String, String)>, Error>)
    ensures
        match r {
            Ok(q) => {
                &&& restriction_failure(*entity, window) is None
                &&& pairs(q@) == restriction(*entity, window) + page_pairs(*entity, page, page_size)
            },
            Err(e) => restriction_failure(*entity, window) == Some(e@),
        },
{
    let mut query = window_restriction(entity, window)?;
    push_page_pairs(&mut query, entity, page, page_size);
    Ok(query)
}

/// Whether an entity can be listed with its archived records.
pub open spec fn can_include_archived(entity: EntityType) -> bool {
    entity == EntityType::Bills || entity == EntityType::Contacts || entity == EntityType::Invoices
        || entity == EntityType::TrackingCategories
}

/// Whether an entity can be listed in summary.
pub open spec fn can_summarise(entity: EntityType) -> bool {
    entity == EntityType::Bills || entity == EntityType::Contacts || entity == EntityType::Invoices
}

/// The name under which an endpoint takes a status filter.
pub open spec fn status_name(entity: EntityType) -> Seq<char> {
    if entity == EntityType::PurchaseOrders || entity == EntityType::Quotes {
        "Status"@
    } else {
        "Statuses"@
    }
}

/// A caller's filter without white space around it, unless it is blank.
pub open spec fn given_filter(clause: Option<Seq<char>>) -> Option<Seq<char>> {
    match clause {
        Some(w) => if trimmed(w).len() > 0 {
            Some(trimmed(w))
        } else {
            None
        },
        None => None,
    }
}

/// The filter that picks bills out of the invoices, and what the caller asked
/// for besides.
pub open spec fn bill_filter(clause: Option<Seq<char>>) -> Seq<char> {
    match given_filter(clause) {
        Some(w) => "Type==\"ACCPAY\""@ + " && ("@ + w + ")"@,
        None => "Type==\"ACCPAY\""@,
    }
}

/// The filter that picks bills out of the invoices.
pub fn bill_where_clause(user_where: Option<&str>) -> (r: String)
    ensures
        r@ == bill_filter(
            match user_where {
                Some(w) => Some(w@),
                None => None,
            },
        ),
{
    if let Some(w) = user_where {
        let w = trim(w);
        if !w.is_empty() {
            return "Type==\"ACCPAY\"".to_owned().concat(" && (").concat(w).concat(")");
        }
    }
    "Type==\"ACCPAY\"".to_owned()
}

/// A filter that is sent is never blank, and bills are always picked out of the
/// invoices by their type.
pub proof fn filters_are_never_blank(clause: Option<Seq<char>>)
    ensures
        given_filter(clause) matches Some(w) ==> w.len() > 0,
        "Type==\"ACCPAY\""@.is_prefix_of(bill_filter(clause)),
        bill_filter(clause).len() > 0,
{
    reveal_strlit("Type==\"ACCPAY\"");
    let f = bill_filter(clause);
    let own = "Type==\"ACCPAY\""@;
    assert(f.subrange(0, own.len() as int) =~= own);
}

/// One parameter where there is a value, none otherwise.
pub open spec fn optional(name: Seq<char>, value: Option<Seq<char>>) -> Pairs {
    match value {
        Some(v) => seq![(name, v)],
        None => seq![],
    }
}

pub open spec fn flag(name: Seq<char>, on: bool) -> Pairs {
    if on {
        seq![(name, "true"@)]
    } else {
        seq![]
    }
}

/// The parameters of the extra knobs that apply to an entity.
pub open spec fn knob_pairs(extra: ExtraQuery, entity: EntityType) -> Pairs {
    let filter = if entity == EntityType::Bills {
        Some(bill_filter(text_of(extra.where_clause)))
    } else {
        given_filter(text_of(extra.where_clause))
    };
    optional("where"@, filter) + optional("order"@, text_of(extra.order)) + optional(
        "IDs"@,
        text_of(extra.ids),
    ) + flag("includeArchived"@, extra.include_archived && can_include_archived(entity)) + flag(
        "summaryOnly"@,
        extra.summary_only && can_summarise(entity),
    ) + optional(status_name(entity), text_of(extra.statuses)) + pairs(extra.extra@)
}

fn push_optional(query: &mut Vec<(String, String)>, name: &str, value: &Option<String>)
    ensures
        pairs(final(query)@) == pairs(old(query)@) + optional(name@, text_of(*value)),
{
    if let Some(v) = value {
        push_pair(query, name, v.as_str());
    }
    proof {
        assert(pairs(query@) =~= pairs(old(query)@) + optional(name@, text_of(*value)));
    }
}

fn push_flag(query: &mut Vec<(String, String)>, name: &str, on: bool)
    ensures
        pairs(final(query)@) == pairs(old(query)@) + flag(name@, on),
{
    if on {
        push_pair(query, name, "true");
    }
    proof {
        assert(pairs(query@) =~= pairs(old(query)@) + flag(name@, on));
    }
}

/// Append all of `more`.
pub fn push_all(query: &mut Vec<(String, String)>, more: &Vec<(String, String)>)
    ensures
        pairs(final(query)@) == pairs(old(query)@) + pairs(more@),
{
    let mut i: usize = 0;
    proof {
        assert(pairs(query@) =~= pairs(old(query)@) + pairs(more@).take(0));
    }
    while i < more.len()
        invariant
            i <= more.len(),
            pairs(query@) == pairs(old(query)@) + pairs(more@).take(i as int),
        decreases more.len() - i,
    {
        push_pair(query, more[i].0.as_str(), more[i].1.as_str());
        i += 1;
        proof {
            assert(pairs(query@) =~= pairs(old(query)@) + pairs(more@).take(i as int));
        }
    }
    proof {
        assert(pairs(more@).take(i as int) =~= pairs(more@));
    }
}

/// Convert an [`ExtraQuery`] into the query parameters. Skips what does not
/// apply to the entity, and a blank filter.
pub fn extra_query_pairs(extra: &ExtraQuery, entity: &EntityType) -> (r: Vec<(String, String)>)
    ensures
        pairs(r@) == knob_pairs(*extra, *entity),
{
    let mut out: Vec<(String, String)> = Vec::new();
    let user_where: Option<&str> = match &extra.where_clause {
        Some(w) => Some(w.as_str()),
        None => None,
    };
    if *entity == EntityType::Bills {
        push_pair(&mut out, "where", bill_where_clause(user_where).as_str());
    } else if let Some(w) = user_where {
        let w = trim(w);
        if !w.is_empty() {
            push_pair(&mut out, "where", w);
        }
    }
    push_optional(&mut out, "order", &extra.order);
    push_optional(&mut out, "IDs", &extra.ids);
    push_flag(
        &mut out,
        "includeArchived",
        extra.include_archived && (*entity == EntityType::Bills || *entity == EntityType::Contacts
            || *entity == EntityType::Invoices || *entity == EntityType::TrackingCategories),
    );
    push_flag(
        &mut out,
        "summaryOnly",
        extra.summary_only && (*entity == EntityType::Bills || *entity == EntityType::Contacts
            || *entity == EntityType::Invoices),
    );
    let status: &str = if *entity == EntityType::PurchaseOrders || *entity == EntityType::Quotes {
        "Status"
    } else {
        "Statuses"
    };
    push_optional(&mut out, status, &extra.statuses);
    push_all(&mut out, &extra.extra);
    proof {
        assert(pairs(out@) =~= knob_pairs(*extra, *entity));
    }
    out
}

/// Default parameters of a report, for a run on the given day.
pub open spec fn report_defaults(entity: EntityType, today: Date) -> Pairs {
    match entity {
        EntityType::ReportProfitAndLoss | EntityType::ReportBankSummary => seq![
            ("fromDate"@, today.text()),
            ("toDate"@, today.text()),
        ],
        EntityType::ReportBalanceSheet
        | EntityType::ReportTrialBalance
        | EntityType::ReportAgedReceivablesByContact
        | EntityType::ReportAgedPayablesByContact
        | EntityType::ReportExecutiveSummary => seq![("date"@, today.text())],
        EntityType::ReportBudgetSummary => seq![
            ("date"@, today.text()),
            ("periods"@, "3"@),
            ("timeframe"@, "1"@),
        ],
        _ => seq![],
    }
}

/// Default parameters of a report, for a run on the given day. Date parameters
/// are that day, so that a scheduled run captures its as-of snapshot.
pub fn default_report_params(entity: &EntityType, today: &Date) -> (r: Vec<(String, String)>)
    ensures
        pairs(r@) == report_defaults(*entity, *today),
{
    let day = today.to_text();
    let mut v: Vec<(String, String)> = Vec::new();
    match entity {
        EntityType::ReportProfitAndLoss | EntityType::ReportBankSummary => {
            push_pair(&mut v, "fromDate", day.as_str());
            push_pair(&mut v, "toDate", day.as_str());
        },
        EntityType::ReportBalanceSheet
        | EntityType::ReportTrialBalance
        | EntityType::ReportAgedReceivablesByContact
        | EntityType::ReportAgedPayablesByContact
        | EntityType::ReportExecutiveSummary => {
            push_pair(&mut v, "date", day.as_str());
        },
        EntityType::ReportBudgetSummary => {
            push_pair(&mut v, "date", day.as_str());
            push_pair(&mut v, "periods", "3");
            push_pair(&mut v, "timeframe", "1");
        },
        _ => {},
    }
    proof {
        assert(pairs(v@) =~= report_defaults(*entity, *today));
    }
    v
}

/// A report's parameters by name: its defaults, with the caller's on top.
pub open spec fn report_param_map(entity: EntityType, today: Date, overrides: Pairs) -> Map<
    Seq<char>,
    Seq<char>,
> {
    assigned(assigned(Map::empty(), report_defaults(entity, today)), overrides)
}

/// A report's parameters for a run on the given day: its defaults, with the
/// caller's on top, sorted by name.
pub fn report_params_on(
    entity: &EntityType,
    today: &Date,
    overrides: &[(String, String)],
) -> (r: Vec<(String, String)>)
    ensures
        ascending(pairs(r@)),
        map_of(pairs(r@)) == report_param_map(*entity, *today, pairs(overrides@)),
{
    let mut map = SortedMap::new();
    assign_all(&mut map, default_report_params(entity, today).as_slice());
    assign_all(&mut map, overrides);
    map.into_entries()
}

/// A report's parameters for a run today.
pub fn resolve_report_params(entity: &EntityType, overrides: &[(String, String)]) -> (r: Vec<
    (String, String),
>)
    ensures
        ascending(pairs(r@)),
        exists|today: Date|
            #[trigger] today.in_calendar() && map_of(pairs(r@)) == report_param_map(
                *entity,
                today,
                pairs(overrides@),
            ),
{
    let today = Timestamp::now().date();
    proof {
        use_type_invariant(&today);
    }
    report_params_on(entity, &today, overrides)
}

/// On a name collision the caller's last value wins; a name the caller does not
/// give keeps the default.
pub proof fn overrides_win(map: Map<Seq<char>, Seq<char>>, list: Pairs, name: Seq<char>)
    ensures
        !has_name(list, name) ==> assigned(map, list).contains_key(name)
            == map.contains_key(name) && assigned(map, list)[name] == map[name],
        forall|i: int|
            0 <= i < list.len() && #[trigger] list[i].0 == name && (forall|j: int|
                i < j < list.len() ==> (#[trigger] list[j]).0 != name) ==> assigned(
                map,
                list,
            ).contains_key(name) && assigned(map, list)[name] == list[i].1,
    decreases list.len(),
{
    if list.len() > 0 {
        let front = list.drop_last();
        overrides_win(map, front, name);
        if !has_name(list, name) {
            assert(list[list.len() - 1].0 != name);
            if has_name(front, name) {
                let k = place(front, name);
                assert(list[k].0 == name);
            }
        }
        assert forall|i: int|
            0 <= i < list.len() && #[trigger] list[i].0 == name && (forall|j: int|
                i < j < list.len() ==> (#[trigger] list[j]).0 != name) implies assigned(
            map,
            list,
        ).contains_key(name) && assigned(map, list)[name] == list[i].1 by {
            if i < list.len() - 1 {
                assert(front[i].0 == name);
                assert(list[list.len() - 1].0 != name);
                assert forall|j: int| i < j < front.len() implies (#[trigger] front[j]).0
                    != name by {
                    assert(list[j].0 != name);
                }
            }
        }
    }
}

/// Whether some parameter names a contact.
pub open spec fn names_contact(params: Pairs) -> bool {
    exists|i: int|
        0 <= i < params.len() && (#[trigger] params[i]).0 == "contactId"@ && trimmed(
            params[i].1,
        ).len() > 0
}

/// The reports that Xero only serves per contact.
pub open spec fn is_per_contact(entity: EntityType) -> bool {
    entity == EntityType::ReportAgedReceivablesByContact || entity
        == EntityType::ReportAgedPayablesByContact
}

/// Refuse a per-contact report without a contact.
pub fn validate_report_params(entity: &EntityType, params: &[(String, String)]) -> (r: Result<
    (),
    Error,
>)
    ensures
        match r {
            Ok(_) => !is_per_contact(*entity) || names_contact(pairs(params@)),
            Err(e) => {
                &&& is_per_contact(*entity) && !names_contact(pairs(params@))
                &&& e@ == ErrorView::Config(
                    entity.name() + " requires extra_params contactId=<xero-contact-uuid>"@,
                )
            },
        },
{
    if *entity == EntityType::ReportAgedReceivablesByContact || *entity
        == EntityType::ReportAgedPayablesByContact {
        let mut i: usize = 0;
        let mut found = false;
        while i < params.len()
            invariant
                i <= params.len(),
                !found ==> forall|k: int|
                    0 <= k < i ==> !((#[trigger] pairs(params@)[k]).0 == "contactId"@ && trimmed(
                        pairs(params@)[k].1,
                    ).len() > 0),
                found ==> names_contact(pairs(params@)),
            decreases params.len() - i,
        {
            if same(params[i].0.as_str(), "contactId") && !trim(params[i].1.as_str()).is_empty() {
                assert(pairs(params@)[i as int].0 == "contactId"@);
                found = true;
            }
            i += 1;
        }
        if !found {
            return Err(
                Error::Config(
                    entity.as_str().to_owned().concat(
                        " requires extra_params contactId=<xero-contact-uuid>",
                    ),
                ),
            );
        }
    }
    Ok(())
}

/// Twelve endpoints hand out their records by page number, and all of them but
/// linked transactions and quotes let the caller choose the size of a page. A
/// request for a page of such an endpoint names the page, and two requests for
/// different pages differ.
pub proof fn pages_are_numbered(entity: EntityType, page: u32, other: u32, page_size: u32)
    ensures
        is_paged(entity) <==> entity == EntityType::BankTransactions || entity == EntityType::Bills
            || entity == EntityType::Contacts || entity == EntityType::CreditNotes || entity
            == EntityType::Invoices || entity == EntityType::LinkedTransactions || entity
            == EntityType::ManualJournals || entity == EntityType::Overpayments || entity
            == EntityType::Payments || entity == EntityType::Prepayments || entity
            == EntityType::PurchaseOrders || entity == EntityType::Quotes,
        takes_page_size(entity) <==> is_paged(entity) && entity != EntityType::LinkedTransactions
            && entity != EntityType::Quotes,
        has_name(page_pairs(entity, page, page_size), "page"@) <==> is_paged(entity),
        has_name(page_pairs(entity, page, page_size), "pageSize"@) <==> takes_page_size(entity),
        is_paged(entity) ==> page_pairs(entity, page, page_size)[0] == ("page"@, numeral(
            page as nat,
        )),
        takes_page_size(entity) ==> page_pairs(entity, page, page_size).last() == (
            "pageSize"@,
            numeral(page_size as nat),
        ),
        !is_paged(entity) ==> page_pairs(entity, page, page_size).len() == 0,
        is_paged(entity) && page_pairs(entity, page, page_size) == page_pairs(
            entity,
            other,
            page_size,
        ) ==> page == other,
{
    reveal_strlit("page");
    reveal_strlit("pageSize");
    let p = page_pairs(entity, page, page_size);
    if takes_page_size(entity) {
        assert(p[1].0 == "pageSize"@);
        assert(p[0].0 == "page"@);
    } else if is_paged(entity) {
        assert(p[0].0 == "page"@);
    }
    if is_paged(entity) {
        numeral_denotes(page as nat);
        numeral_denotes(other as nat);
        assert(page_pairs(entity, other, page_size)[0].1 == numeral(other as nat));
    }
}

/// The entities that a request can restrict to business dates are those that are
/// pulled by date: all by a filter on `Date`, but purchase orders and quotes by
/// `DateFrom` and `DateTo`. Journals have a date too, which only their records
/// tell.
pub proof fn date_filters_are_for_windowed_entities(entity: EntityType)
    ensures
        entity.spec_is_date_windowable() <==> (date_filter(entity) matches Some(f) && !(
        f is LocalOnly)),
        entity.spec_is_date_windowable() <==> entity == EntityType::BankTransactions || entity
            == EntityType::BankTransfers || entity == EntityType::BatchPayments || entity
            == EntityType::Bills || entity == EntityType::CreditNotes || entity
            == EntityType::Invoices || entity == EntityType::ManualJournals || entity
            == EntityType::Overpayments || entity == EntityType::Payments || entity
            == EntityType::Prepayments || entity == EntityType::PurchaseOrders || entity
            == EntityType::Quotes || entity == EntityType::Receipts,
        entity == EntityType::PurchaseOrders || entity == EntityType::Quotes <==> date_filter(entity)
            == Some(DateFilter::DateFromTo),
        entity.spec_is_date_windowable() && entity != EntityType::PurchaseOrders && entity
            != EntityType::Quotes ==> date_filter(entity) == Some(DateFilter::Where("Date"@)),
        entity == EntityType::Journals ==> date_filter(entity) == Some(
            DateFilter::LocalOnly("JournalDate"@),
        ),
        date_filter(entity) is None <==> !entity.spec_is_date_windowable() && entity
            != EntityType::Journals,
{
}

/// The three parts of a literal can be told, where the separator starts with a character
/// that the first two lack.
#[verifier::rlimit(40)]
pub proof fn literal_parts_can_be_told(
    head: Seq<char>,
    sep: Seq<char>,
    tail: Seq<char>,
    a: (Seq<char>, Seq<char>, Seq<char>),
    b: (Seq<char>, Seq<char>, Seq<char>),
)
    requires
        head + a.0 + sep + a.1 + sep + a.2 + tail == head + b.0 + sep + b.1 + sep + b.2 + tail,
        sep.len() > 0,
        forall|i: int| 0 <= i < a.0.len() ==> #[trigger] a.0[i] != sep[0],
        forall|i: int| 0 <= i < b.0.len() ==> #[trigger] b.0[i] != sep[0],
        forall|i: int| 0 <= i < a.1.len() ==> #[trigger] a.1[i] != sep[0],
        forall|i: int| 0 <= i < b.1.len() ==> #[trigger] b.1[i] != sep[0],
    ensures
        a == b,
{
    let s = head + a.0 + sep + a.1 + sep + a.2 + tail;
    let t = head + b.0 + sep + b.1 + sep + b.2 + tail;
    let x = a.1 + sep + (a.2 + tail);
    let y = b.1 + sep + (b.2 + tail);
    let n = head.len() as int;
    assert(s.skip(n) =~= a.0 + sep + x);
    assert(t.skip(n) =~= b.0 + sep + y);
    parts_before(sep, a.0, x, b.0, y);
    parts_before(sep, a.1, a.2 + tail, b.1, b.2 + tail);
    let v = a.2 + tail;
    let w = b.2 + tail;
    let k = v.len() - tail.len();
    assert(v.take(k) =~= a.2);
    assert(w.take(k) =~= b.2);
}

/// A date's literal determines the date.
pub proof fn filter_literals_tell_dates_apart(a: Date, b: Date)
    requires
        a.in_calendar(),
        b.in_calendar(),
        filter_literal(a) == filter_literal(b),
    ensures
        a == b,
{
    reveal_strlit(", ");
    let x = (signed_numeral(a.y()), numeral(a.m() as nat), numeral(a.d() as nat));
    let y = (signed_numeral(b.y()), numeral(b.m() as nat), numeral(b.d() as nat));
    date_numerals_are_plain(a);
    date_numerals_are_plain(b);
    assert(", "@[0] == ',');
    literal_parts_can_be_told("DateTime("@, ", "@, ")"@, x, y);
    date_numerals_differ(a, b);
}

/// Year, month and day in numerals have no comma.
pub proof fn date_numerals_are_plain(date: Date)
    ensures
        forall|i: int|
            0 <= i < signed_numeral(date.y()).len() ==> #[trigger] signed_numeral(date.y())[i]
                != ',',
        forall|i: int|
            0 <= i < numeral(date.m() as nat).len() ==> #[trigger] numeral(date.m() as nat)[i]
                != ',',
{
    signed_numeral_is_plain(date.y());
    numeral_denotes(date.m() as nat);
    assert forall|i: int| 0 <= i < numeral(date.m() as nat).len() implies #[trigger] numeral(
        date.m() as nat,
    )[i] != ',' by {
        assert(is_digit(numeral(date.m() as nat)[i]));
    }
}

/// Year, month and day in numerals determine the date.
pub proof fn date_numerals_differ(a: Date, b: Date)
    requires
        a.in_calendar(),
        b.in_calendar(),
        signed_numeral(a.y()) == signed_numeral(b.y()),
        numeral(a.m() as nat) == numeral(b.m() as nat),
        numeral(a.d() as nat) == numeral(b.d() as nat),
    ensures
        a == b,
{
    signed_numerals_differ(a.y(), b.y());
    numeral_denotes(a.m() as nat);
    numeral_denotes(b.m() as nat);
    numeral_denotes(a.d() as nat);
    numeral_denotes(b.d() as nat);
    number_is_injective(a, b);
}

/// A signed numeral has no comma and no bracket.
pub proof fn signed_numeral_is_plain(n: int)
    ensures
        forall|i: int| 0 <= i < signed_numeral(n).len() ==> #[trigger] signed_numeral(n)[i] != ','
            && signed_numeral(n)[i] != ')',
{
    reveal_strlit("-");
    let m: nat = if n < 0 {
        (-n) as nat
    } else {
        n as nat
    };
    numeral_denotes(m);
    assert forall|i: int| 0 <= i < signed_numeral(n).len() implies #[trigger] signed_numeral(n)[i]
        != ',' && signed_numeral(n)[i] != ')' by {
        if n < 0 {
            if i > 0 {
                assert(signed_numeral(n)[i] == numeral(m)[i - 1]);
                assert(is_digit(numeral(m)[i - 1]));
            }
        } else {
            assert(is_digit(numeral(m)[i]));
        }
    }
}

/// A signed numeral determines its number.
pub proof fn signed_numerals_differ(a: int, b: int)
    requires
        signed_numeral(a) == signed_numeral(b),
    ensures
        a == b,
{
    reveal_strlit("-");
    let x: nat = if a < 0 {
        (-a) as nat
    } else {
        a as nat
    };
    let y: nat = if b < 0 {
        (-b) as nat
    } else {
        b as nat
    };
    numeral_denotes(x);
    numeral_denotes(y);
    assert(is_digit(numeral(x)[0]));
    assert(is_digit(numeral(y)[0]));
    if a < 0 {
        assert(signed_numeral(a)[0] == '-');
        assert(signed_numeral(a).skip(1) =~= numeral(x));
    }
    if b < 0 {
        assert(signed_numeral(b)[0] == '-');
        assert(signed_numeral(b).skip(1) =~= numeral(y));
    }
}

/// Two texts that are alike, each with a separator that starts with a character
/// which the part before it lacks, have the same parts.
pub proof fn parts_before(sep: Seq<char>, a: Seq<char>, r: Seq<char>, b: Seq<char>, q: Seq<char>)
    requires
        sep.len() > 0,
        a + sep + r == b + sep + q,
        forall|i: int| 0 <= i < a.len() ==> #[trigger] a[i] != sep[0],
        forall|i: int| 0 <= i < b.len() ==> #[trigger] b[i] != sep[0],
    ensures
        a == b,
        r == q,
{
    let s = a + sep + r;
    let t = b + sep + q;
    let m = a.len() as int;
    let n = b.len() as int;
    let k = sep.len() as int;
    assert(s[m] == sep[0]);
    assert(t[n] == sep[0]);
    if m < n {
        assert(t[m] == b[m]);
    }
    if n < m {
        assert(s[n] == a[n]);
    }
    assert(s.take(m) =~= a);
    assert(t.take(n) =~= b);
    assert(s.skip(m + k) =~= r);
    assert(t.skip(n + k) =~= q);
}

/// A literal's closing bracket is its only one.
#[verifier::rlimit(40)]
proof fn literal_ends_with_bracket(date: Date)
    requires
        date.in_calendar(),
    ensures
        filter_literal(date) == filter_literal(date).drop_last() + ")"@,
        forall|i: int|
            0 <= i < filter_literal(date).drop_last().len() ==> #[trigger] filter_literal(
                date,
            ).drop_last()[i] != ')',
{
    reveal_strlit("DateTime(");
    reveal_strlit(", ");
    reveal_strlit(")");
    reveal_strlit("-");
    let y = signed_numeral(date.y());
    let m = numeral(date.m() as nat);
    let d = numeral(date.d() as nat);
    let s = filter_literal(date);
    signed_numeral_is_plain(date.y());
    numeral_denotes(date.m() as nat);
    numeral_denotes(date.d() as nat);
    let h = "DateTime("@;
    assert(s =~= s.drop_last() + ")"@);
    assert(s.drop_last() =~= h + y + ", "@ + m + ", "@ + d);
    assert forall|i: int| 0 <= i < s.drop_last().len() implies #[trigger] s.drop_last()[i]
        != ')' by {
        let t = h + y + ", "@ + m + ", "@ + d;
        if i < 9 {
            assert(t[i] == h[i]);
        } else if i < 9 + y.len() {
            assert(t[i] == y[i - 9]);
        } else if i < 11 + y.len() {
            assert(t[i] == ", "@[i - 9 - y.len()]);
        } else if i < 11 + y.len() + m.len() {
            assert(t[i] == m[i - 11 - y.len()]);
            assert(is_digit(m[i - 11 - y.len()]));
        } else if i < 13 + y.len() + m.len() {
            assert(t[i] == ", "@[i - 11 - y.len() - m.len()]);
        } else {
            assert(t[i] == d[i - 13 - y.len() - m.len()]);
            assert(is_digit(d[i - 13 - y.len() - m.len()]));
        }
    }
}

/// A window's filter takes in its first day and everything up to the day after its
/// last, which it leaves out. So the filters of two windows that meet speak of the
/// same day, and no two windows have the same filter.
#[verifier::rlimit(40)]
pub proof fn window_filters_meet(field: Seq<char>, window: DateWindow, other: DateWindow)
    requires
        window.start.in_calendar() && window.end_exclusive.in_calendar(),
        other.start.in_calendar() && other.end_exclusive.in_calendar(),
    ensures
        (field + ">="@ + filter_literal(window.start)).is_prefix_of(window_filter(field, window)),
        (field + "<"@ + filter_literal(window.end_exclusive)).is_suffix_of(
            window_filter(field, window),
        ),
        window.end_exclusive == other.start ==> (field + ">="@ + filter_literal(
            window.end_exclusive,
        )).is_prefix_of(window_filter(field, other)),
        window_filter(field, window) == window_filter(field, other) ==> window == other,
{
    let f = window_filter(field, window);
    let g = window_filter(field, other);
    let a = filter_literal(window.start);
    let b = filter_literal(window.end_exclusive);
    let c = filter_literal(other.start);
    let d = filter_literal(other.end_exclusive);
    let start = field + ">="@ + a;
    let end = field + "<"@ + b;
    assert(f.subrange(0, start.len() as int) =~= start);
    assert(f.subrange(f.len() - end.len(), f.len() as int) =~= end);
    let next = field + ">="@ + c;
    assert(g.subrange(0, next.len() as int) =~= next);
    if f == g {
        literal_ends_with_bracket(window.start);
        literal_ends_with_bracket(other.start);
        bounds_can_be_told(field, a, b, c, d);
        filter_literals_tell_dates_apart(window.start, other.start);
        filter_literals_tell_dates_apart(window.end_exclusive, other.end_exclusive);
    }
}

/// A filter's text determines its bounds, where a bound ends with its only bracket.
#[verifier::rlimit(40)]
proof fn bounds_can_be_told(
    field: Seq<char>,
    a: Seq<char>,
    b: Seq<char>,
    c: Seq<char>,
    d: Seq<char>,
)
    requires
        field + ">="@ + a + " && "@ + field + "<"@ + b == field + ">="@ + c + " && "@ + field + "<"@
            + d,
        a == a.drop_last() + ")"@,
        c == c.drop_last() + ")"@,
        forall|i: int| 0 <= i < a.drop_last().len() ==> #[trigger] a.drop_last()[i] != ')',
        forall|i: int| 0 <= i < c.drop_last().len() ==> #[trigger] c.drop_last()[i] != ')',
    ensures
        a == c,
        b == d,
{
    reveal_strlit(")");
    let f = field + ">="@ + a + " && "@ + field + "<"@ + b;
    let g = field + ">="@ + c + " && "@ + field + "<"@ + d;
    let head = field + ">="@;
    let between = " && "@ + field + "<"@;
    let r = between + b;
    let q = between + d;
    let x = a.drop_last();
    let y = c.drop_last();
    assert(f =~= head + a + r);
    assert(g =~= head + c + q);
    assert((head + a + r).skip(head.len() as int) =~= x + ")"@ + r);
    assert((head + c + q).skip(head.len() as int) =~= y + ")"@ + q);
    parts_before(")"@, x, r, y, q);
    assert(r.skip(between.len() as int) =~= b);
    assert(q.skip(between.len() as int) =~= d);
}

/// A restriction by `DateFrom` and `DateTo` covers a window's days and no others:
/// both ends are sent, the last day being the one before the window's end. Where
/// two windows meet, the second starts on the day after the first one's last.
pub proof fn date_parameters_cover_window(entity: EntityType, window: DateWindow, day: Date)
    requires
        entity == EntityType::PurchaseOrders || entity == EntityType::Quotes,
        restriction_failure(entity, window) is None,
        window.start.in_calendar() && window.end_exclusive.in_calendar(),
    ensures
        restriction(entity, window).len() == 2,
        restriction(entity, window)[0] == ("DateFrom"@, window.start.text()),
        restriction(entity, window)[1].0 == "DateTo"@,
        exists|last: Date|
            {
                &&& #[trigger] last.in_calendar()
                &&& restriction(entity, window)[1].1 == last.text()
                &&& last.number() + 1 == window.end_exclusive.number()
                &&& window.holds(day) <==> window.start.number() <= day.number() <= last.number()
            },
{
    let last = date_numbered(window.end_exclusive.number() - 1);
    number_in_range(window.end_exclusive);
    assert(first_day() <= window.end_exclusive.number() - 1);
    every_day_has_a_date(window.end_exclusive.number() - 1);
    assert(last.in_calendar());
}

/// An entity that has no business dates cannot be restricted to a window of them,
/// one that has `Date` can be to every window, by the one parameter `where`, and
/// one whose dates only its records tell is asked for without a restriction.
pub proof fn restrictions_follow_date_filters(entity: EntityType, window: DateWindow)
    ensures
        restriction_failure(entity, window) is Some && window.end_exclusive.number() != first_day()
            ==> !entity.spec_is_date_windowable() && entity != EntityType::Journals,
        !entity.spec_is_date_windowable() && entity != EntityType::Journals ==> restriction_failure(
            entity,
            window,
        ) is Some,
        entity.spec_is_date_windowable() && entity != EntityType::PurchaseOrders && entity
            != EntityType::Quotes ==> restriction(entity, window) == seq![
            ("where"@, window_filter("Date"@, window)),
        ] && restriction_failure(entity, window) is None,
        entity == EntityType::Journals ==> restriction(entity, window).len() == 0
            && restriction_failure(entity, window) is None,
{
}

/// Which knobs reach which endpoint: archived records of bills, contacts, invoices
/// and tracking categories; summaries of bills, contacts and invoices; a status
/// under `Status` for purchase orders and quotes, under `Statuses` elsewhere.
pub proof fn knobs_reach_their_endpoints(entity: EntityType)
    ensures
        can_include_archived(entity) <==> can_summarise(entity) || entity
            == EntityType::TrackingCategories,
        can_summarise(entity) <==> entity == EntityType::Bills || entity == EntityType::Contacts
            || entity == EntityType::Invoices,
        status_name(entity) == "Status"@ <==> date_filter(entity) == Some(DateFilter::DateFromTo),
        status_name(entity) == "Statuses"@ || status_name(entity) == "Status"@,
{
    reveal_strlit("Status");
    reveal_strlit("Statuses");
    assert("Status"@.len() == 6 && "Statuses"@.len() == 8);
}

/// A name stands in one list after another if and only if it stands in one of them.
pub proof fn names_add(a: Pairs, b: Pairs, name: Seq<char>)
    ensures
        has_name(a + b, name) <==> has_name(a, name) || has_name(b, name),
{
    let all = a + b;
    if has_name(a, name) {
        assert(all[place(a, name)].0 == name);
    }
    if has_name(b, name) {
        assert(all[a.len() + place(b, name)].0 == name);
    }
    if has_name(all, name) {
        let i = place(all, name);
        if i < a.len() {
            assert(a[i].0 == name);
        } else {
            assert(b[i - a.len()].0 == name);
        }
    }
}

proof fn one_name(list: Pairs, own: Seq<char>, name: Seq<char>)
    requires
        list.len() <= 1,
        list.len() == 1 ==> list[0].0 == own,
    ensures
        has_name(list, name) <==> list.len() == 1 && own == name,
{
    if list.len() == 1 && own == name {
        assert(list[0].0 == name);
    }
}

/// The knobs of a request that are sent: all parameters but the caller's own.
pub open spec fn sent_knobs(extra: ExtraQuery, entity: EntityType) -> Pairs {
    knob_pairs(extra, entity).take(knob_pairs(extra, entity).len() - extra.extra@.len())
}

#[verifier::rlimit(40)]
proof fn knobs_by_kind(extra: ExtraQuery, entity: EntityType, name: Seq<char>) -> (p: Seq<Pairs>)
    ensures
        p.len() == 6,
        knob_pairs(extra, entity) == sent_knobs(extra, entity) + pairs(extra.extra@),
        sent_knobs(extra, entity) == p[0] + p[1] + p[2] + p[3] + p[4] + p[5],
        p[0] == optional(
            "where"@,
            if entity == EntityType::Bills {
                Some(bill_filter(text_of(extra.where_clause)))
            } else {
                given_filter(text_of(extra.where_clause))
            },
        ),
        p[1] == optional("order"@, text_of(extra.order)),
        p[2] == optional("IDs"@, text_of(extra.ids)),
        p[3] == flag("includeArchived"@, extra.include_archived && can_include_archived(entity)),
        p[4] == flag("summaryOnly"@, extra.summary_only && can_summarise(entity)),
        p[5] == optional(status_name(entity), text_of(extra.statuses)),
        has_name(sent_knobs(extra, entity), name) <==> {
            ||| p[0].len() == 1 && name == "where"@
            ||| p[1].len() == 1 && name == "order"@
            ||| p[2].len() == 1 && name == "IDs"@
            ||| p[3].len() == 1 && name == "includeArchived"@
            ||| p[4].len() == 1 && name == "summaryOnly"@
            ||| p[5].len() == 1 && name == status_name(entity)
        },
{
    let filter = if entity == EntityType::Bills {
        Some(bill_filter(text_of(extra.where_clause)))
    } else {
        given_filter(text_of(extra.where_clause))
    };
    let p0 = optional("where"@, filter);
    let p1 = optional("order"@, text_of(extra.order));
    let p2 = optional("IDs"@, text_of(extra.ids));
    let p3 = flag("includeArchived"@, extra.include_archived && can_include_archived(entity));
    let p4 = flag("summaryOnly"@, extra.summary_only && can_summarise(entity));
    let p5 = optional(status_name(entity), text_of(extra.statuses));
    let knobs = p0 + p1 + p2 + p3 + p4 + p5;
    let sent = knob_pairs(extra, entity);
    assert(sent =~= knobs + pairs(extra.extra@));
    assert(sent_knobs(extra, entity) =~= knobs);
    one_name(p0, "where"@, name);
    one_name(p1, "order"@, name);
    one_name(p2, "IDs"@, name);
    one_name(p3, "includeArchived"@, name);
    one_name(p4, "summaryOnly"@, name);
    one_name(p5, status_name(entity), name);
    names_add(p0, p1, name);
    names_add(p0 + p1, p2, name);
    names_add(p0 + p1 + p2, p3, name);
    names_add(p0 + p1 + p2 + p3, p4, name);
    names_add(p0 + p1 + p2 + p3 + p4, p5, name);
    seq![p0, p1, p2, p3, p4, p5]
}

/// Each parameter of a request's knobs is sent if and only if its knob is set and
/// the endpoint takes it, and the caller's own parameters come after all of them.
#[verifier::rlimit(40)]
pub proof fn knobs_are_sent(extra: ExtraQuery, entity: EntityType)
    ensures
        knob_pairs(extra, entity) == sent_knobs(extra, entity) + pairs(extra.extra@),
        has_name(sent_knobs(extra, entity), "where"@) <==> entity == EntityType::Bills || (
        extra.where_clause matches Some(w) && trimmed(w@).len() > 0),
        has_name(sent_knobs(extra, entity), "order"@) <==> extra.order is Some,
        has_name(sent_knobs(extra, entity), "IDs"@) <==> extra.ids is Some,
        has_name(sent_knobs(extra, entity), "includeArchived"@) <==> extra.include_archived && (
        entity == EntityType::Bills || entity == EntityType::Contacts || entity
            == EntityType::Invoices || entity == EntityType::TrackingCategories),
        has_name(sent_knobs(extra, entity), "summaryOnly"@) <==> extra.summary_only && (entity
            == EntityType::Bills || entity == EntityType::Contacts || entity
            == EntityType::Invoices),
        has_name(sent_knobs(extra, entity), "Status"@) <==> extra.statuses is Some && (entity
            == EntityType::PurchaseOrders || entity == EntityType::Quotes),
        has_name(sent_knobs(extra, entity), "Statuses"@) <==> extra.statuses is Some && entity
            != EntityType::PurchaseOrders && entity != EntityType::Quotes,
{
    reveal_strlit("where");
    reveal_strlit("order");
    reveal_strlit("IDs");
    reveal_strlit("includeArchived");
    reveal_strlit("summaryOnly");
    reveal_strlit("Status");
    reveal_strlit("Statuses");
    assert("where"@.len() == 5 && "order"@.len() == 5 && "IDs"@.len() == 3);
    assert("includeArchived"@.len() == 15 && "summaryOnly"@.len() == 11);
    assert("Status"@.len() == 6 && "Statuses"@.len() == 8);
    assert("where"@[0] == 'w' && "order"@[0] == 'o');
    let _ = knobs_by_kind(extra, entity, "where"@);
    let _ = knobs_by_kind(extra, entity, "order"@);
    let _ = knobs_by_kind(extra, entity, "IDs"@);
    let _ = knobs_by_kind(extra, entity, "includeArchived"@);
    let _ = knobs_by_kind(extra, entity, "summaryOnly"@);
    let _ = knobs_by_kind(extra, entity, "Status"@);
    let _ = knobs_by_kind(extra, entity, "Statuses"@);
}

/// What is sent for a knob is the knob's value: the caller's filter without white
/// space around it, in which bills are picked out of the invoices by their type;
/// the order, IDs and statuses as they are; `true` for what is switched on.
#[verifier::rlimit(40)]
pub proof fn knobs_keep_their_values(extra: ExtraQuery, entity: EntityType, i: int)
    requires
        0 <= i < sent_knobs(extra, entity).len(),
    ensures
        ({
            let k = sent_knobs(extra, entity)[i];
            ||| k.0 == "order"@ && Some(k.1) == text_of(extra.order)
            ||| k.0 == "IDs"@ && Some(k.1) == text_of(extra.ids)
            ||| (k.0 == "Status"@ || k.0 == "Statuses"@) && Some(k.1) == text_of(extra.statuses)
            ||| (k.0 == "includeArchived"@ || k.0 == "summaryOnly"@) && k.1 == "true"@
            ||| k.0 == "where"@ && entity != EntityType::Bills && (
            extra.where_clause matches Some(w) && k.1 == trimmed(w@))
            ||| k.0 == "where"@ && entity == EntityType::Bills && "Type==\"ACCPAY\""@.is_prefix_of(
                k.1,
            )
        }),
{
    filters_are_never_blank(text_of(extra.where_clause));
    let p = knobs_by_kind(extra, entity, "where"@);
    let knobs = sent_knobs(extra, entity);
    let n1 = p[0].len() as int;
    let n2 = n1 + p[1].len();
    let n3 = n2 + p[2].len();
    let n4 = n3 + p[3].len();
    let n5 = n4 + p[4].len();
    if i < n1 {
        assert(knobs[i] == p[0][i]);
    } else if i < n2 {
        assert(knobs[i] == p[1][i - n1]);
    } else if i < n3 {
        assert(knobs[i] == p[2][i - n2]);
    } else if i < n4 {
        assert(knobs[i] == p[3][i - n3]);
    } else if i < n5 {
        assert(knobs[i] == p[4][i - n4]);
    } else {
        assert(knobs[i] == p[5][i - n5]);
    }
}

/// A blank filter is no filter. Any other filter on bills narrows the choice of
/// bills, within brackets; white space around it makes no difference.
pub proof fn bill_filters_narrow(clause: Seq<char>)
    ensures
        trimmed(clause).len() == 0 ==> bill_filter(Some(clause)) == bill_filter(None),
        trimmed(clause).len() > 0 ==> bill_filter(Some(clause)) == bill_filter(None) + " && ("@
            + trimmed(clause) + ")"@,
        bill_filter(None) == "Type==\"ACCPAY\""@,
        given_filter(Some(clause)) is None <==> trimmed(clause).len() == 0,
        given_filter(None) is None,
{
}

/// By default a report is asked for as of the day of the run, or, where it covers
/// a period, from that day to that day; lists of records have no such parameters.
/// A budget summary covers three periods of a month each.
#[verifier::rlimit(40)]
pub proof fn default_reports_are_of_today(entity: EntityType, today: Date)
    ensures
        ({
            let sent = report_defaults(entity, today);
            &&& sent.len() == 0 <==> !entity.spec_is_report()
            &&& has_name(sent, "fromDate"@) <==> entity == EntityType::ReportProfitAndLoss || entity
                == EntityType::ReportBankSummary
            &&& has_name(sent, "toDate"@) <==> has_name(sent, "fromDate"@)
            &&& has_name(sent, "date"@) <==> entity.spec_is_report() && !has_name(
                sent,
                "fromDate"@,
            )
            &&& has_name(sent, "periods"@) <==> entity == EntityType::ReportBudgetSummary
            &&& has_name(sent, "timeframe"@) <==> entity == EntityType::ReportBudgetSummary
            &&& sent.len() == (if entity == EntityType::ReportBudgetSummary {
                3int
            } else if has_name(sent, "fromDate"@) {
                2
            } else if entity.spec_is_report() {
                1
            } else {
                0
            })
            &&& forall|i: int|
                0 <= i < sent.len() ==> {
                    let p = #[trigger] sent[i];
                    &&& p.0 == "date"@ || p.0 == "fromDate"@ || p.0 == "toDate"@ ==> p.1
                        == today.text()
                    &&& p.0 == "periods"@ ==> p.1 == "3"@
                    &&& p.0 == "timeframe"@ ==> p.1 == "1"@
                }
        }),
{
    reveal_strlit("date");
    reveal_strlit("fromDate");
    reveal_strlit("toDate");
    reveal_strlit("periods");
    reveal_strlit("timeframe");
    assert("date"@.len() == 4 && "fromDate"@.len() == 8 && "toDate"@.len() == 6);
    assert("periods"@.len() == 7 && "timeframe"@.len() == 9);
    let sent = report_defaults(entity, today);
    if sent.len() > 0 {
        assert(sent[0].0 == "date"@ || sent[0].0 == "fromDate"@);
    }
    if entity == EntityType::ReportBudgetSummary {
        assert(sent[1].0 == "periods"@ && sent[2].0 == "timeframe"@);
    } else if entity == EntityType::ReportProfitAndLoss || entity == EntityType::ReportBankSummary {
        assert(sent[1].0 == "toDate"@);
    }
}

/// The two aged reports are the ones served per contact, and none of them is
/// synced by default. Further parameters never take the contact away.
pub proof fn contacts_are_asked_for(entity: EntityType, params: Pairs, more: Pairs)
    ensures
        is_per_contact(entity) <==> entity == EntityType::ReportAgedReceivablesByContact || entity
            == EntityType::ReportAgedPayablesByContact,
        entity.spec_is_report() ==> (EntityType::reports_default_list().contains(entity)
            <==> !is_per_contact(entity)),
        names_contact(params) ==> names_contact(params + more),
        names_contact(params + more) ==> names_contact(params) || names_contact(more),
        names_contact(more) ==> names_contact(params + more),
        !has_name(params, "contactId"@) ==> !names_contact(params),
{
    default_reports_need_no_contact(entity);
    reports_are_recognised(entity);
    let all = params + more;
    if names_contact(params) {
        let i = choose|i: int|
            0 <= i < params.len() && (#[trigger] params[i]).0 == "contactId"@ && trimmed(
                params[i].1,
            ).len() > 0;
        assert(all[i] == params[i]);
    }
    if names_contact(more) {
        let i = choose|i: int|
            0 <= i < more.len() && (#[trigger] more[i]).0 == "contactId"@ && trimmed(
                more[i].1,
            ).len() > 0;
        assert(all[params.len() + i] == more[i]);
    }
    if names_contact(all) {
        let i = choose|i: int|
            0 <= i < all.len() && (#[trigger] all[i]).0 == "contactId"@ && trimmed(
                all[i].1,
            ).len() > 0;
        if i < params.len() {
            assert(params[i] == all[i]);
        } else {
            assert(more[i - params.len()] == all[i]);
        }
    }
}

/// A window that is accepted holds its first day and never its end; one that is refused would
/// hold no day at all.
pub proof fn windows_hold_days(window: DateWindow, day: Date)
    ensures
        has_days(window.start, window.end_exclusive) <==> window.holds(window.start),
        !window.holds(window.end_exclusive),
        !has_days(window.start, window.end_exclusive) ==> !window.holds(day),
{
}

} // verus!
