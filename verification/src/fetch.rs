//! Fetches: which pages of an entity to request, and what becomes of them.

use vstd::prelude::*;

use crate::bronze::{report_params_of, text_members};
use crate::calendar::{Date, Timestamp, UNIX_EPOCH_DAY};
use crate::error::{Error, ErrorView};
use crate::json::{first_member, is_tree_of, parse, readable, text_in, Json};
use crate::paging::{
    is_walk, numbered_pages_are_asked_in_turn, numbered_walk_ends_on_empty_page,
    single_walk_is_one_request, walk, walk_ends, walk_extends, Cursor, CursorView, PageMode,
    PageReport, PaginationOutcome, Pick, TerminationReason,
};
use crate::query::{
    business_date_query_mode, date_filter, date_filters_are_for_windowed_entities,
    extra_query_pairs, is_paged, is_per_contact, knob_pairs, names_contact, overrides_win,
    page_pairs, pages_are_numbered, push_page_pairs, report_defaults, report_param_map,
    report_params_on, restriction, restriction_failure, restrictions_follow_date_filters,
    signed_numerals_differ, supports_page_pagination, validate_report_params, window_filter,
    window_restriction, BusinessDateQueryMode, DateFilter, DateWindow, ExtraQuery, Pairs,
};
use crate::records::{
    booked_within, filter_records_by_business_date_window, filter_records_by_modified_window,
    entity_records, is_body_count, is_body_reading, is_journal_reading, max_journal_number,
    max_journal_number_from_bytes, passes_modified, record_count_from_bytes, take_first_record,
    take_records,
};
use crate::sorted::{
    ascending, assign_all, assigned, copy_pairs, has_name, map_of, pairs, push_pair, SortedMap,
};
use crate::text::{decimal, numeral, signed_decimal, signed_numeral, text_of};
use crate::types::{reports_are_recognised, EntityType};

verus! {

/// Page size where a caller asks for none.
pub const DEFAULT_PAGE_SIZE: u32 = 100;

/// A set of records and how their pagination ended.
#[derive(Debug)]
pub struct FetchResult {
    pub records: Vec<Json>,
    pub outcome: PaginationOutcome,
}

/// One response, kept byte for byte.
///
/// The body can be stored as it came, without the loss of key order or white
/// space that writing it anew would bring. `record_count` comes of a reading of
/// the body that serves pagination alone.
#[derive(Debug)]
pub struct RawPage {
    /// 1-based page number.
    pub page: u32,
    /// The response body as Xero sent it.
    pub body: Vec<u8>,
    /// HTTP status of the response.
    pub http_status: u16,
    /// Number of records in the body.
    pub record_count: usize,
    /// When the page was fetched.
    pub fetched_at: Timestamp,
}

impl RawPage {
    /// The page of an accepted response.
    pub fn accepted(
        entity: &EntityType,
        page: u32,
        http_status: u16,
        body: Vec<u8>,
        fetched_at: Timestamp,
    ) -> (r: RawPage)
        ensures
            r.page == page,
            r.body == body,
            r.http_status == http_status,
            r.fetched_at == fetched_at,
            is_body_count(*entity, body@, r.record_count as nat),
    {
        let record_count: usize = record_count_from_bytes(entity, body.as_slice());
        RawPage { page, body, http_status, record_count, fetched_at }
    }

    /// The page of a `304 Not Modified`: no body and no records, so that
    /// pagination ends.
    pub fn not_modified(page: u32, fetched_at: Timestamp) -> (r: RawPage)
        ensures
            r.page == page,
            r.body@.len() == 0,
            r.http_status == 304,
            r.record_count == 0,
            r.fetched_at == fetched_at,
    {
        RawPage { page, body: Vec::new(), http_status: 304, record_count: 0, fetched_at }
    }

    /// The page of a report: one record.
    pub fn report(http_status: u16, body: Vec<u8>, fetched_at: Timestamp) -> (r: RawPage)
        ensures
            r.page == 1,
            r.body == body,
            r.http_status == http_status,
            r.record_count == 1,
            r.fetched_at == fetched_at,
    {
        RawPage { page: 1, body, http_status, record_count: 1, fetched_at }
    }
}

/// How an entity's endpoint hands out its records.
pub open spec fn mode_of(entity: EntityType) -> PageMode {
    if entity == EntityType::Journals {
        PageMode::Offset
    } else if is_paged(entity) {
        PageMode::Numbered
    } else {
        PageMode::Single
    }
}

/// How an entity's endpoint hands out its records.
pub fn page_mode(entity: &EntityType) -> (r: PageMode)
    ensures
        r == mode_of(*entity),
{
    if *entity == EntityType::Journals {
        PageMode::Offset
    } else if supports_page_pagination(entity) {
        PageMode::Numbered
    } else {
        PageMode::Single
    }
}

/// The page size that the knobs ask for, or the default one.
pub open spec fn page_size_of(extra: ExtraQuery) -> u32 {
    match extra.page_size {
        Some(n) => n,
        None => DEFAULT_PAGE_SIZE,
    }
}

/// Whether a plan is for the records booked within a window.
pub open spec fn is_date_plan(
    p: FetchPlan,
    entity: EntityType,
    window: DateWindow,
    page_size: u32,
) -> bool {
    &&& p.entity == entity
    &&& p.page_size == page_size
    &&& pairs(p.base@) == restriction(entity, window)
    &&& match date_filter(entity) {
        Some(DateFilter::LocalOnly(_)) => p.modified_after matches Some(t) && t.unix() == (
        window.start.number() - UNIX_EPOCH_DAY) * 86400 && t.subsec() == 0,
        _ => p.modified_after is None,
    }
}

/// The requests of one fetch.
#[derive(Debug)]
pub struct FetchPlan {
    pub entity: EntityType,
    pub modified_after: Option<Timestamp>,
    /// Parameters that every request has, besides those that pick its page.
    /// The offset endpoint takes none.
    pub base: Vec<(String, String)>,
    pub page_size: u32,
}

/// Query parameters of the request for a page.
pub open spec fn pick_pairs(entity: EntityType, base: Pairs, page_size: u32, pick: Pick) -> Pairs {
    match pick {
        Pick::Whole => base,
        Pick::Page(n) => base + page_pairs(entity, n, page_size),
        Pick::Offset(offset, _) => seq![("offset"@, signed_numeral(offset as int))],
    }
}

/// The number of the page a pick asks for.
pub open spec fn pick_number(pick: Pick) -> u32 {
    match pick {
        Pick::Whole => 1,
        Pick::Page(n) => n,
        Pick::Offset(_, n) => n,
    }
}

impl FetchPlan {
    /// All records, or those modified after an instant.
    pub fn plain(
        entity: &EntityType,
        modified_after: Option<Timestamp>,
        page_size: u32,
    ) -> (r: FetchPlan)
        ensures
            r.entity == *entity,
            r.modified_after == modified_after,
            r.page_size == page_size,
            pairs(r.base@) == Seq::<(Seq<char>, Seq<char>)>::empty(),
    {
        let base: Vec<(String, String)> = Vec::new();
        proof {
            assert(pairs(base@) =~= Seq::<(Seq<char>, Seq<char>)>::empty());
        }
        FetchPlan { entity: *entity, modified_after, base, page_size }
    }

    /// The records that the extra knobs pick.
    pub fn with_extras(
        entity: &EntityType,
        modified_after: Option<Timestamp>,
        extra: &ExtraQuery,
    ) -> (r: FetchPlan)
        ensures
            r.entity == *entity,
            r.modified_after == modified_after,
            r.page_size == page_size_of(*extra),
            pairs(r.base@) == knob_pairs(*extra, *entity),
    {
        let page_size: u32 = match extra.page_size {
            Some(n) => n,
            None => DEFAULT_PAGE_SIZE,
        };
        FetchPlan {
            entity: *entity,
            modified_after,
            base: extra_query_pairs(extra, entity),
            page_size,
        }
    }

    /// The records booked within a window. What was last modified before a
    /// journal's booking date cannot be booked in the window, so journals are
    /// asked for from the window's start.
    pub fn by_business_date(entity: &EntityType, window: DateWindow, page_size: u32) -> (r: Result<
        FetchPlan,
        Error,
    >)
        ensures
            match r {
                Ok(p) => {
                    &&& restriction_failure(*entity, window) is None
                    &&& is_date_plan(p, *entity, window, page_size)
                },
                Err(e) => restriction_failure(*entity, window) == Some(e@),
            },
    {
        let base = window_restriction(entity, window)?;
        let modified_after = match business_date_query_mode(entity) {
            Some(BusinessDateQueryMode::LocalOnly(_)) => Some(Timestamp::midnight(&window.start)),
            _ => None,
        };
        Ok(FetchPlan { entity: *entity, modified_after, base, page_size })
    }

    /// Query parameters of the request for a page.
    pub fn query(&self, pick: Pick) -> (r: Vec<(String, String)>)
        ensures
            pairs(r@) == pick_pairs(self.entity, pairs(self.base@), self.page_size, pick),
    {
        match pick {
            Pick::Whole => copy_pairs(&self.base),
            Pick::Page(n) => {
                let mut query = copy_pairs(&self.base);
                push_page_pairs(&mut query, &self.entity, n, self.page_size);
                query
            },
            Pick::Offset(offset, _) => {
                let mut query: Vec<(String, String)> = Vec::new();
                push_pair(&mut query, "offset", signed_decimal(offset).as_str());
                proof {
                    assert(pairs(query@) =~= seq![("offset"@, signed_numeral(offset as int))]);
                }
                query
            },
        }
    }
}

/// The next request of a fetch: number of the page, and query parameters.
#[derive(Debug)]
pub struct PageRequest {
    pub number: u32,
    pub query: Vec<(String, String)>,
}

fn request_for(plan: &FetchPlan, cursor: &Cursor) -> (r: Option<PageRequest>)
    ensures
        match r {
            Some(q) => cursor@.pick() matches Some(pick) && q.number == pick_number(pick) && pairs(
                q.query@,
            ) == pick_pairs(plan.entity, pairs(plan.base@), plan.page_size, pick),
            None => cursor@.pick() is None,
        },
{
    match cursor.next() {
        Some(pick) => {
            let number: u32 = match pick {
                Pick::Whole => 1,
                Pick::Page(n) => n,
                Pick::Offset(_, n) => n,
            };
            Some(PageRequest { number, query: plan.query(pick) })
        },
        None => None,
    }
}

/// Whether the reports are those of the pages: as many records on each.
pub open spec fn are_reports(reports: Seq<PageReport>, pages: Seq<RawPage>) -> bool {
    &&& reports.len() == pages.len()
    &&& forall|i: int|
        0 <= i < pages.len() ==> (#[trigger] reports[i]).0 == pages[i].record_count
}

/// Whether pages with the given reports lead from the start to a place, each of
/// them asked for.
pub open spec fn lead_to(
    mode: PageMode,
    cap: nat,
    reports: Seq<PageReport>,
    place: CursorView,
) -> bool {
    is_walk(mode, cap, reports) && place == walk(mode, cap, reports)
}

/// Records on all pages of a walk.
pub open spec fn records_on(reports: Seq<PageReport>) -> nat
    decreases reports.len(),
{
    if reports.len() == 0 {
        0
    } else {
        records_on(reports.drop_last()) + reports.last().0
    }
}

/// A fetch of an entity's pages, kept byte for byte.
#[derive(Debug)]
pub struct RawFetch {
    plan: FetchPlan,
    cursor: Cursor,
    pages: Vec<RawPage>,
}

impl RawFetch {
    pub closed spec fn what(self) -> FetchPlan {
        self.plan
    }

    /// Where the fetch stands.
    pub closed spec fn place(self) -> CursorView {
        self.cursor@
    }

    /// The pages so far, in order.
    pub closed spec fn got(self) -> Seq<RawPage> {
        self.pages@
    }

    /// What holds of every fetch: its pages are numbered as they were asked for, from
    /// one on, and where it stands is where they lead.
    pub open spec fn consistent(self) -> bool {
        &&& self.place().wf()
        &&& self.place().mode == mode_of(self.what().entity)
        &&& self.place().end is None ==> self.place().fetched == self.got().len()
        &&& forall|i: int| 0 <= i < self.got().len() ==> (#[trigger] self.got()[i]).page == i + 1
        &&& exists|reports: Seq<PageReport>|
            are_reports(reports, self.got()) && #[trigger] lead_to(
                mode_of(self.what().entity),
                self.place().cap,
                reports,
                self.place(),
            )
    }

    /// Whether a page is the one that is asked for next.
    pub open spec fn wants(self, page: RawPage) -> bool {
        self.place().pick() matches Some(pick) && page.page == pick_number(pick)
    }

    pub fn start(plan: FetchPlan, max_pages: u32) -> (r: RawFetch)
        ensures
            r.what() == plan,
            r.place() == CursorView::start(mode_of(plan.entity), max_pages as nat),
            r.got() == Seq::<RawPage>::empty(),
            r.consistent(),
    {
        let cursor = Cursor::new(page_mode(&plan.entity), max_pages);
        let r = RawFetch { plan, cursor, pages: Vec::new() };
        proof {
            let none = Seq::<PageReport>::empty();
            let mode = mode_of(plan.entity);
            assert(lead_to(mode, r.place().cap, none, r.place()));
            assert(are_reports(none, r.got()));
        }
        r
    }

    /// The next request, until the fetch has ended.
    pub fn next(&self) -> (r: Option<PageRequest>)
        ensures
            match r {
                Some(q) => self.place().pick() matches Some(pick) && q.number == pick_number(pick)
                    && pairs(q.query@) == pick_pairs(
                    self.what().entity,
                    pairs(self.what().base@),
                    self.what().page_size,
                    pick,
                ),
                None => self.place().pick() is None,
            },
    {
        request_for(&self.plan, &self.cursor)
    }

    /// Take the page that was asked for, with the largest journal number in it.
    pub fn accept_with(&mut self, page: RawPage, journal: Option<i64>)
        requires
            old(self).consistent(),
            old(self).wants(page),
        ensures
            final(self).consistent(),
            final(self).what() == old(self).what(),
            final(self).got() == old(self).got().push(page),
            final(self).place() == old(self).place().after(page.record_count as nat, journal),
    {
        let ghost before = *self;
        let ghost report: PageReport = (page.record_count as nat, journal);
        self.cursor = self.cursor.advanced(page.record_count, journal);
        self.pages.push(page);
        proof {
            let mode = mode_of(before.what().entity);
            let cap = before.place().cap;
            let reports = choose|reports: Seq<PageReport>|
                are_reports(reports, before.got()) && #[trigger] lead_to(
                    mode,
                    cap,
                    reports,
                    before.place(),
                );
            let longer = reports.push(report);
            walk_extends(mode, cap, reports, report);
            assert(lead_to(mode, self.place().cap, longer, self.place()));
            assert(are_reports(longer, self.got()));
        }
    }

    /// Take the page that was asked for. On the offset endpoint its largest
    /// journal number is where the next page starts.
    pub fn accept(&mut self, page: RawPage)
        requires
            old(self).consistent(),
            old(self).wants(page),
        ensures
            final(self).consistent(),
            final(self).what() == old(self).what(),
            final(self).got() == old(self).got().push(page),
            exists|journal: Option<i64>|
                (old(self).what().entity == EntityType::Journals ==> is_body_reading(
                    old(self).what().entity,
                    page.body@,
                    journal,
                )) && final(self).place() == #[trigger] old(self).place().after(
                    page.record_count as nat,
                    journal,
                ),
    {
        let journal = if self.plan.entity == EntityType::Journals {
            max_journal_number_from_bytes(&self.plan.entity, page.body.as_slice())
        } else {
            None
        };
        self.accept_with(page, journal);
    }

    /// How the fetch ended, once it has.
    pub fn outcome(&self) -> (r: Option<PaginationOutcome>)
        ensures
            r == self.place().outcome(),
    {
        self.cursor.outcome()
    }

    /// The pages, in order.
    pub fn into_pages(self) -> (r: Vec<RawPage>)
        ensures
            r@ == self.got(),
    {
        self.pages
    }
}

/// A fetch by page number that ended healthy has every page: its last page is
/// empty and no other is, so that a short page never cuts it off. One that ran into
/// the cap has as many pages as the cap allows, none of them empty, and is suspect.
pub proof fn numbered_fetch_is_complete_or_suspect(fetch: RawFetch)
    requires
        fetch.consistent(),
        mode_of(fetch.what().entity) == PageMode::Numbered,
        fetch.place().end is Some,
        fetch.place().cap > 0,
    ensures
        fetch.got().len() > 0,
        forall|i: int|
            0 <= i < fetch.got().len() - 1 ==> (#[trigger] fetch.got()[i]).record_count > 0,
        fetch.place().end == Some(TerminationReason::EndedOnEmptyPage)
            <==> fetch.got().last().record_count == 0,
        fetch.place().end == Some(TerminationReason::HitMaxPagesCap)
            <==> fetch.got().last().record_count > 0,
        fetch.place().end == Some(TerminationReason::HitMaxPagesCap) ==> fetch.got().len()
            == fetch.place().cap,
{
    let cap = fetch.place().cap;
    let reports = choose|reports: Seq<PageReport>|
        are_reports(reports, fetch.got()) && #[trigger] lead_to(
            PageMode::Numbered,
            cap,
            reports,
            fetch.place(),
        );
    assert(reports.len() > 0);
    walk_ends(PageMode::Numbered, cap, reports);
    numbered_walk_ends_on_empty_page(cap, reports);
    assert forall|i: int| 0 <= i < fetch.got().len() - 1 implies (
    #[trigger] fetch.got()[i]).record_count > 0 by {
        assert(reports[i].0 == fetch.got()[i].record_count);
    }
    assert(reports[reports.len() - 1].0 == fetch.got()[fetch.got().len() - 1].record_count);
}

/// Whatever the endpoint, no more pages are fetched than the cap allows.
pub proof fn fetch_is_bounded(fetch: RawFetch)
    requires
        fetch.consistent(),
        fetch.place().cap > 0,
    ensures
        fetch.got().len() <= fetch.place().cap,
{
    let mode = mode_of(fetch.what().entity);
    let cap = fetch.place().cap;
    let reports = choose|reports: Seq<PageReport>|
        are_reports(reports, fetch.got()) && #[trigger] lead_to(mode, cap, reports, fetch.place());
    walk_ends(mode, cap, reports);
}

/// The failure to read a response's body.
pub open spec fn decode_failure() -> ErrorView {
    ErrorView::XeroApi("error decoding response body"@)
}

/// The records of an entity in the body of a response.
pub fn records_from_body(entity: &EntityType, body: &[u8]) -> (r: Result<Vec<Json>, Error>)
    ensures
        match r {
            Ok(records) => readable(body@) && exists|tree: Json|
                #[trigger] is_tree_of(tree, body@) && records@ == (
                match entity_records(tree, *entity) {
                    Some(records) => records,
                    None => Seq::<Json>::empty(),
                }),
            Err(e) => !readable(body@) && e@ == decode_failure(),
        },
{
    match parse(body) {
        Some(tree) => {
            proof {
                assert(is_tree_of(tree, body@));
            }
            Ok(take_records(entity, tree))
        },
        None => Err(Error::XeroApi("error decoding response body".to_owned())),
    }
}

/// The first record of an entity in the body of a response.
pub fn first_record_from_body(entity: &EntityType, body: &[u8]) -> (r: Result<Option<Json>, Error>)
    ensures
        match r {
            Ok(record) => readable(body@) && exists|tree: Json|
                #[trigger] is_tree_of(tree, body@) && record == (
                match entity_records(tree, *entity) {
                    Some(records) => if records.len() > 0 {
                        Some(records[0])
                    } else {
                        None
                    },
                    None => None,
                }),
            Err(e) => !readable(body@) && e@ == decode_failure(),
        },
{
    match parse(body) {
        Some(tree) => {
            proof {
                assert(is_tree_of(tree, body@));
            }
            Ok(take_first_record(entity, tree))
        },
        None => Err(Error::XeroApi("error decoding response body".to_owned())),
    }
}

/// A fetch of an entity's records.
#[derive(Debug)]
pub struct RecordFetch {
    plan: FetchPlan,
    cursor: Cursor,
    records: Vec<Json>,
}

impl RecordFetch {
    pub closed spec fn what(self) -> FetchPlan {
        self.plan
    }

    /// Where the fetch stands.
    pub closed spec fn place(self) -> CursorView {
        self.cursor@
    }

    /// The records so far, in order.
    pub closed spec fn got(self) -> Seq<Json> {
        self.records@
    }

    /// What holds of every fetch: where it stands is where its pages lead, each of
    /// which was asked for, and it has all their records.
    pub open spec fn consistent(self) -> bool {
        &&& self.place().cap <= u32::MAX
        &&& exists|reports: Seq<PageReport>|
            records_on(reports) == self.got().len() && #[trigger] lead_to(
                mode_of(self.what().entity),
                self.place().cap,
                reports,
                self.place(),
            )
    }

    pub fn start(plan: FetchPlan, max_pages: u32) -> (r: RecordFetch)
        ensures
            r.what() == plan,
            r.place() == CursorView::start(mode_of(plan.entity), max_pages as nat),
            r.got() == Seq::<Json>::empty(),
            r.consistent(),
    {
        let cursor = Cursor::new(page_mode(&plan.entity), max_pages);
        let r = RecordFetch { plan, cursor, records: Vec::new() };
        proof {
            let none = Seq::<PageReport>::empty();
            let mode = mode_of(plan.entity);
            assert(lead_to(mode, r.place().cap, none, r.place()));
        }
        r
    }

    /// The next request, until the fetch has ended.
    pub fn next(&self) -> (r: Option<PageRequest>)
        ensures
            match r {
                Some(q) => self.place().pick() matches Some(pick) && q.number == pick_number(pick)
                    && pairs(q.query@) == pick_pairs(
                    self.what().entity,
                    pairs(self.what().base@),
                    self.what().page_size,
                    pick,
                ),
                None => self.place().pick() is None,
            },
    {
        request_for(&self.plan, &self.cursor)
    }

    /// Take the records of the page that was asked for.
    pub fn accept(&mut self, records: Vec<Json>)
        requires
            old(self).consistent(),
            old(self).place().end is None,
        ensures
            final(self).consistent(),
            final(self).what() == old(self).what(),
            final(self).got() == old(self).got() + records@,
            exists|journal: Option<i64>|
                is_journal_reading(records@, journal) && final(self).place()
                    == #[trigger] old(self).place().after(records@.len(), journal),
    {
        let journal = max_journal_number(records.as_slice());
        let ghost before = *self;
        let ghost report: PageReport = (records@.len(), journal);
        let mut records = records;
        self.cursor = self.cursor.advanced(records.len(), journal);
        self.records.append(&mut records);
        proof {
            let mode = mode_of(before.what().entity);
            let cap = before.place().cap;
            let reports = choose|reports: Seq<PageReport>|
                records_on(reports) == before.got().len() && #[trigger] lead_to(
                    mode,
                    cap,
                    reports,
                    before.place(),
                );
            let longer = reports.push(report);
            walk_extends(mode, cap, reports, report);
            assert(longer.drop_last() =~= reports);
            assert(lead_to(mode, self.place().cap, longer, self.place()));
        }
    }

    /// How the fetch ended, once it has.
    pub fn outcome(&self) -> (r: Option<PaginationOutcome>)
        ensures
            r == self.place().outcome(),
    {
        self.cursor.outcome()
    }

    /// The records modified in the half-open window, once the fetch has ended.
    pub fn into_modified(
        self,
        modified_after: Option<Timestamp>,
        modified_before: Option<Timestamp>,
    ) -> (r: Option<FetchResult>)
        ensures
            match r {
                Some(f) => self.place().outcome() == Some(f.outcome) && f.records@
                    == self.got().filter(
                    |record: Json|
                        passes_modified(
                            record,
                            crate::calendar::parts(modified_after),
                            crate::calendar::parts(modified_before),
                        ),
                ),
                None => self.place().outcome() is None,
            },
    {
        match self.cursor.outcome() {
            Some(outcome) => Some(
                FetchResult {
                    records: filter_records_by_modified_window(
                        self.records,
                        modified_after,
                        modified_before,
                    ),
                    outcome,
                },
            ),
            None => None,
        }
    }

    /// The records booked within the window, once the fetch has ended.
    pub fn into_booked(self, window: DateWindow) -> (r: Option<FetchResult>)
        ensures
            match r {
                Some(f) => self.place().outcome() == Some(f.outcome) && f.records@
                    == self.got().filter(
                    |record: Json| booked_within(self.what().entity, record, window),
                ),
                None => self.place().outcome() is None,
            },
    {
        match self.cursor.outcome() {
            Some(outcome) => Some(
                FetchResult {
                    records: filter_records_by_business_date_window(
                        &self.plan.entity,
                        self.records,
                        window,
                    ),
                    outcome,
                },
            ),
            None => None,
        }
    }

    /// The cap on pages of the fetch.
    pub fn max_pages(&self) -> (r: u32)
        ensures
            r == self.place().cap,
    {
        self.cursor.cap()
    }
}

/// The failure of a fetch that may not be cut short.
pub open spec fn cap_failure(entity: EntityType, cap: nat) -> ErrorView {
    ErrorView::XeroApi(entity.path() + " exceeded max page limit ("@ + numeral(cap) + ")"@)
}

/// Whether a fetch that ended so may lack records: it ran into the cap by page number.
pub open spec fn cut_short(entity: EntityType, termination: TerminationReason) -> bool {
    mode_of(entity) == PageMode::Numbered && termination == TerminationReason::HitMaxPagesCap
}

/// The records of an ended fetch, where it must be complete: one that ran into
/// the cap by page number fails.
pub fn complete_records(
    entity: &EntityType,
    result: FetchResult,
    max_pages: u32,
) -> (r: Result<Vec<Json>, Error>)
    ensures
        match r {
            Ok(records) => records == result.records && !cut_short(
                *entity,
                result.outcome.termination,
            ),
            Err(e) => {
                &&& cut_short(*entity, result.outcome.termination)
                &&& e@ == cap_failure(*entity, max_pages as nat)
            },
        },
{
    if page_mode(entity) == PageMode::Numbered && result.outcome.termination
        == TerminationReason::HitMaxPagesCap {
        return Err(
            Error::XeroApi(
                entity.xero_path().to_owned().concat(" exceeded max page limit (").concat(
                    decimal(max_pages as u64).as_str(),
                ).concat(")"),
            ),
        );
    }
    Ok(result.records)
}

/// Whether each listed record is replaced by what a request for it alone gives.
/// The lists of budgets and of contact groups leave out nested arrays.
pub open spec fn expands(entity: EntityType, expand_lines: bool) -> bool {
    expand_lines && (entity == EntityType::Budgets || entity == EntityType::ContactGroups)
}

/// Whether each listed record is replaced by what a request for it alone gives.
pub fn expands_details(entity: &EntityType, extra: &ExtraQuery) -> (r: bool)
    ensures
        r == expands(*entity, extra.expand_lines),
{
    extra.expand_lines && (*entity == EntityType::Budgets || *entity == EntityType::ContactGroups)
}

/// The key by which a record is requested alone: its primary key, where it is a text.
pub open spec fn detail_key(entity: EntityType, record: Json) -> Option<Seq<char>> {
    match record.field(entity.id_field_name()) {
        Some(v) => v.chars(),
        None => None,
    }
}

/// The key by which a record is requested alone.
pub fn detail_id(entity: &EntityType, record: &Json) -> (r: Option<String>)
    ensures
        text_of(r) == detail_key(*entity, *record),
{
    match record.get(entity.id_field()) {
        Some(v) => match v.as_str() {
            Some(s) => Some(s.to_owned()),
            None => None,
        },
        None => None,
    }
}

/// A record after the request for it alone: its details, or the record as it
/// was listed where there are none or the request failed.
pub open spec fn detailed(record: Json, reply: Result<Option<Json>, Error>) -> Json {
    match reply {
        Ok(Some(detail)) => detail,
        _ => record,
    }
}

/// Listed records that are replaced by their details, one after the other. Each
/// keeps its place, and one without a key stays as it was listed.
#[derive(Debug)]
pub struct Expansion {
    entity: EntityType,
    records: Vec<Json>,
    at: usize,
}

impl Expansion {
    pub closed spec fn kind(self) -> EntityType {
        self.entity
    }

    /// The records, those before the place it stands at with their details.
    pub closed spec fn list(self) -> Seq<Json> {
        self.records@
    }

    /// How many records are dealt with.
    pub closed spec fn place(self) -> nat {
        self.at as nat
    }

    pub fn start(entity: &EntityType, records: Vec<Json>) -> (r: Expansion)
        ensures
            r.kind() == *entity,
            r.list() == records@,
            r.place() == 0,
    {
        Expansion { entity: *entity, records, at: 0 }
    }

    /// The key of the next record to request alone. Records without one are passed
    /// over.
    pub fn next(&mut self) -> (r: Option<String>)
        requires
            old(self).place() <= old(self).list().len(),
        ensures
            final(self).kind() == old(self).kind(),
            final(self).list() == old(self).list(),
            old(self).place() <= final(self).place() <= final(self).list().len(),
            forall|i: int|
                old(self).place() <= i < final(self).place() ==> detail_key(
                    final(self).kind(),
                    #[trigger] final(self).list()[i],
                ) is None,
            match r {
                Some(id) => final(self).place() < final(self).list().len() && detail_key(
                    final(self).kind(),
                    final(self).list()[final(self).place() as int],
                ) == Some(id@),
                None => final(self).place() == final(self).list().len(),
            },
    {
        while self.at < self.records.len()
            invariant
                self.entity == old(self).entity,
                self.records == old(self).records,
                old(self).at <= self.at <= self.records.len(),
                forall|i: int|
                    old(self).at <= i < self.at ==> detail_key(
                        self.entity,
                        #[trigger] self.records@[i],
                    ) is None,
            decreases self.records.len() - self.at,
        {
            let id = detail_id(&self.entity, &self.records[self.at]);
            if id.is_some() {
                return id;
            }
            self.at = self.at + 1;
        }
        None
    }

    /// Take what the request for the record gave.
    pub fn accept(&mut self, reply: Result<Option<Json>, Error>)
        requires
            old(self).place() < old(self).list().len(),
        ensures
            final(self).kind() == old(self).kind(),
            final(self).place() == old(self).place() + 1,
            final(self).list() == old(self).list().update(
                old(self).place() as int,
                detailed(old(self).list()[old(self).place() as int], reply),
            ),
    {
        assert(self.at < self.records.len());
        let next: usize = self.at + 1;
        if let Ok(Some(detail)) = reply {
            self.records.set(self.at, detail);
        } else {
            proof {
                assert(self.records@.update(self.at as int, self.records@[self.at as int])
                    =~= self.records@);
            }
        }
        self.at = next;
    }

    /// The records, as many as were listed and in the same order.
    pub fn into_records(self) -> (r: Vec<Json>)
        ensures
            r@ == self.list(),
    {
        self.records
    }
}

/// Why a report cannot be requested.
pub open spec fn report_failure(
    caller: Seq<char>,
    entity: EntityType,
    params: Pairs,
) -> Option<ErrorView> {
    if !entity.spec_is_report() {
        Some(
            ErrorView::Config(
                entity.name() + " is not a report entity; "@ + caller + " only handles Reports/*"@,
            ),
        )
    } else if is_per_contact(entity) && !names_contact(params) {
        Some(
            ErrorView::Config(
                entity.name() + " requires extra_params contactId=<xero-contact-uuid>"@,
            ),
        )
    } else {
        None
    }
}

fn report_query(
    caller: &str,
    entity: &EntityType,
    today: &Date,
    overrides: &Vec<(String, String)>,
) -> (r: Result<Vec<(String, String)>, Error>)
    ensures
        match r {
            Ok(params) => {
                &&& ascending(pairs(params@))
                &&& map_of(pairs(params@)) == report_param_map(*entity, *today, pairs(overrides@))
                &&& report_failure(caller@, *entity, pairs(params@)) is None
            },
            Err(e) => exists|params: Pairs|
                ascending(params) && #[trigger] map_of(params) == report_param_map(
                    *entity,
                    *today,
                    pairs(overrides@),
                ) && report_failure(caller@, *entity, params) == Some(e@),
        },
{
    let params = report_params_on(entity, today, overrides.as_slice());
    proof {
        assert(map_of(pairs(params@)) == report_param_map(*entity, *today, pairs(overrides@)));
    }
    if !entity.is_report() {
        return Err(
            Error::Config(
                entity.as_str().to_owned().concat(" is not a report entity; ").concat(
                    caller,
                ).concat(" only handles Reports/*"),
            ),
        );
    }
    match validate_report_params(entity, params.as_slice()) {
        Ok(_) => Ok(params),
        Err(e) => Err(e),
    }
}

/// Query parameters for a report that is to be wrapped as one record.
pub fn fetch_report_query(entity: &EntityType, today: &Date, extra: &ExtraQuery) -> (r: Result<
    Vec<(String, String)>,
    Error,
>)
    ensures
        match r {
            Ok(params) => {
                &&& ascending(pairs(params@))
                &&& map_of(pairs(params@)) == report_param_map(
                    *entity,
                    *today,
                    pairs(extra.extra@),
                )
                &&& report_failure("fetch_report"@, *entity, pairs(params@)) is None
            },
            Err(e) => exists|params: Pairs|
                ascending(params) && #[trigger] map_of(params) == report_param_map(
                    *entity,
                    *today,
                    pairs(extra.extra@),
                ) && report_failure("fetch_report"@, *entity, params) == Some(e@),
        },
{
    report_query("fetch_report", entity, today, &extra.extra)
}

/// Query parameters for a report that is to be kept byte for byte.
pub fn fetch_report_raw_query(entity: &EntityType, today: &Date, extra: &ExtraQuery) -> (r: Result<
    Vec<(String, String)>,
    Error,
>)
    ensures
        match r {
            Ok(params) => {
                &&& ascending(pairs(params@))
                &&& map_of(pairs(params@)) == report_param_map(
                    *entity,
                    *today,
                    pairs(extra.extra@),
                )
                &&& report_failure("fetch_report_raw"@, *entity, pairs(params@)) is None
            },
            Err(e) => exists|params: Pairs|
                ascending(params) && #[trigger] map_of(params) == report_param_map(
                    *entity,
                    *today,
                    pairs(extra.extra@),
                ) && report_failure("fetch_report_raw"@, *entity, params) == Some(e@),
        },
{
    report_query("fetch_report_raw", entity, today, &extra.extra)
}

/// Whether the members are the given texts by name.
pub open spec fn are_text_members(entries: Seq<(String, Json)>, list: Pairs) -> bool {
    &&& entries.len() == list.len()
    &&& forall|i: int|
        0 <= i < list.len() ==> (#[trigger] entries[i]).0@ == list[i].0 && entries[i].1.chars()
            == Some(list[i].1)
}

/// Whether `record` is a report as one record: the parameters it was fetched
/// with, when it was fetched, and the response.
pub open spec fn is_report_record(
    record: Json,
    params: Map<Seq<char>, Seq<char>>,
    run_at: Timestamp,
    raw: Json,
) -> bool {
    &&& record matches Json::Object(entries)
    &&& entries@.len() == 3
    &&& entries@[0].0@ == "Report"@ && entries@[0].1 == raw
    &&& entries@[1].0@ == "_params"@
    &&& entries@[2].0@ == "_run_date"@ && entries@[2].1.chars() == Some(run_at.rfc3339_text())
    &&& entries@[1].1 matches Json::Object(members)
    &&& exists|list: Pairs|
        ascending(list) && #[trigger] map_of(list) == params && are_text_members(members@, list)
}

/// Wrap a report so that the record id made from it is reproducible: the
/// parameters are sorted by name.
pub fn wrap_report_record_at(params: &[(String, String)], run_at: &Timestamp, raw: Json) -> (r:
    Json)
    ensures
        is_report_record(r, assigned(Map::empty(), pairs(params@)), *run_at, raw),
{
    let mut map = SortedMap::new();
    assign_all(&mut map, params);
    let list = map.into_entries();
    let mut members: Vec<(String, Json)> = Vec::new();
    let mut i: usize = 0;
    while i < list.len()
        invariant
            i <= list.len(),
            are_text_members(members@, pairs(list@).take(i as int)),
        decreases list.len() - i,
    {
        members.push((list[i].0.clone(), Json::Text(list[i].1.clone())));
        i += 1;
        proof {
            assert(pairs(list@).take(i as int) =~= pairs(list@).take(i - 1).push(
                pairs(list@)[i - 1],
            ));
        }
    }
    proof {
        assert(pairs(list@).take(i as int) =~= pairs(list@));
    }
    let mut entries: Vec<(String, Json)> = Vec::new();
    entries.push(("Report".to_owned(), raw));
    entries.push(("_params".to_owned(), Json::Object(members)));
    entries.push(("_run_date".to_owned(), Json::Text(run_at.to_rfc3339())));
    proof {
        assert(map_of(pairs(list@)) == assigned(Map::empty(), pairs(params@)));
    }
    Json::Object(entries)
}

/// Wrap a report that was fetched just now.
pub fn wrap_report_record(params: &[(String, String)], raw: Json) -> (r: Json)
    ensures
        exists|run_at: Timestamp|
            run_at.in_calendar() && #[trigger] is_report_record(
                r,
                assigned(Map::empty(), pairs(params@)),
                run_at,
                raw,
            ),
{
    let run_at = Timestamp::now();
    proof {
        use_type_invariant(&run_at);
    }
    wrap_report_record_at(params, &run_at, raw)
}

/// A fetched report as one record.
pub fn report_result(
    params: &[(String, String)],
    run_at: &Timestamp,
    body: &[u8],
) -> (r: Result<FetchResult, Error>)
    ensures
        match r {
            Ok(f) => {
                &&& readable(body@)
                &&& f.outcome.pages_fetched == 1
                &&& f.outcome.termination == TerminationReason::EndedOnEmptyPage
                &&& f.records@.len() == 1
                &&& exists|tree: Json|
                    #[trigger] is_tree_of(tree, body@) && is_report_record(
                        f.records@[0],
                        assigned(Map::empty(), pairs(params@)),
                        *run_at,
                        tree,
                    )
            },
            Err(e) => !readable(body@) && e@ == decode_failure(),
        },
{
    match parse(body) {
        Some(tree) => {
            let ghost t = tree;
            let mut records: Vec<Json> = Vec::new();
            records.push(wrap_report_record_at(params, run_at, tree));
            proof {
                assert(is_tree_of(t, body@));
            }
            Ok(FetchResult { records, outcome: PaginationOutcome::single_page() })
        },
        None => Err(Error::XeroApi("error decoding response body".to_owned())),
    }
}

/// Twelve entities are fetched by page number and the journals by offset; all others
/// come in one reply.
pub proof fn entities_have_page_modes(entity: EntityType)
    ensures
        mode_of(entity) == PageMode::Numbered <==> entity == EntityType::BankTransactions || entity
            == EntityType::Bills || entity == EntityType::Contacts || entity
            == EntityType::CreditNotes || entity == EntityType::Invoices || entity
            == EntityType::LinkedTransactions || entity == EntityType::ManualJournals || entity
            == EntityType::Overpayments || entity == EntityType::Payments || entity
            == EntityType::Prepayments || entity == EntityType::PurchaseOrders || entity
            == EntityType::Quotes,
        mode_of(entity) == PageMode::Offset <==> entity == EntityType::Journals,
{
}

/// A fetch by page number is never over after a page with records, as long as the cap
/// leaves room: it asks for the page after the last, by its number.
#[verifier::rlimit(40)]
pub proof fn paged_fetch_asks_for_next_page(fetch: RawFetch)
    requires
        fetch.consistent(),
        ({
            let entity = fetch.what().entity;
            ||| entity == EntityType::BankTransactions
            ||| entity == EntityType::Bills
            ||| entity == EntityType::Contacts
            ||| entity == EntityType::CreditNotes
            ||| entity == EntityType::Invoices
            ||| entity == EntityType::LinkedTransactions
            ||| entity == EntityType::ManualJournals
            ||| entity == EntityType::Overpayments
            ||| entity == EntityType::Payments
            ||| entity == EntityType::Prepayments
            ||| entity == EntityType::PurchaseOrders
            ||| entity == EntityType::Quotes
        }),
        fetch.got().len() < fetch.place().cap,
        fetch.got().len() > 0 ==> fetch.got().last().record_count > 0,
    ensures
        fetch.place().outcome() is None,
        fetch.place().pick() matches Some(pick) && {
            let number = (fetch.got().len() + 1) as u32;
            let query = pick_pairs(
                fetch.what().entity,
                pairs(fetch.what().base@),
                fetch.what().page_size,
                pick,
            );
            &&& pick_number(pick) == number
            &&& query.contains(("page"@, numeral(number as nat)))
            &&& fetch.what().entity != EntityType::LinkedTransactions && fetch.what().entity
                != EntityType::Quotes ==> query.contains(
                ("pageSize"@, numeral(fetch.what().page_size as nat)),
            )
            &&& pairs(fetch.what().base@).is_prefix_of(query)
        },
{
    let entity = fetch.what().entity;
    let cap = fetch.place().cap;
    let reports = choose|reports: Seq<PageReport>|
        are_reports(reports, fetch.got()) && #[trigger] lead_to(
            mode_of(entity),
            cap,
            reports,
            fetch.place(),
        );
    if reports.len() > 0 {
        assert(reports[reports.len() - 1].0 == fetch.got()[fetch.got().len() - 1].record_count);
    }
    numbered_pages_are_asked_in_turn(cap, reports);
    let number = (fetch.got().len() + 1) as u32;
    let size = fetch.what().page_size;
    let base = pairs(fetch.what().base@);
    pages_are_numbered(entity, number, number, size);
    let picked = page_pairs(entity, number, size);
    let query = base + picked;
    assert(query.subrange(0, base.len() as int) =~= base);
    assert(query[base.len() as int] == picked[0]);
    assert(query.last() == picked.last());
    assert(query[query.len() - 1] == picked.last());
}

/// The records of an endpoint without pages are fetched with one request, which has no
/// page number, and the fetch is then over.
pub proof fn unpaged_fetch_is_one_request(fetch: RawFetch)
    requires
        fetch.consistent(),
        mode_of(fetch.what().entity) == PageMode::Single,
    ensures
        fetch.got().len() <= 1,
        fetch.got().len() == 0 ==> fetch.place().pick() == Some(Pick::Whole),
        fetch.got().len() == 1 ==> fetch.place().outcome() == Some(
            PaginationOutcome {
                pages_fetched: 1,
                termination: TerminationReason::EndedOnEmptyPage,
            },
        ),
        pick_pairs(
            fetch.what().entity,
            pairs(fetch.what().base@),
            fetch.what().page_size,
            Pick::Whole,
        ) == pairs(fetch.what().base@),
{
    let mode = mode_of(fetch.what().entity);
    let cap = fetch.place().cap;
    let reports = choose|reports: Seq<PageReport>|
        are_reports(reports, fetch.got()) && #[trigger] lead_to(mode, cap, reports, fetch.place());
    walk_ends(mode, cap, reports);
    if reports.len() == 1 {
        assert(reports.drop_last() =~= Seq::<PageReport>::empty());
        single_walk_is_one_request(cap, reports.last().0, reports.last().1);
        assert(walk(mode, cap, reports.drop_last()) == CursorView::start(mode, cap));
    }
}

/// A request by offset carries the offset alone, and requests for different offsets
/// differ.
pub proof fn offset_requests_carry_the_offset(
    entity: EntityType,
    base: Pairs,
    page_size: u32,
    a: i64,
    b: i64,
    n: u32,
)
    ensures
        pick_pairs(entity, base, page_size, Pick::Offset(a, n)) == seq![
            ("offset"@, signed_numeral(a as int)),
        ],
        pick_pairs(entity, base, page_size, Pick::Offset(a, n)) == pick_pairs(
            entity,
            base,
            page_size,
            Pick::Offset(b, n),
        ) ==> a == b,
{
    let p = pick_pairs(entity, base, page_size, Pick::Offset(a, n));
    let q = pick_pairs(entity, base, page_size, Pick::Offset(b, n));
    if p == q {
        assert(p[0].1 == q[0].1);
        signed_numerals_differ(a as int, b as int);
    }
}

/// Only the lists of budgets and contact groups are expanded, and only on request. A
/// record for which there are no details, or for which asking failed, stays as it was
/// listed.
pub proof fn details_replace_records(
    entity: EntityType,
    expand_lines: bool,
    record: Json,
    detail: Json,
    error: Error,
)
    ensures
        expands(entity, expand_lines) <==> expand_lines && (entity == EntityType::Budgets || entity
            == EntityType::ContactGroups),
        detailed(record, Ok(Some(detail))) == detail,
        detailed(record, Ok(None)) == record,
        detailed(record, Err(error)) == record,
{
}

/// A report can be asked for if and only if the entity is a report and, where it is
/// served per contact, a contact is named.
pub proof fn reports_are_refused_for_a_reason(
    caller: Seq<char>,
    entity: EntityType,
    params: Pairs,
)
    ensures
        report_failure(caller, entity, params) is None <==> {
            &&& EntityType::all_reports_list().contains(entity)
            &&& entity == EntityType::ReportAgedReceivablesByContact || entity
                == EntityType::ReportAgedPayablesByContact ==> names_contact(params)
        },
{
    reports_are_recognised(entity);
}

/// A report as one record holds the response, when it was fetched, and the parameters it was
/// fetched with, each once and in the order of their names; those are the parameters that
/// its id is made of.
pub proof fn report_records_hold_their_parameters(
    record: Json,
    params: Map<Seq<char>, Seq<char>>,
    run_at: Timestamp,
    raw: Json,
)
    requires
        is_report_record(record, params, run_at, raw),
    ensures
        record.field("Report"@) == Some(raw),
        text_in(record, "_run_date"@) == Some(run_at.rfc3339_text()),
        report_params_of(record) matches Some(list) && ascending(list) && map_of(list) == params,
{
    reveal_strlit("Report");
    reveal_strlit("_params");
    reveal_strlit("_run_date");
    assert("Report"@.len() == 6 && "_params"@.len() == 7 && "_run_date"@.len() == 9);
    if let Json::Object(entries) = record {
        first_member(entries@, 0);
        first_member(entries@, 1);
        first_member(entries@, 2);
        if let Json::Object(members) = entries@[1].1 {
            let list = choose|list: Pairs|
                ascending(list) && #[trigger] map_of(list) == params && are_text_members(
                    members@,
                    list,
                );
            text_members_are_read(members@, list);
        }
    }
}

proof fn text_members_are_read(entries: Seq<(String, Json)>, list: Pairs)
    requires
        are_text_members(entries, list),
    ensures
        text_members(entries) == Some(list),
    decreases entries.len(),
{
    if entries.len() == 0 {
        assert(list =~= Seq::empty());
    } else {
        let front = entries.drop_last();
        let rest = list.drop_last();
        assert forall|i: int| 0 <= i < rest.len() implies (#[trigger] front[i]).0@ == rest[i].0
            && front[i].1.chars() == Some(rest[i].1) by {
            assert(front[i] == entries[i]);
        }
        text_members_are_read(front, rest);
        assert(entries[entries.len() - 1] == entries.last());
        assert(rest.push(list.last()) =~= list);
    }
}

/// A record is asked for alone by the text in its identifier field, and not at all where it
/// has none.
pub proof fn details_are_asked_for_by_id(entity: EntityType, record: Json)
    ensures
        detail_key(entity, record) == text_in(record, entity.id_field_name()),
{
}

/// A report is asked for with its defaults, of the day of the run, but for the parameters that
/// the caller gives; of those the last for a name counts.
#[verifier::rlimit(40)]
pub proof fn reports_are_asked_for_with_defaults(
    entity: EntityType,
    today: Date,
    overrides: Pairs,
    name: Seq<char>,
    i: int,
)
    ensures
        !has_name(overrides, name) && (entity == EntityType::ReportProfitAndLoss || entity
            == EntityType::ReportBankSummary) && (name == "fromDate"@ || name == "toDate"@)
            ==> report_param_map(entity, today, overrides).contains_key(name) && report_param_map(
            entity,
            today,
            overrides,
        )[name] == today.text(),
        !has_name(overrides, name) && entity.spec_is_report() && entity
            != EntityType::ReportProfitAndLoss && entity != EntityType::ReportBankSummary && name
            == "date"@ ==> report_param_map(entity, today, overrides).contains_key(name)
            && report_param_map(entity, today, overrides)[name] == today.text(),
        0 <= i < overrides.len() && overrides[i].0 == name && (forall|j: int|
            i < j < overrides.len() ==> (#[trigger] overrides[j]).0 != name) ==> report_param_map(
            entity,
            today,
            overrides,
        ).contains_key(name) && report_param_map(entity, today, overrides)[name] == overrides[i].1,
{
    reveal_strlit("date");
    reveal_strlit("fromDate");
    reveal_strlit("toDate");
    reveal_strlit("periods");
    reveal_strlit("timeframe");
    assert("date"@.len() == 4 && "fromDate"@.len() == 8 && "toDate"@.len() == 6);
    assert("periods"@.len() == 7 && "timeframe"@.len() == 9);
    let none = Map::<Seq<char>, Seq<char>>::empty();
    let defaults = report_defaults(entity, today);
    let own = assigned(none, defaults);
    overrides_win(own, overrides, name);
    overrides_win(none, defaults, name);
    if entity == EntityType::ReportProfitAndLoss || entity == EntityType::ReportBankSummary {
        if name == "fromDate"@ {
            assert(defaults[0].0 == name);
        } else if name == "toDate"@ {
            assert(defaults[1].0 == name);
        }
    } else if entity.spec_is_report() && name == "date"@ {
        assert(defaults[0].0 == name);
    }
}

/// A fetch of business dates asks by the window's restriction alone; only journals, which
/// have none, are asked for by what was modified since the window's first midnight.
pub proof fn dated_fetches_ask_by_window(
    p: FetchPlan,
    entity: EntityType,
    window: DateWindow,
    page_size: u32,
)
    requires
        is_date_plan(p, entity, window, page_size),
    ensures
        p.entity == entity && p.page_size == page_size,
        entity == EntityType::Journals ==> p.base@.len() == 0 && (p.modified_after matches Some(t)
            && t.day() == window.start.number() && t.unix() % 86400 == 0 && t.subsec() == 0),
        entity != EntityType::Journals ==> p.modified_after is None,
        entity.spec_is_date_windowable() && entity != EntityType::PurchaseOrders && entity
            != EntityType::Quotes ==> pairs(p.base@) == seq![
            ("where"@, window_filter("Date"@, window)),
        ],
        entity == EntityType::PurchaseOrders || entity == EntityType::Quotes ==> pairs(p.base@).len()
            == 2 && pairs(p.base@)[0] == ("DateFrom"@, window.start.text()),
{
    date_filters_are_for_windowed_entities(entity);
    restrictions_follow_date_filters(entity, window);
    if entity == EntityType::Journals {
        assert(pairs(p.base@).len() == 0);
        let d = window.start.number() - UNIX_EPOCH_DAY;
        assert((d * 86400) / 86400 == d);
    }
}

/// A page holds a hundred records unless the caller asks for another size.
pub proof fn pages_hold_a_hundred(extra: ExtraQuery)
    ensures
        extra.page_size matches Some(n) ==> page_size_of(extra) == n,
        extra.page_size is None ==> page_size_of(extra) == 100,
{
}

/// Where a fetch must be complete, it fails if and only if it went by page number and the cap
/// ended it: one that saw an empty page is never refused.
pub proof fn complete_fetches_are_not_refused(entity: EntityType, termination: TerminationReason)
    ensures
        termination == TerminationReason::EndedOnEmptyPage ==> !cut_short(entity, termination),
        termination == TerminationReason::OffsetNotAdvancing ==> !cut_short(entity, termination),
        termination == TerminationReason::HitMaxPagesCap ==> (cut_short(entity, termination)
            <==> mode_of(entity) == PageMode::Numbered),
{
}

} // verus!
