//! Sync modes, and the fetch parameters that each stands for.
//!
//! Nothing here reads a clock: the caller supplies the current instant.

use vstd::prelude::*;

use crate::calendar::{
    first_day, is_instant, number_in_range, numbers_in_range, seconds_in_range, seconds_later,
    Date, Timestamp,
};
use crate::meta::SyncType;
use crate::query::{
    date_filter, date_filters_are_for_windowed_entities, date_numerals_are_plain,
    date_numerals_differ, literal_parts_can_be_told, parts_before, ExtraQuery,
};
use crate::text::{
    decimal, is_digit, numeral, numeral_denotes, signed_decimal, signed_numeral, text_of,
};
use crate::types::EntityType;

verus! {

/// The sync layer of a run. Each variant describes the window and filter of the
/// run in full; no watermark is kept between runs.
#[derive(Debug, PartialEq, Eq)]
pub enum SyncMode {
    /// Records modified within the last days.
    Incremental,
    /// A filter, no modified window.
    OpenSweep { where_clause: String },
    /// Business dates of the last `days` days.
    RollingFull { days: i64 },
    /// No filter at all.
    Master,
    /// An explicit range of business dates.
    Backfill { from: Date, to: Date },
    /// Reports as of a day.
    Reports { as_of: Date },
}

impl SyncMode {
    /// The kind of objects that the mode produces.
    pub open spec fn kind(self) -> SyncType {
        match self {
            SyncMode::Incremental => SyncType::Incremental,
            SyncMode::OpenSweep { .. } => SyncType::OpenSweep,
            SyncMode::RollingFull { .. } => SyncType::RollingFull,
            SyncMode::Master => SyncType::Master,
            SyncMode::Backfill { .. } => SyncType::Backfill,
            SyncMode::Reports { .. } => SyncType::ReportSnapshot,
        }
    }

    /// The `x-sync-type` tag of the mode's objects.
    pub fn sync_type(&self) -> (r: SyncType)
        ensures
            r == self.kind(),
    {
        match self {
            SyncMode::Incremental => SyncType::Incremental,
            SyncMode::OpenSweep { .. } => SyncType::OpenSweep,
            SyncMode::RollingFull { .. } => SyncType::RollingFull,
            SyncMode::Master => SyncType::Master,
            SyncMode::Backfill { .. } => SyncType::Backfill,
            SyncMode::Reports { .. } => SyncType::ReportSnapshot,
        }
    }

    /// The mode's label in a manifest.
    pub fn label(&self) -> (r: &'static str)
        ensures
            r@ == self.kind().name(),
    {
        self.sync_type().as_str()
    }

    /// Days of the mode's window, as a manifest records them.
    pub open spec fn days(self) -> Option<int> {
        match self {
            SyncMode::RollingFull { days } => Some(days as int),
            SyncMode::Backfill { from, to } => Some(to.number() - from.number()),
            _ => None,
        }
    }

    /// Days of the mode's window, where it has one.
    pub fn window_days(&self) -> (r: Option<i64>)
        ensures
            match r {
                Some(n) => self.days() == Some(n as int),
                None => self.days() is None,
            },
    {
        match self {
            SyncMode::RollingFull { days } => Some(*days),
            SyncMode::Backfill { from, to } => Some(to.days_since(from)),
            _ => None,
        }
    }
}

/// The fetch parameters of one entity, and the window as its metadata shows it.
#[derive(Debug)]
pub struct FetchParams {
    /// Start of the modified window.
    pub modified_after: Option<Timestamp>,
    /// Filters.
    pub extras: ExtraQuery,
    /// `x-modified-after`.
    pub modified_after_str: Option<String>,
    /// `x-business-from`.
    pub business_from: Option<String>,
    /// `x-business-to`.
    pub business_to: Option<String>,
    /// `x-where`.
    pub where_filter: Option<String>,
}

impl FetchParams {
    /// No window and no filter.
    pub fn unfiltered() -> (r: FetchParams)
        ensures
            r.modified_after is None && r.modified_after_str is None,
            r.business_from is None && r.business_to is None && r.where_filter is None,
            only_filter(r.extras, None),
    {
        FetchParams {
            modified_after: None,
            extras: ExtraQuery::new(),
            modified_after_str: None,
            business_from: None,
            business_to: None,
            where_filter: None,
        }
    }
}

/// Whether the only knob set is the given filter.
pub open spec fn only_filter(extras: ExtraQuery, clause: Option<Seq<char>>) -> bool {
    &&& text_of(extras.where_clause) == clause
    &&& extras.page_size is None && extras.order is None && extras.ids is None
    &&& extras.statuses is None && extras.extra@.len() == 0
    &&& !extras.include_archived && !extras.summary_only && !extras.expand_lines
}

/// The compact UTC timestamp of an instant, e.g. `20260617T030001Z`.
pub fn compact_ts(now: Timestamp) -> (r: String)
    ensures
        r@ == now.compact_text(),
{
    now.to_compact_text()
}

/// Whether the calendar goes back from an instant by so many days.
pub open spec fn goes_back(now: Timestamp, window_days: int) -> bool {
    is_instant(
        seconds_later(now, -window_days * 86400).0,
        seconds_later(now, -window_days * 86400).1,
    )
}

/// The start of an incremental window: so many days before an instant.
pub fn incremental_modified_after(now: Timestamp, window_days: i64) -> (r: Timestamp)
    requires
        goes_back(now, window_days as int),
    ensures
        (r.unix(), r.subsec()) == seconds_later(now, -window_days * 86400),
{
    proof {
        use_type_invariant(&now);
        seconds_in_range(now);
        days_fit(now, window_days as int);
    }
    let r = now.plus_seconds(-window_days * 86400);
    r.unwrap()
}

proof fn days_fit(now: Timestamp, window_days: int)
    requires
        now.in_calendar(),
        goes_back(now, window_days),
    ensures
        -1_000_000_000 < window_days < 1_000_000_000,
{
    seconds_in_range(now);
    numbers_in_range();
}

/// The first day of a window of `days` days that ends on `run_date`; fewer than
/// one day count as one.
pub open spec fn window_start(run_date: Date, days: int) -> int {
    run_date.number() - (if days > 1 {
        days - 1
    } else {
        0
    })
}

/// The window of `days` business dates that ends on `run_date`, both ends
/// included.
pub fn rolling_window(run_date: Date, days: i64) -> (r: (Date, Date))
    requires
        first_day() <= window_start(run_date, days as int),
    ensures
        r.0.number() == window_start(run_date, days as int),
        r.1 == run_date,
{
    let span: i64 = if days > 1 {
        days - 1
    } else {
        0
    };
    proof {
        use_type_invariant(&run_date);
        number_in_range(run_date);
        numbers_in_range();
    }
    let from = run_date.plus_days(-(span as i32));
    (from.unwrap(), run_date)
}

/// A date in a filter, as `DateTime(year,month,day)`.
pub open spec fn filter_date(date: Date) -> Seq<char> {
    "DateTime("@ + signed_numeral(date.y()) + ","@ + numeral(date.m() as nat) + ","@ + numeral(
        date.d() as nat,
    ) + ")"@
}

/// The filter for business dates from one day to another, both included.
pub open spec fn date_range_filter(from: Date, to: Date) -> Seq<char> {
    "Date >= "@ + filter_date(from) + " && Date <= "@ + filter_date(to)
}

fn date_in_filter(date: &Date) -> (r: String)
    ensures
        r@ == filter_date(*date),
{
    proof {
        use_type_invariant(date);
    }
    "DateTime(".to_owned().concat(signed_decimal(date.year() as i64).as_str()).concat(",").concat(
        decimal(date.month() as u64).as_str(),
    ).concat(",").concat(decimal(date.day() as u64).as_str()).concat(")")
}

/// The filter for business dates from one day to another, both included.
pub fn business_date_where(from: Date, to: Date) -> (r: String)
    ensures
        r@ == date_range_filter(from, to),
{
    "Date >= ".to_owned().concat(date_in_filter(&from).as_str()).concat(" && Date <= ").concat(
        date_in_filter(&to).as_str(),
    )
}

/// Whether the calendar goes back as far as the mode's window.
pub open spec fn reaches_back(
    mode: SyncMode,
    now: Timestamp,
    run_date: Date,
    window_days: int,
) -> bool {
    match mode {
        SyncMode::Incremental => goes_back(now, window_days),
        SyncMode::RollingFull { days } => first_day() <= window_start(run_date, days as int),
        _ => true,
    }
}

/// Whether the calendar goes back as far as the mode's window.
pub fn window_is_in_calendar(
    mode: &SyncMode,
    now: Timestamp,
    run_date: Date,
    window_days: i64,
) -> (r: bool)
    ensures
        r == reaches_back(*mode, now, run_date, window_days as int),
{
    match mode {
        SyncMode::Incremental => {
            proof {
                use_type_invariant(&now);
                seconds_in_range(now);
                if goes_back(now, window_days as int) {
                    days_fit(now, window_days as int);
                }
            }
            if window_days <= -1_000_000_000 || window_days >= 1_000_000_000 {
                return false;
            }
            now.plus_seconds(-window_days * 86400).is_some()
        },
        SyncMode::RollingFull { days } => {
            proof {
                use_type_invariant(&run_date);
                number_in_range(run_date);
                numbers_in_range();
            }
            if *days <= 1 {
                true
            } else if *days > 1_000_000_000 {
                false
            } else {
                run_date.plus_days(-((*days - 1) as i32)).is_some()
            }
        },
        _ => true,
    }
}

/// Whether the parameters are those of a window of business dates.
pub open spec fn is_business_window(p: FetchParams, from: Date, to: Date) -> bool {
    &&& p.modified_after is None && p.modified_after_str is None && p.where_filter is None
    &&& text_of(p.business_from) == Some(from.text())
    &&& text_of(p.business_to) == Some(to.text())
    &&& only_filter(p.extras, Some(date_range_filter(from, to)))
}

/// Whether the parameters are those of a mode.
pub open spec fn is_params_for(
    p: FetchParams,
    mode: SyncMode,
    now: Timestamp,
    run_date: Date,
    window_days: int,
) -> bool {
    match mode {
        SyncMode::Incremental => {
            &&& p.modified_after matches Some(t)
            &&& (t.unix(), t.subsec()) == seconds_later(now, -window_days * 86400)
            &&& text_of(p.modified_after_str) == Some(t.rfc3339_text())
            &&& p.business_from is None && p.business_to is None && p.where_filter is None
            &&& only_filter(p.extras, None)
        },
        SyncMode::OpenSweep { where_clause } => {
            &&& p.modified_after is None && p.modified_after_str is None
            &&& p.business_from is None && p.business_to is None
            &&& text_of(p.where_filter) == Some(where_clause@)
            &&& only_filter(p.extras, Some(where_clause@))
        },
        SyncMode::RollingFull { days } => exists|from: Date|
            from.in_calendar() && #[trigger] from.number() == window_start(run_date, days as int)
                && is_business_window(p, from, run_date),
        SyncMode::Backfill { from, to } => is_business_window(p, from, to),
        SyncMode::Master | SyncMode::Reports { .. } => {
            &&& p.modified_after is None && p.modified_after_str is None
            &&& p.business_from is None && p.business_to is None && p.where_filter is None
            &&& only_filter(p.extras, None)
        },
    }
}

/// The fetch parameters of a mode for an entity that is no report.
pub fn fetch_params(
    mode: &SyncMode,
    now: Timestamp,
    run_date: Date,
    window_days: i64,
) -> (r: FetchParams)
    requires
        reaches_back(*mode, now, run_date, window_days as int),
    ensures
        is_params_for(r, *mode, now, run_date, window_days as int),
{
    let mut p = FetchParams::unfiltered();
    match mode {
        SyncMode::Incremental => {
            let after = incremental_modified_after(now, window_days);
            p.modified_after = Some(after);
            p.modified_after_str = Some(after.to_rfc3339());
        },
        SyncMode::OpenSweep { where_clause } => {
            p.extras.where_clause = Some(where_clause.clone());
            p.where_filter = Some(where_clause.clone());
        },
        SyncMode::RollingFull { days } => {
            let (from, to) = rolling_window(run_date, *days);
            p = params_for_business_window(from, to);
            proof {
                use_type_invariant(&from);
                assert(from.number() == window_start(run_date, *days as int));
            }
        },
        SyncMode::Backfill { from, to } => {
            p = params_for_business_window(*from, *to);
        },
        SyncMode::Master | SyncMode::Reports { .. } => {},
    }
    p
}

/// Whether a mode restricts an entity to business dates that the entity cannot be
/// restricted to. Such an entity is pulled in full.
pub open spec fn pulled_in_full(mode: SyncMode, entity: EntityType) -> bool {
    (mode is RollingFull || mode is Backfill) && !entity.spec_is_date_windowable()
}

/// Whether a mode pulls an entity in full for want of business dates.
pub fn is_pulled_in_full(mode: &SyncMode, entity: &EntityType) -> (r: bool)
    ensures
        r == pulled_in_full(*mode, *entity),
{
    let windowed = match mode {
        SyncMode::RollingFull { .. } | SyncMode::Backfill { .. } => true,
        _ => false,
    };
    windowed && !entity.is_date_windowable()
}

/// Whether the parameters are those of a mode for an entity: the mode's own, but
/// without a filter where the entity has no business dates to filter by.
pub open spec fn is_entity_params(
    p: FetchParams,
    mode: SyncMode,
    entity: EntityType,
    now: Timestamp,
    run_date: Date,
    window_days: int,
) -> bool {
    is_params_for(
        p,
        if pulled_in_full(mode, entity) {
            SyncMode::Master
        } else {
            mode
        },
        now,
        run_date,
        window_days,
    )
}

/// The fetch parameters of a mode for one entity that is no report: those of the
/// mode, but without a filter where the entity has no business dates to filter by.
pub fn entity_params(
    mode: &SyncMode,
    entity: &EntityType,
    now: Timestamp,
    run_date: Date,
    window_days: i64,
) -> (r: FetchParams)
    requires
        pulled_in_full(*mode, *entity) || reaches_back(*mode, now, run_date, window_days as int),
    ensures
        is_entity_params(r, *mode, *entity, now, run_date, window_days as int),
{
    if is_pulled_in_full(mode, entity) {
        FetchParams::unfiltered()
    } else {
        fetch_params(mode, now, run_date, window_days)
    }
}

fn params_for_business_window(from: Date, to: Date) -> (r: FetchParams)
    ensures
        is_business_window(r, from, to),
{
    let mut p = FetchParams::unfiltered();
    p.extras.where_clause = Some(business_date_where(from, to));
    p.business_from = Some(from.to_text());
    p.business_to = Some(to.to_text());
    p
}

/// A rolling window holds the run date and as many days as asked for.
pub proof fn rolling_window_holds_days(run_date: Date, days: int)
    requires
        days >= 1,
    ensures
        run_date.number() - window_start(run_date, days) + 1 == days,
        window_start(run_date, days) <= run_date.number(),
{
}

/// Whether nothing narrows the records that parameters ask for, and their metadata
/// shows no window.
pub open spec fn asks_for_all(p: FetchParams) -> bool {
    &&& p.modified_after is None && p.modified_after_str is None
    &&& p.business_from is None && p.business_to is None && p.where_filter is None
    &&& p.extras.where_clause is None && p.extras.page_size is None && p.extras.order is None
    &&& p.extras.ids is None && p.extras.statuses is None && p.extras.extra@.len() == 0
}

/// A backfill asks, of every entity that a request can restrict to business dates, for
/// its own range, both ends included, and its objects show that range.
pub proof fn backfills_ask_for_their_range(
    p: FetchParams,
    from: Date,
    to: Date,
    entity: EntityType,
    now: Timestamp,
    run_date: Date,
    window_days: int,
)
    requires
        is_entity_params(p, SyncMode::Backfill { from, to }, entity, now, run_date, window_days),
    ensures
        (date_filter(entity) matches Some(f) && !(f is LocalOnly)) ==> {
            &&& text_of(p.extras.where_clause) == Some(date_range_filter(from, to))
            &&& text_of(p.business_from) == Some(from.text())
            &&& text_of(p.business_to) == Some(to.text())
            &&& p.modified_after is None
        },
        date_filter(entity) is None || date_filter(entity)->0 is LocalOnly ==> asks_for_all(p),
{
    date_filters_are_for_windowed_entities(entity);
}

/// A rolling full run asks, of every entity that a request can restrict to business
/// dates, for as many days as it is told, at least one, the last being the day of the
/// run.
pub proof fn rolling_runs_ask_for_their_days(
    p: FetchParams,
    days: i64,
    entity: EntityType,
    now: Timestamp,
    run_date: Date,
    window_days: int,
)
    requires
        is_entity_params(p, SyncMode::RollingFull { days }, entity, now, run_date, window_days),
    ensures
        (date_filter(entity) matches Some(f) && !(f is LocalOnly)) ==> exists|from: Date|
            {
                &&& #[trigger] from.in_calendar()
                &&& from.number() <= run_date.number()
                &&& run_date.number() - from.number() + 1 == (if days < 1 {
                    1
                } else {
                    days as int
                })
                &&& text_of(p.extras.where_clause) == Some(date_range_filter(from, run_date))
                &&& text_of(p.business_from) == Some(from.text())
                &&& text_of(p.business_to) == Some(run_date.text())
            },
        date_filter(entity) is None || date_filter(entity)->0 is LocalOnly ==> asks_for_all(p),
{
    date_filters_are_for_windowed_entities(entity);
    if entity.spec_is_date_windowable() {
        let from = choose|from: Date|
            from.in_calendar() && #[trigger] from.number() == window_start(run_date, days as int)
                && is_business_window(p, from, run_date);
        assert(from.in_calendar());
    }
}

/// An incremental run asks, of every entity, for what was modified since so many days
/// before the instant of the run, and for nothing narrower; its objects show that
/// instant.
pub proof fn incremental_runs_ask_for_changes(
    p: FetchParams,
    entity: EntityType,
    now: Timestamp,
    run_date: Date,
    window_days: int,
)
    requires
        is_entity_params(p, SyncMode::Incremental, entity, now, run_date, window_days),
        now.subsec() < 1_000_000_000,
    ensures
        p.modified_after matches Some(t) && {
            &&& t.unix() + window_days * 86400 == now.unix()
            &&& t.subsec() == now.subsec()
            &&& text_of(p.modified_after_str) == Some(t.rfc3339_text())
        },
        p.extras.where_clause is None && p.business_from is None && p.business_to is None
            && p.where_filter is None,
{
}

/// A sweep for open records asks, of every entity, by its filter alone, and its objects
/// show the filter. A run over master data or reports narrows nothing.
pub proof fn sweeps_ask_by_their_filter(
    p: FetchParams,
    mode: SyncMode,
    entity: EntityType,
    now: Timestamp,
    run_date: Date,
    window_days: int,
)
    requires
        is_entity_params(p, mode, entity, now, run_date, window_days),
    ensures
        mode matches SyncMode::OpenSweep { where_clause } ==> {
            &&& text_of(p.extras.where_clause) == Some(where_clause@)
            &&& text_of(p.where_filter) == Some(where_clause@)
            &&& p.modified_after is None && p.business_from is None && p.business_to is None
        },
        mode is Master || mode is Reports ==> asks_for_all(p),
{
}

/// Each mode marks its objects with a type of its own, and a manifest shows the days of
/// the modes that have a window of business dates.
pub proof fn modes_have_their_types(mode: SyncMode, other: SyncMode)
    ensures
        mode is Incremental <==> mode.kind() == SyncType::Incremental,
        mode is OpenSweep <==> mode.kind() == SyncType::OpenSweep,
        mode is RollingFull <==> mode.kind() == SyncType::RollingFull,
        mode is Master <==> mode.kind() == SyncType::Master,
        mode is Backfill <==> mode.kind() == SyncType::Backfill,
        mode is Reports <==> mode.kind() == SyncType::ReportSnapshot,
        mode.days() is Some <==> mode is RollingFull || mode is Backfill,
        mode matches SyncMode::RollingFull { days } ==> mode.days() == Some(days as int),
        mode matches SyncMode::Backfill { from, to } ==> (mode.days() matches Some(n) && from.number()
            + n == to.number()),
{
}

/// A date's form in a filter determines the date.
pub proof fn filter_dates_tell_dates_apart(a: Date, b: Date)
    requires
        a.in_calendar(),
        b.in_calendar(),
        filter_date(a) == filter_date(b),
    ensures
        a == b,
{
    reveal_strlit(",");
    let x = (signed_numeral(a.y()), numeral(a.m() as nat), numeral(a.d() as nat));
    let y = (signed_numeral(b.y()), numeral(b.m() as nat), numeral(b.d() as nat));
    date_numerals_are_plain(a);
    date_numerals_are_plain(b);
    assert(","@[0] == ',');
    literal_parts_can_be_told("DateTime("@, ","@, ")"@, x, y);
    date_numerals_differ(a, b);
}

#[verifier::rlimit(40)]
proof fn filter_date_is_plain(date: Date)
    requires
        date.in_calendar(),
    ensures
        forall|i: int| 0 <= i < filter_date(date).len() ==> #[trigger] filter_date(date)[i] != ' ',
{
    reveal_strlit("DateTime(");
    reveal_strlit(",");
    reveal_strlit(")");
    reveal_strlit("-");
    let y = signed_numeral(date.y());
    let m = numeral(date.m() as nat);
    let d = numeral(date.d() as nat);
    let h = "DateTime("@;
    let s = filter_date(date);
    numeral_denotes(date.m() as nat);
    numeral_denotes(date.d() as nat);
    let abs: nat = if date.y() < 0 {
        (-date.y()) as nat
    } else {
        date.y() as nat
    };
    numeral_denotes(abs);
    assert forall|i: int| 0 <= i < s.len() implies #[trigger] s[i] != ' ' by {
        if i < 9 {
            assert(s[i] == h[i]);
        } else if i < 9 + y.len() {
            assert(s[i] == y[i - 9]);
            if date.y() < 0 {
                if i > 9 {
                    assert(y[i - 9] == numeral(abs)[i - 10]);
                    assert(is_digit(numeral(abs)[i - 10]));
                }
            } else {
                assert(is_digit(numeral(abs)[i - 9]));
            }
        } else if i == 9 + y.len() {
        } else if i < 10 + y.len() + m.len() {
            assert(s[i] == m[i - 10 - y.len()]);
            assert(is_digit(m[i - 10 - y.len()]));
        } else if i == 10 + y.len() + m.len() {
        } else if i < 11 + y.len() + m.len() + d.len() {
            assert(s[i] == d[i - 11 - y.len() - m.len()]);
            assert(is_digit(d[i - 11 - y.len() - m.len()]));
        }
    }
}

/// The filter of a range takes in its first day and its last, and no two ranges have the
/// same filter.
#[verifier::rlimit(40)]
pub proof fn range_filters_take_in_both_ends(from: Date, to: Date, other_from: Date, other_to: Date)
    requires
        from.in_calendar() && to.in_calendar(),
        other_from.in_calendar() && other_to.in_calendar(),
    ensures
        ("Date >= "@ + filter_date(from)).is_prefix_of(date_range_filter(from, to)),
        ("Date <= "@ + filter_date(to)).is_suffix_of(date_range_filter(from, to)),
        date_range_filter(from, to) == date_range_filter(other_from, other_to) ==> from == other_from
            && to == other_to,
{
    reveal_strlit("Date >= ");
    reveal_strlit("Date <= ");
    reveal_strlit(" && Date <= ");
    let a = filter_date(from);
    let b = filter_date(to);
    let c = filter_date(other_from);
    let d = filter_date(other_to);
    let f = date_range_filter(from, to);
    let g = date_range_filter(other_from, other_to);
    let h = "Date >= "@;
    let sep = " && Date <= "@;
    assert(f.subrange(0, (h + a).len() as int) =~= h + a);
    assert(f.subrange(f.len() - ("Date <= "@ + b).len(), f.len() as int) =~= "Date <= "@ + b);
    if f == g {
        assert(f.skip(h.len() as int) =~= a + sep + b);
        assert(g.skip(h.len() as int) =~= c + sep + d);
        filter_date_is_plain(from);
        filter_date_is_plain(other_from);
        parts_before(sep, a, b, c, d);
        filter_dates_tell_dates_apart(from, other_from);
        filter_dates_tell_dates_apart(to, other_to);
    }
}

/// The calendar that goes back by so many days goes back by fewer, and by none from every
/// instant; only the modes with a window of their own need it to go back.
pub proof fn shorter_windows_fit_too(
    now: Timestamp,
    run_date: Date,
    days: int,
    fewer: int,
    mode: SyncMode,
)
    requires
        now.in_calendar(),
        run_date.in_calendar(),
        now.subsec() < 1_000_000_000,
        0 <= fewer <= days,
    ensures
        goes_back(now, days) ==> goes_back(now, fewer),
        goes_back(now, 0),
        !(mode is Incremental) && !(mode is RollingFull) ==> reaches_back(mode, now, run_date, days),
        reaches_back(SyncMode::Incremental, now, run_date, days) <==> goes_back(now, days),
        forall|n: i64|
            n <= 1 ==> #[trigger] reaches_back(
                SyncMode::RollingFull { days: n },
                now,
                run_date,
                days,
            ),
{
    number_in_range(run_date);
}

} // verus!
