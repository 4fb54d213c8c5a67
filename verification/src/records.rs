//! What the service reads out of Xero's records: how many there are, journal
//! numbers, modification times and business dates.

use vstd::prelude::*;

use crate::calendar::{
    is_instant, local_second_day, numbered, parse_local_second, parse_rfc3339, parse_ymd, parts,
    rfc3339_instant, ymd_day, Date, Timestamp, UNIX_EPOCH_DAY,
};
use crate::json::{is_tree_of, member, parse, readable, Json};
use crate::query::{
    business_date_query_mode, date_filter, date_filters_are_for_windowed_entities,
    BusinessDateQueryMode, DateFilter, DateWindow,
};
use crate::text::{
    chars_of, is_digit, numeral, numeral_denotes, parse_signed, signed_numeral,
    signed_numerals_read_back, signed_value, trim, trimmed,
};
use crate::tokens::{alike, alike_parts, member_names, parts_of};
use crate::types::EntityType;

verus! {

/// The records of an entity in a response: the array under the entity's path.
pub open spec fn entity_records(body: Json, entity: EntityType) -> Option<Seq<Json>> {
    match body.field(entity.path()) {
        Some(v) => v.items(),
        None => None,
    }
}

/// Number of records of an entity in a response.
pub fn record_count(entity: &EntityType, body: &Json) -> (r: usize)
    ensures
        r == (match entity_records(*body, *entity) {
            Some(records) => records.len(),
            None => 0,
        }),
{
    match body.get(entity.xero_path()) {
        Some(v) => match v.as_array() {
            Some(items) => items.len(),
            None => 0,
        },
        None => 0,
    }
}

/// Whether `r` is the number of records of an entity in the body of a response.
/// A body that cannot be read has none.
pub open spec fn is_body_count(entity: EntityType, body: Seq<u8>, r: nat) -> bool {
    if readable(body) {
        exists|tree: Json|
            #[trigger] is_tree_of(tree, body) && r == (match entity_records(
                tree,
                entity,
            ) {
                Some(records) => records.len(),
                None => 0,
            })
    } else {
        r == 0
    }
}

/// Number of records of an entity in the body of a response. A body that is no
/// JSON document, or that lacks the entity's array, counts as zero records.
pub fn record_count_from_bytes(entity: &EntityType, body: &[u8]) -> (r: usize)
    ensures
        is_body_count(*entity, body@, r as nat),
{
    match parse(body) {
        Some(tree) => {
            let n: usize = record_count(entity, &tree);
            assert(is_tree_of(tree, body@));
            n
        },
        None => 0,
    }
}

/// Take the records of an entity out of a response, none where the response
/// lacks the entity's array.
pub fn take_records(entity: &EntityType, body: Json) -> (r: Vec<Json>)
    ensures
        r@ == (match entity_records(body, *entity) {
            Some(records) => records,
            None => Seq::<Json>::empty(),
        }),
{
    match body.take(entity.xero_path()) {
        Some(Json::Array(items)) => items,
        _ => Vec::new(),
    }
}

/// Take the first record of an entity out of a response.
pub fn take_first_record(entity: &EntityType, body: Json) -> (r: Option<Json>)
    ensures
        r == (match entity_records(body, *entity) {
            Some(records) => if records.len() > 0 {
                Some(records[0])
            } else {
                None
            },
            None => None,
        }),
{
    match body.take(entity.xero_path()) {
        Some(Json::Array(items)) => {
            let mut items = items;
            if items.len() > 0 {
                Some(items.remove(0))
            } else {
                None
            }
        },
        _ => None,
    }
}

/// The journal number of a record: an integer, or a text that denotes one.
pub open spec fn journal_number(record: Json) -> Option<int> {
    match record.field("JournalNumber"@) {
        Some(v) => match v.integer() {
            Some(n) => Some(n as int),
            None => match v.chars() {
                Some(t) => match signed_value(t) {
                    Ok(n) => Some(n),
                    Err(_) => None,
                },
                None => None,
            },
        },
        None => None,
    }
}

fn read_journal_number(record: &Json) -> (r: Option<i64>)
    ensures
        match r {
            Some(n) => journal_number(*record) == Some(n as int),
            None => journal_number(*record) is None,
        },
{
    match record.get("JournalNumber") {
        Some(v) => match v.as_i64() {
            Some(n) => Some(n),
            None => match v.as_str() {
                Some(t) => match parse_signed(t) {
                    Ok(n) => Some(n),
                    Err(_) => None,
                },
                None => None,
            },
        },
        None => None,
    }
}

/// Whether `n` is the largest journal number among the records.
pub open spec fn is_largest_journal(records: Seq<Json>, n: int) -> bool {
    &&& exists|i: int|
        0 <= i < records.len() && journal_number(#[trigger] records[i]) == Some(n)
    &&& forall|i: int|
        0 <= i < records.len() ==> match journal_number(#[trigger] records[i]) {
            Some(m) => m <= n,
            None => true,
        }
}

/// Whether no record has a journal number.
pub open spec fn no_journal(records: Seq<Json>) -> bool {
    forall|i: int| 0 <= i < records.len() ==> journal_number(#[trigger] records[i]) is None
}

/// Whether `r` is the largest journal number among the records, `None` where
/// none has one.
pub open spec fn is_journal_reading(records: Seq<Json>, r: Option<i64>) -> bool {
    match r {
        Some(n) => is_largest_journal(records, n as int),
        None => no_journal(records),
    }
}

/// Whether `r` is the largest journal number among an entity's records in the
/// body of a response. A body that cannot be read has none.
pub open spec fn is_body_reading(entity: EntityType, body: Seq<u8>, r: Option<i64>) -> bool {
    if readable(body) {
        exists|tree: Json|
            #[trigger] is_tree_of(tree, body) && is_journal_reading(
                match entity_records(tree, entity) {
                    Some(records) => records,
                    None => Seq::empty(),
                },
                r,
            )
    } else {
        r is None
    }
}

/// The largest journal number among the records.
pub fn max_journal_number(records: &[Json]) -> (r: Option<i64>)
    ensures
        is_journal_reading(records@, r),
{
    let mut best: Option<i64> = None;
    let mut i: usize = 0;
    while i < records.len()
        invariant
            i <= records.len(),
            match best {
                Some(n) => is_largest_journal(records@.take(i as int), n as int),
                None => no_journal(records@.take(i as int)),
            },
        decreases records.len() - i,
    {
        let ghost before = records@.take(i as int);
        let ghost after = records@.take(i + 1);
        proof {
            assert(after[i as int] == records@[i as int]);
            assert forall|k: int| 0 <= k < i implies #[trigger] after[k] == before[k] by {}
        }
        if let Some(n) = read_journal_number(&records[i]) {
            match best {
                Some(m) => {
                    let ghost w = choose|k: int|
                        0 <= k < before.len() && journal_number(#[trigger] before[k]) == Some(
                            m as int,
                        );
                    proof {
                        assert(after[w] == before[w]);
                    }
                    if n > m {
                        best = Some(n);
                    }
                },
                None => {
                    best = Some(n);
                },
            }
        } else {
            proof {
                if best is Some {
                    let m = best->0;
                    let w = choose|k: int|
                        0 <= k < before.len() && journal_number(#[trigger] before[k]) == Some(
                            m as int,
                        );
                    assert(after[w] == before[w]);
                }
            }
        }
        i += 1;
    }
    proof {
        assert(records@.take(i as int) =~= records@);
    }
    best
}

/// The largest journal number among an entity's records in a response.
pub fn max_journal_number_in(entity: &EntityType, body: &Json) -> (r: Option<i64>)
    ensures
        is_journal_reading(
            match entity_records(*body, *entity) {
                Some(records) => records,
                None => Seq::empty(),
            },
            r,
        ),
{
    match body.get(entity.xero_path()) {
        Some(v) => match v.as_array() {
            Some(items) => max_journal_number(items.as_slice()),
            None => None,
        },
        None => None,
    }
}

/// The largest journal number among an entity's records in the body of a
/// response; `None` where the body is no JSON document or has no such record.
pub fn max_journal_number_from_bytes(entity: &EntityType, body: &[u8]) -> (r: Option<i64>)
    ensures
        is_body_reading(*entity, body@, r),
{
    match parse(body) {
        Some(tree) => {
            let n = max_journal_number_in(entity, &tree);
            assert(is_tree_of(tree, body@));
            n
        },
        None => None,
    }
}

/// The first of two readings that there is.
pub open spec fn or_else<T>(a: Option<T>, b: Option<T>) -> Option<T> {
    if a is Some {
        a
    } else {
        b
    }
}

/// The leading characters that are digits or minus signs.
pub open spec fn leading_number(s: Seq<char>) -> Seq<char>
    decreases s.len(),
{
    if s.len() > 0 && (is_digit(s[0]) || s[0] == '-') {
        seq![s[0]] + leading_number(s.skip(1))
    } else {
        seq![]
    }
}

/// The instant in Xero's JSON date form, `/Date(milliseconds+zone)/`.
pub open spec fn xero_json_instant(raw: Seq<char>) -> Option<(int, int)> {
    if "/Date("@.is_prefix_of(raw) {
        match signed_value(leading_number(raw.skip(6))) {
            Ok(ms) => if is_instant(ms / 1000, 0) {
                Some((ms / 1000, (ms % 1000) * 1_000_000))
            } else {
                None
            },
            Err(_) => None,
        }
    } else {
        None
    }
}

/// Read Xero's JSON date form, `/Date(milliseconds+zone)/`.
pub fn parse_xero_json_date(raw: &str) -> (r: Option<Timestamp>)
    ensures
        parts(r) == xero_json_instant(raw@),
{
    let v = chars_of(raw);
    let p = chars_of("/Date(");
    proof {
        reveal_strlit("/Date(");
    }
    if v.len() < p.len() {
        return None;
    }
    let mut i: usize = 0;
    while i < p.len()
        invariant
            i <= p.len() == 6,
            p@ == "/Date("@,
            v@ == raw@,
            p.len() <= v.len(),
            forall|k: int| 0 <= k < i ==> v@[k] == p@[k],
        decreases p.len() - i,
    {
        if v[i] != p[i] {
            return None;
        }
        i += 1;
    }
    assert("/Date("@.is_prefix_of(raw@)) by {
        assert("/Date("@ =~= raw@.subrange(0, 6));
    }
    let mut number = String::new();
    let ghost tail = raw@.skip(6);
    let ghost all = leading_number(tail);
    proof {
        assert(number@ + leading_number(raw@.skip(i as int)) =~= all);
    }
    while i < v.len() && (v[i] == '-' || ('0' <= v[i] && v[i] <= '9'))
        invariant
            6 <= i <= v.len(),
            v@ == raw@,
            number@ + leading_number(raw@.skip(i as int)) == all,
        decreases v.len() - i,
    {
        let ghost old_number = number@;
        number.push(v[i]);
        proof {
            let rest = raw@.skip(i as int);
            assert(rest[0] == v@[i as int]);
            assert(rest.skip(1) =~= raw@.skip(i + 1));
            assert(number@ + leading_number(raw@.skip(i + 1)) =~= old_number + (seq![rest[0]]
                + leading_number(rest.skip(1))));
        }
        i += 1;
    }
    proof {
        assert(leading_number(raw@.skip(i as int)) =~= Seq::<char>::empty());
        assert(number@ =~= all);
    }
    match parse_signed(number.as_str()) {
        Ok(ms) => Timestamp::from_unix_millis(ms),
        Err(_) => None,
    }
}

/// The instant a text denotes: RFC 3339, or Xero's JSON date form.
pub open spec fn text_instant(raw: Seq<char>) -> Option<(int, int)> {
    or_else(rfc3339_instant(raw), xero_json_instant(raw))
}

/// The instant a text denotes, given what it denotes in RFC 3339 form.
pub fn instant_or_xero_date(rfc3339: Option<Timestamp>, raw: &str) -> (r: Option<Timestamp>)
    ensures
        parts(r) == or_else(parts(rfc3339), xero_json_instant(raw@)),
{
    match rfc3339 {
        Some(t) => Some(t),
        None => parse_xero_json_date(raw),
    }
}

/// The instant a value denotes.
pub open spec fn value_instant(value: Json) -> Option<(int, int)> {
    match value.chars() {
        Some(t) => text_instant(trimmed(t)),
        None => None,
    }
}

/// The instant a value denotes.
pub fn parse_datetime_value(value: &Json) -> (r: Option<Timestamp>)
    ensures
        parts(r) == value_instant(*value),
{
    match value.as_str() {
        Some(t) => {
            let raw = trim(t);
            instant_or_xero_date(parse_rfc3339(raw), raw)
        },
        None => None,
    }
}

/// Number of the day of an instant.
pub open spec fn day_of(instant: Option<(int, int)>) -> Option<int> {
    match instant {
        Some((secs, _)) => Some(UNIX_EPOCH_DAY + secs / 86400),
        None => None,
    }
}

/// Number of the day a text denotes: the day of an instant, a plain date, or the
/// day of a local time.
pub open spec fn text_day(raw: Seq<char>) -> Option<int> {
    or_else(day_of(text_instant(raw)), or_else(ymd_day(raw), local_second_day(raw)))
}

/// The day a text denotes, given what it denotes in each of the three forms.
pub fn first_day_read(
    instant: Option<Timestamp>,
    date: Option<Date>,
    local: Option<Date>,
) -> (r: Option<Date>)
    ensures
        numbered(r) == or_else(day_of(parts(instant)), or_else(numbered(date), numbered(local))),
{
    match instant {
        Some(t) => Some(t.date()),
        None => match date {
            Some(d) => Some(d),
            None => local,
        },
    }
}

/// Number of the day a value denotes.
pub open spec fn value_day(value: Json) -> Option<int> {
    match value.chars() {
        Some(t) => text_day(trimmed(t)),
        None => None,
    }
}

/// The day a value denotes.
pub fn parse_date_value(value: &Json) -> (r: Option<Date>)
    ensures
        numbered(r) == value_day(*value),
{
    match value.as_str() {
        Some(t) => {
            let raw = trim(t);
            let instant = instant_or_xero_date(parse_rfc3339(raw), raw);
            first_day_read(instant, parse_ymd(raw), parse_local_second(raw))
        },
        None => None,
    }
}

/// The instant in the named field.
pub open spec fn field_instant(record: Json, field: Seq<char>) -> Option<(int, int)> {
    match record.field(field) {
        Some(v) => value_instant(v),
        None => None,
    }
}

/// The day in the named field.
pub open spec fn field_day(record: Json, field: Seq<char>) -> Option<int> {
    match record.field(field) {
        Some(v) => value_day(v),
        None => None,
    }
}

/// When a record was last modified: the first of the known fields that holds an
/// instant.
pub open spec fn modified_at(record: Json) -> Option<(int, int)> {
    or_else(
        field_instant(record, "UpdatedDateUTC"@),
        or_else(
            field_instant(record, "UpdatedDateUtc"@),
            or_else(
                field_instant(record, "updatedDateUtc"@),
                or_else(
                    field_instant(record, "updated_date_utc"@),
                    field_instant(record, "updated_at"@),
                ),
            ),
        ),
    )
}

fn read_field_instant(record: &Json, field: &str) -> (r: Option<Timestamp>)
    ensures
        parts(r) == field_instant(*record, field@),
{
    match record.get(field) {
        Some(v) => parse_datetime_value(v),
        None => None,
    }
}

fn read_field_day(record: &Json, field: &str) -> (r: Option<Date>)
    ensures
        numbered(r) == field_day(*record, field@),
{
    match record.get(field) {
        Some(v) => parse_date_value(v),
        None => None,
    }
}

/// When a record was last modified.
pub fn record_modified_at(record: &Json) -> (r: Option<Timestamp>)
    ensures
        parts(r) == modified_at(*record),
{
    if let Some(t) = read_field_instant(record, "UpdatedDateUTC") {
        return Some(t);
    }
    if let Some(t) = read_field_instant(record, "UpdatedDateUtc") {
        return Some(t);
    }
    if let Some(t) = read_field_instant(record, "updatedDateUtc") {
        return Some(t);
    }
    if let Some(t) = read_field_instant(record, "updated_date_utc") {
        return Some(t);
    }
    read_field_instant(record, "updated_at")
}

/// Number of the day a record is booked on, for an entity that has one.
pub open spec fn business_day(entity: EntityType, record: Json) -> Option<int> {
    match date_filter(entity) {
        None => None,
        Some(DateFilter::LocalOnly(field)) => field_day(record, field),
        Some(_) => or_else(field_day(record, "Date"@), field_day(record, "DateString"@)),
    }
}

/// The day a record is booked on, for an entity that has one.
pub fn record_business_date(entity: &EntityType, record: &Json) -> (r: Option<Date>)
    ensures
        numbered(r) == business_day(*entity, *record),
{
    match business_date_query_mode(entity) {
        None => None,
        Some(BusinessDateQueryMode::LocalOnly(field)) => read_field_day(record, field),
        Some(_) => match read_field_day(record, "Date") {
            Some(d) => Some(d),
            None => read_field_day(record, "DateString"),
        },
    }
}

/// Order of instants given as seconds and nanoseconds.
pub open spec fn instant_before(a: (int, int), b: (int, int)) -> bool {
    a.0 < b.0 || (a.0 == b.0 && a.1 < b.1)
}

/// Whether a modification time lies in the half-open window. A record without
/// one passes unless the window has an end.
pub open spec fn in_modified_window(
    at: Option<(int, int)>,
    after: Option<(int, int)>,
    before: Option<(int, int)>,
) -> bool {
    match at {
        None => before is None,
        Some(t) => {
            &&& after is Some ==> !instant_before(t, after->0)
            &&& before is Some ==> instant_before(t, before->0)
        },
    }
}

/// Whether a modification time lies in the half-open window.
pub fn within_modified_window(
    updated_at: Option<Timestamp>,
    modified_after: Option<Timestamp>,
    modified_before: Option<Timestamp>,
) -> (r: bool)
    ensures
        r == in_modified_window(parts(updated_at), parts(modified_after), parts(modified_before)),
        updated_at matches Some(t) ==> (r <==> {
            &&& modified_after matches Some(a) ==> !t.earlier_than(a)
            &&& modified_before matches Some(b) ==> t.earlier_than(b)
        }),
        updated_at is None ==> (r <==> modified_before is None),
{
    match updated_at {
        None => modified_before.is_none(),
        Some(t) => {
            let after_ok = match modified_after {
                Some(a) => !t.is_before(&a),
                None => true,
            };
            let before_ok = match modified_before {
                Some(b) => t.is_before(&b),
                None => true,
            };
            after_ok && before_ok
        },
    }
}

/// Whether a record passes the modification window; without a window all do.
pub open spec fn passes_modified(
    record: Json,
    after: Option<(int, int)>,
    before: Option<(int, int)>,
) -> bool {
    (after is None && before is None) || in_modified_window(modified_at(record), after, before)
}

/// Keep the records that were modified in the half-open window, in order.
pub fn filter_records_by_modified_window(
    records: Vec<Json>,
    modified_after: Option<Timestamp>,
    modified_before: Option<Timestamp>,
) -> (r: Vec<Json>)
    ensures
        r@ == records@.filter(
            |record: Json|
                passes_modified(record, parts(modified_after), parts(modified_before)),
        ),
{
    let ghost all = records@;
    let ghost keep = |record: Json|
        passes_modified(record, parts(modified_after), parts(modified_before));
    let unbounded = modified_after.is_none() && modified_before.is_none();
    let mut kept: Vec<Json> = Vec::new();
    proof {
        reveal(Seq::filter);
    }
    for record in it: records
        invariant
            it.seq() == all,
            unbounded == (modified_after is None && modified_before is None),
            keep == (|record: Json|
                passes_modified(record, parts(modified_after), parts(modified_before))),
            kept@ == all.take(it.index()).filter(keep),
    {
        proof {
            reveal(Seq::filter);
            assert(all.take(it.index() + 1).drop_last() =~= all.take(it.index()));
        }
        if unbounded || within_modified_window(
            record_modified_at(&record),
            modified_after,
            modified_before,
        ) {
            kept.push(record);
        }
    }
    proof {
        assert(all.take(all.len() as int) =~= all);
    }
    kept
}

/// Whether a record is booked within the window.
pub open spec fn booked_within(entity: EntityType, record: Json, window: DateWindow) -> bool {
    match business_day(entity, record) {
        Some(day) => window.start.number() <= day < window.end_exclusive.number(),
        None => false,
    }
}

/// Whether a booking date lies in the window.
pub fn within_business_window(date: Option<Date>, window: &DateWindow) -> (r: bool)
    ensures
        r == (match numbered(date) {
            Some(day) => window.start.number() <= day < window.end_exclusive.number(),
            None => false,
        }),
{
    match date {
        Some(d) => !d.is_before(&window.start) && d.is_before(&window.end_exclusive),
        None => false,
    }
}

/// Keep the records that are booked within the window, in order.
pub fn filter_records_by_business_date_window(
    entity: &EntityType,
    records: Vec<Json>,
    window: DateWindow,
) -> (r: Vec<Json>)
    ensures
        r@ == records@.filter(|record: Json| booked_within(*entity, record, window)),
{
    let ghost all = records@;
    let ghost keep = |record: Json| booked_within(*entity, record, window);
    let mut kept: Vec<Json> = Vec::new();
    proof {
        reveal(Seq::filter);
    }
    for record in it: records
        invariant
            it.seq() == all,
            keep == (|record: Json| booked_within(*entity, record, window)),
            kept@ == all.take(it.index()).filter(keep),
    {
        proof {
            reveal(Seq::filter);
            assert(all.take(it.index() + 1).drop_last() =~= all.take(it.index()));
        }
        if within_business_window(record_business_date(entity, &record), &window) {
            kept.push(record);
        }
    }
    proof {
        assert(all.take(all.len() as int) =~= all);
    }
    kept
}

/// Half-open windows that meet share no record and lose none: a modification time
/// in the window from `a` to `c` is in exactly one of the two windows that meet at
/// `b`.
pub proof fn meeting_modified_windows_partition(
    t: (int, int),
    a: (int, int),
    b: (int, int),
    c: (int, int),
)
    requires
        !instant_before(b, a),
        !instant_before(c, b),
    ensures
        in_modified_window(Some(t), Some(a), Some(c)) <==> (in_modified_window(
            Some(t),
            Some(a),
            Some(b),
        ) || in_modified_window(Some(t), Some(b), Some(c))),
        !(in_modified_window(Some(t), Some(a), Some(b)) && in_modified_window(
            Some(t),
            Some(b),
            Some(c),
        )),
{
}

/// Windows of business dates that meet share no record and lose none.
pub proof fn meeting_business_windows_partition(
    entity: EntityType,
    record: Json,
    first: DateWindow,
    second: DateWindow,
    whole: DateWindow,
)
    requires
        first.start == whole.start,
        first.end_exclusive == second.start,
        second.end_exclusive == whole.end_exclusive,
        first.start.number() <= first.end_exclusive.number() <= second.end_exclusive.number(),
    ensures
        booked_within(entity, record, whole) <==> (booked_within(entity, record, first)
            || booked_within(entity, record, second)),
        !(booked_within(entity, record, first) && booked_within(entity, record, second)),
{
}

/// Members with the same names and values that are alike give values that are alike.
proof fn same_members(a: Seq<(String, Json)>, b: Seq<(String, Json)>, key: Seq<char>)
    requires
        a.len() == b.len(),
        forall|i: int|
            0 <= i < a.len() ==> (#[trigger] a[i]).0@ == b[i].0@ && alike(a[i].1, b[i].1),
    ensures
        match member(a, key) {
            Some(x) => member(b, key) matches Some(y) && alike(x, y),
            None => member(b, key) is None,
        },
    decreases a.len(),
{
    if a.len() > 0 {
        assert(a[0].0@ == b[0].0@);
        if a[0].0@ != key {
            let c = a.skip(1);
            let d = b.skip(1);
            assert forall|i: int| 0 <= i < c.len() implies (#[trigger] c[i]).0@ == d[i].0@ && alike(
                c[i].1,
                d[i].1,
            ) by {
                assert(c[i] == a[i + 1] && d[i] == b[i + 1]);
            }
            same_members(c, d, key);
        }
    }
}

/// Documents that are alike agree on the value under a key.
proof fn same_field(a: Json, b: Json, key: Seq<char>)
    requires
        alike(a, b),
    ensures
        match a.field(key) {
            Some(x) => b.field(key) matches Some(y) && alike(x, y),
            None => b.field(key) is None,
        },
{
    alike_parts(a, b);
    if let (Json::Object(v), Json::Object(w)) = (a, b) {
        assert forall|i: int| 0 <= i < v@.len() implies (#[trigger] v@[i]).0@ == w@[i].0@ && alike(
            v@[i].1,
            w@[i].1,
        ) by {
            assert(member_names(v@)[i] == member_names(w@)[i]);
            assert(alike(parts_of(a)[i], parts_of(b)[i]));
        }
        same_members(v@, w@, key);
    }
}

/// Documents that are alike have the same records of an entity.
proof fn same_records(a: Json, b: Json, entity: EntityType)
    requires
        alike(a, b),
    ensures
        match entity_records(a, entity) {
            Some(x) => entity_records(b, entity) matches Some(y) && x.len() == y.len() && forall|
                i: int,
            |
                0 <= i < x.len() ==> journal_number(#[trigger] x[i]) == journal_number(y[i]),
            None => entity_records(b, entity) is None,
        },
{
    same_field(a, b, entity.path());
    if a.field(entity.path()) is Some {
        let x = a.field(entity.path())->0;
        let y = b.field(entity.path())->0;
        alike_parts(x, y);
        if let (Json::Array(v), Json::Array(w)) = (x, y) {
            assert forall|i: int| 0 <= i < v@.len() implies journal_number(#[trigger] v@[i])
                == journal_number(w@[i]) by {
                assert(alike(parts_of(x)[i], parts_of(y)[i]));
                same_journal_number(v@[i], w@[i]);
            }
        }
    }
}

proof fn same_journal_number(a: Json, b: Json)
    requires
        alike(a, b),
    ensures
        journal_number(a) == journal_number(b),
{
    let key = "JournalNumber"@;
    same_field(a, b, key);
    if a.field(key) is Some {
        alike_parts(a.field(key)->0, b.field(key)->0);
    }
}

/// The bytes of a response determine how many records it has.
pub proof fn body_count_is_unique(entity: EntityType, body: Seq<u8>, r: nat, s: nat)
    requires
        is_body_count(entity, body, r),
        is_body_count(entity, body, s),
    ensures
        r == s,
{
    if readable(body) {
        let a = choose|tree: Json|
            #[trigger] is_tree_of(tree, body) && r == (match entity_records(tree, entity) {
                Some(records) => records.len(),
                None => 0,
            });
        let b = choose|tree: Json|
            #[trigger] is_tree_of(tree, body) && s == (match entity_records(tree, entity) {
                Some(records) => records.len(),
                None => 0,
            });
        same_records(a, b, entity);
    }
}

/// The bytes of a response determine its largest journal number.
pub proof fn body_reading_is_unique(
    entity: EntityType,
    body: Seq<u8>,
    r: Option<i64>,
    s: Option<i64>,
)
    requires
        is_body_reading(entity, body, r),
        is_body_reading(entity, body, s),
    ensures
        r == s,
{
    if readable(body) {
        let a = choose|tree: Json|
            #[trigger] is_tree_of(tree, body) && is_journal_reading(
                match entity_records(tree, entity) {
                    Some(records) => records,
                    None => Seq::empty(),
                },
                r,
            );
        let b = choose|tree: Json|
            #[trigger] is_tree_of(tree, body) && is_journal_reading(
                match entity_records(tree, entity) {
                    Some(records) => records,
                    None => Seq::empty(),
                },
                s,
            );
        same_records(a, b, entity);
        let x: Seq<Json> = match entity_records(a, entity) {
            Some(records) => records,
            None => Seq::empty(),
        };
        let y: Seq<Json> = match entity_records(b, entity) {
            Some(records) => records,
            None => Seq::empty(),
        };
        assert(x.len() == y.len());
        assert forall|i: int| 0 <= i < x.len() implies journal_number(#[trigger] x[i])
            == journal_number(y[i]) by {}
        same_reading(x, y, r, s);
    }
}

proof fn same_reading(x: Seq<Json>, y: Seq<Json>, r: Option<i64>, s: Option<i64>)
    requires
        x.len() == y.len(),
        forall|i: int|
            0 <= i < x.len() ==> journal_number(#[trigger] x[i]) == journal_number(y[i]),
        is_journal_reading(x, r),
        is_journal_reading(y, s),
    ensures
        r == s,
{
    if r is Some {
        let i = choose|i: int|
            0 <= i < x.len() && journal_number(#[trigger] x[i]) == Some(r->0 as int);
        assert(journal_number(y[i]) == Some(r->0 as int));
    }
    if s is Some {
        let i = choose|i: int|
            0 <= i < y.len() && journal_number(#[trigger] y[i]) == Some(s->0 as int);
        assert(journal_number(x[i]) == Some(s->0 as int));
    }
}

/// A window with a start alone holds what was modified at the start or later; one with
/// an end alone, what was modified before the end; one with both, what both hold; one
/// with neither, everything. What was modified at no known time passes unless there is
/// an end.
pub proof fn windows_hold_their_side(t: (int, int), a: (int, int), b: (int, int))
    ensures
        in_modified_window(Some(t), Some(a), None) <==> a.0 < t.0 || (a.0 == t.0 && a.1 <= t.1),
        in_modified_window(Some(t), None, Some(b)) <==> t.0 < b.0 || (t.0 == b.0 && t.1 < b.1),
        in_modified_window(Some(t), Some(a), Some(b)) <==> in_modified_window(
            Some(t),
            Some(a),
            None,
        ) && in_modified_window(Some(t), None, Some(b)),
        in_modified_window(Some(t), None, None),
        in_modified_window(None, None, None),
        in_modified_window(None, Some(a), None),
        !in_modified_window(None, None, Some(b)),
        !in_modified_window(None, Some(a), Some(b)),
{
}

/// Of the records that a modification window is held against, one with a known time is
/// kept if and only if the time is not before the start, where there is one, and before
/// the end, where there is one.
pub proof fn kept_records_were_modified_in_window(
    records: Seq<Json>,
    after: Option<(int, int)>,
    before: Option<(int, int)>,
    i: int,
)
    requires
        0 <= i < records.len(),
        modified_at(records[i]) is Some,
    ensures
        ({
            let t = modified_at(records[i])->0;
            let kept = records.filter(|record: Json| passes_modified(record, after, before));
            kept.contains(records[i]) <==> {
                &&& after matches Some(a) ==> a.0 < t.0 || (a.0 == t.0 && a.1 <= t.1)
                &&& before matches Some(b) ==> t.0 < b.0 || (t.0 == b.0 && t.1 < b.1)
            }
        }),
{
    let keep = |record: Json| passes_modified(record, after, before);
    let kept = records.filter(keep);
    if keep(records[i]) {
        records.lemma_filter_contains(keep, i);
    }
    if kept.contains(records[i]) {
        let k = choose|k: int| 0 <= k < kept.len() && kept[k] == records[i];
        records.lemma_filter_pred(keep, k);
    }
}

/// A record's modification time is that of the first known field that holds one, and
/// there is none if no known field does.
pub proof fn first_known_field_counts(record: Json)
    ensures
        ({
            let first = field_instant(record, "UpdatedDateUTC"@);
            let second = field_instant(record, "UpdatedDateUtc"@);
            let third = field_instant(record, "updatedDateUtc"@);
            let fourth = field_instant(record, "updated_date_utc"@);
            let fifth = field_instant(record, "updated_at"@);
            &&& first is Some ==> modified_at(record) == first
            &&& first is None && second is Some ==> modified_at(record) == second
            &&& first is None && second is None && third is Some ==> modified_at(record) == third
            &&& first is None && second is None && third is None && fourth is Some ==> modified_at(
                record,
            ) == fourth
            &&& first is None && second is None && third is None && fourth is None ==> modified_at(
                record,
            ) == fifth
        }),
{
}

/// A record is booked on its `Date`, or else its `DateString`, if its entity is pulled
/// by date; a journal on its `JournalDate`; any other record on no day.
pub proof fn booking_days_are_read(entity: EntityType, record: Json)
    ensures
        entity.spec_is_date_windowable() && field_day(record, "Date"@) is Some ==> business_day(
            entity,
            record,
        ) == field_day(record, "Date"@),
        entity.spec_is_date_windowable() && field_day(record, "Date"@) is None ==> business_day(
            entity,
            record,
        ) == field_day(record, "DateString"@),
        entity == EntityType::Journals ==> business_day(entity, record) == field_day(
            record,
            "JournalDate"@,
        ),
        !entity.spec_is_date_windowable() && entity != EntityType::Journals ==> business_day(
            entity,
            record,
        ) is None,
{
    date_filters_are_for_windowed_entities(entity);
}

/// A record is within a window if and only if it is booked on one of the window's days:
/// not before its start and before its end. A record without a booking day is in none.
pub proof fn booked_records_are_in_window(
    entity: EntityType,
    record: Json,
    window: DateWindow,
    day: Date,
)
    ensures
        business_day(entity, record) is None ==> !booked_within(entity, record, window),
        business_day(entity, record) == Some(day.number()) ==> (booked_within(
            entity,
            record,
            window,
        ) <==> window.holds(day)),
        booked_within(entity, record, window) ==> window.start.number() < window.end_exclusive.number(),
        window.holds(day) <==> window.start.number() <= day.number() && day.number()
            < window.end_exclusive.number(),
{
}

/// What comes before the first character that is neither a digit nor a minus sign.
proof fn number_leads(number: Seq<char>, rest: Seq<char>)
    requires
        forall|i: int|
            0 <= i < number.len() ==> is_digit(#[trigger] number[i]) || number[i] == '-',
        rest.len() > 0 ==> !is_digit(rest[0]) && rest[0] != '-',
    ensures
        leading_number(number + rest) == number,
    decreases number.len(),
{
    let s = number + rest;
    if number.len() > 0 {
        assert(s[0] == number[0]);
        let tail = number.skip(1);
        assert forall|i: int| 0 <= i < tail.len() implies is_digit(#[trigger] tail[i]) || tail[i]
            == '-' by {
            assert(tail[i] == number[i + 1]);
        }
        number_leads(tail, rest);
        assert(s.skip(1) =~= tail + rest);
        assert(seq![number[0]] + tail =~= number);
    } else {
        assert(s =~= rest);
        assert(leading_number(s) =~= number);
    }
}

/// Xero's JSON dates give their milliseconds back, whatever follows them; a text that
/// does not begin as such a date is none.
pub proof fn json_dates_read_back(ms: int, rest: Seq<char>, other: Seq<char>)
    requires
        i64::MIN <= ms <= i64::MAX,
        rest.len() > 0 ==> !is_digit(rest[0]) && rest[0] != '-',
    ensures
        xero_json_instant("/Date("@ + signed_numeral(ms) + rest) == (if is_instant(ms / 1000, 0) {
            Some((ms / 1000, (ms % 1000) * 1_000_000))
        } else {
            None
        }),
        !"/Date("@.is_prefix_of(other) ==> xero_json_instant(other) is None,
{
    reveal_strlit("/Date(");
    reveal_strlit("-");
    let number = signed_numeral(ms);
    let raw = "/Date("@ + number + rest;
    assert(raw.subrange(0, 6) =~= "/Date("@);
    assert(raw.skip(6) =~= number + rest);
    if ms < 0 {
        numeral_denotes((-ms) as nat);
    } else {
        numeral_denotes(ms as nat);
    }
    assert forall|i: int| 0 <= i < number.len() implies is_digit(#[trigger] number[i]) || number[i]
        == '-' by {
        if ms < 0 {
            if i > 0 {
                assert(number[i] == numeral((-ms) as nat)[i - 1]);
                assert(is_digit(numeral((-ms) as nat)[i - 1]));
            }
        } else {
            assert(is_digit(numeral(ms as nat)[i]));
        }
    }
    number_leads(number, rest);
    signed_numerals_read_back(ms);
}

/// A time is read in RFC 3339 form before Xero's own, and a day from a time before a
/// plain date, and from a plain date before a local time. White space around makes no
/// difference, and only texts denote times and days.
pub proof fn readings_have_an_order(raw: Seq<char>, value: Json)
    ensures
        rfc3339_instant(raw) is Some ==> text_instant(raw) == rfc3339_instant(raw),
        rfc3339_instant(raw) is None ==> text_instant(raw) == xero_json_instant(raw),
        text_instant(raw) matches Some(t) ==> text_day(raw) == Some(UNIX_EPOCH_DAY + t.0 / 86400),
        text_instant(raw) is None && ymd_day(raw) is Some ==> text_day(raw) == ymd_day(raw),
        text_instant(raw) is None && ymd_day(raw) is None ==> text_day(raw) == local_second_day(
            raw,
        ),
        value.chars() is None ==> value_instant(value) is None && value_day(value) is None,
        value.chars() matches Some(t) && trimmed(t) == raw ==> value_instant(value) == text_instant(
            raw,
        ) && value_day(value) == text_day(raw),
{
}

/// A journal's number is an integer or its numeral; a record without such a field has
/// none.
pub proof fn journal_numbers_are_read(record: Json, n: i64)
    ensures
        record.field("JournalNumber"@) is None ==> journal_number(record) is None,
        (record.field("JournalNumber"@) matches Some(v) && v.integer() == Some(n))
            ==> journal_number(record) == Some(n as int),
        (record.field("JournalNumber"@) matches Some(v) && v.integer() is None && v.chars()
            == Some(signed_numeral(n as int))) ==> journal_number(record) == Some(n as int),
        (record.field("JournalNumber"@) matches Some(v) && v.integer() is None && v.chars()
            is None) ==> journal_number(record) is None,
{
    signed_numerals_read_back(n as int);
}

/// Bills are found where invoices are; a response without an entity's array has no
/// records of it.
pub proof fn records_lie_under_their_path(body: Json, entity: EntityType)
    ensures
        entity_records(body, EntityType::Bills) == entity_records(body, EntityType::Invoices),
        body.field(entity.path()) is None ==> entity_records(body, entity) is None,
        body.field(entity.path()) matches Some(v) ==> entity_records(body, entity) == v.items(),
{
}

/// The largest journal number of two lists of records is the larger of theirs; a list without
/// journal numbers adds nothing, and no records have none.
pub proof fn largest_journals_combine(
    a: Seq<Json>,
    b: Seq<Json>,
    x: Option<i64>,
    y: Option<i64>,
)
    requires
        is_journal_reading(a, x),
        is_journal_reading(b, y),
    ensures
        is_journal_reading(
            a + b,
            match (x, y) {
                (Some(m), Some(n)) => Some(
                    if m < n {
                        n
                    } else {
                        m
                    },
                ),
                (Some(m), None) => Some(m),
                (None, other) => other,
            },
        ),
        is_journal_reading(Seq::<Json>::empty(), None),
        a.len() == 1 ==> (x is Some <==> journal_number(a[0]) is Some),
        a.len() == 1 && x is Some ==> journal_number(a[0]) == Some(x->0 as int),
{
    let all = a + b;
    assert forall|i: int| 0 <= i < all.len() implies #[trigger] all[i] == (if i < a.len() {
        a[i]
    } else {
        b[i - a.len()]
    }) by {}
    if let Some(m) = x {
        let i = choose|i: int|
            0 <= i < a.len() && journal_number(#[trigger] a[i]) == Some(m as int);
        assert(all[i] == a[i]);
    }
    if let Some(n) = y {
        let i = choose|i: int|
            0 <= i < b.len() && journal_number(#[trigger] b[i]) == Some(n as int);
        assert(all[a.len() + i] == b[i]);
    }
}

/// The records of a response are counted as they stand in its document: all of the entity's
/// array, none where there is no such array or the body cannot be read.
pub proof fn counts_are_of_the_document(
    entity: EntityType,
    body: Seq<u8>,
    tree: Json,
    r: nat,
)
    requires
        is_body_count(entity, body, r),
    ensures
        is_tree_of(tree, body) ==> (entity_records(tree, entity) matches Some(records) ==> r
            == records.len()),
        is_tree_of(tree, body) && entity_records(tree, entity) is None ==> r == 0,
        !readable(body) ==> r == 0,
{
    if is_tree_of(tree, body) {
        let n: nat = match entity_records(tree, entity) {
            Some(records) => records.len(),
            None => 0,
        };
        assert(is_body_count(entity, body, n));
        body_count_is_unique(entity, body, r, n);
    }
}

/// The largest journal number of a response is that of the entity's records in its document.
pub proof fn journals_are_of_the_document(
    entity: EntityType,
    body: Seq<u8>,
    tree: Json,
    r: Option<i64>,
    s: Option<i64>,
)
    requires
        is_body_reading(entity, body, r),
        is_tree_of(tree, body),
        entity_records(tree, entity) matches Some(records) && is_journal_reading(records, s),
    ensures
        r == s,
{
    assert(is_body_reading(entity, body, s));
    body_reading_is_unique(entity, body, r, s);
}

} // verus!
