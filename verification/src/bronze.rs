//! Bronze records: how each is identified, when it is written, and how it is
//! streamed to BigQuery.
//!
//! The bronze store is the source of truth. Streaming is best effort: a row that
//! was not accepted stays unmarked, and a replay picks it up later.

use vstd::prelude::*;

use crate::calendar::{
    date_numbered, date_text_is_injective, number_is_injective, Date, Timestamp,
};
use crate::json::{
    compact, is_tidy, same_objects_have_the_same_fields, same_value, same_value_is_reflexive,
    same_values_are_of_one_kind, text_in, Json,
};
use crate::manifest::{uuid_hyphenated, uuid_text};
use crate::query::signed_numerals_differ;
use crate::records::{field_day, parse_date_value};
use crate::report::{is_signature, signature_is_unique, signature_of};
use crate::sorted::{pairs, push_pair};
use crate::text::{numeral_denotes, same, signed_decimal, signed_numeral, texts};
use crate::types::{reports_are_recognised, EntityType};

verus! {

/// The texts among an object's members, where all of them are texts.
pub open spec fn text_members(entries: Seq<(String, Json)>) -> Option<Seq<(Seq<char>, Seq<char>)>>
    decreases entries.len(),
{
    if entries.len() == 0 {
        Some(Seq::empty())
    } else {
        match (text_members(entries.drop_last()), entries.last().1.chars()) {
            (Some(front), Some(t)) => Some(front.push((entries.last().0@, t))),
            _ => None,
        }
    }
}

/// The parameters that a report's record was fetched with.
pub open spec fn report_params_of(record: Json) -> Option<Seq<(Seq<char>, Seq<char>)>> {
    match record.field("_params"@) {
        Some(Json::Object(entries)) => text_members(entries@),
        _ => None,
    }
}

/// Whether a report's record has what its id is made of: parameters and a day.
pub open spec fn has_report_id(record: Json) -> bool {
    report_params_of(record) is Some && field_day(record, "_run_date"@) is Some
}

/// Whether `id` is the id of a report's record: report, parameters and day of the
/// run, so that a rerun on the same day has the same id and one on a later day
/// does not.
pub open spec fn is_report_id(id: Seq<char>, entity: EntityType, record: Json) -> bool {
    exists|signature: Seq<char>|
        #[trigger] is_signature(signature, report_params_of(record)->0) && id == entity.name()
            + ":"@ + signature + ":"@ + date_numbered(field_day(record, "_run_date"@)->0).text()
}

/// The id of a record that has one of its own: a text that is not empty, or a
/// number.
pub open spec fn own_id(entity: EntityType, record: Json) -> Option<Seq<char>> {
    match record.field(entity.id_field_name()) {
        Some(v) => match v.chars() {
            Some(t) => if t.len() > 0 {
                Some(t)
            } else {
                None
            },
            None => match v.integer() {
                Some(n) => Some(signed_numeral(n as int)),
                None => None,
            },
        },
        None => None,
    }
}

fn read_text_members(entries: &Vec<(String, Json)>) -> (r: Option<Vec<(String, String)>>)
    ensures
        match r {
            Some(v) => text_members(entries@) == Some(pairs(v@)),
            None => text_members(entries@) is None,
        },
{
    let mut r: Vec<(String, String)> = Vec::new();
    let mut i: usize = 0;
    proof {
        assert(pairs(r@) =~= Seq::<(Seq<char>, Seq<char>)>::empty());
    }
    while i < entries.len()
        invariant
            i <= entries.len(),
            text_members(entries@.take(i as int)) == Some(pairs(r@)),
        decreases entries.len() - i,
    {
        proof {
            assert(entries@.take(i + 1).drop_last() =~= entries@.take(i as int));
            assert(entries@.take(i + 1).last() == entries@[i as int]);
        }
        match entries[i].1.as_str() {
            Some(t) => push_pair(&mut r, entries[i].0.as_str(), t),
            None => {
                proof {
                    missing_text_stays(entries@, i + 1);
                }
                return None;
            },
        }
        i += 1;
    }
    proof {
        assert(entries@.take(i as int) =~= entries@);
    }
    Some(r)
}

proof fn missing_text_stays(entries: Seq<(String, Json)>, n: int)
    requires
        0 <= n <= entries.len(),
        text_members(entries.take(n)) is None,
    ensures
        text_members(entries) is None,
    decreases entries.len() - n,
{
    if n < entries.len() {
        assert(entries.take(n + 1).drop_last() =~= entries.take(n));
        missing_text_stays(entries, n + 1);
    } else {
        assert(entries.take(n) =~= entries);
    }
}

/// The id of a report's record, given the day of its run.
pub fn report_id(entity: &EntityType, params: &Vec<(String, String)>, day: &Date) -> (r: String)
    ensures
        exists|signature: Seq<char>|
            #[trigger] is_signature(signature, pairs(params@)) && r@ == entity.name() + ":"@
                + signature + ":"@ + day.text(),
{
    let signature = signature_of(params);
    assert(is_signature(signature@, pairs(params@)));
    entity.as_str().to_owned().concat(":").concat(signature.as_str()).concat(":").concat(
        day.to_text().as_str(),
    )
}

/// Whether a record has an id under which it can be stored.
pub open spec fn has_record_id(entity: EntityType, record: Json) -> bool {
    if entity.spec_is_report() {
        has_report_id(record)
    } else {
        own_id(entity, record) is Some
    }
}

/// Whether `id` is the id under which a record is stored.
pub open spec fn is_record_id(id: Seq<char>, entity: EntityType, record: Json) -> bool {
    if entity.spec_is_report() {
        has_report_id(record) && is_report_id(id, entity, record)
    } else {
        own_id(entity, record) == Some(id)
    }
}

/// The id under which a record is stored; `None` where it has none.
pub fn record_id_for_entity(entity: &EntityType, record: &Json) -> (r: Option<String>)
    ensures
        match r {
            Some(id) => has_record_id(*entity, *record) && is_record_id(id@, *entity, *record),
            None => !has_record_id(*entity, *record),
        },
{
    if entity.is_report() {
        let params = match record.get("_params") {
            Some(Json::Object(entries)) => read_text_members(entries),
            _ => None,
        };
        let day = match record.get("_run_date") {
            Some(v) => parse_date_value(v),
            None => None,
        };
        return match (params, day) {
            (Some(params), Some(day)) => {
                proof {
                    use_type_invariant(&day);
                    number_is_injective(day, date_numbered(day.number()));
                    assert(report_params_of(*record) == Some(pairs(params@)));
                    assert(field_day(*record, "_run_date"@) == Some(day.number()));
                }
                let id = report_id(entity, &params, &day);
                proof {
                    let signature = choose|signature: Seq<char>|
                        #[trigger] is_signature(signature, pairs(params@)) && id@ == entity.name()
                            + ":"@ + signature + ":"@ + day.text();
                    assert(is_signature(signature, report_params_of(*record)->0));
                }
                Some(id)
            },
            _ => None,
        };
    }
    match record.get(entity.id_field()) {
        Some(v) => match v.as_str() {
            Some(t) => if t.is_empty() {
                None
            } else {
                Some(t.to_owned())
            },
            None => match v.as_i64() {
                Some(n) => Some(signed_decimal(n)),
                None => None,
            },
        },
        None => None,
    }
}

/// Reports with the same parameters run on the same day have the same id, and
/// those run on different days have different ones.
pub proof fn report_ids_tell_days_apart(
    entity: EntityType,
    first: Json,
    second: Json,
    a: Seq<char>,
    b: Seq<char>,
    day: Date,
    other: Date,
)
    requires
        has_report_id(first) && has_report_id(second),
        is_report_id(a, entity, first) && is_report_id(b, entity, second),
        report_params_of(first) == report_params_of(second),
        day.in_calendar() && other.in_calendar(),
        field_day(first, "_run_date"@) == Some(day.number()),
        field_day(second, "_run_date"@) == Some(other.number()),
    ensures
        a == b <==> day == other,
{
    number_is_injective(day, date_numbered(day.number()));
    number_is_injective(other, date_numbered(other.number()));
    let s = choose|s: Seq<char>|
        #[trigger] is_signature(s, report_params_of(first)->0) && a == entity.name() + ":"@ + s
            + ":"@ + day.text();
    let t = choose|t: Seq<char>|
        #[trigger] is_signature(t, report_params_of(second)->0) && b == entity.name() + ":"@ + t
            + ":"@ + other.text();
    signature_is_unique(s, t, report_params_of(first)->0);
    let stem = entity.name() + ":"@ + s + ":"@;
    if a == b {
        assert(a.skip(stem.len() as int) =~= day.text());
        assert(b.skip(stem.len() as int) =~= other.text());
        date_text_is_injective(day, other);
    }
}

/// How many records an upsert wrote, left alone or could not identify.
#[derive(Debug, Clone, Copy, PartialEq, Eq, Structural)]
pub struct BronzeUpsertStats {
    pub inserted: i64,
    pub updated: i64,
    pub unchanged: i64,
    pub skipped_invalid: i64,
}

/// What is stored of one of a tenant's entities.
#[derive(Debug)]
pub struct BronzeSummary {
    pub entity_type: String,
    pub row_count: i64,
    pub distinct_runs_touching: i64,
    pub most_recent: Option<Timestamp>,
}

/// One bronze row on its way to BigQuery.
#[derive(Debug)]
pub struct BqRow {
    pub tenant_id: String,
    pub entity_type: String,
    pub record_id: String,
    pub payload: Json,
    pub first_seen_at: Timestamp,
    pub last_seen_at: Timestamp,
    pub last_run_id: u128,
}

/// What the store holds of a record.
#[derive(Debug)]
pub struct StoredRecord {
    pub payload: Json,
    pub first_seen_at: Timestamp,
}

/// What to write of a record.
#[derive(Debug, Clone, Copy, PartialEq, Eq, Structural)]
pub enum BronzeWrite {
    /// The store has no such record.
    Insert,
    /// The store has the record with another payload.
    Update,
    /// The store has the record as it is.
    Keep,
}

/// What to write of a record, given what the store holds of it.
pub open spec fn bronze_write(stored: Option<StoredRecord>, record: Json) -> BronzeWrite {
    match stored {
        None => BronzeWrite::Insert,
        Some(s) => if same_value(s.payload, record) {
            BronzeWrite::Keep
        } else {
            BronzeWrite::Update
        },
    }
}

/// A record that is stored and comes again as it was is left alone, and one that
/// is not stored is inserted: a second upsert of the same records writes nothing.
pub proof fn unchanged_record_is_kept(record: Json, first_seen_at: Timestamp)
    requires
        is_tidy(record),
    ensures
        bronze_write(Some(StoredRecord { payload: record, first_seen_at }), record)
            == BronzeWrite::Keep,
        bronze_write(None, record) == BronzeWrite::Insert,
{
    same_value_is_reflexive(record);
}

/// The counts after one record more, of which so much was written, `None` where it was
/// skipped.
pub open spec fn counted(counts: BronzeUpsertStats, write: Option<BronzeWrite>) -> BronzeUpsertStats {
    match write {
        None => BronzeUpsertStats {
            skipped_invalid: (counts.skipped_invalid + 1) as i64,
            ..counts
        },
        Some(BronzeWrite::Insert) => BronzeUpsertStats {
            inserted: (counts.inserted + 1) as i64,
            ..counts
        },
        Some(BronzeWrite::Update) => BronzeUpsertStats {
            updated: (counts.updated + 1) as i64,
            ..counts
        },
        Some(BronzeWrite::Keep) => BronzeUpsertStats {
            unchanged: (counts.unchanged + 1) as i64,
            ..counts
        },
    }
}

/// An upsert of one entity's records, in order.
#[derive(Debug)]
pub struct BronzeUpsert {
    tenant_id: String,
    entity: EntityType,
    run_id: u128,
    now: Timestamp,
    stats: BronzeUpsertStats,
    accepted: Vec<BqRow>,
}

impl BronzeUpsert {
    pub closed spec fn tenant(self) -> Seq<char> {
        self.tenant_id@
    }

    pub closed spec fn kind(self) -> EntityType {
        self.entity
    }

    pub closed spec fn run(self) -> u128 {
        self.run_id
    }

    pub closed spec fn at(self) -> Timestamp {
        self.now
    }

    pub closed spec fn counts(self) -> BronzeUpsertStats {
        self.stats
    }

    /// The rows that were written, in order.
    pub closed spec fn written(self) -> Seq<BqRow> {
        self.accepted@
    }

    /// Records handled so far.
    pub open spec fn handled(self) -> int {
        self.counts().inserted + self.counts().updated + self.counts().unchanged
            + self.counts().skipped_invalid
    }

    /// What holds after each record: every written row was inserted or updated.
    pub open spec fn balanced(self) -> bool {
        &&& self.counts().inserted >= 0 && self.counts().updated >= 0
        &&& self.counts().unchanged >= 0 && self.counts().skipped_invalid >= 0
        &&& self.written().len() == self.counts().inserted + self.counts().updated
    }

    /// Whether the two are for the same tenant, entity, run and instant.
    pub open spec fn same_run(self, other: BronzeUpsert) -> bool {
        &&& self.tenant() == other.tenant()
        &&& self.kind() == other.kind()
        &&& self.run() == other.run()
        &&& self.at() == other.at()
    }

    /// Whether a row is what the upsert writes of a record, given what the store holds.
    pub open spec fn writes(self, row: BqRow, record: Json, stored: Option<StoredRecord>) -> bool {
        &&& row.tenant_id@ == self.tenant()
        &&& row.entity_type@ == self.kind().name()
        &&& is_record_id(row.record_id@, self.kind(), record)
        &&& row.payload == record
        &&& row.first_seen_at == (match stored {
            Some(s) => s.first_seen_at,
            None => self.at(),
        })
        &&& row.last_seen_at == self.at()
        &&& row.last_run_id == self.run()
    }

    pub fn new(tenant_id: &str, entity: &EntityType, run_id: u128, now: Timestamp) -> (r:
        BronzeUpsert)
        ensures
            r.tenant() == tenant_id@,
            r.kind() == *entity,
            r.run() == run_id,
            r.at() == now,
            r.handled() == 0,
            r.written() == Seq::<BqRow>::empty(),
            r.balanced(),
    {
        BronzeUpsert {
            tenant_id: tenant_id.to_owned(),
            entity: *entity,
            run_id,
            now,
            stats: BronzeUpsertStats { inserted: 0, updated: 0, unchanged: 0, skipped_invalid: 0 },
            accepted: Vec::new(),
        }
    }

    /// Take a record and what the store holds under its id: decide what to write, and
    /// count it. A row that is written keeps the time it was first seen. A record that
    /// has no id is skipped: `None`.
    pub fn take(&mut self, record: Json, stored: Option<StoredRecord>) -> (r: Option<BronzeWrite>)
        requires
            old(self).balanced(),
            old(self).handled() < i64::MAX,
        ensures
            final(self).same_run(*old(self)),
            final(self).balanced(),
            r == (if has_record_id(old(self).kind(), record) {
                Some(bronze_write(stored, record))
            } else {
                None
            }),
            final(self).counts() == counted(old(self).counts(), r),
            if r is None || r == Some(BronzeWrite::Keep) {
                final(self).written() == old(self).written()
            } else {
                let row = final(self).written().last();
                &&& final(self).written() == old(self).written().push(row)
                &&& old(self).writes(row, record, stored)
            },
    {
        let record_id = match record_id_for_entity(&self.entity, &record) {
            Some(id) => id,
            None => {
                self.stats.skipped_invalid = self.stats.skipped_invalid + 1;
                return None;
            },
        };
        let (write, first_seen_at) = match &stored {
            None => (BronzeWrite::Insert, self.now),
            Some(s) => if s.payload.same(&record) {
                (BronzeWrite::Keep, s.first_seen_at)
            } else {
                (BronzeWrite::Update, s.first_seen_at)
            },
        };
        match write {
            BronzeWrite::Keep => {
                self.stats.unchanged = self.stats.unchanged + 1;
                return Some(write);
            },
            BronzeWrite::Update => {
                self.stats.updated = self.stats.updated + 1;
            },
            BronzeWrite::Insert => {
                self.stats.inserted = self.stats.inserted + 1;
            },
        }
        let row = BqRow {
            tenant_id: self.tenant_id.clone(),
            entity_type: self.entity.as_str().to_owned(),
            record_id,
            payload: record,
            first_seen_at,
            last_seen_at: self.now,
            last_run_id: self.run_id,
        };
        self.accepted.push(row);
        Some(write)
    }

    pub fn stats(&self) -> (r: BronzeUpsertStats)
        ensures
            r == self.counts(),
    {
        self.stats
    }

    /// The rows that were written, in order.
    pub fn rows(&self) -> (r: &Vec<BqRow>)
        ensures
            r@ == self.written(),
    {
        &self.accepted
    }

    /// The ids of the rows to mark as streamed, given for each row whether it was
    /// accepted.
    pub fn synced_ids(&self, accepted: &Vec<bool>) -> (r: Vec<String>)
        requires
            accepted@.len() == self.written().len(),
        ensures
            texts(r@) == settled_ids(self.written(), accepted@, self.written().len() as int),
    {
        let mut r: Vec<String> = Vec::new();
        let mut i: usize = 0;
        proof {
            assert(texts(r@) =~= Seq::<Seq<char>>::empty());
        }
        while i < self.accepted.len()
            invariant
                i <= self.accepted.len(),
                accepted@.len() == self.accepted@.len(),
                texts(r@) == settled_ids(self.accepted@, accepted@, i as int),
            decreases self.accepted.len() - i,
        {
            let ghost before = texts(r@);
            if settled(&self.accepted, accepted, i) {
                r.push(self.accepted[i].record_id.clone());
                proof {
                    assert(texts(r@) =~= before.push(self.accepted@[i as int].record_id@));
                }
            }
            i += 1;
        }
        r
    }
}

/// Whether two rows are of the same stored record.
pub open spec fn same_record(a: BqRow, b: BqRow) -> bool {
    a.entity_type@ == b.entity_type@ && a.record_id@ == b.record_id@
}

/// Whether a row's record is streamed in full: the row was accepted, and so was every
/// other row of the same record.
pub open spec fn is_settled(rows: Seq<BqRow>, accepted: Seq<bool>, i: int) -> bool {
    accepted[i] && forall|j: int|
        0 <= j < rows.len() && !accepted[j] ==> !same_record(rows[i], #[trigger] rows[j])
}

/// The ids of the settled rows among the first `n`, in order.
pub open spec fn settled_ids(rows: Seq<BqRow>, accepted: Seq<bool>, n: int) -> Seq<Seq<char>>
    decreases n,
{
    if n <= 0 {
        Seq::empty()
    } else if is_settled(rows, accepted, n - 1) {
        settled_ids(rows, accepted, n - 1).push(rows[n - 1].record_id@)
    } else {
        settled_ids(rows, accepted, n - 1)
    }
}

fn settled(rows: &Vec<BqRow>, accepted: &Vec<bool>, i: usize) -> (r: bool)
    requires
        i < rows@.len(),
        accepted@.len() == rows@.len(),
    ensures
        r == is_settled(rows@, accepted@, i as int),
{
    if !accepted[i] {
        return false;
    }
    let mut j: usize = 0;
    while j < rows.len()
        invariant
            i < rows@.len(),
            j <= rows@.len(),
            accepted@.len() == rows@.len(),
            forall|k: int|
                0 <= k < j && !accepted@[k] ==> !same_record(
                    rows@[i as int],
                    #[trigger] rows@[k],
                ),
        decreases rows.len() - j,
    {
        if !accepted[j] && same(rows[i].entity_type.as_str(), rows[j].entity_type.as_str()) && same(
            rows[i].record_id.as_str(),
            rows[j].record_id.as_str(),
        ) {
            assert(same_record(rows@[i as int], rows@[j as int]));
            return false;
        }
        j += 1;
    }
    true
}

/// Whether the flags say of each row whether it is settled.
pub open spec fn are_settled(flags: Seq<bool>, rows: Seq<BqRow>, accepted: Seq<bool>) -> bool {
    &&& flags.len() == rows.len()
    &&& forall|i: int|
        0 <= i < rows.len() ==> #[trigger] flags[i] == is_settled(rows, accepted, i)
}

/// The entities of rows.
pub open spec fn row_entities(rows: Seq<BqRow>) -> Seq<Seq<char>> {
    Seq::new(rows.len(), |i: int| rows[i].entity_type@)
}

/// The wanted places among the first `n` at which a name stands, in order.
pub open spec fn places_of(
    names: Seq<Seq<char>>,
    wanted: Seq<bool>,
    name: Seq<char>,
    n: int,
) -> Seq<usize>
    decreases n,
{
    if n <= 0 {
        Seq::empty()
    } else {
        let rest = places_of(names, wanted, name, n - 1);
        if wanted[n - 1] && names[n - 1] == name {
            rest.push((n - 1) as usize)
        } else {
            rest
        }
    }
}

/// Whether the groups are those of the wanted places among the first `n`: one for each
/// name that stands there, with its places in order.
pub open spec fn are_groups(
    groups: Seq<(String, Vec<usize>)>,
    names: Seq<Seq<char>>,
    wanted: Seq<bool>,
    n: int,
) -> bool {
    &&& forall|g: int|
        0 <= g < groups.len() ==> (#[trigger] groups[g]).1@ == places_of(
            names,
            wanted,
            groups[g].0@,
            n,
        ) && groups[g].1@.len() > 0
    &&& forall|g: int, h: int|
        0 <= g < h < groups.len() ==> (#[trigger] groups[g]).0@ != (#[trigger] groups[h]).0@
    &&& forall|i: int| 0 <= i < n && wanted[i] ==> has_group(groups, #[trigger] names[i])
}

/// Whether a name has a group.
pub open spec fn has_group(groups: Seq<(String, Vec<usize>)>, name: Seq<char>) -> bool {
    exists|g: int| 0 <= g < groups.len() && (#[trigger] groups[g]).0@ == name
}

/// Group the wanted rows by entity.
pub fn group_rows(rows: &Vec<BqRow>, wanted: &Vec<bool>) -> (r: Vec<(String, Vec<usize>)>)
    requires
        wanted@.len() == rows@.len(),
    ensures
        are_groups(r@, row_entities(rows@), wanted@, rows@.len() as int),
{
    let ghost names = row_entities(rows@);
    let mut groups: Vec<(String, Vec<usize>)> = Vec::new();
    let mut i: usize = 0;
    while i < rows.len()
        invariant
            i <= rows.len(),
            wanted@.len() == rows@.len(),
            names == row_entities(rows@),
            are_groups(groups@, names, wanted@, i as int),
        decreases rows.len() - i,
    {
        if !wanted[i] {
            i += 1;
            continue;
        }
        let ghost before = groups@;
        let name = rows[i].entity_type.as_str();
        proof {
            assert(names[i as int] == name@);
        }
        let mut g: usize = 0;
        while g < groups.len() && !same(groups[g].0.as_str(), name)
            invariant
                g <= groups.len(),
                groups@ == before,
                forall|k: int| 0 <= k < g ==> (#[trigger] before[k]).0@ != name@,
            decreases groups.len() - g,
        {
            g += 1;
        }
        if g < groups.len() {
            groups[g].1.push(i);
            proof {
                let now = groups@;
                assert(now[g as int].0@ == name@);
                assert forall|k: int| 0 <= k < now.len() implies (#[trigger] now[k]).1@
                    == places_of(names, wanted@, now[k].0@, i + 1) && now[k].0@ == before[k].0@ by {
                    if k != g {
                        assert(now[k] == before[k]);
                    } else {
                        assert(before[k].1@ == places_of(names, wanted@, name@, i as int));
                    }
                }
            }
        } else {
            let mut places: Vec<usize> = Vec::new();
            places.push(i);
            proof {
                absent_name(before, names, wanted@, name@, i as int);
            }
            groups.push((name.to_owned(), places));
            proof {
                let now = groups@;
                assert forall|k: int| 0 <= k < now.len() implies (#[trigger] now[k]).1@
                    == places_of(names, wanted@, now[k].0@, i + 1) by {
                    if k < before.len() {
                        assert(now[k] == before[k]);
                    } else {
                        assert(now[k].1@ =~= places_of(names, wanted@, name@, i as int).push(i));
                    }
                }
            }
        }
        proof {
            let now = groups@;
            assert forall|j: int| 0 <= j < i + 1 && wanted@[j] implies has_group(
                now,
                #[trigger] names[j],
            ) by {
                if j < i {
                    assert(has_group(before, names[j]));
                    let h = choose|h: int|
                        0 <= h < before.len() && (#[trigger] before[h]).0@ == names[j];
                    assert(now[h].0@ == names[j]);
                } else {
                    assert(now[g as int].0@ == names[j]);
                }
            }
            assert forall|x: int, y: int| 0 <= x < y < now.len() implies (#[trigger] now[x]).0@ != (
            #[trigger] now[y]).0@ by {
                if y < before.len() {
                    assert(before[x].0@ != before[y].0@);
                    assert(now[x].0@ == before[x].0@);
                    assert(now[y].0@ == before[y].0@);
                } else {
                    assert(now[x].0@ == before[x].0@);
                }
            }
        }
        i += 1;
    }
    groups
}

/// A name that no group has stands at no wanted place.
proof fn absent_name(
    groups: Seq<(String, Vec<usize>)>,
    names: Seq<Seq<char>>,
    wanted: Seq<bool>,
    name: Seq<char>,
    n: int,
)
    requires
        forall|i: int| 0 <= i < n && wanted[i] ==> has_group(groups, #[trigger] names[i]),
        forall|g: int| 0 <= g < groups.len() ==> (#[trigger] groups[g]).0@ != name,
        0 <= n,
    ensures
        places_of(names, wanted, name, n) == Seq::<usize>::empty(),
    decreases n,
{
    if n > 0 {
        assert(!(wanted[n - 1] && names[n - 1] == name)) by {
            if wanted[n - 1] {
                assert(has_group(groups, names[n - 1]));
                let g = choose|g: int|
                    0 <= g < groups.len() && (#[trigger] groups[g]).0@ == names[n - 1];
                assert(groups[g].0@ != name);
            }
        }
        absent_name(groups, names, wanted, name, n - 1);
    }
}

/// Whether the marks are the entities and row ids of the groups.
pub open spec fn are_marks(
    marks: Seq<(String, Vec<String>)>,
    rows: Seq<BqRow>,
    groups: Seq<(String, Vec<usize>)>,
) -> bool {
    &&& marks.len() == groups.len()
    &&& forall|g: int|
        0 <= g < groups.len() ==> (#[trigger] marks[g]).0@ == groups[g].0@ && texts(marks[g].1@)
            == ids_at(rows, groups[g].1@)
}

/// Whether the marks are those of the settled rows, grouped by entity.
pub open spec fn mark_settled(
    marks: Seq<(String, Vec<String>)>,
    rows: Seq<BqRow>,
    accepted: Seq<bool>,
    settled: Seq<bool>,
    groups: Seq<(String, Vec<usize>)>,
) -> bool {
    &&& are_settled(settled, rows, accepted)
    &&& are_groups(groups, row_entities(rows), settled, rows.len() as int)
    &&& are_marks(marks, rows, groups)
}

/// The rows to mark as streamed after a replay, given for each row whether it was
/// accepted: for each entity, the ids of its settled rows.
pub fn replay_marks(rows: &Vec<BqRow>, accepted: &Vec<bool>) -> (r: Vec<(String, Vec<String>)>)
    requires
        accepted@.len() == rows@.len(),
    ensures
        exists|settled: Seq<bool>, groups: Seq<(String, Vec<usize>)>|
            #[trigger] mark_settled(r@, rows@, accepted@, settled, groups),
{
    let mut flags: Vec<bool> = Vec::new();
    let mut i: usize = 0;
    while i < rows.len()
        invariant
            i <= rows.len(),
            accepted@.len() == rows@.len(),
            flags@.len() == i,
            forall|k: int|
                0 <= k < i ==> #[trigger] flags@[k] == is_settled(rows@, accepted@, k),
        decreases rows.len() - i,
    {
        flags.push(settled(rows, accepted, i));
        i += 1;
    }
    let groups = group_rows(rows, &flags);
    let mut r: Vec<(String, Vec<String>)> = Vec::new();
    let mut g: usize = 0;
    while g < groups.len()
        invariant
            g <= groups.len(),
            are_groups(groups@, row_entities(rows@), flags@, rows@.len() as int),
            r@.len() == g,
            forall|k: int|
                0 <= k < g ==> (#[trigger] r@[k]).0@ == groups@[k].0@ && texts(r@[k].1@) == ids_at(
                    rows@,
                    groups@[k].1@,
                ),
        decreases groups.len() - g,
    {
        let places = &groups[g].1;
        let mut ids: Vec<String> = Vec::new();
        let mut k: usize = 0;
        proof {
            assert(rows.len() == rows@.len());
            assert(groups@[g as int].1@ == places_of(
                row_entities(rows@),
                flags@,
                groups@[g as int].0@,
                rows@.len() as int,
            ));
            places_in_range(
                row_entities(rows@),
                flags@,
                groups@[g as int].0@,
                rows@.len() as int,
            );
        }
        while k < places.len()
            invariant
                k <= places.len(),
                forall|j: int| 0 <= j < places@.len() ==> places@[j] < rows@.len(),
                texts(ids@) == ids_at(rows@, places@).take(k as int),
            decreases places.len() - k,
        {
            let ghost before = texts(ids@);
            ids.push(rows[places[k]].record_id.clone());
            k += 1;
            proof {
                let all = ids_at(rows@, places@);
                assert(texts(ids@) =~= before.push(all[k - 1]));
                assert(all.take(k as int) =~= before.push(all[k - 1]));
            }
        }
        proof {
            assert(ids_at(rows@, places@).take(k as int) =~= ids_at(rows@, places@));
        }
        r.push((groups[g].0.clone(), ids));
        g += 1;
    }
    proof {
        assert(mark_settled(r@, rows@, accepted@, flags@, groups@));
    }
    r
}

/// The ids of the rows at the given places.
pub open spec fn ids_at(rows: Seq<BqRow>, places: Seq<usize>) -> Seq<Seq<char>> {
    Seq::new(places.len(), |k: int| rows[places[k] as int].record_id@)
}

proof fn places_in_range(names: Seq<Seq<char>>, wanted: Seq<bool>, name: Seq<char>, n: int)
    requires
        0 <= n <= usize::MAX,
    ensures
        forall|k: int|
            0 <= k < places_of(names, wanted, name, n).len() ==> 0 <= #[trigger] places_of(
                names,
                wanted,
                name,
                n,
            )[k] < n,
    decreases n,
{
    if n > 0 {
        places_in_range(names, wanted, name, n - 1);
        let rest = places_of(names, wanted, name, n - 1);
        assert forall|k: int| 0 <= k < places_of(names, wanted, name, n).len() implies 0
            <= #[trigger] places_of(names, wanted, name, n)[k] < n by {
            if k < rest.len() {
                assert(places_of(names, wanted, name, n)[k] == rest[k]);
            }
        }
    }
}

/// A name's places are the wanted ones where it stands.
proof fn places_are_exact(
    names: Seq<Seq<char>>,
    wanted: Seq<bool>,
    name: Seq<char>,
    n: int,
    i: int,
)
    requires
        0 <= n <= usize::MAX,
        0 <= i <= usize::MAX,
    ensures
        places_of(names, wanted, name, n).contains(i as usize) <==> i < n && wanted[i] && names[i]
            == name,
    decreases n,
{
    if n > 0 {
        places_are_exact(names, wanted, name, n - 1, i);
        let rest = places_of(names, wanted, name, n - 1);
        let all = places_of(names, wanted, name, n);
        if rest.contains(i as usize) {
            let k = choose|k: int| 0 <= k < rest.len() && rest[k] == i as usize;
            assert(all[k] == i as usize);
        }
        if all.contains(i as usize) {
            let k = choose|k: int| 0 <= k < all.len() && all[k] == i as usize;
            if k < rest.len() {
                assert(rest[k] == i as usize);
            }
        }
        if i == n - 1 && wanted[i] && names[i] == name {
            assert(all[all.len() - 1] == i as usize);
        }
    }
}

/// Whether an id is marked under an entity.
pub open spec fn is_marked(
    marks: Seq<(String, Vec<String>)>,
    entity: Seq<char>,
    id: Seq<char>,
) -> bool {
    exists|g: int|
        0 <= g < marks.len() && (#[trigger] marks[g]).0@ == entity && texts(marks[g].1@).contains(
            id,
        )
}

/// A row that was not accepted stays unmarked, so that the next replay picks it up, and
/// a row that was accepted is marked unless another row of its record was not.
pub proof fn rejected_rows_stay_unmarked(
    marks: Seq<(String, Vec<String>)>,
    rows: Seq<BqRow>,
    accepted: Seq<bool>,
    settled: Seq<bool>,
    groups: Seq<(String, Vec<usize>)>,
    i: int,
)
    requires
        mark_settled(marks, rows, accepted, settled, groups),
        0 <= i < rows.len() <= usize::MAX,
    ensures
        !accepted[i] ==> !is_marked(marks, rows[i].entity_type@, rows[i].record_id@),
        is_settled(rows, accepted, i) ==> is_marked(
            marks,
            rows[i].entity_type@,
            rows[i].record_id@,
        ),
{
    let names = row_entities(rows);
    let n = rows.len() as int;
    if is_marked(marks, rows[i].entity_type@, rows[i].record_id@) {
        let g = choose|g: int|
            0 <= g < marks.len() && (#[trigger] marks[g]).0@ == rows[i].entity_type@ && texts(
                marks[g].1@,
            ).contains(rows[i].record_id@);
        let places = groups[g].1@;
        assert(texts(marks[g].1@) == ids_at(rows, places));
        let k = choose|k: int|
            0 <= k < ids_at(rows, places).len() && ids_at(rows, places)[k] == rows[i].record_id@;
        assert(places.contains(places[k]));
        places_are_exact(names, settled, groups[g].0@, n, places[k] as int);
        let j = places[k] as int;
        assert(settled[j]);
        assert(is_settled(rows, accepted, j));
        assert(same_record(rows[j], rows[i]));
    }
    if is_settled(rows, accepted, i) {
        assert(settled[i]);
        assert(has_group(groups, names[i]));
        let g = choose|g: int| 0 <= g < groups.len() && (#[trigger] groups[g]).0@ == names[i];
        let places = groups[g].1@;
        places_are_exact(names, settled, groups[g].0@, n, i);
        let k = choose|k: int| 0 <= k < places.len() && places[k] == i as usize;
        assert(ids_at(rows, places)[k] == rows[i].record_id@);
        assert(texts(marks[g].1@).contains(rows[i].record_id@));
        assert(marks[g].0@ == names[i]);
    }
}

/// How many flags are set among the first `n`.
pub open spec fn set_flags(flags: Seq<bool>, n: int) -> nat
    decreases n,
{
    if n <= 0 {
        0
    } else {
        set_flags(flags, n - 1) + (if flags[n - 1] {
            1nat
        } else {
            0
        })
    }
}

/// How many rows were accepted.
pub fn count_accepted(accepted: &Vec<bool>) -> (r: usize)
    ensures
        r == set_flags(accepted@, accepted@.len() as int),
{
    let mut count: usize = 0;
    let mut i: usize = 0;
    while i < accepted.len()
        invariant
            i <= accepted.len(),
            count <= i,
            count == set_flags(accepted@, i as int),
        decreases accepted.len() - i,
    {
        if accepted[i] {
            count += 1;
        }
        i += 1;
    }
    count
}

/// A sink that streams rows to BigQuery, one table per entity.
#[derive(Debug)]
pub struct BigQueryStreamingSink {
    pub project_id: String,
    pub dataset_id: String,
}

/// One row as it is streamed: its id by which BigQuery deduplicates, and its
/// columns.
#[derive(Debug)]
pub struct BqInsert {
    pub insert_id: String,
    pub columns: Vec<(String, String)>,
}

/// The id of a streamed row: tenant, record and millisecond last seen.
pub open spec fn insert_id_of(row: BqRow) -> Seq<char> {
    row.tenant_id@ + ":"@ + row.record_id@ + ":"@ + signed_numeral(
        row.last_seen_at.unix() * 1000 + row.last_seen_at.subsec() / 1_000_000,
    )
}

/// The columns of a streamed row.
pub open spec fn columns_of(row: BqRow, synced_at: Timestamp) -> Seq<(Seq<char>, Seq<char>)> {
    seq![
        ("tenant_id"@, row.tenant_id@),
        ("record_id"@, row.record_id@),
        ("payload"@, compact(row.payload)),
        ("first_seen_at"@, row.first_seen_at.rfc3339_text()),
        ("last_seen_at"@, row.last_seen_at.rfc3339_text()),
        ("last_run_id"@, uuid_hyphenated(row.last_run_id)),
        ("synced_at"@, synced_at.rfc3339_text()),
    ]
}

/// Whether the row at a place is among the first `n` of a batch, at no failed position.
/// `failed` is `None` where the request failed.
pub open spec fn is_taken(
    batch: Seq<usize>,
    failed: Option<Vec<usize>>,
    place: int,
    n: int,
) -> bool {
    failed matches Some(v) && exists|k: int|
        0 <= k < n && #[trigger] batch[k] == place && !v@.contains(k as usize)
}

/// Whether row errors tell which rows they are about.
pub open spec fn are_located(errors: Seq<Option<i32>>) -> bool {
    forall|i: int| 0 <= i < errors.len() ==> (#[trigger] errors[i] matches Some(n) && n >= 0)
}

/// The failed positions of a request, given the index of each of its row errors. One
/// that does not say which row it is about leaves all of them in doubt: `None`, as where
/// the request failed.
pub fn failed_positions(errors: &Vec<Option<i32>>) -> (r: Option<Vec<usize>>)
    ensures
        match r {
            Some(v) => are_located(errors@) && v@.len() == errors@.len() && forall|i: int|
                0 <= i < v@.len() ==> #[trigger] v@[i] == errors@[i]->0,
            None => !are_located(errors@),
        },
{
    let mut r: Vec<usize> = Vec::new();
    let mut i: usize = 0;
    while i < errors.len()
        invariant
            i <= errors.len(),
            r@.len() == i,
            forall|k: int| 0 <= k < i ==> (#[trigger] errors@[k] matches Some(n) && n >= 0),
            forall|k: int| 0 <= k < i ==> #[trigger] r@[k] == errors@[k]->0,
        decreases errors.len() - i,
    {
        match errors[i] {
            Some(n) => if n >= 0 {
                r.push(n as usize);
            } else {
                assert(errors@[i as int] matches Some(n) && n < 0);
                return None;
            },
            None => {
                assert(errors@[i as int] is None);
                return None;
            },
        }
        i += 1;
    }
    Some(r)
}

fn holds(v: &Vec<usize>, n: usize) -> (r: bool)
    ensures
        r == v@.contains(n),
{
    let mut i: usize = 0;
    while i < v.len()
        invariant
            i <= v.len(),
            forall|k: int| 0 <= k < i ==> v@[k] != n,
        decreases v.len() - i,
    {
        if v[i] == n {
            return true;
        }
        i += 1;
    }
    false
}

impl BigQueryStreamingSink {
    /// The table of an entity.
    pub fn table_id(entity_type: &str) -> (r: String)
        ensures
            r@ == "xero_"@ + entity_type@,
    {
        "xero_".to_owned().concat(entity_type)
    }

    /// A row as it is streamed.
    pub fn insert_row(row: &BqRow, synced_at: &Timestamp) -> (r: BqInsert)
        ensures
            r.insert_id@ == insert_id_of(*row),
            pairs(r.columns@) == columns_of(*row, *synced_at),
    {
        let millis: i64 = row.last_seen_at.unix_millis();
        let insert_id = row.tenant_id.clone().concat(":").concat(row.record_id.as_str()).concat(
            ":",
        ).concat(signed_decimal(millis).as_str());
        let mut columns: Vec<(String, String)> = Vec::new();
        push_pair(&mut columns, "tenant_id", row.tenant_id.as_str());
        push_pair(&mut columns, "record_id", row.record_id.as_str());
        push_pair(&mut columns, "payload", row.payload.to_text().as_str());
        push_pair(&mut columns, "first_seen_at", row.first_seen_at.to_rfc3339().as_str());
        push_pair(&mut columns, "last_seen_at", row.last_seen_at.to_rfc3339().as_str());
        push_pair(&mut columns, "last_run_id", uuid_text(row.last_run_id).as_str());
        push_pair(&mut columns, "synced_at", synced_at.to_rfc3339().as_str());
        proof {
            assert(pairs(columns@) =~= columns_of(*row, *synced_at));
        }
        BqInsert { insert_id, columns }
    }

    /// Take down which rows of a batch were accepted: those at no failed position, none
    /// where the request failed.
    pub fn accept(accepted: &mut Vec<bool>, batch: &Vec<usize>, failed: &Option<Vec<usize>>)
        requires
            forall|k: int| 0 <= k < batch@.len() ==> #[trigger] batch@[k] < old(accepted)@.len(),
        ensures
            final(accepted)@.len() == old(accepted)@.len(),
            forall|p: int|
                0 <= p < old(accepted)@.len() ==> #[trigger] final(accepted)@[p] == (old(
                    accepted,
                )@[p] || is_taken(batch@, *failed, p, batch@.len() as int)),
    {
        let failed = match failed {
            Some(v) => v,
            None => {
                return ;
            },
        };
        let mut k: usize = 0;
        while k < batch.len()
            invariant
                k <= batch.len(),
                accepted@.len() == old(accepted)@.len(),
                forall|k: int|
                    0 <= k < batch@.len() ==> #[trigger] batch@[k] < old(accepted)@.len(),
                forall|p: int|
                    0 <= p < accepted@.len() ==> #[trigger] accepted@[p] == (old(accepted)@[p]
                        || is_taken(batch@, Some(*failed), p, k as int)),
            decreases batch.len() - k,
        {
            let ghost before = accepted@;
            if !holds(failed, k) {
                accepted.set(batch[k], true);
            }
            k += 1;
            proof {
                assert forall|p: int| 0 <= p < accepted@.len() implies #[trigger] accepted@[p] == (
                old(accepted)@[p] || is_taken(batch@, Some(*failed), p, k as int)) by {
                    assert(before[p] == (old(accepted)@[p] || is_taken(
                        batch@,
                        Some(*failed),
                        p,
                        k - 1,
                    )));
                    if is_taken(batch@, Some(*failed), p, k - 1) {
                        let q = choose|q: int|
                            0 <= q < k - 1 && #[trigger] batch@[q] == p && !failed@.contains(
                                q as usize,
                            );
                        assert(batch@[q] == p && !failed@.contains(q as usize));
                    }
                    if accepted@[p] && !before[p] {
                        assert(batch@[k - 1] == p && !failed@.contains((k - 1) as usize));
                    }
                    if is_taken(batch@, Some(*failed), p, k as int) && !is_taken(
                        batch@,
                        Some(*failed),
                        p,
                        k - 1,
                    ) {
                        let q = choose|q: int|
                            0 <= q < k && #[trigger] batch@[q] == p && !failed@.contains(
                                q as usize,
                            );
                        assert(q == k - 1);
                    }
                }
            }
        }
    }

    pub fn is_active(&self) -> (r: bool)
        ensures
            r,
    {
        true
    }
}

/// A failure of streaming.
#[derive(Debug)]
pub enum BqError {
    Init(String),
    Insert(String),
}

impl BqError {
    pub open spec fn text(self) -> Seq<char> {
        match self {
            BqError::Init(m) => "bq init: "@ + m@,
            BqError::Insert(m) => "bq insert: "@ + m@,
        }
    }

    /// The text shown to a user.
    pub fn message(&self) -> (r: String)
        ensures
            r@ == self.text(),
    {
        match self {
            BqError::Init(m) => "bq init: ".to_owned().concat(m.as_str()),
            BqError::Insert(m) => "bq insert: ".to_owned().concat(m.as_str()),
        }
    }
}

/// A sink that streams nothing.
#[derive(Debug)]
pub struct NoopBqSink;

impl NoopBqSink {
    /// Accept no row.
    pub fn insert(&self, rows: &Vec<BqRow>) -> (r: Result<usize, BqError>)
        ensures
            r == Ok::<usize, BqError>(0),
    {
        Ok(0)
    }

    pub fn is_active(&self) -> (r: bool)
        ensures
            !r,
    {
        false
    }
}

/// A record's own id is its identifier field: a text that is not empty, or the numeral of an
/// integer. Without one it has no id.
pub proof fn ids_are_read_from_their_field(entity: EntityType, record: Json, n: i64)
    ensures
        record.field(entity.id_field_name()) is None ==> own_id(entity, record) is None,
        (record.field(entity.id_field_name()) matches Some(v) && (v.chars() matches Some(t)
            && t.len() > 0)) ==> own_id(entity, record) == text_in(record, entity.id_field_name()),
        (record.field(entity.id_field_name()) matches Some(v) && v.chars() == Some(
            Seq::<char>::empty(),
        )) ==> own_id(entity, record) is None,
        (record.field(entity.id_field_name()) matches Some(v) && v == Json::Int(n)) ==> own_id(
            entity,
            record,
        ) == Some(signed_numeral(n as int)),
        own_id(entity, record) matches Some(id) ==> id.len() > 0,
{
    if n < 0 {
        numeral_denotes((-n) as nat);
    } else {
        numeral_denotes(n as nat);
    }
    if let Some(v) = record.field(entity.id_field_name()) {
        if let Some(m) = v.integer() {
            reveal_strlit("-");
            if m < 0 {
                numeral_denotes((-m) as nat);
            } else {
                numeral_denotes(m as nat);
            }
        }
    }
}

/// A record that is no report is stored under its own id, and only under that; a report's
/// record under an id of its report, its parameters and its day.
pub proof fn records_are_stored_under_their_id(
    entity: EntityType,
    record: Json,
    id: Seq<char>,
    other: Seq<char>,
)
    requires
        is_record_id(id, entity, record),
        is_record_id(other, entity, record),
    ensures
        id == other,
        has_record_id(entity, record),
        !EntityType::all_reports_list().contains(entity) ==> own_id(entity, record) == Some(id),
        EntityType::all_reports_list().contains(entity) ==> (entity.name() + ":"@).is_prefix_of(id),
{
    reports_are_recognised(entity);
    if entity.spec_is_report() {
        let day = date_numbered(field_day(record, "_run_date"@)->0).text();
        let s = choose|s: Seq<char>|
            #[trigger] is_signature(s, report_params_of(record)->0) && id == entity.name() + ":"@ + s
                + ":"@ + day;
        let t = choose|t: Seq<char>|
            #[trigger] is_signature(t, report_params_of(record)->0) && other == entity.name() + ":"@
                + t + ":"@ + day;
        signature_is_unique(s, t, report_params_of(record)->0);
        let start = entity.name() + ":"@;
        assert(id.subrange(0, start.len() as int) =~= start);
    }
}

/// A record is inserted if and only if nothing is stored of it, kept if and only if what is
/// stored has the same value, and updated otherwise.
pub proof fn writes_follow_the_store(stored: StoredRecord, record: Json)
    ensures
        bronze_write(None, record) == BronzeWrite::Insert,
        bronze_write(Some(stored), record) == BronzeWrite::Keep <==> same_value(
            stored.payload,
            record,
        ),
        bronze_write(Some(stored), record) == BronzeWrite::Update <==> !same_value(
            stored.payload,
            record,
        ),
{
}

/// A record of which a stored text or integer has changed, or is gone, is updated.
pub proof fn changed_records_are_updated(stored: StoredRecord, record: Json, key: Seq<char>)
    requires
        stored.payload.field(key) matches Some(v) && (v is Text || v is Int) && (match record.field(
            key,
        ) {
            Some(w) => v.chars() != w.chars() || v.integer() != w.integer(),
            None => true,
        }),
    ensures
        bronze_write(Some(stored), record) == BronzeWrite::Update,
{
    if same_value(stored.payload, record) {
        same_objects_have_the_same_fields(stored.payload, record, key);
        same_values_are_of_one_kind(stored.payload.field(key)->0, record.field(key)->0, 0);
    }
}

/// An id is marked as streamed if and only if a row with it was accepted and no row of the
/// same record was not.
#[verifier::rlimit(40)]
pub proof fn settled_ids_are_of_settled_rows(
    rows: Seq<BqRow>,
    accepted: Seq<bool>,
    n: int,
    id: Seq<char>,
)
    requires
        0 <= n <= rows.len(),
    ensures
        settled_ids(rows, accepted, n).contains(id) <==> exists|i: int|
            0 <= i < n && accepted[i] && (#[trigger] rows[i]).record_id@ == id && (forall|j: int|
                0 <= j < rows.len() && !accepted[j] ==> (#[trigger] rows[j]).entity_type@
                    != rows[i].entity_type@ || rows[j].record_id@ != id),
    decreases n,
{
    let ids = settled_ids(rows, accepted, n);
    if n > 0 {
        let front = settled_ids(rows, accepted, n - 1);
        settled_ids_are_of_settled_rows(rows, accepted, n - 1, id);
        if front.contains(id) {
            let k = choose|k: int| 0 <= k < front.len() && front[k] == id;
            assert(ids[k] == id);
        }
        if ids.contains(id) {
            let k = choose|k: int| 0 <= k < ids.len() && ids[k] == id;
            if k < front.len() {
                assert(front[k] == id);
            } else {
                assert(rows[n - 1].record_id@ == id);
                assert(is_settled(rows, accepted, n - 1));
                assert forall|j: int| 0 <= j < rows.len() && !accepted[j] implies (
                #[trigger] rows[j]).entity_type@ != rows[n - 1].entity_type@ || rows[j].record_id@
                    != id by {
                    assert(!same_record(rows[n - 1], rows[j]));
                }
            }
        }
        if exists|i: int|
            0 <= i < n && accepted[i] && (#[trigger] rows[i]).record_id@ == id && (forall|j: int|
                0 <= j < rows.len() && !accepted[j] ==> (#[trigger] rows[j]).entity_type@
                    != rows[i].entity_type@ || rows[j].record_id@ != id) {
            let i = choose|i: int|
                0 <= i < n && accepted[i] && (#[trigger] rows[i]).record_id@ == id && (forall|
                    j: int,
                |
                    0 <= j < rows.len() && !accepted[j] ==> (#[trigger] rows[j]).entity_type@
                        != rows[i].entity_type@ || rows[j].record_id@ != id);
            if i == n - 1 {
                assert(is_settled(rows, accepted, n - 1)) by {
                    assert forall|j: int| 0 <= j < rows.len() && !accepted[j] implies !same_record(
                        rows[n - 1],
                        #[trigger] rows[j],
                    ) by {}
                }
                assert(ids[ids.len() - 1] == id);
            }
        }
    }
}

/// No more rows are counted than there are, and all of them if and only if each was
/// accepted.
pub proof fn accepted_rows_are_counted(flags: Seq<bool>, n: int)
    requires
        0 <= n <= flags.len(),
    ensures
        set_flags(flags, n) <= n,
        set_flags(flags, n) == n <==> forall|i: int| 0 <= i < n ==> #[trigger] flags[i],
        set_flags(flags, n) == 0 <==> forall|i: int| 0 <= i < n ==> !#[trigger] flags[i],
    decreases n,
{
    if n > 0 {
        accepted_rows_are_counted(flags, n - 1);
    }
}

/// A row's id changes with the millisecond in which its record was last seen, and so a later
/// version of a record is not taken for the earlier one.
pub proof fn later_versions_have_other_ids(a: BqRow, b: BqRow)
    requires
        a.tenant_id@ == b.tenant_id@,
        a.record_id@ == b.record_id@,
    ensures
        insert_id_of(a) == insert_id_of(b) <==> a.last_seen_at.unix() * 1000
            + a.last_seen_at.subsec() / 1_000_000 == b.last_seen_at.unix() * 1000
            + b.last_seen_at.subsec() / 1_000_000,
        (a.tenant_id@ + ":"@ + a.record_id@ + ":"@).is_prefix_of(insert_id_of(a)),
{
    let start = a.tenant_id@ + ":"@ + a.record_id@ + ":"@;
    let x = a.last_seen_at.unix() * 1000 + a.last_seen_at.subsec() / 1_000_000;
    let y = b.last_seen_at.unix() * 1000 + b.last_seen_at.subsec() / 1_000_000;
    let s = insert_id_of(a);
    assert(s.subrange(0, start.len() as int) =~= start);
    if insert_id_of(a) == insert_id_of(b) {
        assert(insert_id_of(a).skip(start.len() as int) =~= signed_numeral(x));
        assert(insert_id_of(b).skip(start.len() as int) =~= signed_numeral(y));
        signed_numerals_differ(x, y);
    }
}

/// Of a request that failed no row is taken; of one without failed positions every row of
/// the batch is.
pub proof fn failed_requests_take_nothing(batch: Seq<usize>, failed: Vec<usize>, k: int)
    requires
        0 <= k < batch.len(),
        failed@.len() == 0,
    ensures
        !is_taken(batch, None, batch[k] as int, batch.len() as int),
        is_taken(batch, Some(failed), batch[k] as int, batch.len() as int),
{
    assert(batch[k] == batch[k] as int && !failed@.contains(k as usize));
}

/// A streamed row has its tenant, record, payload, times and run under their names.
pub proof fn rows_are_streamed_by_column(row: BqRow, synced_at: Timestamp)
    ensures
        ({
            let c = columns_of(row, synced_at);
            &&& c.len() == 7
            &&& c.contains(("tenant_id"@, row.tenant_id@))
            &&& c.contains(("record_id"@, row.record_id@))
            &&& c.contains(("payload"@, compact(row.payload)))
            &&& c.contains(("first_seen_at"@, row.first_seen_at.rfc3339_text()))
            &&& c.contains(("last_seen_at"@, row.last_seen_at.rfc3339_text()))
            &&& c.contains(("last_run_id"@, uuid_hyphenated(row.last_run_id)))
            &&& c.contains(("synced_at"@, synced_at.rfc3339_text()))
        }),
{
    let c = columns_of(row, synced_at);
    assert(c[0].0 == "tenant_id"@ && c[1].0 == "record_id"@ && c[2].0 == "payload"@);
    assert(c[3].0 == "first_seen_at"@ && c[4].0 == "last_seen_at"@ && c[5].0 == "last_run_id"@);
    assert(c[6].0 == "synced_at"@);
}

/// Row errors tell which rows they are about if and only if each has a position and none is
/// negative.
pub proof fn unlocated_errors_leave_all_in_doubt(errors: Seq<Option<i32>>, i: int)
    requires
        0 <= i < errors.len(),
    ensures
        errors[i] is None ==> !are_located(errors),
        errors[i] matches Some(n) && n < 0 ==> !are_located(errors),
        are_located(errors) ==> errors[i] is Some && errors[i]->0 >= 0,
        are_located(Seq::<Option<i32>>::empty()),
{
}

/// Each record is counted once, under what became of it; the other counts stay.
pub proof fn records_are_counted_once(c: BronzeUpsertStats, write: Option<BronzeWrite>)
    requires
        0 <= c.inserted < i64::MAX && 0 <= c.updated < i64::MAX,
        0 <= c.unchanged < i64::MAX && 0 <= c.skipped_invalid < i64::MAX,
    ensures
        ({
            let after = counted(c, write);
            &&& after.inserted + after.updated + after.unchanged + after.skipped_invalid
                == c.inserted + c.updated + c.unchanged + c.skipped_invalid + 1
            &&& after.inserted == c.inserted + 1 <==> write == Some(BronzeWrite::Insert)
            &&& after.updated == c.updated + 1 <==> write == Some(BronzeWrite::Update)
            &&& after.unchanged == c.unchanged + 1 <==> write == Some(BronzeWrite::Keep)
            &&& after.skipped_invalid == c.skipped_invalid + 1 <==> write is None
            &&& after.inserted >= c.inserted && after.updated >= c.updated
            &&& after.unchanged >= c.unchanged && after.skipped_invalid >= c.skipped_invalid
        }),
{
}

/// A row that is written holds the record as it came, for the tenant and entity of the upsert,
/// and was last seen now by this run. A record that was stored before keeps the time it was
/// first seen.
pub proof fn written_rows_keep_first_seen(
    upsert: BronzeUpsert,
    row: BqRow,
    record: Json,
    stored: Option<StoredRecord>,
)
    requires
        upsert.writes(row, record, stored),
    ensures
        row.payload == record,
        row.tenant_id@ == upsert.tenant() && row.entity_type@ == upsert.kind().name(),
        is_record_id(row.record_id@, upsert.kind(), record),
        row.last_seen_at == upsert.at() && row.last_run_id == upsert.run(),
        stored matches Some(s) ==> row.first_seen_at == s.first_seen_at,
        stored is None ==> row.first_seen_at == row.last_seen_at,
{
}

} // verus!
