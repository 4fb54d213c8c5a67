//! Per-run manifest, written outside the raw prefix so that raw data and audit
//! metadata stay separable:
//!
//! ```text
//! _manifests/xero/{run_date}/{run_id}.json
//! ```

use vstd::arithmetic::power::pow;
use vstd::prelude::*;

use crate::calendar::Date;
use crate::json::{first_member, is_object, is_part, no_member, text_in, Json, Part};
use crate::meta::{has_x_keys, keys_are_entries, ObjectMeta};
use crate::sorted::SortedMap;
use crate::text::{hex_digit, text_of};

verus! {

/// Outcome of one tenant's endpoint within a run.
#[derive(Debug, PartialEq, Eq)]
pub struct EntityOutcome {
    pub tenant: String,
    pub endpoint: String,
    pub pages: u32,
    pub records: i64,
    /// How pagination ended.
    pub termination: String,
    /// Why the endpoint failed, where it did.
    pub error: Option<String>,
}

/// A run: timing, mode, window and the outcome of each endpoint.
#[derive(Debug, PartialEq, Eq)]
pub struct RunManifest {
    pub run_id: String,
    pub started_at: String,
    pub finished_at: String,
    /// Label of the sync mode.
    pub mode: String,
    /// Size of the window in days, where there is one.
    pub window_days: Option<i64>,
    pub entities: Vec<EntityOutcome>,
}

/// The mathematical value of an [`EntityOutcome`].
pub struct OutcomeView {
    pub tenant: Seq<char>,
    pub endpoint: Seq<char>,
    pub pages: int,
    pub records: int,
    pub termination: Seq<char>,
    pub error: Option<Seq<char>>,
}

impl View for EntityOutcome {
    type V = OutcomeView;

    open spec fn view(&self) -> OutcomeView {
        OutcomeView {
            tenant: self.tenant@,
            endpoint: self.endpoint@,
            pages: self.pages as int,
            records: self.records as int,
            termination: self.termination@,
            error: text_of(self.error),
        }
    }
}

/// The mathematical value of a [`RunManifest`].
pub struct ManifestView {
    pub run_id: Seq<char>,
    pub started_at: Seq<char>,
    pub finished_at: Seq<char>,
    pub mode: Seq<char>,
    pub window_days: Option<int>,
    pub entities: Seq<OutcomeView>,
}

/// Outcomes as their mathematical values.
pub open spec fn outcomes(v: Seq<EntityOutcome>) -> Seq<OutcomeView> {
    Seq::new(v.len(), |i: int| v[i]@)
}

impl View for RunManifest {
    type V = ManifestView;

    open spec fn view(&self) -> ManifestView {
        ManifestView {
            run_id: self.run_id@,
            started_at: self.started_at@,
            finished_at: self.finished_at@,
            mode: self.mode@,
            window_days: match self.window_days {
                Some(n) => Some(n as int),
                None => None,
            },
            entities: outcomes(self.entities@),
        }
    }
}

/// The members of an outcome in JSON. There is an `error` only where it failed.
pub open spec fn outcome_parts(o: OutcomeView) -> Seq<(Seq<char>, Part)> {
    let always = seq![
        ("tenant"@, Part::Text(o.tenant)),
        ("endpoint"@, Part::Text(o.endpoint)),
        ("pages"@, Part::Int(o.pages)),
        ("records"@, Part::Int(o.records)),
        ("termination"@, Part::Text(o.termination)),
    ];
    match o.error {
        Some(e) => always.push(("error"@, Part::Text(e))),
        None => always,
    }
}

/// Whether a JSON value is an array of the outcomes.
pub open spec fn are_outcomes(j: Json, list: Seq<OutcomeView>) -> bool {
    &&& j matches Json::Array(items)
    &&& items@.len() == list.len()
    &&& forall|i: int|
        0 <= i < list.len() ==> is_object(#[trigger] items@[i], outcome_parts(list[i]))
}

/// The members of a manifest in JSON that come before its outcomes. There is a
/// `window_days` only where there is a window.
pub open spec fn manifest_parts(m: ManifestView) -> Seq<(Seq<char>, Part)> {
    let always = seq![
        ("run_id"@, Part::Text(m.run_id)),
        ("started_at"@, Part::Text(m.started_at)),
        ("finished_at"@, Part::Text(m.finished_at)),
        ("mode"@, Part::Text(m.mode)),
    ];
    match m.window_days {
        Some(n) => always.push(("window_days"@, Part::Int(n))),
        None => always,
    }
}

/// Whether a JSON value is the manifest.
pub open spec fn is_manifest(j: Json, m: ManifestView) -> bool {
    let parts = manifest_parts(m);
    &&& j matches Json::Object(entries)
    &&& entries@.len() == parts.len() + 1
    &&& forall|i: int|
        0 <= i < parts.len() ==> (#[trigger] entries@[i]).0@ == parts[i].0 && is_part(
            entries@[i].1,
            parts[i].1,
        )
    &&& entries@[parts.len() as int].0@ == "entities"@
    &&& are_outcomes(entries@[parts.len() as int].1, m.entities)
}

/// The whole number under a name that lies in a range.
pub open spec fn number_in(j: Json, key: Seq<char>, low: int, high: int) -> Option<int> {
    match j.field(key) {
        Some(v) => match v.integer() {
            Some(n) => if low <= n <= high {
                Some(n as int)
            } else {
                None
            },
            None => None,
        },
        None => None,
    }
}

/// Whether there is nothing under a name.
pub open spec fn is_absent(j: Json, key: Seq<char>) -> bool {
    match j.field(key) {
        Some(v) => v is Null,
        None => true,
    }
}

/// The outcome that a JSON value describes.
pub open spec fn outcome_in(j: Json) -> Option<OutcomeView> {
    let tenant = text_in(j, "tenant"@);
    let endpoint = text_in(j, "endpoint"@);
    let pages = number_in(j, "pages"@, 0, u32::MAX as int);
    let records = number_in(j, "records"@, i64::MIN as int, i64::MAX as int);
    let termination = text_in(j, "termination"@);
    let error = text_in(j, "error"@);
    if tenant is Some && endpoint is Some && pages is Some && records is Some && termination is Some
        && (error is Some || is_absent(j, "error"@)) {
        Some(
            OutcomeView {
                tenant: tenant->0,
                endpoint: endpoint->0,
                pages: pages->0,
                records: records->0,
                termination: termination->0,
                error,
            },
        )
    } else {
        None
    }
}

/// The outcomes that JSON values describe, where each describes one.
pub open spec fn outcomes_in(items: Seq<Json>) -> Option<Seq<OutcomeView>> {
    if forall|i: int| 0 <= i < items.len() ==> outcome_in(#[trigger] items[i]) is Some {
        Some(Seq::new(items.len(), |i: int| outcome_in(items[i])->0))
    } else {
        None
    }
}

/// The array of outcomes under a name.
pub open spec fn entities_in(j: Json) -> Option<Seq<OutcomeView>> {
    match j.field("entities"@) {
        Some(v) => match v.items() {
            Some(items) => outcomes_in(items),
            None => None,
        },
        None => None,
    }
}

/// The manifest that a JSON value describes.
pub open spec fn manifest_in(j: Json) -> Option<ManifestView> {
    let run_id = text_in(j, "run_id"@);
    let started_at = text_in(j, "started_at"@);
    let finished_at = text_in(j, "finished_at"@);
    let mode = text_in(j, "mode"@);
    let window_days = number_in(j, "window_days"@, i64::MIN as int, i64::MAX as int);
    let entities = entities_in(j);
    if run_id is Some && started_at is Some && finished_at is Some && mode is Some && (
    window_days is Some || is_absent(j, "window_days"@)) && entities is Some {
        Some(
            ManifestView {
                run_id: run_id->0,
                started_at: started_at->0,
                finished_at: finished_at->0,
                mode: mode->0,
                window_days,
                entities: entities->0,
            },
        )
    } else {
        None
    }
}

fn read_text(j: &Json, key: &str) -> (r: Option<String>)
    ensures
        text_of(r) == text_in(*j, key@),
{
    match j.get(key) {
        Some(v) => match v.as_str() {
            Some(t) => Some(t.to_owned()),
            None => None,
        },
        None => None,
    }
}

fn read_number(j: &Json, key: &str, low: i64, high: i64) -> (r: Option<i64>)
    ensures
        match r {
            Some(n) => number_in(*j, key@, low as int, high as int) == Some(n as int),
            None => number_in(*j, key@, low as int, high as int) is None,
        },
{
    match j.get(key) {
        Some(v) => match v.as_i64() {
            Some(n) => if low <= n && n <= high {
                Some(n)
            } else {
                None
            },
            None => None,
        },
        None => None,
    }
}

fn absent(j: &Json, key: &str) -> (r: bool)
    ensures
        r == is_absent(*j, key@),
{
    match j.get(key) {
        Some(Json::Null) => true,
        Some(_) => false,
        None => true,
    }
}

impl EntityOutcome {
    /// The outcome as JSON.
    pub fn to_json(&self) -> (r: Json)
        ensures
            is_object(r, outcome_parts(self@)),
    {
        let mut entries: Vec<(String, Json)> = Vec::new();
        entries.push(("tenant".to_owned(), Json::Text(self.tenant.clone())));
        entries.push(("endpoint".to_owned(), Json::Text(self.endpoint.clone())));
        entries.push(("pages".to_owned(), Json::Int(self.pages as i64)));
        entries.push(("records".to_owned(), Json::Int(self.records)));
        entries.push(("termination".to_owned(), Json::Text(self.termination.clone())));
        if let Some(e) = &self.error {
            entries.push(("error".to_owned(), Json::Text(e.clone())));
        }
        Json::Object(entries)
    }

    /// The outcome that a JSON value describes.
    pub fn from_json(j: &Json) -> (r: Option<EntityOutcome>)
        ensures
            match r {
                Some(o) => outcome_in(*j) == Some(o@),
                None => outcome_in(*j) is None,
            },
    {
        let error = read_text(j, "error");
        if error.is_none() && !absent(j, "error") {
            return None;
        }
        let tenant = read_text(j, "tenant")?;
        let endpoint = read_text(j, "endpoint")?;
        let pages: u32 = read_number(j, "pages", 0, u32::MAX as i64)? as u32;
        let records: i64 = read_number(j, "records", i64::MIN, i64::MAX)?;
        let termination = read_text(j, "termination")?;
        Some(EntityOutcome { tenant, endpoint, pages, records, termination, error })
    }
}

impl RunManifest {
    /// The manifest as JSON.
    pub fn to_json(&self) -> (r: Json)
        ensures
            is_manifest(r, self@),
    {
        let mut entries: Vec<(String, Json)> = Vec::new();
        entries.push(("run_id".to_owned(), Json::Text(self.run_id.clone())));
        entries.push(("started_at".to_owned(), Json::Text(self.started_at.clone())));
        entries.push(("finished_at".to_owned(), Json::Text(self.finished_at.clone())));
        entries.push(("mode".to_owned(), Json::Text(self.mode.clone())));
        if let Some(n) = self.window_days {
            entries.push(("window_days".to_owned(), Json::Int(n)));
        }
        let mut items: Vec<Json> = Vec::new();
        let mut i: usize = 0;
        while i < self.entities.len()
            invariant
                i <= self.entities.len(),
                items@.len() == i,
                forall|k: int|
                    0 <= k < i ==> is_object(
                        #[trigger] items@[k],
                        outcome_parts(self.entities@[k]@),
                    ),
            decreases self.entities.len() - i,
        {
            items.push(self.entities[i].to_json());
            i += 1;
        }
        entries.push(("entities".to_owned(), Json::Array(items)));
        Json::Object(entries)
    }

    /// The manifest that a JSON value describes.
    pub fn from_json(j: &Json) -> (r: Option<RunManifest>)
        ensures
            match r {
                Some(m) => manifest_in(*j) == Some(m@),
                None => manifest_in(*j) is None,
            },
    {
        let window_days = read_number(j, "window_days", i64::MIN, i64::MAX);
        if window_days.is_none() && !absent(j, "window_days") {
            return None;
        }
        let run_id = read_text(j, "run_id")?;
        let started_at = read_text(j, "started_at")?;
        let finished_at = read_text(j, "finished_at")?;
        let mode = read_text(j, "mode")?;
        let items = match j.get("entities") {
            Some(v) => v.as_array()?,
            None => {
                return None;
            },
        };
        let mut entities: Vec<EntityOutcome> = Vec::new();
        let mut i: usize = 0;
        while i < items.len()
            invariant
                i <= items.len(),
                entities@.len() == i,
                j.field("entities"@) matches Some(v) && v.items() == Some(items@),
                forall|k: int|
                    0 <= k < i ==> outcome_in(#[trigger] items@[k]) == Some(entities@[k]@),
            decreases items.len() - i,
        {
            match EntityOutcome::from_json(&items[i]) {
                Some(o) => entities.push(o),
                None => {
                    return None;
                },
            }
            i += 1;
        }
        proof {
            assert(outcomes_in(items@)->0 =~= outcomes(entities@));
        }
        Some(RunManifest { run_id, started_at, finished_at, mode, window_days, entities })
    }
}

/// What a manifest's JSON describes is the manifest.
pub proof fn manifest_reads_back(j: Json, m: RunManifest)
    requires
        is_manifest(j, m@),
    ensures
        manifest_in(j) == Some(m@),
{
    let entries = j->Object_0@;
    let parts = manifest_parts(m@);
    reveal_strlit("run_id");
    reveal_strlit("started_at");
    reveal_strlit("finished_at");
    reveal_strlit("mode");
    reveal_strlit("window_days");
    reveal_strlit("entities");
    assert("run_id"@[0] == 'r' && "started_at"@[0] == 's' && "finished_at"@[0] == 'f');
    assert("mode"@[0] == 'm' && "window_days"@[0] == 'w' && "entities"@[0] == 'e');
    first_member(entries, 0);
    first_member(entries, 1);
    first_member(entries, 2);
    first_member(entries, 3);
    first_member(entries, 4);
    if m.window_days is Some {
        first_member(entries, 5);
    } else {
        no_member(entries, "window_days"@);
    }
    let items = entries[parts.len() as int].1->Array_0@;
    assert forall|i: int| 0 <= i < items.len() implies outcome_in(#[trigger] items[i]) == Some(
        m.entities@[i]@,
    ) by {
        outcome_reads_back(items[i], m.entities@[i]);
    }
    assert(outcomes_in(items)->0 =~= outcomes(m.entities@));
}

/// What an outcome's JSON describes is the outcome.
pub proof fn outcome_reads_back(j: Json, o: EntityOutcome)
    requires
        is_object(j, outcome_parts(o@)),
    ensures
        outcome_in(j) == Some(o@),
{
    let entries = j->Object_0@;
    reveal_strlit("tenant");
    reveal_strlit("endpoint");
    reveal_strlit("pages");
    reveal_strlit("records");
    reveal_strlit("termination");
    reveal_strlit("error");
    assert("tenant"@[2] == 'n' && "termination"@[2] == 'r' && "tenant"@[0] == 't');
    assert("endpoint"@[1] == 'n' && "error"@[1] == 'r' && "endpoint"@[0] == 'e');
    assert("pages"@[0] == 'p' && "records"@[0] == 'r' && "error"@[0] == 'e');
    assert("termination"@[0] == 't');
    first_member(entries, 0);
    first_member(entries, 1);
    first_member(entries, 2);
    first_member(entries, 3);
    first_member(entries, 4);
    if o.error is Some {
        first_member(entries, 5);
    } else {
        no_member(entries, "error"@);
    }
}

/// The 32 hexadecimal digits of a UUID.
pub open spec fn uuid_digits(id: u128) -> Seq<char> {
    Seq::new(32, |i: int| hex_digit((id as int / pow(16, (31 - i) as nat)) % 16))
}

/// A UUID in hyphenated form.
pub open spec fn uuid_hyphenated(id: u128) -> Seq<char> {
    let d = uuid_digits(id);
    d.subrange(0, 8) + "-"@ + d.subrange(8, 12) + "-"@ + d.subrange(12, 16) + "-"@ + d.subrange(
        16,
        20,
    ) + "-"@ + d.subrange(20, 32)
}

/// `uuid::Uuid` shown through its `Display`: the hyphenated form in lower case.
#[verifier::external_body]
pub(crate) fn uuid_text(id: u128) -> (r: String)
    ensures
        r@ == uuid_hyphenated(id),
{
    uuid::Uuid::from_u128(id).to_string()
}

/// `uuid::Uuid::new_v4`: a random UUID. Nothing is claimed of it.
#[verifier::external_body]
pub(crate) fn random_uuid() -> u128 {
    uuid::Uuid::new_v4().as_u128()
}

/// What `uuid::Uuid::parse_str` reads from a text: the UUID, or what is wrong with
/// the text.
pub uninterp spec fn uuid_value(text: Seq<char>) -> Result<u128, Seq<char>>;

/// Whether a reading of a text is that of the UUID which the text is the hyphenated
/// form of, where it is one.
pub open spec fn reads_hyphenated(text: Seq<char>, id: Option<u128>) -> bool {
    forall|u: u128| text == #[trigger] uuid_hyphenated(u) ==> id == Some(u)
}

/// `uuid::Uuid::parse_str`, a failure by its text. It reads a UUID's hyphenated form
/// as that UUID.
#[verifier::external_body]
pub(crate) fn parse_uuid(text: &str) -> (r: Result<u128, String>)
    ensures
        match r {
            Ok(id) => uuid_value(text@) == Ok::<u128, Seq<char>>(id),
            Err(m) => uuid_value(text@) == Err::<u128, Seq<char>>(m@),
        },
        reads_hyphenated(text@, r.ok()),
{
    uuid::Uuid::parse_str(text).map(|id| id.as_u128()).map_err(|e| e.to_string())
}

/// The key of a run's manifest.
pub open spec fn manifest_path(run_date: Date, run_id: u128) -> Seq<char> {
    "_manifests/xero"@ + "/"@ + run_date.text() + "/"@ + uuid_hyphenated(run_id) + ".json"@
}

/// The key of a run's manifest.
pub fn manifest_key(run_date: Date, run_id: u128) -> (r: String)
    ensures
        r@ == manifest_path(run_date, run_id),
{
    "_manifests/xero".to_owned().concat("/").concat(run_date.to_text().as_str()).concat("/").concat(
        uuid_text(run_id).as_str(),
    ).concat(".json")
}

/// Metadata of a manifest: vendor and kind.
pub open spec fn manifest_entries() -> Map<Seq<char>, Seq<char>> {
    Map::<Seq<char>, Seq<char>>::empty().insert("x-vendor"@, "xero"@).insert(
        "x-sync-type"@,
        "manifest"@,
    )
}

/// Metadata of a manifest: vendor and kind.
pub fn manifest_meta() -> (r: ObjectMeta)
    ensures
        r@ == manifest_entries(),
        has_x_keys(r.list()),
{
    let mut map = SortedMap::new();
    map.insert("x-vendor", "xero");
    map.insert("x-sync-type", "manifest");
    let r = ObjectMeta::from_map(map);
    proof {
        keys_are_entries(r);
        reveal_strlit("x-vendor");
        reveal_strlit("x-sync-type");
    }
    r
}

/// A manifest lies below the manifests of its day and is named by its run.
pub proof fn manifests_are_named_by_day_and_run(run_date: Date, run_id: u128)
    ensures
        ("_manifests/xero/"@ + run_date.text() + "/"@).is_prefix_of(
            manifest_path(run_date, run_id),
        ),
        ("/"@ + uuid_hyphenated(run_id) + ".json"@).is_suffix_of(manifest_path(run_date, run_id)),
{
    reveal_strlit("_manifests/xero/");
    reveal_strlit("_manifests/xero");
    reveal_strlit("/");
    let key = manifest_path(run_date, run_id);
    let a = "_manifests/xero/"@ + run_date.text() + "/"@;
    let z = "/"@ + uuid_hyphenated(run_id) + ".json"@;
    assert("_manifests/xero"@ + "/"@ =~= "_manifests/xero/"@);
    assert(key.subrange(0, a.len() as int) =~= a);
    assert(key.subrange(key.len() - z.len(), key.len() as int) =~= z);
}

/// An outcome is shown with an error if and only if it has one, and a manifest with days if
/// and only if it has a window.
pub proof fn errors_and_windows_are_shown_where_they_are(o: OutcomeView, m: ManifestView)
    ensures
        outcome_parts(o).len() == (if o.error is Some {
            6int
        } else {
            5
        }),
        o.error matches Some(e) ==> outcome_parts(o).last() == ("error"@, Part::Text(e)),
        manifest_parts(m).len() == (if m.window_days is Some {
            5int
        } else {
            4
        }),
        m.window_days matches Some(n) ==> manifest_parts(m).last() == ("window_days"@, Part::Int(
            n,
        )),
{
}

} // verus!
