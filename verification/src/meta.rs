//! Custom object metadata (the `x-*` map) and its `.meta.json` sidecar.

use vstd::prelude::*;
use vstd::utf8::encode_utf8;

use crate::json::{is_object, is_tree_of, json_quoted, readable, Json, Part};
use crate::sorted::{
    ascending, ascending_list_is_unique, has_name, map_of, pairs, SortedMap,
};
use crate::text::{decimal, numeral, signed_decimal, signed_numeral};

verus! {

/// Which sync layer produced an object, tagged into `x-sync-type`.
#[derive(Debug, Clone, Copy, PartialEq, Eq, Structural)]
pub enum SyncType {
    /// Rolling window of modification times.
    Incremental,
    /// Status filter, no modified window.
    OpenSweep,
    /// Reload of a range of business dates.
    RollingFull,
    /// Small master-data tables, unfiltered.
    Master,
    /// One-time historical backfill, in chunks of business dates.
    Backfill,
    /// Point-in-time report.
    ReportSnapshot,
}

impl Default for SyncType {
    fn default() -> (r: SyncType)
        ensures
            r == SyncType::Incremental,
    {
        SyncType::Incremental
    }
}

impl SyncType {
    pub open spec fn name(self) -> Seq<char> {
        match self {
            SyncType::Incremental => "incremental"@,
            SyncType::OpenSweep => "open-sweep"@,
            SyncType::RollingFull => "rolling-full"@,
            SyncType::Master => "master"@,
            SyncType::Backfill => "backfill"@,
            SyncType::ReportSnapshot => "report-snapshot"@,
        }
    }

    /// The stable value of the `x-sync-type` key.
    pub fn as_str(&self) -> (r: &'static str)
        ensures
            r@ == self.name(),
    {
        match self {
            SyncType::Incremental => "incremental",
            SyncType::OpenSweep => "open-sweep",
            SyncType::RollingFull => "rolling-full",
            SyncType::Master => "master",
            SyncType::Backfill => "backfill",
            SyncType::ReportSnapshot => "report-snapshot",
        }
    }
}

/// Custom object metadata, in ascending order of its keys.
#[derive(Debug)]
pub struct ObjectMeta {
    map: SortedMap,
}

impl View for ObjectMeta {
    type V = Map<Seq<char>, Seq<char>>;

    /// The map that the list of entries stands for.
    open spec fn view(&self) -> Map<Seq<char>, Seq<char>> {
        map_of(self.list())
    }
}

impl ObjectMeta {
    /// The keys ascend.
    #[verifier::type_invariant]
    pub open spec fn in_order(self) -> bool {
        ascending(self.list())
    }

    /// Keys and values, in ascending order of the keys.
    pub closed spec fn list(self) -> Seq<(Seq<char>, Seq<char>)> {
        self.map.list()
    }

    /// Metadata with the given entries.
    pub fn from_map(map: SortedMap) -> (r: ObjectMeta)
        ensures
            r@ == map@,
            r.list() == map.list(),
    {
        proof {
            use_type_invariant(&map);
        }
        ObjectMeta { map }
    }

    /// The value of a key.
    pub fn get(&self, key: &str) -> (r: Option<&str>)
        ensures
            match r {
                Some(v) => self@.contains_key(key@) && self@[key@] == v@,
                None => !self@.contains_key(key@),
            },
    {
        self.map.get(key)
    }

    /// Number of entries.
    pub fn len(&self) -> (r: usize)
        ensures
            r == self.list().len(),
    {
        self.map.len()
    }

    /// Whether there is no entry.
    pub fn is_empty(&self) -> (r: bool)
        ensures
            r == (self.list().len() == 0),
    {
        self.map.len() == 0
    }

    /// Keys and values, in ascending order of the keys.
    pub fn entries(&self) -> (r: &Vec<(String, String)>)
        ensures
            pairs(r@) == self.list(),
            ascending(pairs(r@)),
    {
        self.map.entries()
    }
}

/// What a page's metadata says. Optional parts are left out where `None`.
#[derive(Debug, Clone, Copy)]
pub struct MetaArgs<'a> {
    pub tenant_id: &'a str,
    pub org_name: &'a str,
    pub endpoint: &'a str,
    pub sync_type: SyncType,
    /// Start of the window of modification times.
    pub modified_after: Option<&'a str>,
    /// First business date of the window.
    pub business_from: Option<&'a str>,
    /// End of the window of business dates.
    pub business_to: Option<&'a str>,
    /// Status or other filter.
    pub where_filter: Option<&'a str>,
    pub page: u32,
    pub record_count: i64,
    pub http_status: u16,
    pub run_id: &'a str,
    pub synced_at: &'a str,
}

impl<'a> Default for MetaArgs<'a> {
    fn default() -> (r: MetaArgs<'a>)
        ensures
            r.tenant_id@ == ""@ && r.org_name@ == ""@ && r.endpoint@ == ""@,
            r.sync_type == SyncType::Incremental,
            r.modified_after is None && r.business_from is None && r.business_to is None,
            r.where_filter is None,
            r.page == 0 && r.record_count == 0 && r.http_status == 0,
            r.run_id@ == ""@ && r.synced_at@ == ""@,
    {
        MetaArgs {
            tenant_id: "",
            org_name: "",
            endpoint: "",
            sync_type: SyncType::Incremental,
            modified_after: None,
            business_from: None,
            business_to: None,
            where_filter: None,
            page: 0,
            record_count: 0,
            http_status: 0,
            run_id: "",
            synced_at: "",
        }
    }
}

/// What a report's metadata says.
#[derive(Debug, Clone, Copy)]
pub struct ReportMetaArgs<'a> {
    pub tenant_id: &'a str,
    pub org_name: &'a str,
    pub endpoint: &'a str,
    /// Name of the report (e.g. `BalanceSheet`).
    pub report: &'a str,
    /// Date of an as-of report.
    pub report_date: Option<&'a str>,
    /// Start of a period report.
    pub report_from: Option<&'a str>,
    /// End of a period report.
    pub report_to: Option<&'a str>,
    /// All parameters, sorted.
    pub report_params: &'a str,
    pub http_status: u16,
    pub record_count: i64,
    pub run_id: &'a str,
    pub synced_at: &'a str,
}

impl<'a> Default for ReportMetaArgs<'a> {
    fn default() -> (r: ReportMetaArgs<'a>)
        ensures
            r.tenant_id@ == ""@ && r.org_name@ == ""@ && r.endpoint@ == ""@ && r.report@ == ""@,
            r.report_date is None && r.report_from is None && r.report_to is None,
            r.report_params@ == ""@,
            r.record_count == 0 && r.http_status == 0,
            r.run_id@ == ""@ && r.synced_at@ == ""@,
    {
        ReportMetaArgs {
            tenant_id: "",
            org_name: "",
            endpoint: "",
            report: "",
            report_date: None,
            report_from: None,
            report_to: None,
            report_params: "",
            http_status: 0,
            record_count: 0,
            run_id: "",
            synced_at: "",
        }
    }
}

/// The fields that every object's metadata has.
pub struct BaseArgs<'a> {
    pub tenant_id: &'a str,
    pub org_name: &'a str,
    pub endpoint: &'a str,
    pub sync_type: SyncType,
    pub http_status: u16,
    pub record_count: i64,
    pub run_id: &'a str,
    pub synced_at: &'a str,
}

pub type TextMap = Map<Seq<char>, Seq<char>>;

/// What every object's metadata says.
pub struct BaseFacts {
    pub tenant_id: Seq<char>,
    pub org_name: Seq<char>,
    pub endpoint: Seq<char>,
    pub sync_type: SyncType,
    pub http_status: u16,
    pub record_count: i64,
    pub run_id: Seq<char>,
    pub synced_at: Seq<char>,
}

/// What a page's metadata says.
pub struct PageFacts {
    pub base: BaseFacts,
    pub page: u32,
    pub modified_after: Option<Seq<char>>,
    pub business_from: Option<Seq<char>>,
    pub business_to: Option<Seq<char>>,
    pub where_filter: Option<Seq<char>>,
}

/// What a report's metadata says.
pub struct ReportFacts {
    pub base: BaseFacts,
    pub report: Seq<char>,
    pub report_date: Option<Seq<char>>,
    pub report_from: Option<Seq<char>>,
    pub report_to: Option<Seq<char>>,
    pub report_params: Seq<char>,
}

/// The characters of an optional text.
pub open spec fn chars_in(s: Option<&str>) -> Option<Seq<char>> {
    match s {
        Some(s) => Some(s@),
        None => None,
    }
}

impl<'a> View for BaseArgs<'a> {
    type V = BaseFacts;

    open spec fn view(&self) -> BaseFacts {
        BaseFacts {
            tenant_id: self.tenant_id@,
            org_name: self.org_name@,
            endpoint: self.endpoint@,
            sync_type: self.sync_type,
            http_status: self.http_status,
            record_count: self.record_count,
            run_id: self.run_id@,
            synced_at: self.synced_at@,
        }
    }
}

impl<'a> View for MetaArgs<'a> {
    type V = PageFacts;

    open spec fn view(&self) -> PageFacts {
        PageFacts {
            base: BaseFacts {
                tenant_id: self.tenant_id@,
                org_name: self.org_name@,
                endpoint: self.endpoint@,
                sync_type: self.sync_type,
                http_status: self.http_status,
                record_count: self.record_count,
                run_id: self.run_id@,
                synced_at: self.synced_at@,
            },
            page: self.page,
            modified_after: chars_in(self.modified_after),
            business_from: chars_in(self.business_from),
            business_to: chars_in(self.business_to),
            where_filter: chars_in(self.where_filter),
        }
    }
}

impl<'a> View for ReportMetaArgs<'a> {
    type V = ReportFacts;

    open spec fn view(&self) -> ReportFacts {
        ReportFacts {
            base: BaseFacts {
                tenant_id: self.tenant_id@,
                org_name: self.org_name@,
                endpoint: self.endpoint@,
                sync_type: SyncType::ReportSnapshot,
                http_status: self.http_status,
                record_count: self.record_count,
                run_id: self.run_id@,
                synced_at: self.synced_at@,
            },
            report: self.report@,
            report_date: chars_in(self.report_date),
            report_from: chars_in(self.report_from),
            report_to: chars_in(self.report_to),
            report_params: self.report_params@,
        }
    }
}

/// The metadata that every object has.
pub open spec fn base_entries(b: BaseFacts) -> TextMap {
    Map::<Seq<char>, Seq<char>>::empty().insert("x-vendor"@, "xero"@).insert(
        "x-tenant-id"@,
        b.tenant_id,
    ).insert("x-org-name"@, b.org_name).insert("x-endpoint"@, b.endpoint).insert(
        "x-api-version"@,
        "2.0"@,
    ).insert("x-sync-type"@, b.sync_type.name()).insert(
        "x-record-count"@,
        signed_numeral(b.record_count as int),
    ).insert("x-http-status"@, numeral(b.http_status as nat)).insert("x-run-id"@, b.run_id).insert(
        "x-synced-at"@,
        b.synced_at,
    )
}

/// An optional entry.
pub open spec fn with(map: TextMap, key: Seq<char>, value: Option<Seq<char>>) -> TextMap {
    match value {
        Some(v) => map.insert(key, v),
        None => map,
    }
}

/// The metadata of a page.
pub open spec fn page_entries(f: PageFacts) -> TextMap {
    let base = base_entries(f.base).insert("x-page"@, numeral(f.page as nat));
    with(
        with(
            with(
                with(base, "x-modified-after"@, f.modified_after),
                "x-business-from"@,
                f.business_from,
            ),
            "x-business-to"@,
            f.business_to,
        ),
        "x-where"@,
        f.where_filter,
    )
}

/// The metadata of a report.
pub open spec fn report_entries(f: ReportFacts) -> TextMap {
    let base = base_entries(f.base).insert("x-report"@, f.report);
    with(
        with(with(base, "x-report-date"@, f.report_date), "x-report-from"@, f.report_from),
        "x-report-to"@,
        f.report_to,
    ).insert("x-report-params"@, f.report_params)
}

/// The metadata that every object has.
pub fn base_map(b: &BaseArgs<'_>) -> (r: SortedMap)
    ensures
        r@ == base_entries(b@),
{
    let mut m = SortedMap::new();
    m.insert("x-vendor", "xero");
    m.insert("x-tenant-id", b.tenant_id);
    m.insert("x-org-name", b.org_name);
    m.insert("x-endpoint", b.endpoint);
    m.insert("x-api-version", "2.0");
    m.insert("x-sync-type", b.sync_type.as_str());
    m.insert("x-record-count", signed_decimal(b.record_count).as_str());
    m.insert("x-http-status", decimal(b.http_status as u64).as_str());
    m.insert("x-run-id", b.run_id);
    m.insert("x-synced-at", b.synced_at);
    m
}

fn insert_some(map: &mut SortedMap, key: &str, value: Option<&str>)
    ensures
        final(map)@ == with(old(map)@, key@, chars_in(value)),
{
    if let Some(v) = value {
        map.insert(key, v);
    }
}

/// The metadata of a page.
pub fn metadata(args: &MetaArgs<'_>) -> (r: ObjectMeta)
    ensures
        r@ == page_entries(args@),
        has_x_keys(r.list()),
{
    let mut m = base_map(
        &BaseArgs {
            tenant_id: args.tenant_id,
            org_name: args.org_name,
            endpoint: args.endpoint,
            sync_type: args.sync_type,
            http_status: args.http_status,
            record_count: args.record_count,
            run_id: args.run_id,
            synced_at: args.synced_at,
        },
    );
    m.insert("x-page", decimal(args.page as u64).as_str());
    insert_some(&mut m, "x-modified-after", args.modified_after);
    insert_some(&mut m, "x-business-from", args.business_from);
    insert_some(&mut m, "x-business-to", args.business_to);
    insert_some(&mut m, "x-where", args.where_filter);
    let r = ObjectMeta::from_map(m);
    proof {
        keys_are_entries(r);
        page_keys(args@);
        assert forall|i: int| 0 <= i < r.list().len() implies is_x_key((#[trigger] r.list()[i]).0) by {
            assert(page_entries(args@).contains_key(r.list()[i].0));
        }
    }
    r
}

/// The metadata of a report.
pub fn report_metadata(args: &ReportMetaArgs<'_>) -> (r: ObjectMeta)
    ensures
        r@ == report_entries(args@),
        has_x_keys(r.list()),
{
    let mut m = base_map(
        &BaseArgs {
            tenant_id: args.tenant_id,
            org_name: args.org_name,
            endpoint: args.endpoint,
            sync_type: SyncType::ReportSnapshot,
            http_status: args.http_status,
            record_count: args.record_count,
            run_id: args.run_id,
            synced_at: args.synced_at,
        },
    );
    m.insert("x-report", args.report);
    insert_some(&mut m, "x-report-date", args.report_date);
    insert_some(&mut m, "x-report-from", args.report_from);
    insert_some(&mut m, "x-report-to", args.report_to);
    m.insert("x-report-params", args.report_params);
    let r = ObjectMeta::from_map(m);
    proof {
        keys_are_entries(r);
        report_keys(args@);
        assert forall|i: int| 0 <= i < r.list().len() implies is_x_key((#[trigger] r.list()[i]).0) by {
            assert(report_entries(args@).contains_key(r.list()[i].0));
        }
    }
    r
}

/// The key of an object's sidecar.
pub fn sidecar_key(object_key: &str) -> (r: String)
    ensures
        r@ == object_key@ + ".meta.json"@,
{
    object_key.to_owned().concat(".meta.json")
}

/// The members of an object of texts as JSON, each on a line of its own.
pub open spec fn pretty_members(list: Seq<(Seq<char>, Seq<char>)>) -> Seq<char>
    decreases list.len(),
{
    if list.len() == 0 {
        ""@
    } else {
        pretty_members(list.drop_last()) + (if list.len() == 1 {
            "\n  "@
        } else {
            ",\n  "@
        }) + json_quoted(list.last().0) + ": "@ + json_quoted(list.last().1)
    }
}

/// An object of texts as JSON, indented by two spaces.
pub open spec fn pretty_text(list: Seq<(Seq<char>, Seq<char>)>) -> Seq<char> {
    if list.len() == 0 {
        "{}"@
    } else {
        "{"@ + pretty_members(list) + "\n}"@
    }
}

/// The bytes of an object of texts as indented JSON.
pub open spec fn pretty_json(list: Seq<(Seq<char>, Seq<char>)>) -> Seq<u8> {
    encode_utf8(pretty_text(list))
}

/// Entries as the members of an object of texts.
pub open spec fn text_parts(list: Seq<(Seq<char>, Seq<char>)>) -> Seq<(Seq<char>, Part)> {
    Seq::new(list.len(), |i: int| (list[i].0, Part::Text(list[i].1)))
}

/// Whether the bytes are read back as a JSON object with the given texts.
pub open spec fn reads_back_as(bytes: Seq<u8>, list: Seq<(Seq<char>, Seq<char>)>) -> bool {
    readable(bytes) && forall|j: Json| #[trigger]
        is_tree_of(j, bytes) ==> is_object(j, text_parts(list))
}

/// Whether a key is an `x-*` key.
pub open spec fn is_x_key(key: Seq<char>) -> bool {
    key.len() > 2 && key[0] == 'x' && key[1] == '-'
}

/// Whether all keys are `x-*` keys.
pub open spec fn has_x_keys(list: Seq<(Seq<char>, Seq<char>)>) -> bool {
    forall|i: int| 0 <= i < list.len() ==> is_x_key((#[trigger] list[i]).0)
}

/// `serde_json::to_vec_pretty` on a `BTreeMap` with the given entries: the object
/// indented by two spaces, the keys in ascending order. It cannot fail on texts. Where
/// all keys are `x-*` keys, `serde_json::from_slice` reads back the same entries; of other
/// keys that is not stated, because the crate gives one key of its own another meaning.
#[verifier::external_body]
fn write_pretty(entries: &Vec<(String, String)>) -> (r: Vec<u8>)
    requires
        ascending(pairs(entries@)),
    ensures
        r@ == pretty_json(pairs(entries@)),
        has_x_keys(pairs(entries@)) ==> reads_back_as(r@, pairs(entries@)),
{
    let map: std::collections::BTreeMap<&String, &String> = entries.iter().map(
        |e| (&e.0, &e.1),
    ).collect();
    serde_json::to_vec_pretty(&map).unwrap()
}

/// The body of an object's sidecar: its metadata as indented JSON, which reads
/// back as the same map.
pub fn sidecar_bytes(meta: &ObjectMeta) -> (r: Vec<u8>)
    ensures
        r@ == pretty_json(meta.list()),
        has_x_keys(meta.list()) ==> reads_back_as(r@, meta.list()),
        ascending(meta.list()),
        map_of(meta.list()) == meta@,
{
    write_pretty(meta.entries())
}

/// An object's metadata is the map of its entries, and says what they are: metadata
/// with the same keys and values has the same entries in the same order, and so the same
/// sidecar.
pub proof fn metadata_is_its_entries(a: ObjectMeta, b: ObjectMeta)
    requires
        a.in_order(),
        b.in_order(),
    ensures
        a@ == map_of(a.list()),
        a@ == b@ ==> a.list() == b.list() && pretty_json(a.list()) == pretty_json(b.list()),
{
    if a@ == b@ {
        ascending_list_is_unique(a.list(), b.list());
    }
}

/// Each key in the list of entries is one of the map.
pub proof fn keys_are_entries(meta: ObjectMeta)
    ensures
        forall|i: int|
            0 <= i < meta.list().len() ==> meta@.contains_key((#[trigger] meta.list()[i]).0),
{
    assert forall|i: int| 0 <= i < meta.list().len() implies meta@.contains_key(
        (#[trigger] meta.list()[i]).0,
    ) by {
        assert(has_name(meta.list(), meta.list()[i].0));
    }
}

/// The keys of a page's metadata are `x-*` keys.
proof fn page_keys(page: PageFacts)
    ensures
        forall|k: Seq<char>| #[trigger] page_entries(page).contains_key(k) ==> is_x_key(k),
{
    metadata_identifies_object(page, ReportFacts {
        base: page.base,
        report: ""@,
        report_date: None,
        report_from: None,
        report_to: None,
        report_params: ""@,
    });
}

/// The keys of a report's metadata are `x-*` keys.
proof fn report_keys(report: ReportFacts)
    ensures
        forall|k: Seq<char>| #[trigger] report_entries(report).contains_key(k) ==> is_x_key(k),
{
    metadata_identifies_object(PageFacts {
        base: report.base,
        page: 1,
        modified_after: None,
        business_from: None,
        business_to: None,
        where_filter: None,
    }, report);
}

/// Every metadata key is an `x-*` key, and the sync layer, tenant, endpoint and
/// run of an object can be told from its metadata.
pub proof fn metadata_identifies_object(page: PageFacts, report: ReportFacts)
    ensures
        forall|k: Seq<char>| #[trigger] page_entries(page).contains_key(k) ==> is_x_key(k),
        forall|k: Seq<char>| #[trigger] report_entries(report).contains_key(k) ==> is_x_key(k),
        page_entries(page)["x-tenant-id"@] == page.base.tenant_id,
        page_entries(page)["x-endpoint"@] == page.base.endpoint,
        page_entries(page)["x-sync-type"@] == page.base.sync_type.name(),
        page_entries(page)["x-run-id"@] == page.base.run_id,
        page_entries(page)["x-page"@] == numeral(page.page as nat),
        report_entries(report)["x-tenant-id"@] == report.base.tenant_id,
        report_entries(report)["x-endpoint"@] == report.base.endpoint,
        report_entries(report)["x-sync-type"@] == report.base.sync_type.name(),
        report_entries(report)["x-run-id"@] == report.base.run_id,
        report_entries(report)["x-report-params"@] == report.report_params,
        !report_entries(report).contains_key("x-page"@),
{
    reveal_strlit("x-vendor");
    reveal_strlit("x-tenant-id");
    reveal_strlit("x-org-name");
    reveal_strlit("x-endpoint");
    reveal_strlit("x-api-version");
    reveal_strlit("x-sync-type");
    reveal_strlit("x-record-count");
    reveal_strlit("x-http-status");
    reveal_strlit("x-run-id");
    reveal_strlit("x-synced-at");
    reveal_strlit("x-page");
    reveal_strlit("x-modified-after");
    reveal_strlit("x-business-from");
    reveal_strlit("x-business-to");
    reveal_strlit("x-where");
    reveal_strlit("x-report");
    reveal_strlit("x-report-date");
    reveal_strlit("x-report-from");
    reveal_strlit("x-report-to");
    reveal_strlit("x-report-params");
    assert("x-http-status"@[2] == 'h' && "x-business-to"@[2] == 'b' && "x-report-from"@[2] == 'r');
    assert("x-report-date"@[9] == 'd' && "x-report-from"@[9] == 'f' && "x-api-version"@[2] == 'a');
    assert("x-tenant-id"@[2] == 't' && "x-sync-type"@[2] == 's' && "x-synced-at"@[2] == 's');
    assert("x-sync-type"@[6] == '-' && "x-synced-at"@[6] == 'e');
    assert("x-endpoint"@[2] == 'e' && "x-org-name"@[2] == 'o' && "x-vendor"@[2] == 'v');
    assert("x-run-id"@[2] == 'r' && "x-report"@[3] == 'e' && "x-run-id"@[3] == 'u');
    assert("x-where"@[2] == 'w' && "x-page"@[2] == 'p');
    assert("x-report-to"@[2] == 'r');
}

/// Every object's metadata shows what it was fetched with: vendor, version, organisation,
/// how many records there are, the status of the reply, and when it was synced.
#[verifier::rlimit(40)]
pub proof fn metadata_shows_the_fetch(page: PageFacts, report: ReportFacts)
    ensures
        page_entries(page)["x-vendor"@] == "xero"@,
        page_entries(page)["x-api-version"@] == "2.0"@,
        page_entries(page)["x-org-name"@] == page.base.org_name,
        page_entries(page)["x-record-count"@] == signed_numeral(page.base.record_count as int),
        page_entries(page)["x-http-status"@] == numeral(page.base.http_status as nat),
        page_entries(page)["x-synced-at"@] == page.base.synced_at,
        report_entries(report)["x-vendor"@] == "xero"@,
        report_entries(report)["x-api-version"@] == "2.0"@,
        report_entries(report)["x-org-name"@] == report.base.org_name,
        report_entries(report)["x-record-count"@] == signed_numeral(
            report.base.record_count as int,
        ),
        report_entries(report)["x-http-status"@] == numeral(report.base.http_status as nat),
        report_entries(report)["x-synced-at"@] == report.base.synced_at,
        report_entries(report)["x-report"@] == report.report,
{
    reveal_strlit("x-vendor");
    reveal_strlit("x-tenant-id");
    reveal_strlit("x-org-name");
    reveal_strlit("x-endpoint");
    reveal_strlit("x-api-version");
    reveal_strlit("x-sync-type");
    reveal_strlit("x-record-count");
    reveal_strlit("x-http-status");
    reveal_strlit("x-run-id");
    reveal_strlit("x-synced-at");
    reveal_strlit("x-page");
    reveal_strlit("x-modified-after");
    reveal_strlit("x-business-from");
    reveal_strlit("x-business-to");
    reveal_strlit("x-where");
    reveal_strlit("x-report");
    reveal_strlit("x-report-date");
    reveal_strlit("x-report-from");
    reveal_strlit("x-report-to");
    reveal_strlit("x-report-params");
    assert("x-vendor"@.len() == 8);
    assert("x-tenant-id"@.len() == 11);
    assert("x-org-name"@.len() == 10);
    assert("x-endpoint"@.len() == 10);
    assert("x-api-version"@.len() == 13);
    assert("x-sync-type"@.len() == 11);
    assert("x-record-count"@.len() == 14);
    assert("x-http-status"@.len() == 13);
    assert("x-run-id"@.len() == 8);
    assert("x-synced-at"@.len() == 11);
    assert("x-page"@.len() == 6);
    assert("x-modified-after"@.len() == 16);
    assert("x-business-from"@.len() == 15);
    assert("x-business-to"@.len() == 13);
    assert("x-where"@.len() == 7);
    assert("x-report"@.len() == 8);
    assert("x-report-date"@.len() == 13);
    assert("x-report-from"@.len() == 13);
    assert("x-report-to"@.len() == 11);
    assert("x-report-params"@.len() == 15);
    assert("x-api-version"@[2] == 'a');
    assert("x-business-from"@[2] == 'b');
    assert("x-business-to"@[2] == 'b');
    assert("x-endpoint"@[2] == 'e');
    assert("x-http-status"@[2] == 'h');
    assert("x-org-name"@[2] == 'o');
    assert("x-report"@[2] == 'r');
    assert("x-report"@[3] == 'e');
    assert("x-report-date"@[2] == 'r');
    assert("x-report-date"@[9] == 'd');
    assert("x-report-from"@[2] == 'r');
    assert("x-report-from"@[9] == 'f');
    assert("x-report-params"@[2] == 'r');
    assert("x-report-to"@[2] == 'r');
    assert("x-run-id"@[2] == 'r');
    assert("x-run-id"@[3] == 'u');
    assert("x-sync-type"@[2] == 's');
    assert("x-sync-type"@[6] == '-');
    assert("x-synced-at"@[2] == 's');
    assert("x-synced-at"@[6] == 'e');
    assert("x-tenant-id"@[2] == 't');
    assert("x-vendor"@[2] == 'v');
}

/// The value of a key, where there is one.
pub open spec fn entry(map: TextMap, key: Seq<char>) -> Option<Seq<char>> {
    if map.contains_key(key) {
        Some(map[key])
    } else {
        None
    }
}

/// A page's metadata shows the window and the filter of its run if and only if the run
/// has them, a report's metadata its period or its day; neither shows what belongs to
/// the other.
#[verifier::rlimit(40)]
pub proof fn metadata_shows_the_window(page: PageFacts, report: ReportFacts)
    ensures
        entry(page_entries(page), "x-modified-after"@) == page.modified_after,
        entry(page_entries(page), "x-business-from"@) == page.business_from,
        entry(page_entries(page), "x-business-to"@) == page.business_to,
        entry(page_entries(page), "x-where"@) == page.where_filter,
        entry(page_entries(page), "x-report"@) is None,
        entry(page_entries(page), "x-report-params"@) is None,
        entry(report_entries(report), "x-report-date"@) == report.report_date,
        entry(report_entries(report), "x-report-from"@) == report.report_from,
        entry(report_entries(report), "x-report-to"@) == report.report_to,
        entry(report_entries(report), "x-modified-after"@) is None,
        entry(report_entries(report), "x-business-from"@) is None,
        entry(report_entries(report), "x-where"@) is None,
{
    reveal_strlit("x-vendor");
    reveal_strlit("x-tenant-id");
    reveal_strlit("x-org-name");
    reveal_strlit("x-endpoint");
    reveal_strlit("x-api-version");
    reveal_strlit("x-sync-type");
    reveal_strlit("x-record-count");
    reveal_strlit("x-http-status");
    reveal_strlit("x-run-id");
    reveal_strlit("x-synced-at");
    reveal_strlit("x-page");
    reveal_strlit("x-modified-after");
    reveal_strlit("x-business-from");
    reveal_strlit("x-business-to");
    reveal_strlit("x-where");
    reveal_strlit("x-report");
    reveal_strlit("x-report-date");
    reveal_strlit("x-report-from");
    reveal_strlit("x-report-to");
    reveal_strlit("x-report-params");
    assert("x-vendor"@.len() == 8);
    assert("x-tenant-id"@.len() == 11);
    assert("x-org-name"@.len() == 10);
    assert("x-endpoint"@.len() == 10);
    assert("x-api-version"@.len() == 13);
    assert("x-sync-type"@.len() == 11);
    assert("x-record-count"@.len() == 14);
    assert("x-http-status"@.len() == 13);
    assert("x-run-id"@.len() == 8);
    assert("x-synced-at"@.len() == 11);
    assert("x-page"@.len() == 6);
    assert("x-modified-after"@.len() == 16);
    assert("x-business-from"@.len() == 15);
    assert("x-business-to"@.len() == 13);
    assert("x-where"@.len() == 7);
    assert("x-report"@.len() == 8);
    assert("x-report-date"@.len() == 13);
    assert("x-report-from"@.len() == 13);
    assert("x-report-to"@.len() == 11);
    assert("x-report-params"@.len() == 15);
    assert("x-api-version"@[2] == 'a');
    assert("x-business-from"@[2] == 'b');
    assert("x-business-to"@[2] == 'b');
    assert("x-endpoint"@[2] == 'e');
    assert("x-http-status"@[2] == 'h');
    assert("x-org-name"@[2] == 'o');
    assert("x-report"@[2] == 'r');
    assert("x-report"@[3] == 'e');
    assert("x-report-date"@[2] == 'r');
    assert("x-report-date"@[9] == 'd');
    assert("x-report-from"@[2] == 'r');
    assert("x-report-from"@[9] == 'f');
    assert("x-report-params"@[2] == 'r');
    assert("x-report-to"@[2] == 'r');
    assert("x-run-id"@[2] == 'r');
    assert("x-run-id"@[3] == 'u');
    assert("x-sync-type"@[2] == 's');
    assert("x-sync-type"@[6] == '-');
    assert("x-synced-at"@[2] == 's');
    assert("x-synced-at"@[6] == 'e');
    assert("x-tenant-id"@[2] == 't');
    assert("x-vendor"@[2] == 'v');
}

/// The sync types have different names.
pub proof fn sync_type_names_differ(a: SyncType, b: SyncType)
    requires
        a.name() == b.name(),
    ensures
        a == b,
{
    reveal_strlit("incremental");
    reveal_strlit("open-sweep");
    reveal_strlit("rolling-full");
    reveal_strlit("master");
    reveal_strlit("backfill");
    reveal_strlit("report-snapshot");
    assert("incremental"@.len() == 11 && "open-sweep"@.len() == 10 && "rolling-full"@.len() == 12);
    assert("master"@.len() == 6 && "backfill"@.len() == 8 && "report-snapshot"@.len() == 15);
}

} // verus!
