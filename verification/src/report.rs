//! Parameters of a report as of a day.

use vstd::prelude::*;

use crate::calendar::{date_text_is_injective, date_text_is_plain, Date};
use crate::query::{default_reports_are_of_today, parts_before, report_defaults};
use crate::sorted::{
    before, has_name, order_irreflexive, order_total, order_transitive, pairs, push_pair,
    text_before,
};
use crate::text::{starts_with, text_of, texts};
use crate::types::{reports_are_recognised, EntityType};

verus! {

/// Parameters of one report, and its period as key and metadata show it.
#[derive(Debug)]
pub struct ReportSpec {
    /// Query parameters that pin the report to the day.
    pub extra: Vec<(String, String)>,
    /// The business period in the object's key (e.g. `asof-2026-06-17`).
    pub period_key: String,
    /// `x-report-date`, for reports as of a day.
    pub report_date: Option<String>,
    /// `x-report-from`, for reports over a period.
    pub report_from: Option<String>,
    /// `x-report-to`, for reports over a period.
    pub report_to: Option<String>,
}

/// Texts joined by a separator.
pub open spec fn joined(parts: Seq<Seq<char>>, sep: Seq<char>) -> Seq<char>
    decreases parts.len(),
{
    if parts.len() == 0 {
        Seq::empty()
    } else if parts.len() == 1 {
        parts[0]
    } else {
        joined(parts.drop_last(), sep) + sep + parts.last()
    }
}

/// Whether texts are in order, equal ones side by side.
pub open spec fn in_text_order(s: Seq<Seq<char>>) -> bool {
    forall|i: int, j: int|
        0 <= i < j < s.len() ==> !text_before(#[trigger] s[j], #[trigger] s[i])
}

/// Each parameter as `name=value`.
pub open spec fn assignments(list: Seq<(Seq<char>, Seq<char>)>) -> Seq<Seq<char>> {
    Seq::new(list.len(), |i: int| list[i].0 + "="@ + list[i].1)
}

/// Whether `sorted` holds the same texts as `all`, in order.
pub open spec fn is_sorted_of(sorted: Seq<Seq<char>>, all: Seq<Seq<char>>) -> bool {
    in_text_order(sorted) && sorted.to_multiset() == all.to_multiset()
}

/// Whether `r` is the signature of the parameters: each as `name=value`, sorted,
/// joined by `&`.
pub open spec fn is_signature(r: Seq<char>, list: Seq<(Seq<char>, Seq<char>)>) -> bool {
    exists|sorted: Seq<Seq<char>>|
        #[trigger] is_sorted_of(sorted, assignments(list)) && r == joined(sorted, "&"@)
}

/// Put a text into a list in order.
fn insert_text(list: &mut Vec<String>, text: String)
    requires
        in_text_order(texts(old(list)@)),
    ensures
        in_text_order(texts(final(list)@)),
        texts(final(list)@).to_multiset() == texts(
            old(list)@,
        ).to_multiset().insert(text@),
{
    broadcast use vstd::seq_lib::group_to_multiset_ensures;

    let ghost start = texts(list@);
    let mut i: usize = 0;
    while i < list.len() && !before(text.as_str(), list[i].as_str())
        invariant
            i <= list.len(),
            start == texts(list@),
            list@ == old(list)@,
            forall|k: int| 0 <= k < i ==> !text_before(text@, #[trigger] start[k]),
        decreases list.len() - i,
    {
        i += 1;
    }
    let ghost t = text@;
    list.insert(i, text);
    proof {
        let now = texts(list@);
        assert(now =~= start.insert(i as int, t));
        vstd::seq_lib::to_multiset_insert(start, i as int, t);
        assert forall|a: int, b: int| 0 <= a < b < now.len() implies !text_before(
            #[trigger] now[b],
            #[trigger] now[a],
        ) by {
            if b < i {
                assert(!text_before(start[b], start[a]));
            } else if b == i {
            } else if a < i {
                assert(!text_before(start[b - 1], start[a]));
            } else if a == i {
                if text_before(start[b - 1], t) {
                    order_transitive(start[b - 1], t, start[i as int]);
                    if b - 1 > i {
                        assert(!text_before(start[b - 1], start[i as int]));
                    } else {
                        order_irreflexive(t);
                        order_irreflexive(start[i as int]);
                    }
                }
            } else {
                assert(!text_before(start[b - 1], start[a - 1]));
            }
        }
    }
}

impl ReportSpec {
    /// All parameters, sorted, as one text.
    pub fn params_signature(&self) -> (r: String)
        ensures
            is_signature(r@, pairs(self.extra@)),
    {
        signature_of(&self.extra)
    }
}

/// The signature of parameters: each as `name=value`, sorted, joined by `&`.
pub fn signature_of(extra: &Vec<(String, String)>) -> (r: String)
    ensures
        is_signature(r@, pairs(extra@)),
{
    broadcast use vstd::seq_lib::group_to_multiset_ensures;

    let ghost all = assignments(pairs(extra@));
    let mut sorted: Vec<String> = Vec::new();
    let mut i: usize = 0;
    proof {
        assert(texts(sorted@) =~= all.take(0));
    }
    while i < extra.len()
        invariant
            i <= extra.len(),
            all == assignments(pairs(extra@)),
            in_text_order(texts(sorted@)),
            texts(sorted@).to_multiset() == all.take(i as int).to_multiset(),
        decreases extra.len() - i,
    {
        let text = extra[i].0.clone().concat("=").concat(extra[i].1.as_str());
        proof {
            assert(text@ == all[i as int]);
            assert(all.take(i + 1) =~= all.take(i as int).push(all[i as int]));
            vstd::seq_lib::to_multiset_build(all.take(i as int), all[i as int]);
            assert(all.take(i + 1).to_multiset() =~= all.take(i as int).to_multiset().insert(
                text@,
            ));
        }
        insert_text(&mut sorted, text);
        i += 1;
    }
    proof {
        assert(all.take(i as int) =~= all);
        assert(is_sorted_of(texts(sorted@), all));
    }
    join(&sorted, "&")
}

/// Parameters have one signature.
pub proof fn signature_is_unique(a: Seq<char>, b: Seq<char>, list: Seq<(Seq<char>, Seq<char>)>)
    requires
        is_signature(a, list),
        is_signature(b, list),
    ensures
        a == b,
{
    let x = choose|s: Seq<Seq<char>>|
        #[trigger] is_sorted_of(s, assignments(list)) && a == joined(s, "&"@);
    let y = choose|s: Seq<Seq<char>>|
        #[trigger] is_sorted_of(s, assignments(list)) && b == joined(s, "&"@);
    text_order_is_unique(x, y);
}

/// Join texts by a separator.
pub fn join(parts: &Vec<String>, sep: &str) -> (r: String)
    ensures
        r@ == joined(texts(parts@), sep@),
{
    let ghost all = texts(parts@);
    if parts.len() == 0 {
        return String::new();
    }
    let mut r = parts[0].clone();
    let mut i: usize = 1;
    while i < parts.len()
        invariant
            1 <= i <= parts.len(),
            all == texts(parts@),
            r@ == joined(all.take(i as int), sep@),
        decreases parts.len() - i,
    {
        proof {
            assert(all.take(i + 1).drop_last() =~= all.take(i as int));
            assert(all.take(i + 1).last() == parts@[i as int]@);
        }
        r.append(sep);
        r.append(parts[i].as_str());
        i += 1;
    }
    proof {
        assert(all.take(i as int) =~= all);
    }
    r
}

/// Whether a report covers a period rather than a day.
pub open spec fn is_period_report(entity: EntityType) -> bool {
    entity == EntityType::ReportProfitAndLoss || entity == EntityType::ReportBankSummary
}

/// Whether the parameters are those of a report as of a day: the day itself, or
/// the month up to it.
pub open spec fn is_report_spec(s: ReportSpec, entity: EntityType, as_of: Date) -> bool {
    if is_period_report(entity) {
        exists|from: Date|
            {
                &&& #[trigger] from.y() == as_of.y() && from.m() == as_of.m() && from.d() == 1
                &&& pairs(s.extra@) == seq![("fromDate"@, from.text()), ("toDate"@, as_of.text())]
                &&& s.period_key@ == from.text() + "_"@ + as_of.text()
                &&& s.report_date is None
                &&& text_of(s.report_from) == Some(from.text())
                &&& text_of(s.report_to) == Some(as_of.text())
            }
    } else {
        &&& pairs(s.extra@) == seq![("date"@, as_of.text())]
        &&& s.period_key@ == "asof-"@ + as_of.text()
        &&& text_of(s.report_date) == Some(as_of.text())
        &&& s.report_from is None
        &&& s.report_to is None
    }
}

/// The parameters of a report as of a day. Reports over a period cover the month
/// up to the day.
pub fn report_params(entity: &EntityType, as_of: Date) -> (r: ReportSpec)
    ensures
        is_report_spec(r, *entity, as_of),
{
    let day = as_of.to_text();
    let mut extra: Vec<(String, String)> = Vec::new();
    if *entity == EntityType::ReportProfitAndLoss || *entity == EntityType::ReportBankSummary {
        proof {
            use_type_invariant(&as_of);
        }
        let from = match Date::from_ymd_opt(as_of.year(), as_of.month(), 1) {
            Some(d) => d,
            None => as_of,
        };
        let start = from.to_text();
        push_pair(&mut extra, "fromDate", start.as_str());
        push_pair(&mut extra, "toDate", day.as_str());
        proof {
            assert(pairs(extra@) =~= seq![("fromDate"@, from.text()), ("toDate"@, as_of.text())]);
            assert(from.y() == as_of.y());
        }
        ReportSpec {
            extra,
            period_key: start.clone().concat("_").concat(day.as_str()),
            report_date: None,
            report_from: Some(start),
            report_to: Some(day),
        }
    } else {
        push_pair(&mut extra, "date", day.as_str());
        proof {
            assert(pairs(extra@) =~= seq![("date"@, as_of.text())]);
        }
        ReportSpec {
            extra,
            period_key: "asof-".to_owned().concat(day.as_str()),
            report_date: Some(day),
            report_from: None,
            report_to: None,
        }
    }
}

proof fn least_is_first(a: Seq<Seq<char>>, x: Seq<char>)
    requires
        in_text_order(a),
        a.contains(x),
    ensures
        a.len() > 0,
        !text_before(x, a[0]),
{
    let k = choose|k: int| 0 <= k < a.len() && a[k] == x;
    if k == 0 {
        order_irreflexive(x);
    } else {
        assert(!text_before(a[k], a[0]));
    }
}

/// The signature does not depend on the order in which the parameters are given:
/// two ordered lists of the same texts are the same list.
pub proof fn text_order_is_unique(a: Seq<Seq<char>>, b: Seq<Seq<char>>)
    requires
        in_text_order(a),
        in_text_order(b),
        a.to_multiset() == b.to_multiset(),
    ensures
        a == b,
    decreases a.len(),
{
    broadcast use vstd::seq_lib::group_to_multiset_ensures;

    assert(a.len() == a.to_multiset().len());
    assert(b.len() == b.to_multiset().len());
    if a.len() == 0 {
        assert(a =~= b);
    } else {
        let x = a[0];
        let y = b[0];
        assert(a.contains(x));
        assert(b.contains(y));
        assert(a.to_multiset().count(x) > 0);
        assert(b.to_multiset().count(x) > 0);
        assert(b.contains(x));
        assert(b.to_multiset().count(y) > 0);
        assert(a.to_multiset().count(y) > 0);
        assert(a.contains(y));
        least_is_first(a, y);
        least_is_first(b, x);
        order_total(x, y);
        assert(x == y);
        let c = a.remove(0);
        let d = b.remove(0);
        vstd::seq_lib::to_multiset_remove(a, 0);
        vstd::seq_lib::to_multiset_remove(b, 0);
        assert forall|i: int, j: int| 0 <= i < j < c.len() implies !text_before(
            #[trigger] c[j],
            #[trigger] c[i],
        ) by {
            assert(!text_before(a[j + 1], a[i + 1]));
        }
        assert forall|i: int, j: int| 0 <= i < j < d.len() implies !text_before(
            #[trigger] d[j],
            #[trigger] d[i],
        ) by {
            assert(!text_before(b[j + 1], b[i + 1]));
        }
        text_order_is_unique(c, d);
        assert(a =~= seq![x] + c);
        assert(b =~= seq![y] + d);
    }
}

/// The name of a report: its path below `Reports/`.
pub open spec fn report_title(path: Seq<char>) -> Seq<char> {
    if "Reports/"@.is_prefix_of(path) {
        path.skip("Reports/"@.len() as int)
    } else {
        path
    }
}

/// The name of a report, e.g. `BalanceSheet`.
pub fn report_name(entity: &EntityType) -> (r: String)
    ensures
        r@ == report_title(entity.path()),
{
    let path = entity.xero_path();
    if starts_with(path, "Reports/") {
        proof {
            reveal_strlit("Reports/");
        }
        let name = path.substring_char(8, path.unicode_len());
        proof {
            assert(name@ =~= path@.skip(8));
        }
        name.to_owned()
    } else {
        path.to_owned()
    }
}

/// The reports over a period are profit and loss and the bank summary. Each is asked for
/// from the first of the month to the day, and filed under both days.
pub proof fn period_reports_cover_the_month(s: ReportSpec, entity: EntityType, as_of: Date)
    requires
        is_report_spec(s, entity, as_of),
        entity == EntityType::ReportProfitAndLoss || entity == EntityType::ReportBankSummary,
    ensures
        pairs(s.extra@).len() == 2,
        pairs(s.extra@)[0].0 == "fromDate"@,
        pairs(s.extra@)[1] == ("toDate"@, as_of.text()),
        exists|first: Date|
            {
                &&& #[trigger] first.y() == as_of.y()
                &&& first.m() == as_of.m()
                &&& first.d() == 1
                &&& first.number() == as_of.number() - as_of.d() + 1
                &&& pairs(s.extra@)[0].1 == first.text()
                &&& s.period_key@ == first.text() + "_"@ + as_of.text()
                &&& text_of(s.report_from) == Some(first.text())
            },
        text_of(s.report_to) == Some(as_of.text()),
        s.report_date is None,
{
    let first = choose|from: Date|
        {
            &&& #[trigger] from.y() == as_of.y() && from.m() == as_of.m() && from.d() == 1
            &&& pairs(s.extra@) == seq![("fromDate"@, from.text()), ("toDate"@, as_of.text())]
            &&& s.period_key@ == from.text() + "_"@ + as_of.text()
            &&& s.report_date is None
            &&& text_of(s.report_from) == Some(from.text())
            &&& text_of(s.report_to) == Some(as_of.text())
        };
    assert(first.y() == as_of.y());
}

/// Every other report is asked for and filed as of the day.
pub proof fn other_reports_are_of_the_day(s: ReportSpec, entity: EntityType, as_of: Date)
    requires
        is_report_spec(s, entity, as_of),
        entity != EntityType::ReportProfitAndLoss && entity != EntityType::ReportBankSummary,
    ensures
        pairs(s.extra@) == seq![("date"@, as_of.text())],
        s.period_key@ == "asof-"@ + as_of.text(),
        text_of(s.report_date) == Some(as_of.text()),
        s.report_from is None && s.report_to is None,
{
}

/// A snapshot of a report takes a period if and only if the report by its defaults does,
/// and a day if and only if by its defaults it does.
pub proof fn snapshots_are_named_as_defaults(
    s: ReportSpec,
    entity: EntityType,
    as_of: Date,
    today: Date,
)
    requires
        is_report_spec(s, entity, as_of),
        EntityType::all_reports_list().contains(entity),
    ensures
        has_name(pairs(s.extra@), "fromDate"@) <==> has_name(
            report_defaults(entity, today),
            "fromDate"@,
        ),
        has_name(pairs(s.extra@), "toDate"@) <==> has_name(
            report_defaults(entity, today),
            "toDate"@,
        ),
        has_name(pairs(s.extra@), "date"@) <==> has_name(report_defaults(entity, today), "date"@),
        s.report_date is Some <==> has_name(report_defaults(entity, today), "date"@),
{
    reveal_strlit("date");
    reveal_strlit("fromDate");
    reveal_strlit("toDate");
    assert("date"@.len() == 4 && "fromDate"@.len() == 8 && "toDate"@.len() == 6);
    reports_are_recognised(entity);
    default_reports_are_of_today(entity, today);
    let sent = pairs(s.extra@);
    if entity == EntityType::ReportProfitAndLoss || entity == EntityType::ReportBankSummary {
        period_reports_cover_the_month(s, entity, as_of);
        assert(sent[0].0 == "fromDate"@ && sent[1].0 == "toDate"@);
    } else {
        other_reports_are_of_the_day(s, entity, as_of);
        assert(sent[0].0 == "date"@);
    }
}

/// Snapshots of one report as of different days are filed under different periods.
pub proof fn periods_tell_days_apart(
    s: ReportSpec,
    t: ReportSpec,
    entity: EntityType,
    a: Date,
    b: Date,
)
    requires
        a.in_calendar() && b.in_calendar(),
        is_report_spec(s, entity, a),
        is_report_spec(t, entity, b),
        s.period_key@ == t.period_key@,
    ensures
        a == b,
{
    reveal_strlit("asof-");
    reveal_strlit("_");
    if entity == EntityType::ReportProfitAndLoss || entity == EntityType::ReportBankSummary {
        let x = period_start(s, entity, a);
        let y = period_start(t, entity, b);
        date_text_is_plain(x);
        date_text_is_plain(y);
        parts_before("_"@, x.text(), a.text(), y.text(), b.text());
    } else {
        assert(s.period_key@.skip(5) =~= a.text());
        assert(t.period_key@.skip(5) =~= b.text());
    }
    date_text_is_injective(a, b);
}

proof fn period_start(s: ReportSpec, entity: EntityType, as_of: Date) -> (r: Date)
    requires
        as_of.in_calendar(),
        is_report_spec(s, entity, as_of),
        entity == EntityType::ReportProfitAndLoss || entity == EntityType::ReportBankSummary,
    ensures
        r.in_calendar(),
        s.period_key@ == r.text() + "_"@ + as_of.text(),
{
    period_reports_cover_the_month(s, entity, as_of);
    choose|first: Date|
        {
            &&& #[trigger] first.y() == as_of.y()
            &&& first.m() == as_of.m()
            &&& first.d() == 1
            &&& first.number() == as_of.number() - as_of.d() + 1
            &&& pairs(s.extra@)[0].1 == first.text()
            &&& s.period_key@ == first.text() + "_"@ + as_of.text()
            &&& text_of(s.report_from) == Some(first.text())
        }
}

/// A report's name is what follows `Reports/` in its path; another entity's is its path.
pub proof fn titles_follow_paths(entity: EntityType)
    ensures
        entity.spec_is_report() ==> "Reports/"@ + report_title(entity.path()) == entity.path(),
        !entity.spec_is_report() ==> report_title(entity.path()) == entity.path(),
{
    reports_are_recognised(entity);
    if entity.spec_is_report() {
        assert("Reports/"@ + report_title(entity.path()) =~= entity.path());
    }
}

/// Joined texts are as long as their parts and the separators between them, begin with
/// the first part and end with the last.
pub proof fn joined_parts_stay(parts: Seq<Seq<char>>, sep: Seq<char>)
    requires
        parts.len() > 1,
    ensures
        joined(parts, sep).len() == joined(parts.drop_last(), sep).len() + sep.len()
            + parts.last().len(),
        (joined(parts.drop_last(), sep) + sep).is_prefix_of(joined(parts, sep)),
        (sep + parts.last()).is_suffix_of(joined(parts, sep)),
        joined(parts.take(1), sep) == parts[0],
{
    let a = joined(parts.drop_last(), sep) + sep;
    let s = joined(parts, sep);
    let z = sep + parts.last();
    assert(s.subrange(0, a.len() as int) =~= a);
    assert(s.subrange(s.len() - z.len(), s.len() as int) =~= z);
}

} // verus!
