//! Object keys of the raw layout.
//!
//! The builders are deterministic: the caller supplies the compact UTC
//! timestamp (`ts`, e.g. `20260617T030001Z`).
//!
//! ```text
//! {prefix}/{tenant}/2.0/{endpoint}/{run_date}/{ts}_{run_id}_p{page:03}.json
//! ```

use vstd::prelude::*;

use crate::calendar::{date_text_is_plain, is_date_char, Date};
use crate::text::{
    chars_of, decimal, digits_number, is_digit, lower_char, numeral, occurrences, occurrences_add,
    occurrences_none, padded, padded_denotes,
};

verus! {

/// The segment character that a character becomes: an ASCII letter or digit in
/// lower case, an underscore for anything else.
pub open spec fn segment_char(c: char) -> char {
    if ('a' <= c && c <= 'z') || ('0' <= c && c <= '9') {
        c
    } else if 'A' <= c && c <= 'Z' {
        ((c as u8 + 32) as u8) as char
    } else {
        '_'
    }
}

/// An identifier as a path segment.
pub open spec fn segment(s: Seq<char>) -> Seq<char> {
    Seq::new(s.len(), |i: int| segment_char(s[i]))
}

/// Make an identifier a slash-free, lower-case path segment: any character that
/// is not an ASCII letter or digit becomes `_`, so that `Reports/ProfitAndLoss`
/// becomes `reports_profitandloss` and cannot create a phantom folder.
pub fn sanitize_segment(s: &str) -> (r: String)
    ensures
        r@ == segment(s@),
{
    let v = chars_of(s);
    let mut r = String::new();
    let mut i: usize = 0;
    while i < v.len()
        invariant
            i <= v.len(),
            v@ == s@,
            r@ == segment(s@).take(i as int),
        decreases v.len() - i,
    {
        let c = v[i];
        if ('a' <= c && c <= 'z') || ('0' <= c && c <= '9') {
            r.push(c);
        } else if 'A' <= c && c <= 'Z' {
            r.push((c as u8 + 32) as char);
        } else {
            r.push('_');
        }
        i += 1;
        proof {
            assert(segment(s@).take(i as int) =~= segment(s@).take(i - 1).push(
                segment_char(s@[i - 1]),
            ));
        }
    }
    proof {
        assert(segment(s@).take(i as int) =~= segment(s@));
    }
    r
}

/// A segment holds lower-case ASCII letters, digits and underscores alone: no
/// slash among them.
pub proof fn segment_is_safe(s: Seq<char>)
    ensures
        segment(s).len() == s.len(),
        forall|i: int|
            0 <= i < s.len() ==> {
                let c = #[trigger] segment(s)[i];
                ('a' <= c && c <= 'z') || ('0' <= c && c <= '9') || c == '_'
            },
        occurrences('/', segment(s)) == 0,
{
    occurrences_none('/', segment(s));
}

/// A segment stays as it is.
pub proof fn segment_is_idempotent(s: Seq<char>)
    ensures
        segment(segment(s)) == segment(s),
{
    segment_is_safe(s);
    assert(segment(segment(s)) =~= segment(s));
}

/// The part of a key that all objects of one endpoint and run have in common.
pub open spec fn run_stem(
    prefix: Seq<char>,
    tenant: Seq<char>,
    endpoint: Seq<char>,
    run_date: Date,
    ts: Seq<char>,
    run_id: Seq<char>,
) -> Seq<char> {
    prefix + "/"@ + tenant + "/"@ + "2.0"@ + "/"@ + segment(endpoint) + "/"@ + run_date.text()
        + "/"@ + ts + "_"@ + segment(run_id)
}

/// The key of a page.
pub open spec fn page_key(
    prefix: Seq<char>,
    tenant: Seq<char>,
    endpoint: Seq<char>,
    run_date: Date,
    ts: Seq<char>,
    run_id: Seq<char>,
    page: nat,
) -> Seq<char> {
    run_stem(prefix, tenant, endpoint, run_date, ts, run_id) + "_p"@ + padded(page, 3) + ".json"@
}

/// The key of a report.
pub open spec fn report_key(
    prefix: Seq<char>,
    tenant: Seq<char>,
    endpoint: Seq<char>,
    run_date: Date,
    ts: Seq<char>,
    run_id: Seq<char>,
    period_key: Seq<char>,
) -> Seq<char> {
    run_stem(prefix, tenant, endpoint, run_date, ts, run_id) + "__"@ + segment(period_key)
        + ".json"@
}

fn stem(
    prefix: &str,
    tenant: &str,
    endpoint: &str,
    run_date: &Date,
    ts: &str,
    run_id_short: &str,
) -> (r: String)
    ensures
        r@ == run_stem(prefix@, tenant@, endpoint@, *run_date, ts@, run_id_short@),
{
    prefix.to_owned().concat("/").concat(tenant).concat("/").concat("2.0").concat("/").concat(
        sanitize_segment(endpoint).as_str(),
    ).concat("/").concat(run_date.to_text().as_str()).concat("/").concat(ts).concat("_").concat(
        sanitize_segment(run_id_short).as_str(),
    )
}

/// The numeral of `n`, with leading zeros up to three digits.
pub fn three_digits(n: u32) -> (r: String)
    ensures
        r@ == padded(n as nat, 3),
{
    let digits = decimal(n as u64);
    proof {
        numeral_length(n as nat);
    }
    if n < 10 {
        let r = "00".to_owned().concat(digits.as_str());
        proof {
            reveal_strlit("00");
            assert(r@ =~= padded(n as nat, 3));
        }
        r
    } else if n < 100 {
        let r = "0".to_owned().concat(digits.as_str());
        proof {
            reveal_strlit("0");
            assert(r@ =~= padded(n as nat, 3));
        }
        r
    } else {
        proof {
            assert(digits@ =~= padded(n as nat, 3));
        }
        digits
    }
}

proof fn numeral_length(n: nat)
    ensures
        n < 10 ==> numeral(n).len() == 1,
        10 <= n < 100 ==> numeral(n).len() == 2,
        n >= 100 ==> numeral(n).len() >= 3,
    decreases n,
{
    if n >= 10 {
        numeral_length(n / 10);
    }
}

/// The object key for one page of an endpoint.
pub fn object_key(
    prefix: &str,
    tenant: &str,
    endpoint: &str,
    run_date: Date,
    ts: &str,
    run_id_short: &str,
    page: u32,
) -> (r: String)
    ensures
        r@ == page_key(
            prefix@,
            tenant@,
            endpoint@,
            run_date,
            ts@,
            run_id_short@,
            page as nat,
        ),
{
    stem(prefix, tenant, endpoint, &run_date, ts, run_id_short).concat("_p").concat(
        three_digits(page).as_str(),
    ).concat(".json")
}

/// The object key for a report: the business period stands where a page has its
/// number.
pub fn report_object_key(
    prefix: &str,
    tenant: &str,
    endpoint: &str,
    run_date: Date,
    ts: &str,
    run_id_short: &str,
    period_key: &str,
) -> (r: String)
    ensures
        r@ == report_key(
            prefix@,
            tenant@,
            endpoint@,
            run_date,
            ts@,
            run_id_short@,
            period_key@,
        ),
{
    stem(prefix, tenant, endpoint, &run_date, ts, run_id_short).concat("__").concat(
        sanitize_segment(period_key).as_str(),
    ).concat(".json")
}

/// A date's text has no slash.
pub proof fn date_text_has_no_slash(date: Date)
    requires
        date.in_calendar(),
    ensures
        occurrences('/', date.text()) == 0,
{
    date_text_is_plain(date);
    assert forall|i: int| 0 <= i < date.text().len() implies date.text()[i] != '/' by {
        assert(is_date_char(date.text()[i]));
    }
    occurrences_none('/', date.text());
}

proof fn stem_slashes(
    prefix: Seq<char>,
    tenant: Seq<char>,
    endpoint: Seq<char>,
    run_date: Date,
    ts: Seq<char>,
    run_id: Seq<char>,
)
    requires
        run_date.in_calendar(),
    ensures
        occurrences('/', run_stem(prefix, tenant, endpoint, run_date, ts, run_id)) == occurrences(
            '/',
            prefix,
        ) + occurrences('/', tenant) + occurrences('/', ts) + 5,
{
    let c = '/';
    reveal_strlit("/");
    reveal_strlit("2.0");
    reveal_strlit("_");
    assert("/"@.drop_last() =~= Seq::<char>::empty());
    assert(occurrences(c, "/"@.drop_last()) == 0);
    assert(occurrences(c, "/"@) == 1);
    occurrences_none(c, "2.0"@);
    occurrences_none(c, "_"@);
    segment_is_safe(endpoint);
    segment_is_safe(run_id);
    date_text_has_no_slash(run_date);
    let a1 = prefix + "/"@;
    let a2 = a1 + tenant;
    let a3 = a2 + "/"@;
    let a4 = a3 + "2.0"@;
    let a5 = a4 + "/"@;
    let a6 = a5 + segment(endpoint);
    let a7 = a6 + "/"@;
    let a8 = a7 + run_date.text();
    let a9 = a8 + "/"@;
    let a10 = a9 + ts;
    let a11 = a10 + "_"@;
    occurrences_add(c, prefix, "/"@);
    occurrences_add(c, a1, tenant);
    occurrences_add(c, a2, "/"@);
    occurrences_add(c, a3, "2.0"@);
    occurrences_add(c, a4, "/"@);
    occurrences_add(c, a5, segment(endpoint));
    occurrences_add(c, a6, "/"@);
    occurrences_add(c, a7, run_date.text());
    occurrences_add(c, a8, "/"@);
    occurrences_add(c, a9, ts);
    occurrences_add(c, a10, "_"@);
    occurrences_add(c, a11, segment(run_id));
}

/// A key has a fixed number of folders: whatever the endpoint, the run id and
/// the period hold, the only slashes besides the prefix's, the tenant's and the
/// timestamp's own are the five of the layout.
pub proof fn keys_have_fixed_depth(
    prefix: Seq<char>,
    tenant: Seq<char>,
    endpoint: Seq<char>,
    run_date: Date,
    ts: Seq<char>,
    run_id: Seq<char>,
    page: nat,
    period_key: Seq<char>,
)
    requires
        run_date.in_calendar(),
    ensures
        occurrences('/', page_key(prefix, tenant, endpoint, run_date, ts, run_id, page))
            == occurrences('/', prefix) + occurrences('/', tenant) + occurrences('/', ts) + 5,
        occurrences('/', report_key(prefix, tenant, endpoint, run_date, ts, run_id, period_key))
            == occurrences('/', prefix) + occurrences('/', tenant) + occurrences('/', ts) + 5,
{
    let c = '/';
    let s = run_stem(prefix, tenant, endpoint, run_date, ts, run_id);
    stem_slashes(prefix, tenant, endpoint, run_date, ts, run_id);
    reveal_strlit("_p");
    reveal_strlit("__");
    reveal_strlit(".json");
    occurrences_none(c, "_p"@);
    occurrences_none(c, "__"@);
    occurrences_none(c, ".json"@);
    padded_denotes(page, 3);
    assert forall|i: int| 0 <= i < padded(page, 3).len() implies padded(page, 3)[i] != c by {
        assert(is_digit(padded(page, 3)[i]));
    }
    occurrences_none(c, padded(page, 3));
    segment_is_safe(period_key);
    occurrences_add(c, s, "_p"@);
    occurrences_add(c, s + "_p"@, padded(page, 3));
    occurrences_add(c, s + "_p"@ + padded(page, 3), ".json"@);
    occurrences_add(c, s, "__"@);
    occurrences_add(c, s + "__"@, segment(period_key));
    occurrences_add(c, s + "__"@ + segment(period_key), ".json"@);
}

/// Two pages of one run never share a key.
pub proof fn page_keys_are_distinct(
    prefix: Seq<char>,
    tenant: Seq<char>,
    endpoint: Seq<char>,
    run_date: Date,
    ts: Seq<char>,
    run_id: Seq<char>,
    page: nat,
    other: nat,
)
    requires
        page != other,
    ensures
        page_key(prefix, tenant, endpoint, run_date, ts, run_id, page) != page_key(
            prefix,
            tenant,
            endpoint,
            run_date,
            ts,
            run_id,
            other,
        ),
{
    let a = page_key(prefix, tenant, endpoint, run_date, ts, run_id, page);
    let b = page_key(prefix, tenant, endpoint, run_date, ts, run_id, other);
    let s = run_stem(prefix, tenant, endpoint, run_date, ts, run_id) + "_p"@;
    let n = s.len() as int;
    padded_denotes(page, 3);
    padded_denotes(other, 3);
    if a == b {
        assert(a.len() == b.len());
        assert(a.subrange(n, a.len() - ".json"@.len()) =~= padded(page, 3));
        assert(b.subrange(n, b.len() - ".json"@.len()) =~= padded(other, 3));
        assert(digits_number(padded(page, 3)) == digits_number(padded(other, 3)));
    }
}

/// Runs at different times never share a key: with timestamps of the same length,
/// the keys of a run's pages differ from those of another run, whatever the run ids
/// and the page numbers, and so do the keys of its reports.
pub proof fn keys_tell_timestamps_apart(
    prefix: Seq<char>,
    tenant: Seq<char>,
    endpoint: Seq<char>,
    run_date: Date,
    ts: Seq<char>,
    other_ts: Seq<char>,
    tail: Seq<char>,
    other_tail: Seq<char>,
    run_id: Seq<char>,
    other_run_id: Seq<char>,
)
    requires
        ts.len() == other_ts.len(),
        ts != other_ts,
    ensures
        run_stem(prefix, tenant, endpoint, run_date, ts, run_id) + tail != run_stem(
            prefix,
            tenant,
            endpoint,
            run_date,
            other_ts,
            other_run_id,
        ) + other_tail,
{
    let folder = prefix + "/"@ + tenant + "/"@ + "2.0"@ + "/"@ + segment(endpoint) + "/"@
        + run_date.text() + "/"@;
    let a = run_stem(prefix, tenant, endpoint, run_date, ts, run_id) + tail;
    let b = run_stem(prefix, tenant, endpoint, run_date, other_ts, other_run_id) + other_tail;
    let n = folder.len() as int;
    let k = ts.len() as int;
    assert(a.subrange(n, n + k) =~= ts);
    assert(b.subrange(n, n + k) =~= other_ts);
}

/// A segment keeps digits and lower-case letters as they are and capitals in lower case;
/// every other character becomes an underscore.
pub proof fn segment_keeps_letters_and_digits(s: Seq<char>, i: int)
    requires
        0 <= i < s.len(),
    ensures
        is_digit(s[i]) || ('a' <= s[i] && s[i] <= 'z') ==> segment(s)[i] == s[i],
        'A' <= s[i] && s[i] <= 'Z' ==> segment(s)[i] == lower_char(s[i]),
        segment(s)[i] == '_' <==> !(is_digit(s[i]) || ('a' <= s[i] && s[i] <= 'z') || ('A' <= s[i]
            && s[i] <= 'Z')),
{
}

/// An object lies in the folder of its tenant, API version, endpoint and day, and its
/// name begins with the timestamp. A page ends with its number, a report with its period.
#[verifier::rlimit(40)]
pub proof fn objects_lie_in_their_folder(
    prefix: Seq<char>,
    tenant: Seq<char>,
    endpoint: Seq<char>,
    run_date: Date,
    ts: Seq<char>,
    run_id: Seq<char>,
    page: nat,
    period_key: Seq<char>,
)
    ensures
        ({
            let folder = prefix + "/"@ + tenant + "/2.0/"@ + segment(endpoint) + "/"@
                + run_date.text() + "/"@;
            let p = page_key(prefix, tenant, endpoint, run_date, ts, run_id, page);
            let r = report_key(prefix, tenant, endpoint, run_date, ts, run_id, period_key);
            &&& (folder + ts + "_"@ + segment(run_id)).is_prefix_of(p)
            &&& (folder + ts + "_"@ + segment(run_id)).is_prefix_of(r)
            &&& ("_p"@ + padded(page, 3) + ".json"@).is_suffix_of(p)
            &&& ("__"@ + segment(period_key) + ".json"@).is_suffix_of(r)
        }),
{
    reveal_strlit("/");
    reveal_strlit("2.0");
    reveal_strlit("/2.0/");
    let folder = prefix + "/"@ + tenant + "/2.0/"@ + segment(endpoint) + "/"@ + run_date.text()
        + "/"@;
    let s = run_stem(prefix, tenant, endpoint, run_date, ts, run_id);
    let start = folder + ts + "_"@ + segment(run_id);
    assert("/"@ + "2.0"@ + "/"@ =~= "/2.0/"@);
    assert(s =~= prefix + "/"@ + tenant + ("/"@ + "2.0"@ + "/"@) + segment(endpoint) + "/"@
        + run_date.text() + "/"@ + ts + "_"@ + segment(run_id));
    assert(s == start);
    let p = page_key(prefix, tenant, endpoint, run_date, ts, run_id, page);
    let r = report_key(prefix, tenant, endpoint, run_date, ts, run_id, period_key);
    let x = "_p"@ + padded(page, 3) + ".json"@;
    let y = "__"@ + segment(period_key) + ".json"@;
    assert(p.subrange(0, s.len() as int) =~= s);
    assert(r.subrange(0, s.len() as int) =~= s);
    assert(p.subrange(p.len() - x.len(), p.len() as int) =~= x);
    assert(r.subrange(r.len() - y.len(), r.len() as int) =~= y);
}

} // verus!
