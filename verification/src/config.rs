//! Configuration from environment variables.

use vstd::prelude::*;

use crate::calendar::Date;
use crate::error::{Error, ErrorView};
use crate::manifest::manifest_path;
use crate::sorted::{assigned, has_name, map_of, pairs, place, SortedMap};
use crate::text::{
    chars_of, decimal, digits_read_as_their_number, is_core, is_digit, is_space, lower, numeral,
    numeral_denotes, numerals_read_back, parse_signed, parse_unsigned, same, signed_numeral,
    signed_numerals_read_back, signed_value, starts_with, text_of, to_lower, trim, trimmed,
    trimming_keeps_the_core, unsigned_value,
};

verus! {

/// Environment variables by name.
pub type Env = Map<Seq<char>, Seq<char>>;

/// The value of a variable without white space around it, unless it is unset or
/// blank.
pub open spec fn env_value(vars: Env, key: Seq<char>) -> Option<Seq<char>> {
    if vars.contains_key(key) && trimmed(vars[key]).len() > 0 {
        Some(trimmed(vars[key]))
    } else {
        None
    }
}

/// The value of a variable without white space around it, unless it is unset or
/// blank.
pub fn value(vars: &SortedMap, key: &str) -> (r: Option<String>)
    ensures
        text_of(r) == env_value(vars@, key@),
{
    match vars.get(key) {
        Some(v) => {
            let v = trim(v);
            if v.is_empty() {
                None
            } else {
                Some(v.to_owned())
            }
        },
        None => None,
    }
}

/// The failure for a variable that is not set.
pub open spec fn missing_var(label: Seq<char>) -> ErrorView {
    ErrorView::Config("missing required env var: "@ + label)
}

fn missing(label: &str) -> (r: Error)
    ensures
        r@ == missing_var(label@),
{
    Error::Config("missing required env var: ".to_owned().concat(label))
}

/// The value of a variable that has to be set.
pub fn required_from(vars: &SortedMap, key: &str) -> (r: Result<String, Error>)
    ensures
        match r {
            Ok(v) => env_value(vars@, key@) == Some(v@),
            Err(e) => env_value(vars@, key@) is None && e@ == missing_var(key@),
        },
{
    match value(vars, key) {
        Some(v) => Ok(v),
        None => Err(missing(key)),
    }
}

/// Take a value that has to be there.
pub fn client_or_org_required(label: &str, value: Option<String>) -> (r: Result<String, Error>)
    ensures
        match r {
            Ok(v) => value == Some(v),
            Err(e) => value is None && e@ == missing_var(label@),
        },
{
    match value {
        Some(v) => Ok(v),
        None => Err(missing(label)),
    }
}

/// The failure for a variable whose value cannot be read.
pub open spec fn invalid_var(key: Seq<char>, fault: Seq<char>) -> ErrorView {
    ErrorView::Config("invalid "@ + key + ": "@ + fault)
}

/// The signed number in a variable, or the default where it is unset.
pub open spec fn number_or(vars: Env, key: Seq<char>, default: int) -> Result<int, ErrorView> {
    match env_value(vars, key) {
        None => Ok(default),
        Some(raw) => match signed_value(raw) {
            Ok(n) => Ok(n),
            Err(fault) => Err(invalid_var(key, fault.text())),
        },
    }
}

/// The count in a variable, or the default where it is unset.
pub open spec fn count_or(vars: Env, key: Seq<char>, default: int) -> Result<int, ErrorView> {
    match env_value(vars, key) {
        None => Ok(default),
        Some(raw) => match unsigned_value(raw, usize::MAX as nat) {
            Ok(n) => Ok(n as int),
            Err(fault) => Err(invalid_var(key, fault.text())),
        },
    }
}

/// Read a signed number from a variable, with a default where it is unset.
pub fn parsed_or(vars: &SortedMap, key: &str, default: i64) -> (r: Result<i64, Error>)
    ensures
        match r {
            Ok(n) => number_or(vars@, key@, default as int) == Ok::<int, ErrorView>(n as int),
            Err(e) => number_or(vars@, key@, default as int) == Err::<int, ErrorView>(e@),
        },
{
    match value(vars, key) {
        None => Ok(default),
        Some(raw) => match parse_signed(raw.as_str()) {
            Ok(n) => Ok(n),
            Err(fault) => Err(
                Error::Config(
                    "invalid ".to_owned().concat(key).concat(": ").concat(fault.as_str()),
                ),
            ),
        },
    }
}

/// Read a count from a variable, with a default where it is unset.
pub fn parsed_count_or(vars: &SortedMap, key: &str, default: usize) -> (r: Result<usize, Error>)
    ensures
        match r {
            Ok(n) => count_or(vars@, key@, default as int) == Ok::<int, ErrorView>(n as int),
            Err(e) => count_or(vars@, key@, default as int) == Err::<int, ErrorView>(e@),
        },
{
    match value(vars, key) {
        None => Ok(default),
        Some(raw) => match parse_unsigned(raw.as_str(), usize::MAX as u64) {
            Ok(n) => Ok(n as usize),
            Err(fault) => Err(
                Error::Config(
                    "invalid ".to_owned().concat(key).concat(": ").concat(fault.as_str()),
                ),
            ),
        },
    }
}

/// One Xero Custom Connection: credentials by which one tenant authenticates.
#[derive(Debug)]
pub struct XeroCustomConnectionConfig {
    pub tenant_name: Option<String>,
    pub tenant_id: String,
    pub client_id: String,
    pub client_secret: String,
}

/// The mathematical value of a [`XeroCustomConnectionConfig`].
pub struct Connection {
    pub tenant_name: Option<Seq<char>>,
    pub tenant_id: Seq<char>,
    pub client_id: Seq<char>,
    pub client_secret: Seq<char>,
}

impl View for XeroCustomConnectionConfig {
    type V = Connection;

    open spec fn view(&self) -> Connection {
        Connection {
            tenant_name: text_of(self.tenant_name),
            tenant_id: self.tenant_id@,
            client_id: self.client_id@,
            client_secret: self.client_secret@,
        }
    }
}

/// The connections' values.
pub open spec fn connections(v: Seq<XeroCustomConnectionConfig>) -> Seq<Connection> {
    Seq::new(v.len(), |i: int| v[i]@)
}

/// The connection in the variables with the given names. None of them set means
/// no connection; the tenant and both credentials have to be set together.
pub open spec fn connection_in(
    vars: Env,
    tenant_key: Seq<char>,
    client_key: Seq<char>,
    secret_key: Seq<char>,
    name_key: Seq<char>,
) -> Result<Option<Connection>, ErrorView> {
    let tenant = env_value(vars, tenant_key);
    let client = env_value(vars, client_key);
    let secret = env_value(vars, secret_key);
    let name = env_value(vars, name_key);
    if client is None && secret is None && tenant is None && name is None {
        Ok(None)
    } else if tenant is None {
        Err(missing_var(tenant_key))
    } else if client is None {
        Err(missing_var(client_key))
    } else if secret is None {
        Err(missing_var(secret_key))
    } else {
        Ok(
            Some(
                Connection {
                    tenant_name: name,
                    tenant_id: tenant->0,
                    client_id: client->0,
                    client_secret: secret->0,
                },
            ),
        )
    }
}

/// The connection in the `XERO_CC_*` variables.
pub open spec fn explicit(vars: Env) -> Result<Option<Connection>, ErrorView> {
    connection_in(
        vars,
        "XERO_CC_TENANT_ID"@,
        "XERO_CC_CLIENT_ID"@,
        "XERO_CC_CLIENT_SECRET"@,
        "XERO_CC_TENANT_NAME"@,
    )
}

/// The name of a numbered organisation's variable.
pub open spec fn org_key(index: Seq<char>, suffix: Seq<char>) -> Seq<char> {
    "XERO_ORG_"@ + index + "_"@ + suffix
}

/// The connection in the `XERO_ORG_N_*` variables.
pub open spec fn numbered(vars: Env, index: Seq<char>) -> Result<Option<Connection>, ErrorView> {
    connection_in(
        vars,
        org_key(index, "TENANT_ID"@),
        org_key(index, "CLIENT_ID"@),
        org_key(index, "CLIENT_SECRET"@),
        org_key(index, "NAME"@),
    )
}

/// What a reading of connection variables comes to.
pub open spec fn is_connection(
    r: Result<Option<XeroCustomConnectionConfig>, Error>,
    wanted: Result<Option<Connection>, ErrorView>,
) -> bool {
    match r {
        Ok(Some(c)) => wanted == Ok::<Option<Connection>, ErrorView>(Some(c@)),
        Ok(None) => wanted == Ok::<Option<Connection>, ErrorView>(None),
        Err(e) => wanted == Err::<Option<Connection>, ErrorView>(e@),
    }
}

fn read_connection(
    vars: &SortedMap,
    tenant_key: &str,
    client_key: &str,
    secret_key: &str,
    name_key: &str,
) -> (r: Result<Option<XeroCustomConnectionConfig>, Error>)
    ensures
        is_connection(
            r,
            connection_in(vars@, tenant_key@, client_key@, secret_key@, name_key@),
        ),
{
    let client_id = value(vars, client_key);
    let client_secret = value(vars, secret_key);
    let tenant_id = value(vars, tenant_key);
    let tenant_name = value(vars, name_key);
    if client_id.is_none() && client_secret.is_none() && tenant_id.is_none()
        && tenant_name.is_none() {
        return Ok(None);
    }
    let tenant_id = client_or_org_required(tenant_key, tenant_id)?;
    let client_id = client_or_org_required(client_key, client_id)?;
    let client_secret = client_or_org_required(secret_key, client_secret)?;
    Ok(Some(XeroCustomConnectionConfig { tenant_name, tenant_id, client_id, client_secret }))
}

/// The connection in the `XERO_CC_*` variables.
pub fn explicit_custom_connection(vars: &SortedMap) -> (r: Result<
    Option<XeroCustomConnectionConfig>,
    Error,
>)
    ensures
        is_connection(r, explicit(vars@)),
{
    read_connection(
        vars,
        "XERO_CC_TENANT_ID",
        "XERO_CC_CLIENT_ID",
        "XERO_CC_CLIENT_SECRET",
        "XERO_CC_TENANT_NAME",
    )
}

/// The name of a numbered organisation's variable.
pub fn org_label(org_index: &str, suffix: &str) -> (r: String)
    ensures
        r@ == org_key(org_index@, suffix@),
{
    "XERO_ORG_".to_owned().concat(org_index).concat("_").concat(suffix)
}

/// The connection in the `XERO_ORG_N_*` variables.
pub fn numbered_custom_connection(vars: &SortedMap, org_index: &str) -> (r: Result<
    Option<XeroCustomConnectionConfig>,
    Error,
>)
    ensures
        is_connection(r, numbered(vars@, org_index@)),
{
    read_connection(
        vars,
        org_label(org_index, "TENANT_ID").as_str(),
        org_label(org_index, "CLIENT_ID").as_str(),
        org_label(org_index, "CLIENT_SECRET").as_str(),
        org_label(org_index, "NAME").as_str(),
    )
}

/// The connection in use by default: the explicit one, else the selected
/// organisation's.
pub open spec fn selected(vars: Env, index: Seq<char>) -> Result<Option<Connection>, ErrorView> {
    match explicit(vars) {
        Ok(None) => numbered(vars, index),
        other => other,
    }
}

/// The connection in use by default.
pub fn selected_custom_connection(vars: &SortedMap, org_index: &str) -> (r: Result<
    Option<XeroCustomConnectionConfig>,
    Error,
>)
    ensures
        is_connection(r, selected(vars@, org_index@)),
{
    match explicit_custom_connection(vars) {
        Ok(None) => numbered_custom_connection(vars, org_index),
        other => other,
    }
}

/// The place of the first underscore, or the length where there is none.
pub open spec fn first_underscore(s: Seq<char>) -> int
    decreases s.len(),
{
    if s.len() == 0 || s[0] == '_' {
        0
    } else {
        1 + first_underscore(s.skip(1))
    }
}

/// Whether a suffix is one of a numbered organisation's variables.
pub open spec fn is_org_suffix(s: Seq<char>) -> bool {
    s == "CLIENT_ID"@ || s == "CLIENT_SECRET"@ || s == "TENANT_ID"@ || s == "NAME"@
}

/// The organisation number in the name of a variable.
pub open spec fn key_index(key: Seq<char>) -> Option<nat> {
    if "XERO_ORG_"@.is_prefix_of(key) {
        let rest = key.skip(9);
        let at = first_underscore(rest);
        if at < rest.len() && is_org_suffix(rest.skip(at + 1)) {
            match unsigned_value(rest.take(at), u16::MAX as nat) {
                Ok(n) => if n > 0 {
                    Some(n)
                } else {
                    None
                },
                Err(_) => None,
            }
        } else {
            None
        }
    } else {
        None
    }
}

/// Whether some variable belongs to the organisation with the given number.
pub open spec fn is_org_index(vars: Env, n: nat) -> bool {
    exists|key: Seq<char>| vars.contains_key(key) && #[trigger] key_index(key) == Some(n)
}

/// The numbers of organisations up to `n`, in ascending order.
pub open spec fn org_indices(vars: Env, n: nat) -> Seq<u16>
    decreases n,
{
    if n == 0 {
        Seq::empty()
    } else {
        let rest = org_indices(vars, (n - 1) as nat);
        if is_org_index(vars, n) {
            rest.push(n as u16)
        } else {
            rest
        }
    }
}

fn read_key_index(key: &str) -> (r: Option<u16>)
    ensures
        match r {
            Some(n) => key_index(key@) == Some(n as nat),
            None => key_index(key@) is None,
        },
{
    if !starts_with(key, "XERO_ORG_") {
        return None;
    }
    proof {
        reveal_strlit("XERO_ORG_");
    }
    let v = chars_of(key);
    let ghost rest = key@.skip(9);
    let mut i: usize = 9;
    proof {
        assert(rest.skip(0) =~= rest);
    }
    while i < v.len() && v[i] != '_'
        invariant
            9 <= i <= v.len(),
            v@ == key@,
            rest == key@.skip(9),
            first_underscore(rest) == i - 9 + first_underscore(rest.skip(i - 9)),
        decreases v.len() - i,
    {
        proof {
            assert(rest.skip(i - 9)[0] == v@[i as int]);
            assert(rest.skip(i - 9).skip(1) =~= rest.skip(i + 1 - 9));
        }
        i += 1;
    }
    if i == v.len() {
        proof {
            assert(rest.skip(i - 9) =~= Seq::<char>::empty());
        }
        return None;
    }
    proof {
        assert(rest.skip(i - 9)[0] == v@[i as int]);
    }
    let suffix = key.substring_char(i + 1, v.len());
    let index = key.substring_char(9, i);
    proof {
        assert(suffix@ =~= rest.skip(i - 9 + 1));
        assert(index@ =~= rest.take(i - 9));
    }
    if same(suffix, "CLIENT_ID") || same(suffix, "CLIENT_SECRET") || same(suffix, "TENANT_ID")
        || same(suffix, "NAME") {
        match parse_unsigned(index, u16::MAX as u64) {
            Ok(n) => if n > 0 {
                Some(n as u16)
            } else {
                None
            },
            Err(_) => None,
        }
    } else {
        None
    }
}

/// Whether the numbers ascend.
pub open spec fn increasing(s: Seq<u16>) -> bool {
    forall|i: int, j: int| 0 <= i < j < s.len() ==> s[i] < s[j]
}

/// An ascending list of exactly the organisations' numbers is the list of them.
proof fn increasing_is_org_indices(vars: Env, s: Seq<u16>, n: nat) -> (k: int)
    requires
        increasing(s),
        forall|i: int| 0 <= i < s.len() ==> s[i] > 0 && is_org_index(vars, #[trigger] s[i] as nat),
        forall|m: nat| m <= u16::MAX && m > 0 && is_org_index(vars, m) ==> s.contains(m as u16),
        n <= u16::MAX,
    ensures
        0 <= k <= s.len(),
        s.take(k) == org_indices(vars, n),
        forall|i: int| 0 <= i < k ==> s[i] <= n,
        forall|i: int| k <= i < s.len() ==> s[i] > n,
    decreases n,
{
    if n == 0 {
        assert(s.take(0) =~= org_indices(vars, 0));
        0
    } else {
        let k = increasing_is_org_indices(vars, s, (n - 1) as nat);
        if is_org_index(vars, n) {
            let j = choose|j: int| 0 <= j < s.len() && s[j] == n as u16;
            assert(s.contains(n as u16));
            assert(j >= k);
            if j > k {
                assert(s[k] < s[j]);
            }
            assert(s.take(k + 1) =~= s.take(k).push(n as u16));
            k + 1
        } else {
            if k < s.len() && s[k] == n {
                assert(is_org_index(vars, s[k] as nat));
            }
            k
        }
    }
}

/// Put a number into an ascending list, once.
fn insert_number(list: &mut Vec<u16>, n: u16)
    requires
        increasing(old(list)@),
    ensures
        increasing(final(list)@),
        forall|m: u16| final(list)@.contains(m) <==> old(list)@.contains(m) || m == n,
{
    let mut i: usize = 0;
    while i < list.len() && list[i] < n
        invariant
            i <= list.len(),
            list@ == old(list)@,
            forall|k: int| 0 <= k < i ==> list@[k] < n,
        decreases list.len() - i,
    {
        i += 1;
    }
    let ghost start = list@;
    if i < list.len() && list[i] == n {
        assert(list@[i as int] == n);
        return;
    }
    list.insert(i, n);
    proof {
        let now = list@;
        assert(now =~= start.insert(i as int, n));
        assert forall|m: u16| now.contains(m) <==> start.contains(m) || m == n by {
            if start.contains(m) {
                let k = choose|k: int| 0 <= k < start.len() && start[k] == m;
                if k < i {
                    assert(now[k] == m);
                } else {
                    assert(now[k + 1] == m);
                }
            }
            if m == n {
                assert(now[i as int] == m);
            }
            if now.contains(m) && m != n {
                let k = choose|k: int| 0 <= k < now.len() && now[k] == m;
                if k < i {
                    assert(start[k] == m);
                } else {
                    assert(start[k - 1] == m);
                }
            }
        }
    }
}

/// The numbers of all configured organisations, in ascending order.
pub fn numbered_org_indices(vars: &SortedMap) -> (r: Vec<u16>)
    ensures
        r@ == org_indices(vars@, u16::MAX as nat),
{
    let entries = vars.entries();
    let ghost list = pairs(entries@);
    let mut r: Vec<u16> = Vec::new();
    let mut i: usize = 0;
    while i < entries.len()
        invariant
            i <= entries.len(),
            list == pairs(entries@),
            increasing(r@),
            forall|m: u16|
                r@.contains(m) <==> exists|k: int|
                    0 <= k < i && key_index((#[trigger] list[k]).0) == Some(m as nat),
        decreases entries.len() - i,
    {
        let ghost before = r@;
        let found = read_key_index(entries[i].0.as_str());
        if let Some(n) = found {
            insert_number(&mut r, n);
        }
        proof {
            assert(list[i as int].0 == entries@[i as int].0@);
            assert forall|m: u16|
                r@.contains(m) <==> exists|k: int|
                    0 <= k < i + 1 && key_index((#[trigger] list[k]).0) == Some(m as nat) by {
                if before.contains(m) {
                    let k = choose|k: int|
                        0 <= k < i && key_index((#[trigger] list[k]).0) == Some(m as nat);
                    assert(key_index(list[k].0) == Some(m as nat));
                }
                if found == Some(m) {
                    assert(key_index(list[i as int].0) == Some(m as nat));
                }
            }
        }
        i += 1;
    }
    proof {
        assert(vars@ == map_of(list));
        assert forall|j: int| 0 <= j < r@.len() implies r@[j] > 0 && is_org_index(
            vars@,
            #[trigger] r@[j] as nat,
        ) by {
            let m = r@[j];
            assert(r@.contains(m));
            let k = choose|k: int|
                0 <= k < i && key_index((#[trigger] list[k]).0) == Some(m as nat);
            assert(has_name(list, list[k].0));
            assert(vars@.contains_key(list[k].0));
        }
        assert forall|m: nat|
            m <= u16::MAX && m > 0 && is_org_index(vars@, m) implies r@.contains(m as u16) by {
            let key = choose|key: Seq<char>|
                vars@.contains_key(key) && #[trigger] key_index(key) == Some(m);
            let k = place(list, key);
            assert(has_name(list, key));
            assert(key_index(list[k].0) == Some((m as u16) as nat));
        }
        let k = increasing_is_org_indices(vars@, r@, u16::MAX as nat);
        if k < r@.len() {
            assert(r@[k] as nat > u16::MAX as nat);
        }
        assert(r@.take(k) =~= r@);
    }
    r
}

/// Whether a tenant has a connection already.
pub open spec fn has_tenant(list: Seq<Connection>, tenant: Seq<char>) -> bool {
    exists|i: int| 0 <= i < list.len() && (#[trigger] list[i]).tenant_id == tenant
}

/// The connections after those of the given organisations: one per tenant, the
/// first that names it.
pub open spec fn connections_of(vars: Env, start: Seq<Connection>, indices: Seq<u16>) -> Result<
    Seq<Connection>,
    ErrorView,
>
    decreases indices.len(),
{
    if indices.len() == 0 {
        Ok(start)
    } else {
        match connections_of(vars, start, indices.drop_last()) {
            Err(e) => Err(e),
            Ok(list) => match numbered(vars, numeral(indices.last() as nat)) {
                Err(e) => Err(e),
                Ok(None) => Ok(list),
                Ok(Some(c)) => if has_tenant(list, c.tenant_id) {
                    Ok(list)
                } else {
                    Ok(list.push(c))
                },
            },
        }
    }
}

/// All configured connections: the explicit one, then the organisations' in
/// order of their numbers.
pub open spec fn all_connections(vars: Env) -> Result<Seq<Connection>, ErrorView> {
    match explicit(vars) {
        Err(e) => Err(e),
        Ok(None) => connections_of(vars, Seq::empty(), org_indices(vars, u16::MAX as nat)),
        Ok(Some(c)) => connections_of(vars, seq![c], org_indices(vars, u16::MAX as nat)),
    }
}

/// All configured connections, one per tenant.
pub fn custom_connection_configs(vars: &SortedMap) -> (r: Result<
    Vec<XeroCustomConnectionConfig>,
    Error,
>)
    ensures
        match r {
            Ok(v) => all_connections(vars@) == Ok::<Seq<Connection>, ErrorView>(
                connections(v@),
            ),
            Err(e) => all_connections(vars@) == Err::<Seq<Connection>, ErrorView>(e@),
        },
{
    let mut list: Vec<XeroCustomConnectionConfig> = Vec::new();
    if let Some(c) = explicit_custom_connection(vars)? {
        list.push(c);
    }
    let ghost start = connections(list@);
    proof {
        assert(explicit(vars@) matches Ok(Some(c)) ==> start =~= seq![c]);
        assert(explicit(vars@) == Ok::<Option<Connection>, ErrorView>(None) ==> start =~= Seq::<
            Connection,
        >::empty());
    }
    let indices = numbered_org_indices(vars);
    let mut i: usize = 0;
    while i < indices.len()
        invariant
            i <= indices.len(),
            indices@ == org_indices(vars@, u16::MAX as nat),
            all_connections(vars@) == connections_of(vars@, start, indices@),
            connections_of(vars@, start, indices@.take(i as int)) == Ok::<
                Seq<Connection>,
                ErrorView,
            >(connections(list@)),
        decreases indices.len() - i,
    {
        let ghost upto = indices@.take(i + 1);
        proof {
            assert(upto.drop_last() =~= indices@.take(i as int));
            assert(upto.last() == indices@[i as int]);
        }
        match numbered_custom_connection(vars, decimal(indices[i] as u64).as_str()) {
            Err(e) => {
                proof {
                    first_failure_stays(vars@, start, indices@, i + 1);
                }
                return Err(e);
            },
            Ok(None) => {},
            Ok(Some(c)) => {
                let ghost before = connections(list@);
                if !knows_tenant(&list, c.tenant_id.as_str()) {
                    let ghost cv = c@;
                    list.push(c);
                    proof {
                        assert(connections(list@) =~= before.push(cv));
                    }
                }
            },
        }
        i += 1;
    }
    proof {
        assert(indices@.take(i as int) =~= indices@);
    }
    Ok(list)
}

proof fn first_failure_stays(vars: Env, start: Seq<Connection>, indices: Seq<u16>, n: int)
    requires
        0 <= n <= indices.len(),
        connections_of(vars, start, indices.take(n)) is Err,
    ensures
        connections_of(vars, start, indices) == connections_of(vars, start, indices.take(n)),
    decreases indices.len() - n,
{
    if n < indices.len() {
        assert(indices.take(n + 1).drop_last() =~= indices.take(n));
        first_failure_stays(vars, start, indices, n + 1);
    } else {
        assert(indices.take(n) =~= indices);
    }
}

fn knows_tenant(list: &Vec<XeroCustomConnectionConfig>, tenant: &str) -> (r: bool)
    ensures
        r == has_tenant(connections(list@), tenant@),
{
    let mut i: usize = 0;
    while i < list.len()
        invariant
            i <= list.len(),
            forall|k: int|
                0 <= k < i ==> (#[trigger] connections(list@)[k]).tenant_id != tenant@,
        decreases list.len() - i,
    {
        if same(list[i].tenant_id.as_str(), tenant) {
            assert(connections(list@)[i as int].tenant_id == tenant@);
            return true;
        }
        i += 1;
    }
    false
}

/// No two connections are for the same tenant.
pub open spec fn one_per_tenant(list: Seq<Connection>) -> bool {
    forall|i: int, j: int|
        0 <= i < j < list.len() ==> (#[trigger] list[i]).tenant_id != (
        #[trigger] list[j]).tenant_id
}

proof fn connections_of_are_distinct(vars: Env, start: Seq<Connection>, indices: Seq<u16>)
    requires
        one_per_tenant(start),
        connections_of(vars, start, indices) is Ok,
    ensures
        one_per_tenant(connections_of(vars, start, indices)->Ok_0),
    decreases indices.len(),
{
    if indices.len() > 0 {
        connections_of_are_distinct(vars, start, indices.drop_last());
    }
}

/// All configured connections are deduplicated by tenant.
pub proof fn connections_are_distinct(vars: Env)
    requires
        all_connections(vars) is Ok,
    ensures
        one_per_tenant(all_connections(vars)->Ok_0),
{
    let indices = org_indices(vars, u16::MAX as nat);
    match explicit(vars) {
        Ok(Some(c)) => {
            connections_of_are_distinct(vars, seq![c], indices);
        },
        Ok(None) => {
            connections_of_are_distinct(vars, Seq::empty(), indices);
        },
        Err(_) => {},
    }
}

/// The value of the first of two variables that is set.
pub open spec fn first_of(vars: Env, first: Seq<char>, second: Seq<char>) -> Option<Seq<char>> {
    if env_value(vars, first) is Some {
        env_value(vars, first)
    } else {
        env_value(vars, second)
    }
}

/// The values of the first of the variables that is set.
pub open spec fn first_set(vars: Env, keys: Seq<&str>) -> Option<Seq<char>>
    decreases keys.len(),
{
    if keys.len() == 0 {
        None
    } else if env_value(vars, keys[0]@) is Some {
        env_value(vars, keys[0]@)
    } else {
        first_set(vars, keys.skip(1))
    }
}

/// The value of the first of the variables that is set.
pub fn first_present(vars: &SortedMap, keys: &[&str]) -> (r: Option<String>)
    ensures
        text_of(r) == first_set(vars@, keys@),
{
    let mut i: usize = 0;
    proof {
        assert(keys@.skip(0) =~= keys@);
    }
    while i < keys.len()
        invariant
            i <= keys.len(),
            first_set(vars@, keys@.skip(i as int)) == first_set(vars@, keys@),
        decreases keys.len() - i,
    {
        proof {
            assert(keys@.skip(i as int)[0] == keys@[i as int]);
            assert(keys@.skip(i as int).skip(1) =~= keys@.skip(i + 1));
        }
        if let Some(v) = value(vars, keys[i]) {
            return Some(v);
        }
        i += 1;
    }
    None
}

/// The number of the selected organisation, as it is written.
pub open spec fn org_index(vars: Env) -> Seq<char> {
    match first_of(vars, "XERO_CUSTOM_CONNECTION_ORG_INDEX"@, "XERO_ORG_INDEX"@) {
        Some(index) => index,
        None => "1"@,
    }
}

/// Whether a text is a positive 16-bit number.
pub open spec fn is_positive(index: Seq<char>) -> bool {
    match unsigned_value(index, u16::MAX as nat) {
        Ok(n) => n > 0,
        Err(_) => false,
    }
}

pub open spec fn org_index_failure(index: Seq<char>) -> ErrorView {
    ErrorView::Config(
        "XERO_CUSTOM_CONNECTION_ORG_INDEX must be a positive integer, got: "@ + index,
    )
}

/// The number of the selected organisation.
pub fn custom_connection_org_index(vars: &SortedMap) -> (r: Result<String, Error>)
    ensures
        match r {
            Ok(index) => index@ == org_index(vars@) && is_positive(index@),
            Err(e) => !is_positive(org_index(vars@)) && e@ == org_index_failure(org_index(vars@)),
        },
{
    let keys: [&str; 2] = ["XERO_CUSTOM_CONNECTION_ORG_INDEX", "XERO_ORG_INDEX"];
    let found = first_present(vars, &keys);
    proof {
        let k = keys@;
        assert(k.skip(1)[0] == k[1]);
        assert(k.skip(1).skip(1).len() == 0);
        reveal_with_fuel(first_set, 3);
    }
    let index = match found {
        Some(index) => index,
        None => "1".to_owned(),
    };
    if let Ok(n) = parse_unsigned(index.as_str(), u16::MAX as u64) {
        if n > 0 {
            return Ok(index);
        }
    }
    Err(
        Error::Config(
            "XERO_CUSTOM_CONNECTION_ORG_INDEX must be a positive integer, got: ".to_owned().concat(
                index.as_str(),
            ),
        ),
    )
}

/// Whether a connection type names the one supported mode.
pub open spec fn is_custom(name: Seq<char>) -> bool {
    name == "custom"@ || name == "custom_connection"@ || name == "client_credentials"@ || name
        == "cc"@
}

/// The refusal of a connection type.
pub open spec fn type_failure(connection_type: Option<Seq<char>>) -> Option<ErrorView> {
    match connection_type {
        None => None,
        Some(v) => if is_custom(lower(trimmed(v))) {
            None
        } else {
            Some(
                ErrorView::Config(
                    "unsupported XERO_CONNECTION_TYPE: "@ + lower(trimmed(v))
                        + " (custom-connection is mandatory)"@,
                ),
            )
        },
    }
}

/// Custom connections are the only supported mode: where a connection type is
/// set it has to name them.
pub fn require_custom_connection(connection_type: Option<&str>) -> (r: Result<(), Error>)
    ensures
        ({
            let given = match connection_type {
                Some(v) => Some(v@),
                None => None,
            };
            match r {
                Ok(_) => type_failure(given) is None,
                Err(e) => type_failure(given) == Some(e@),
            }
        }),
{
    match connection_type {
        None => Ok(()),
        Some(v) => {
            let name = to_lower(trim(v));
            if same(name.as_str(), "custom") || same(name.as_str(), "custom_connection") || same(
                name.as_str(),
                "client_credentials",
            ) || same(name.as_str(), "cc") {
                Ok(())
            } else {
                Err(
                    Error::Config(
                        "unsupported XERO_CONNECTION_TYPE: ".to_owned().concat(
                            name.as_str(),
                        ).concat(" (custom-connection is mandatory)"),
                    ),
                )
            }
        },
    }
}

/// Runtime configuration of the uploader. Custom connections are the only way
/// to authenticate.
#[derive(Debug)]
pub struct AppConfig {
    pub log_level: String,
    /// Credentials of the connection in use by default.
    pub xero_cc_client_id: Option<String>,
    pub xero_cc_client_secret: Option<String>,
    pub xero_cc_tenant_id: Option<String>,
    pub xero_cc_tenant_name: Option<String>,
    /// All configured connections, one per tenant.
    pub xero_cc_connections: Vec<XeroCustomConnectionConfig>,
}

/// The mathematical value of an [`AppConfig`].
pub struct AppSettings {
    pub log_level: Seq<char>,
    pub default: Connection,
    pub all: Seq<Connection>,
}

/// The configuration that the variables describe, or what is wrong with them.
pub open spec fn app_settings(vars: Env) -> Result<AppSettings, ErrorView> {
    let index = org_index(vars);
    if type_failure(env_value(vars, "XERO_CONNECTION_TYPE"@)) is Some {
        Err(type_failure(env_value(vars, "XERO_CONNECTION_TYPE"@))->0)
    } else if !is_positive(index) {
        Err(org_index_failure(index))
    } else {
        match all_connections(vars) {
            Err(e) => Err(e),
            Ok(all) => match selected(vars, index) {
                Err(e) => Err(e),
                Ok(chosen) => if all.len() == 0 {
                    Err(
                        ErrorView::Config(
                            "missing custom connection credentials: configure XERO_CC_* or XERO_ORG_N_*"@,
                        ),
                    )
                } else {
                    match chosen {
                        None => Err(
                            missing_var("XERO_CC_CLIENT_ID or "@ + org_key(index, "CLIENT_ID"@)),
                        ),
                        Some(default) => Ok(
                            AppSettings {
                                log_level: match env_value(vars, "RUST_LOG"@) {
                                    Some(l) => l,
                                    None => "info"@,
                                },
                                default,
                                all,
                            },
                        ),
                    }
                },
            },
        }
    }
}

impl AppConfig {
    /// Whether this is the given configuration.
    pub open spec fn holds(self, settings: AppSettings) -> bool {
        &&& self.log_level@ == settings.log_level
        &&& text_of(self.xero_cc_client_id) == Some(settings.default.client_id)
        &&& text_of(self.xero_cc_client_secret) == Some(settings.default.client_secret)
        &&& text_of(self.xero_cc_tenant_id) == Some(settings.default.tenant_id)
        &&& text_of(self.xero_cc_tenant_name) == settings.default.tenant_name
        &&& connections(self.xero_cc_connections@) == settings.all
    }

    /// The configuration that the variables describe.
    pub fn from_map(vars: &SortedMap) -> (r: Result<AppConfig, Error>)
        ensures
            match r {
                Ok(c) => app_settings(vars@) is Ok && c.holds(app_settings(vars@)->Ok_0),
                Err(e) => app_settings(vars@) == Err::<AppSettings, ErrorView>(e@),
            },
    {
        let connection_type = value(vars, "XERO_CONNECTION_TYPE");
        require_custom_connection(
            match &connection_type {
                Some(v) => Some(v.as_str()),
                None => None,
            },
        )?;
        let index = custom_connection_org_index(vars)?;
        let all = custom_connection_configs(vars)?;
        let chosen = selected_custom_connection(vars, index.as_str())?;
        if all.len() == 0 {
            return Err(
                Error::Config(
                    "missing custom connection credentials: configure XERO_CC_* or XERO_ORG_N_*".to_owned(),
                ),
            );
        }
        let log_level = match value(vars, "RUST_LOG") {
            Some(l) => l,
            None => "info".to_owned(),
        };
        match chosen {
            Some(c) => Ok(
                AppConfig {
                    log_level,
                    xero_cc_client_id: Some(c.client_id),
                    xero_cc_client_secret: Some(c.client_secret),
                    xero_cc_tenant_id: Some(c.tenant_id),
                    xero_cc_tenant_name: c.tenant_name,
                    xero_cc_connections: all,
                },
            ),
            None => {
                let label = org_label(index.as_str(), "CLIENT_ID");
                Err(missing("XERO_CC_CLIENT_ID or ".to_owned().concat(label.as_str()).as_str()))
            },
        }
    }

    /// The configuration that the given variables describe; the last of two with
    /// the same name counts.
    pub fn from_pairs<const N: usize>(pairs: [(&str, &str); N]) -> (r: Result<AppConfig, Error>)
        ensures
            ({
                let vars = assigned(Map::empty(), str_pairs(pairs@));
                match r {
                    Ok(c) => app_settings(vars) is Ok && c.holds(app_settings(vars)->Ok_0),
                    Err(e) => app_settings(vars) == Err::<AppSettings, ErrorView>(e@),
                }
            }),
    {
        let vars = env_from(&pairs);
        AppConfig::from_map(&vars)
    }
}

/// Names and values as sequences of characters.
pub open spec fn str_pairs(v: Seq<(&str, &str)>) -> Seq<(Seq<char>, Seq<char>)> {
    Seq::new(v.len(), |i: int| (v[i].0@, v[i].1@))
}

/// Variables from a list; the last of two with the same name counts.
pub fn env_from(list: &[(&str, &str)]) -> (r: SortedMap)
    ensures
        r@ == assigned(Map::empty(), str_pairs(list@)),
{
    let mut vars = SortedMap::new();
    let ghost all = str_pairs(list@);
    let mut i: usize = 0;
    proof {
        assert(all.take(0) =~= Seq::<(Seq<char>, Seq<char>)>::empty());
    }
    while i < list.len()
        invariant
            i <= list.len(),
            all == str_pairs(list@),
            vars@ == assigned(Map::empty(), all.take(i as int)),
        decreases list.len() - i,
    {
        vars.insert(list[i].0, list[i].1);
        i += 1;
        proof {
            assert(all.take(i as int).drop_last() =~= all.take(i - 1));
            assert(all.take(i as int).last() == all[i - 1]);
        }
    }
    proof {
        assert(all.take(i as int) =~= all);
    }
    vars
}

/// Where raw objects go.
#[derive(Debug)]
pub struct GcsConfig {
    /// Name of the bucket (`GCS_BUCKET`, required).
    pub bucket: String,
    /// Prefix of the raw objects' keys (`GCS_PREFIX`, default `raw/xero`).
    pub prefix: String,
}

/// A text without its leading slashes.
pub open spec fn without_slashes(s: Seq<char>) -> Seq<char>
    decreases s.len(),
{
    if s.len() > 0 && s[0] == '/' {
        without_slashes(s.skip(1))
    } else {
        s
    }
}

/// Whether a prefix lies in the namespace of the manifests.
pub open spec fn is_reserved(prefix: Seq<char>) -> bool {
    "_manifests"@.is_prefix_of(without_slashes(prefix))
}

/// The prefix that the variables ask for.
pub open spec fn gcs_prefix(vars: Env) -> Seq<char> {
    match env_value(vars, "GCS_PREFIX"@) {
        Some(p) => p,
        None => "raw/xero"@,
    }
}

pub open spec fn reserved_failure(prefix: Seq<char>) -> ErrorView {
    ErrorView::Config(
        "GCS_PREFIX must not start with '_manifests' (reserved manifest namespace): "@ + prefix,
    )
}

/// Whether a prefix lies in the namespace of the manifests.
pub fn is_reserved_prefix(prefix: &str) -> (r: bool)
    ensures
        r == is_reserved(prefix@),
{
    let v = chars_of(prefix);
    let mut i: usize = 0;
    proof {
        assert(prefix@.skip(0) =~= prefix@);
    }
    while i < v.len() && v[i] == '/'
        invariant
            i <= v.len(),
            v@ == prefix@,
            without_slashes(prefix@.skip(i as int)) == without_slashes(prefix@),
        decreases v.len() - i,
    {
        proof {
            assert(prefix@.skip(i as int).skip(1) =~= prefix@.skip(i + 1));
        }
        i += 1;
    }
    let rest = prefix.substring_char(i, v.len());
    proof {
        assert(rest@ =~= prefix@.skip(i as int));
    }
    starts_with(rest, "_manifests")
}

impl GcsConfig {
    /// The destination that the variables describe.
    pub fn from_map(vars: &SortedMap) -> (r: Result<GcsConfig, Error>)
        ensures
            match r {
                Ok(c) => {
                    &&& env_value(vars@, "GCS_BUCKET"@) == Some(c.bucket@)
                    &&& c.prefix@ == gcs_prefix(vars@)
                    &&& !is_reserved(c.prefix@)
                },
                Err(e) => if env_value(vars@, "GCS_BUCKET"@) is None {
                    e@ == missing_var("GCS_BUCKET"@)
                } else {
                    is_reserved(gcs_prefix(vars@)) && e@ == reserved_failure(gcs_prefix(vars@))
                },
            },
    {
        let bucket = required_from(vars, "GCS_BUCKET")?;
        let prefix = match value(vars, "GCS_PREFIX") {
            Some(p) => p,
            None => "raw/xero".to_owned(),
        };
        if is_reserved_prefix(prefix.as_str()) {
            return Err(
                Error::Config(
                    "GCS_PREFIX must not start with '_manifests' (reserved manifest namespace): ".to_owned().concat(
                    prefix.as_str()),
                ),
            );
        }
        Ok(GcsConfig { bucket, prefix })
    }
}

/// Manifests and raw objects stay apart: no manifest lies in the folder of a
/// prefix that is admitted for raw objects.
pub proof fn manifests_lie_outside_raw_prefix(prefix: Seq<char>, run_date: Date, run_id: u128)
    requires
        !is_reserved(prefix),
    ensures
        !(prefix + "/"@).is_prefix_of(manifest_path(run_date, run_id)),
{
    reveal_strlit("_manifests/xero");
    reveal_strlit("_manifests");
    reveal_strlit("/");
    let key = manifest_path(run_date, run_id);
    let folder = prefix + "/"@;
    let root = "_manifests/xero"@;
    assert(key.take(15) =~= root);
    if folder.is_prefix_of(key) {
        let n = prefix.len() as int;
        assert(folder == key.subrange(0, n + 1));
        assert(folder[n] == '/');
        assert(key[n] == '/');
        assert(n >= 10) by {
            if n < 10 {
                assert(key[n] == root[n]);
            }
        }
        assert(prefix[0] == folder[0]);
        assert(folder[0] == key[0]);
        assert(key[0] == root[0]);
        assert(without_slashes(prefix) == prefix);
        assert forall|i: int| 0 <= i < 10 implies prefix[i] == "_manifests"@[i] by {
            assert(prefix[i] == folder[i]);
            assert(folder[i] == key[i]);
            assert(key[i] == root[i]);
        }
        assert("_manifests"@ =~= prefix.subrange(0, 10));
    }
}

/// Sizes of the sync windows, and bound on concurrency.
#[derive(Debug, Clone, Copy, PartialEq, Eq, Structural)]
pub struct SyncConfig {
    /// Look-back of an incremental sync in days (`SYNC_WINDOW_DAYS`, default 3).
    pub window_days: i64,
    /// Short reload horizon in days (`SYNC_ROLLING_FULL_TIGHT_DAYS`, default 30).
    pub rolling_full_tight_days: i64,
    /// Long reload horizon in days (`SYNC_ROLLING_FULL_WIDE_DAYS`, default 90).
    pub rolling_full_wide_days: i64,
    /// Sync tasks in flight at most (`SYNC_MAX_CONCURRENT`, default 6).
    pub max_concurrent: usize,
}

/// The first of the settings that cannot be read.
pub open spec fn sync_failure(vars: Env) -> Option<ErrorView> {
    if number_or(vars, "SYNC_WINDOW_DAYS"@, 3) is Err {
        Some(number_or(vars, "SYNC_WINDOW_DAYS"@, 3)->Err_0)
    } else if number_or(vars, "SYNC_ROLLING_FULL_TIGHT_DAYS"@, 30) is Err {
        Some(number_or(vars, "SYNC_ROLLING_FULL_TIGHT_DAYS"@, 30)->Err_0)
    } else if number_or(vars, "SYNC_ROLLING_FULL_WIDE_DAYS"@, 90) is Err {
        Some(number_or(vars, "SYNC_ROLLING_FULL_WIDE_DAYS"@, 90)->Err_0)
    } else if count_or(vars, "SYNC_MAX_CONCURRENT"@, 6) is Err {
        Some(count_or(vars, "SYNC_MAX_CONCURRENT"@, 6)->Err_0)
    } else {
        None
    }
}

impl SyncConfig {
    /// The settings that the variables describe.
    pub fn from_map(vars: &SortedMap) -> (r: Result<SyncConfig, Error>)
        ensures
            match r {
                Ok(c) => {
                    &&& sync_failure(vars@) is None
                    &&& c.window_days == number_or(vars@, "SYNC_WINDOW_DAYS"@, 3)->Ok_0
                    &&& c.rolling_full_tight_days == number_or(
                        vars@,
                        "SYNC_ROLLING_FULL_TIGHT_DAYS"@,
                        30,
                    )->Ok_0
                    &&& c.rolling_full_wide_days == number_or(
                        vars@,
                        "SYNC_ROLLING_FULL_WIDE_DAYS"@,
                        90,
                    )->Ok_0
                    &&& c.max_concurrent == count_or(vars@, "SYNC_MAX_CONCURRENT"@, 6)->Ok_0
                },
                Err(e) => sync_failure(vars@) == Some(e@),
            },
    {
        let window_days: i64 = parsed_or(vars, "SYNC_WINDOW_DAYS", 3)?;
        let rolling_full_tight_days: i64 = parsed_or(vars, "SYNC_ROLLING_FULL_TIGHT_DAYS", 30)?;
        let rolling_full_wide_days: i64 = parsed_or(vars, "SYNC_ROLLING_FULL_WIDE_DAYS", 90)?;
        let max_concurrent: usize = parsed_count_or(vars, "SYNC_MAX_CONCURRENT", 6)?;
        Ok(
            SyncConfig {
                window_days,
                rolling_full_tight_days,
                rolling_full_wide_days,
                max_concurrent,
            },
        )
    }
}

/// A variable that holds nothing but white space counts as unset; any other counts without
/// the white space around it.
pub proof fn blank_variables_are_unset(vars: Env, key: Seq<char>)
    ensures
        env_value(vars, key) is None <==> !vars.contains_key(key) || forall|i: int|
            0 <= i < vars[key].len() ==> is_space(#[trigger] vars[key][i]),
        env_value(vars, key) matches Some(v) ==> v.len() > 0 && !is_space(v[0]) && !is_space(
            v.last(),
        ) && exists|from: int, to: int| #[trigger] is_core(v, vars[key], from, to),
{
    if vars.contains_key(key) {
        trimming_keeps_the_core(vars[key]);
    }
}

/// A number is read from a variable that holds its numeral; an unset variable leaves the
/// default.
pub proof fn settings_are_read(vars: Env, key: Seq<char>, n: int, default: int)
    ensures
        env_value(vars, key) is None ==> number_or(vars, key, default) == Ok::<int, ErrorView>(
            default,
        ) && count_or(vars, key, default) == Ok::<int, ErrorView>(default),
        i64::MIN <= n <= i64::MAX && env_value(vars, key) == Some(signed_numeral(n)) ==> number_or(
            vars,
            key,
            default,
        ) == Ok::<int, ErrorView>(n),
        0 <= n <= usize::MAX && env_value(vars, key) == Some(numeral(n as nat)) ==> count_or(
            vars,
            key,
            default,
        ) == Ok::<int, ErrorView>(n),
        number_or(vars, key, default) is Err <==> (env_value(vars, key) matches Some(raw)
            && signed_value(raw) is Err),
        count_or(vars, key, default) is Err <==> (env_value(vars, key) matches Some(raw)
            && unsigned_value(raw, usize::MAX as nat) is Err),
{
    if i64::MIN <= n <= i64::MAX {
        signed_numerals_read_back(n);
    }
    if 0 <= n {
        numerals_read_back(n as nat, usize::MAX as nat);
    }
}

/// A connection is there if and only if its tenant and both credentials are set, and has
/// them as they are set. None of its variables set is no connection and no fault; any
/// other choice of them fails for one of the three that is not set.
pub proof fn connections_are_whole(
    vars: Env,
    tenant_key: Seq<char>,
    client_key: Seq<char>,
    secret_key: Seq<char>,
    name_key: Seq<char>,
)
    ensures
        ({
            let r = connection_in(vars, tenant_key, client_key, secret_key, name_key);
            let tenant = env_value(vars, tenant_key);
            let client = env_value(vars, client_key);
            let secret = env_value(vars, secret_key);
            let name = env_value(vars, name_key);
            let whole = tenant is Some && client is Some && secret is Some;
            let none = tenant is None && client is None && secret is None && name is None;
            &&& r is Err <==> !whole && !none
            &&& r == Ok::<Option<Connection>, ErrorView>(None) <==> none
            &&& r matches Ok(Some(c)) ==> {
                &&& Some(c.tenant_id) == tenant
                &&& Some(c.client_id) == client
                &&& Some(c.client_secret) == secret
                &&& c.tenant_name == name
            }
            &&& r matches Err(e) ==> {
                ||| tenant is None && e == missing_var(tenant_key)
                ||| client is None && e == missing_var(client_key)
                ||| secret is None && e == missing_var(secret_key)
            }
        }),
{
}

/// The explicit connection comes before that of the selected organisation, and a fault in
/// it is told.
pub proof fn explicit_connection_comes_first(vars: Env, index: Seq<char>)
    ensures
        explicit(vars) matches Ok(Some(c)) ==> selected(vars, index) == explicit(vars),
        explicit(vars) is Err ==> selected(vars, index) == explicit(vars),
        explicit(vars) == Ok::<Option<Connection>, ErrorView>(None) ==> selected(vars, index)
            == numbered(vars, index),
{
}

/// A text is cut at its first underscore.
pub proof fn first_underscore_is_first(s: Seq<char>)
    ensures
        0 <= first_underscore(s) <= s.len(),
        first_underscore(s) < s.len() ==> s[first_underscore(s)] == '_',
        forall|i: int| 0 <= i < first_underscore(s) ==> #[trigger] s[i] != '_',
    decreases s.len(),
{
    if s.len() > 0 && s[0] != '_' {
        let rest = s.skip(1);
        first_underscore_is_first(rest);
        assert forall|i: int| 0 <= i < first_underscore(s) implies #[trigger] s[i] != '_' by {
            if i > 0 {
                assert(s[i] == rest[i - 1]);
            }
        }
    }
}

/// The variables of an organisation are found by its number: its tenant, its credentials
/// and its name.
#[verifier::rlimit(40)]
pub proof fn organisations_are_found_by_number(n: nat, suffix: Seq<char>)
    requires
        0 < n <= u16::MAX,
        suffix == "TENANT_ID"@ || suffix == "CLIENT_ID"@ || suffix == "CLIENT_SECRET"@ || suffix
            == "NAME"@,
    ensures
        key_index(org_key(numeral(n), suffix)) == Some(n),
{
    reveal_strlit("XERO_ORG_");
    reveal_strlit("_");
    let key = org_key(numeral(n), suffix);
    let rest = key.skip(9);
    assert(key.subrange(0, 9) =~= "XERO_ORG_"@);
    assert(rest =~= numeral(n) + "_"@ + suffix);
    numeral_denotes(n);
    first_underscore_is_first(rest);
    let at = first_underscore(rest);
    let k = numeral(n).len() as int;
    assert(rest[k] == '_');
    if at < k {
        assert(rest[at] == numeral(n)[at]);
        assert(is_digit(numeral(n)[at]));
    }
    assert(at == k);
    assert(rest.take(at) =~= numeral(n));
    assert(rest.skip(at + 1) =~= suffix);
    numerals_read_back(n, u16::MAX as nat);
}

/// A variable belongs to an organisation only if its name starts with `XERO_ORG_` and its
/// number is positive.
pub proof fn other_variables_have_no_number(key: Seq<char>)
    ensures
        !"XERO_ORG_"@.is_prefix_of(key) ==> key_index(key) is None,
        key_index(key) matches Some(n) ==> 0 < n <= u16::MAX,
{
    if "XERO_ORG_"@.is_prefix_of(key) {
        let rest = key.skip(9);
        digits_read_as_their_number(rest.take(first_underscore(rest)), u16::MAX as nat);
    }
}

/// The numbers of organisations are those that some variable has, each once and in
/// ascending order.
pub proof fn organisations_are_listed_in_order(vars: Env, n: nat, k: u16)
    requires
        n <= u16::MAX,
    ensures
        org_indices(vars, n).contains(k) <==> 0 < k <= n && is_org_index(vars, k as nat),
        forall|i: int, j: int|
            0 <= i < j < org_indices(vars, n).len() ==> #[trigger] org_indices(vars, n)[i]
                < #[trigger] org_indices(vars, n)[j],
        forall|i: int| 0 <= i < org_indices(vars, n).len() ==> #[trigger] org_indices(vars, n)[i]
            <= n,
    decreases n,
{
    if n > 0 {
        let rest = org_indices(vars, (n - 1) as nat);
        let all = org_indices(vars, n);
        organisations_are_listed_in_order(vars, (n - 1) as nat, k);
        if rest.contains(k) {
            let i = choose|i: int| 0 <= i < rest.len() && rest[i] == k;
            assert(all[i] == k);
        }
        if is_org_index(vars, n) {
            assert(all[all.len() - 1] == n as u16);
        }
        if all.contains(k) {
            let i = choose|i: int| 0 <= i < all.len() && all[i] == k;
            if i < rest.len() {
                assert(rest[i] == k);
            }
        }
    }
}

/// Every connection of an organisation serves its tenant, unless an earlier one does
/// already; the connections before stay where they are, and none comes from elsewhere.
pub proof fn organisations_are_all_connected(
    vars: Env,
    start: Seq<Connection>,
    indices: Seq<u16>,
    i: int,
)
    requires
        connections_of(vars, start, indices) is Ok,
        0 <= i < indices.len(),
    ensures
        numbered(vars, numeral(indices[i] as nat)) is Ok,
        numbered(vars, numeral(indices[i] as nat)) matches Ok(Some(c)) ==> has_tenant(
            connections_of(vars, start, indices)->Ok_0,
            c.tenant_id,
        ),
        start.is_prefix_of(connections_of(vars, start, indices)->Ok_0),
    decreases indices.len(),
{
    let front = indices.drop_last();
    let list = connections_of(vars, start, front)->Ok_0;
    let all = connections_of(vars, start, indices)->Ok_0;
    connections_start_as_given(vars, start, indices);
    if i < front.len() {
        organisations_are_all_connected(vars, start, front, i);
        assert(front[i] == indices[i]);
        if let Ok(Some(c)) = numbered(vars, numeral(indices[i] as nat)) {
            let k = choose|k: int| 0 <= k < list.len() && (#[trigger] list[k]).tenant_id
                == c.tenant_id;
            assert(all[k] == list[k]);
        }
    } else {
        if let Ok(Some(c)) = numbered(vars, numeral(indices[i] as nat)) {
            if !has_tenant(list, c.tenant_id) {
                assert(all[all.len() - 1] == c);
            }
        }
    }
}

proof fn connections_start_as_given(vars: Env, start: Seq<Connection>, indices: Seq<u16>)
    requires
        connections_of(vars, start, indices) is Ok,
    ensures
        start.is_prefix_of(connections_of(vars, start, indices)->Ok_0),
    decreases indices.len(),
{
    if indices.len() > 0 {
        let front = indices.drop_last();
        connections_start_as_given(vars, start, front);
        let list = connections_of(vars, start, front)->Ok_0;
        let all = connections_of(vars, start, indices)->Ok_0;
        assert(list.subrange(0, start.len() as int) == start);
        assert(all.subrange(0, start.len() as int) =~= list.subrange(0, start.len() as int));
    } else {
        assert(start.subrange(0, start.len() as int) =~= start);
    }
}

/// Every connection is one that was there before or an organisation's.
pub proof fn connections_are_configured(
    vars: Env,
    start: Seq<Connection>,
    indices: Seq<u16>,
    c: Connection,
)
    requires
        connections_of(vars, start, indices) matches Ok(list) && list.contains(c),
    ensures
        start.contains(c) || exists|i: int|
            0 <= i < indices.len() && numbered(vars, numeral(#[trigger] indices[i] as nat)) == Ok::<
                Option<Connection>,
                ErrorView,
            >(Some(c)),
    decreases indices.len(),
{
    if indices.len() > 0 {
        let front = indices.drop_last();
        let list = connections_of(vars, start, front)->Ok_0;
        let all = connections_of(vars, start, indices)->Ok_0;
        let k = choose|k: int| 0 <= k < all.len() && all[k] == c;
        if k < list.len() {
            assert(list[k] == c);
            connections_are_configured(vars, start, front, c);
            if !start.contains(c) {
                let i = choose|i: int|
                    0 <= i < front.len() && numbered(vars, numeral(#[trigger] front[i] as nat))
                        == Ok::<Option<Connection>, ErrorView>(Some(c));
                assert(indices[i] == front[i]);
            }
        } else {
            assert(indices[indices.len() - 1] == indices.last());
        }
    }
}

/// The configuration's connections: the explicit one first where there is one, and one for
/// the tenant of every organisation that has a number.
pub proof fn all_tenants_are_connected(vars: Env, n: u16)
    requires
        all_connections(vars) is Ok,
    ensures
        explicit(vars) matches Ok(Some(c)) ==> all_connections(vars)->Ok_0.len() > 0
            && all_connections(vars)->Ok_0[0] == c,
        n > 0 && is_org_index(vars, n as nat) ==> (numbered(vars, numeral(n as nat)) matches Ok(
            found,
        ) && (found matches Some(c) ==> has_tenant(all_connections(vars)->Ok_0, c.tenant_id))),
        one_per_tenant(all_connections(vars)->Ok_0),
{
    connections_are_distinct(vars);
    let indices = org_indices(vars, u16::MAX as nat);
    let start = match explicit(vars) {
        Ok(Some(c)) => seq![c],
        _ => Seq::<Connection>::empty(),
    };
    let all = all_connections(vars)->Ok_0;
    connections_start_as_given(vars, start, indices);
    assert(all.subrange(0, start.len() as int) == start);
    if start.len() > 0 {
        assert(all.subrange(0, 1)[0] == start[0]);
    }
    organisations_are_listed_in_order(vars, u16::MAX as nat, n);
    if n > 0 && is_org_index(vars, n as nat) {
        let i = choose|i: int| 0 <= i < indices.len() && indices[i] == n;
        organisations_are_all_connected(vars, start, indices, i);
    }
}

/// Of several variables the first that is set counts.
pub proof fn first_set_counts(vars: Env, keys: Seq<&str>, i: int)
    ensures
        0 <= i < keys.len() && env_value(vars, keys[i]@) is Some && (forall|k: int|
            0 <= k < i ==> env_value(vars, (#[trigger] keys[k])@) is None) ==> first_set(vars, keys)
            == env_value(vars, keys[i]@),
        (forall|k: int| 0 <= k < keys.len() ==> env_value(vars, (#[trigger] keys[k])@) is None)
            ==> first_set(vars, keys) is None,
    decreases keys.len(),
{
    if keys.len() > 0 {
        let rest = keys.skip(1);
        first_set_counts(vars, rest, i - 1);
        if forall|k: int| 0 <= k < i ==> env_value(vars, (#[trigger] keys[k])@) is None {
            assert forall|k: int| 0 <= k < i - 1 && k < rest.len() implies env_value(
                vars,
                (#[trigger] rest[k])@,
            ) is None by {
                assert(rest[k] == keys[k + 1]);
            }
            if 0 < i < keys.len() {
                assert(rest[i - 1] == keys[i]);
                assert(env_value(vars, keys[0]@) is None);
            }
        }
        if forall|k: int| 0 <= k < keys.len() ==> env_value(vars, (#[trigger] keys[k])@) is None {
            assert(env_value(vars, keys[0]@) is None);
            assert forall|k: int| 0 <= k < rest.len() implies env_value(
                vars,
                (#[trigger] rest[k])@,
            ) is None by {
                assert(rest[k] == keys[k + 1]);
            }
        }
    }
}

/// The first organisation is selected unless a variable names another, and only a positive
/// number names one.
pub proof fn first_organisation_is_default(vars: Env, n: nat)
    ensures
        env_value(vars, "XERO_CUSTOM_CONNECTION_ORG_INDEX"@) matches Some(v) ==> org_index(vars)
            == v,
        env_value(vars, "XERO_CUSTOM_CONNECTION_ORG_INDEX"@) is None ==> org_index(vars) == (
        match env_value(vars, "XERO_ORG_INDEX"@) {
            Some(v) => v,
            None => "1"@,
        }),
        is_positive(numeral(n)) <==> 0 < n <= 65535,
        !is_positive(Seq::<char>::empty()),
{
    numerals_read_back(n, u16::MAX as nat);
}

/// Only custom connections are supported, under any of four names and in any case; no name
/// at all means them too.
pub proof fn only_custom_connections_are_supported(v: Seq<char>)
    ensures
        type_failure(None) is None,
        type_failure(Some(v)) is None <==> ({
            let name = lower(trimmed(v));
            ||| name == "custom"@
            ||| name == "custom_connection"@
            ||| name == "client_credentials"@
            ||| name == "cc"@
        }),
        type_failure(Some(v)) matches Some(e) ==> e is Config,
{
}

/// A configuration that is accepted has a supported connection type, at least one
/// connection, no two for the same tenant, the selected connection as its default, and the
/// log level that is set, else `info`.
pub proof fn accepted_settings_are_sound(vars: Env)
    requires
        app_settings(vars) is Ok,
    ensures
        ({
            let s = app_settings(vars)->Ok_0;
            &&& type_failure(env_value(vars, "XERO_CONNECTION_TYPE"@)) is None
            &&& is_positive(org_index(vars))
            &&& s.all.len() > 0
            &&& one_per_tenant(s.all)
            &&& all_connections(vars) == Ok::<Seq<Connection>, ErrorView>(s.all)
            &&& explicit(vars) matches Ok(Some(c)) ==> s.default == c
            &&& explicit(vars) == Ok::<Option<Connection>, ErrorView>(None) ==> numbered(
                vars,
                org_index(vars),
            ) == Ok::<Option<Connection>, ErrorView>(Some(s.default))
            &&& env_value(vars, "RUST_LOG"@) matches Some(l) ==> s.log_level == l
            &&& env_value(vars, "RUST_LOG"@) is None ==> s.log_level == "info"@
        }),
{
    connections_are_distinct(vars);
}

/// A configuration is refused for its connection type, its organisation number, a fault in
/// a connection, or for want of any connection or of the selected one; and otherwise not.
pub proof fn settings_are_refused_for_a_reason(vars: Env)
    ensures
        app_settings(vars) is Err <==> {
            ||| type_failure(env_value(vars, "XERO_CONNECTION_TYPE"@)) is Some
            ||| !is_positive(org_index(vars))
            ||| all_connections(vars) is Err
            ||| all_connections(vars)->Ok_0.len() == 0
            ||| !(selected(vars, org_index(vars)) matches Ok(Some(_)))
        },
{
}

/// Slashes in front make no difference to whether a prefix is reserved; a prefix that does
/// not start with one is reserved if and only if it starts with `_manifests`.
pub proof fn leading_slashes_reserve_nothing(prefix: Seq<char>)
    ensures
        is_reserved("/"@ + prefix) <==> is_reserved(prefix),
        prefix.len() == 0 || prefix[0] != '/' ==> (is_reserved(prefix)
            <==> "_manifests"@.is_prefix_of(prefix)),
        !is_reserved("raw/xero"@),
{
    reveal_strlit("/");
    reveal_strlit("_manifests");
    reveal_strlit("raw/xero");
    let s = "/"@ + prefix;
    assert(s[0] == '/');
    assert(s.skip(1) =~= prefix);
    assert("raw/xero"@.len() == 8 && "_manifests"@.len() == 10);
    assert("raw/xero"@[0] == 'r');
}

/// Raw objects go below the prefix that is set, else below `raw/xero`.
pub proof fn raw_prefix_has_a_default(vars: Env)
    ensures
        env_value(vars, "GCS_PREFIX"@) matches Some(p) ==> gcs_prefix(vars) == p,
        env_value(vars, "GCS_PREFIX"@) is None ==> gcs_prefix(vars) == "raw/xero"@,
        gcs_prefix(vars).len() > 0,
{
    reveal_strlit("raw/xero");
}

/// The sync settings are refused if and only if one of the four is set to what is no
/// number.
pub proof fn sync_settings_are_numbers(vars: Env)
    ensures
        sync_failure(vars) is Some <==> {
            ||| (env_value(vars, "SYNC_WINDOW_DAYS"@) matches Some(t) && signed_value(t) is Err)
            ||| (env_value(vars, "SYNC_ROLLING_FULL_TIGHT_DAYS"@) matches Some(t) && signed_value(
                t,
            ) is Err)
            ||| (env_value(vars, "SYNC_ROLLING_FULL_WIDE_DAYS"@) matches Some(t) && signed_value(
                t,
            ) is Err)
            ||| (env_value(vars, "SYNC_MAX_CONCURRENT"@) matches Some(t) && unsigned_value(
                t,
                usize::MAX as nat,
            ) is Err)
        },
{
}

/// Four variables make up an organisation's connection.
pub proof fn organisations_have_four_variables(s: Seq<char>)
    ensures
        is_org_suffix(s) <==> s == "TENANT_ID"@ || s == "CLIENT_ID"@ || s == "CLIENT_SECRET"@ || s
            == "NAME"@,
{
}

} // verus!
