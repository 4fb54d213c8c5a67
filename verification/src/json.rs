//! JSON documents as trees.

use vstd::prelude::*;

use crate::text::{hex_digit, same, signed_decimal, signed_numeral};
use crate::tokens::{grow, json_tokens, read_tokens, tokens_of};

verus! {

/// A JSON document.
#[derive(Debug)]
pub enum Json {
    Null,
    Bool(bool),
    /// A number that is a 64-bit signed integer.
    Int(i64),
    /// Any other number, as its JSON text.
    Number(String),
    Text(String),
    Array(Vec<Json>),
    /// Members in document order of the reader, each name once.
    Object(Vec<(String, Json)>),
}

/// The value of the first member with the given name.
pub open spec fn member(entries: Seq<(String, Json)>, key: Seq<char>) -> Option<Json>
    decreases entries.len(),
{
    if entries.len() == 0 {
        None
    } else if entries[0].0@ == key {
        Some(entries[0].1)
    } else {
        member(entries.skip(1), key)
    }
}

impl Json {
    /// The value under `key`, where this is an object that has it.
    pub open spec fn field(self, key: Seq<char>) -> Option<Json> {
        match self {
            Json::Object(entries) => member(entries@, key),
            _ => None,
        }
    }

    /// The characters, where this is a text.
    pub open spec fn chars(self) -> Option<Seq<char>> {
        match self {
            Json::Text(s) => Some(s@),
            _ => None,
        }
    }

    /// The integer, where this is a number of 64 signed bits.
    pub open spec fn integer(self) -> Option<i64> {
        match self {
            Json::Int(n) => Some(n),
            _ => None,
        }
    }

    /// The items, where this is an array.
    pub open spec fn items(self) -> Option<Seq<Json>> {
        match self {
            Json::Array(v) => Some(v@),
            _ => None,
        }
    }

    /// The value under `key`.
    pub fn get(&self, key: &str) -> (r: Option<&Json>)
        ensures
            match r {
                Some(j) => self.field(key@) == Some(*j),
                None => self.field(key@) is None,
            },
    {
        match self {
            Json::Object(entries) => {
                let mut i: usize = 0;
                proof {
                    assert(entries@.skip(0) =~= entries@);
                }
                while i < entries.len()
                    invariant
                        i <= entries.len(),
                        *self == Json::Object(*entries),
                        member(entries@.skip(i as int), key@) == member(entries@, key@),
                    decreases entries.len() - i,
                {
                    proof {
                        assert(entries@.skip(i as int)[0] == entries@[i as int]);
                        assert(entries@.skip(i as int).skip(1) =~= entries@.skip(i + 1));
                    }
                    if same(entries[i].0.as_str(), key) {
                        return Some(&entries[i].1);
                    }
                    i += 1;
                }
                None
            },
            _ => None,
        }
    }

    /// The characters of a text.
    pub fn as_str(&self) -> (r: Option<&str>)
        ensures
            match r {
                Some(s) => self.chars() == Some(s@),
                None => self.chars() is None,
            },
    {
        match self {
            Json::Text(s) => Some(s.as_str()),
            _ => None,
        }
    }

    /// The value of an integer number.
    pub fn as_i64(&self) -> (r: Option<i64>)
        ensures
            r == self.integer(),
    {
        match self {
            Json::Int(n) => Some(*n),
            _ => None,
        }
    }

    /// The items of an array.
    pub fn as_array(&self) -> (r: Option<&Vec<Json>>)
        ensures
            match r {
                Some(v) => self.items() == Some(v@),
                None => self.items() is None,
            },
    {
        match self {
            Json::Array(v) => Some(v),
            _ => None,
        }
    }

    /// Take the value under `key` out of the document.
    pub fn take(self, key: &str) -> (r: Option<Json>)
        ensures
            r == self.field(key@),
    {
        match self {
            Json::Object(entries) => {
                let mut entries = entries;
                let ghost all = entries@;
                let mut i: usize = 0;
                proof {
                    assert(all.skip(0) =~= all);
                }
                while i < entries.len()
                    invariant
                        i <= entries.len(),
                        entries@ == all,
                        self.field(key@) == member(all, key@),
                        member(all.skip(i as int), key@) == member(all, key@),
                    decreases entries.len() - i,
                {
                    proof {
                        assert(all.skip(i as int)[0] == all[i as int]);
                        assert(all.skip(i as int).skip(1) =~= all.skip(i + 1));
                    }
                    if same(entries[i].0.as_str(), key) {
                        let (_, value) = entries.swap_remove(i);
                        return Some(value);
                    }
                    i += 1;
                }
                None
            },
            _ => None,
        }
    }
}

/// The text under a name.
pub open spec fn text_in(document: Json, key: Seq<char>) -> Option<Seq<char>> {
    match document.field(key) {
        Some(v) => v.chars(),
        None => None,
    }
}

/// A simple value.
pub enum Part {
    Null,
    Bool(bool),
    Int(int),
    Text(Seq<char>),
    /// An array of texts.
    Texts(Seq<Seq<char>>),
}

/// Whether a JSON value is the given part.
pub open spec fn is_part(j: Json, part: Part) -> bool {
    match part {
        Part::Null => j == Json::Null,
        Part::Bool(b) => j == Json::Bool(b),
        Part::Int(n) => j matches Json::Int(m) && m == n,
        Part::Text(t) => j matches Json::Text(s) && s@ == t,
        Part::Texts(list) => are_texts(j, list),
    }
}

/// Whether a JSON value is an array of the given texts.
pub open spec fn are_texts(j: Json, list: Seq<Seq<char>>) -> bool {
    &&& j matches Json::Array(items)
    &&& items@.len() == list.len()
    &&& forall|i: int| 0 <= i < list.len() ==> (#[trigger] items@[i]).chars() == Some(list[i])
}

/// Whether a JSON value is an object of exactly the given members.
pub open spec fn is_object(j: Json, parts: Seq<(Seq<char>, Part)>) -> bool {
    &&& j matches Json::Object(entries)
    &&& entries@.len() == parts.len()
    &&& forall|i: int|
        0 <= i < parts.len() ==> (#[trigger] entries@[i]).0@ == parts[i].0 && is_part(
            entries@[i].1,
            parts[i].1,
        )
}

/// A member is the one under its name, where no member before it has the name.
pub proof fn first_member(entries: Seq<(String, Json)>, i: int)
    requires
        0 <= i < entries.len(),
        forall|k: int| 0 <= k < i ==> (#[trigger] entries[k]).0@ != entries[i].0@,
    ensures
        member(entries, entries[i].0@) == Some(entries[i].1),
    decreases i,
{
    if i > 0 {
        let rest = entries.skip(1);
        assert(rest[i - 1] == entries[i]);
        assert forall|k: int| 0 <= k < i - 1 implies (#[trigger] rest[k]).0@ != rest[i - 1].0@ by {
            assert(rest[k] == entries[k + 1]);
        }
        assert(entries[0].0@ != entries[i].0@);
        first_member(rest, i - 1);
    }
}

/// A name that no member has is not found.
pub proof fn no_member(entries: Seq<(String, Json)>, key: Seq<char>)
    requires
        forall|k: int| 0 <= k < entries.len() ==> (#[trigger] entries[k]).0@ != key,
    ensures
        member(entries, key) is None,
    decreases entries.len(),
{
    if entries.len() > 0 {
        let rest = entries.skip(1);
        assert forall|k: int| 0 <= k < rest.len() implies (#[trigger] rest[k]).0@ != key by {
            assert(rest[k] == entries[k + 1]);
        }
        no_member(rest, key);
    }
}

/// Whether the bytes are a JSON document that can be read.
pub open spec fn readable(bytes: Seq<u8>) -> bool {
    json_tokens(bytes) is Some
}

/// Whether `j` is the tree of the JSON document `bytes`.
pub open spec fn is_tree_of(j: Json, bytes: Seq<u8>) -> bool {
    json_tokens(bytes) == Some(tokens_of(j))
}

/// Whether no object in the document has two members of the same name.
pub open spec fn is_tidy(j: Json) -> bool
    decreases j,
{
    match j {
        Json::Array(v) => forall|i: int| 0 <= i < v@.len() ==> is_tidy(#[trigger] v@[i]),
        Json::Object(v) => {
            &&& forall|i: int| 0 <= i < v@.len() ==> is_tidy((#[trigger] v@[i]).1)
            &&& forall|i: int, k: int|
                0 <= i < k < v@.len() ==> (#[trigger] v@[i]).0@ != (#[trigger] v@[k]).0@
        },
        _ => true,
    }
}

/// Read a JSON document.
pub fn parse(bytes: &[u8]) -> (r: Option<Json>)
    ensures
        match r {
            Some(j) => readable(bytes@) && is_tree_of(j, bytes@) && is_tidy(j),
            None => !readable(bytes@),
        },
{
    match read_tokens(bytes) {
        Some(tokens) => Some(grow(tokens)),
        None => None,
    }
}

/// Whether a number's text is that of zero in floating point, of either sign.
pub open spec fn is_float_zero(t: Seq<char>) -> bool {
    t == "0.0"@ || t == "-0.0"@
}

/// Whether two documents have the same value: the order of an object's members
/// does not count.
pub open spec fn same_value(a: Json, b: Json) -> bool
    decreases a,
{
    match (a, b) {
        (Json::Null, Json::Null) => true,
        (Json::Bool(x), Json::Bool(y)) => x == y,
        (Json::Int(x), Json::Int(y)) => x == y,
        (Json::Number(x), Json::Number(y)) => x@ == y@ || (is_float_zero(x@) && is_float_zero(y@)),
        (Json::Text(x), Json::Text(y)) => x@ == y@,
        (Json::Array(x), Json::Array(y)) => x@.len() == y@.len() && forall|i: int|
            0 <= i < x@.len() ==> same_value(#[trigger] x@[i], y@[i]),
        (Json::Object(x), Json::Object(y)) => x@.len() == y@.len() && forall|i: int|
            0 <= i < x@.len() ==> (member(y@, (#[trigger] x@[i]).0@) matches Some(z) && same_value(
                x@[i].1,
                z,
            )),
        _ => false,
    }
}

/// The member at a place is found by its name.
proof fn member_at(v: Seq<(String, Json)>, i: int)
    requires
        0 <= i < v.len(),
        forall|a: int, b: int|
            0 <= a < b < v.len() ==> (#[trigger] v[a]).0@ != (#[trigger] v[b]).0@,
    ensures
        member(v, v[i].0@) == Some(v[i].1),
    decreases v.len(),
{
    if i > 0 {
        assert(v[0].0@ != v[i].0@);
        let rest = v.skip(1);
        assert forall|a: int, b: int| 0 <= a < b < rest.len() implies (#[trigger] rest[a]).0@ != (
        #[trigger] rest[b]).0@ by {
            assert(v[a + 1].0@ != v[b + 1].0@);
        }
        member_at(rest, i - 1);
        assert(rest[i - 1] == v[i]);
    }
}

/// Every document that was read has the same value as itself.
pub proof fn same_value_is_reflexive(j: Json)
    requires
        is_tidy(j),
    ensures
        same_value(j, j),
    decreases j,
{
    match j {
        Json::Array(v) => {
            assert forall|i: int| 0 <= i < v@.len() implies same_value(#[trigger] v@[i], v@[i]) by {
                item_is_smaller(j, v, i);
                same_value_is_reflexive(v@[i]);
            }
        },
        Json::Object(v) => {
            assert forall|i: int| 0 <= i < v@.len() implies (member(v@, (#[trigger] v@[i]).0@)
                matches Some(z) && same_value(v@[i].1, z)) by {
                member_at(v@, i);
                member_is_smaller(j, v, i);
                same_value_is_reflexive(v@[i].1);
            }
        },
        _ => {},
    }
}

impl Json {
    /// Whether two documents have the same value.
    pub fn same(&self, other: &Json) -> (r: bool)
        ensures
            r == same_value(*self, *other),
        decreases *self,
    {
        match (self, other) {
            (Json::Null, Json::Null) => true,
            (Json::Bool(x), Json::Bool(y)) => *x == *y,
            (Json::Int(x), Json::Int(y)) => *x == *y,
            (Json::Number(x), Json::Number(y)) => same(x.as_str(), y.as_str()) || (float_zero(
                x.as_str(),
            ) && float_zero(y.as_str())),
            (Json::Text(x), Json::Text(y)) => same(x.as_str(), y.as_str()),
            (Json::Array(x), Json::Array(y)) => {
                if x.len() != y.len() {
                    return false;
                }
                let mut i: usize = 0;
                while i < x.len()
                    invariant
                        i <= x.len() == y.len(),
                        *self == Json::Array(*x),
                        *other == Json::Array(*y),
                        forall|k: int| 0 <= k < i ==> same_value(#[trigger] x@[k], y@[k]),
                    decreases x.len() - i,
                {
                    proof {
                        item_is_smaller(*self, *x, i as int);
                    }
                    if !x[i].same(&y[i]) {
                        assert(!same_value(x@[i as int], y@[i as int]));
                        return false;
                    }
                    i += 1;
                }
                true
            },
            (Json::Object(x), Json::Object(y)) => {
                if x.len() != y.len() {
                    return false;
                }
                let mut i: usize = 0;
                while i < x.len()
                    invariant
                        i <= x.len() == y.len(),
                        *self == Json::Object(*x),
                        *other == Json::Object(*y),
                        forall|k: int|
                            0 <= k < i ==> (member(y@, (#[trigger] x@[k]).0@) matches Some(z)
                                && same_value(x@[k].1, z)),
                    decreases x.len() - i,
                {
                    match other.get(x[i].0.as_str()) {
                        Some(z) => {
                            proof {
                                member_is_smaller(*self, *x, i as int);
                            }
                            if !x[i].1.same(z) {
                                assert(!same_value(x@[i as int].1, *z));
                                return false;
                            }
                        },
                        None => {
                            assert(member(y@, x@[i as int].0@) is None);
                            return false;
                        },
                    }
                    i += 1;
                }
                true
            },
            _ => false,
        }
    }
}

/// An item is smaller than its array.
proof fn item_is_smaller(j: Json, v: Vec<Json>, i: int)
    requires
        j == Json::Array(v),
        0 <= i < v@.len(),
    ensures
        decreases_to!(j => v@[i]),
{
    assert(decreases_to!(j => j->Array_0));
    assert(decreases_to!(v => v@));
    assert(decreases_to!(v@ => v@[i]));
}

/// A member's value is smaller than its object.
proof fn member_is_smaller(j: Json, v: Vec<(String, Json)>, i: int)
    requires
        j == Json::Object(v),
        0 <= i < v@.len(),
    ensures
        decreases_to!(j => v@[i].1),
{
    assert(decreases_to!(j => j->Object_0));
    assert(decreases_to!(v => v@));
    assert(decreases_to!(v@ => v@[i]));
    assert(decreases_to!(v@[i] => v@[i].1));
}

fn float_zero(t: &str) -> (r: bool)
    ensures
        r == is_float_zero(t@),
{
    same(t, "0.0") || same(t, "-0.0")
}

/// A character as it stands inside a JSON text: quotation marks, backslashes and
/// control characters are escaped.
pub open spec fn json_escaped(c: char) -> Seq<char> {
    if c == '"' {
        "\\\""@
    } else if c == '\\' {
        "\\\\"@
    } else if c == '\n' {
        "\\n"@
    } else if c == '\r' {
        "\\r"@
    } else if c == '\t' {
        "\\t"@
    } else if c == '\u{8}' {
        "\\b"@
    } else if c == '\u{c}' {
        "\\f"@
    } else if (c as u32) < 32 {
        "\\u00"@ + seq![hex_digit(c as int / 16), hex_digit(c as int % 16)]
    } else {
        seq![c]
    }
}

/// The characters of a text, each as it stands inside a JSON text.
pub open spec fn json_escaped_all(s: Seq<char>) -> Seq<char>
    decreases s.len(),
{
    if s.len() == 0 {
        ""@
    } else {
        json_escaped_all(s.drop_last()) + json_escaped(s.last())
    }
}

/// A text in JSON: in double quotes, escaped.
pub open spec fn json_quoted(s: Seq<char>) -> Seq<char> {
    "\""@ + json_escaped_all(s) + "\""@
}

/// `serde_json::to_string` on a `str`: the text in double quotes, escaped as JSON
/// demands and no further. It cannot fail.
#[verifier::external_body]
fn quote(s: &str) -> (r: String)
    ensures
        r@ == json_quoted(s@),
{
    serde_json::to_string(s).unwrap()
}

/// A document as compact JSON text.
pub open spec fn compact(j: Json) -> Seq<char>
    decreases j,
{
    match j {
        Json::Null => "null"@,
        Json::Bool(b) => if b {
            "true"@
        } else {
            "false"@
        },
        Json::Int(n) => signed_numeral(n as int),
        Json::Number(t) => t@,
        Json::Text(t) => json_quoted(t@),
        Json::Array(v) => "["@ + compact_items(v@) + "]"@,
        Json::Object(v) => "{"@ + compact_members(v@) + "}"@,
    }
}

/// The items of an array as compact JSON text, separated by commas.
pub open spec fn compact_items(v: Seq<Json>) -> Seq<char>
    decreases v,
{
    if v.len() == 0 {
        ""@
    } else if v.len() == 1 {
        compact(v[0])
    } else {
        compact_items(v.subrange(0, v.len() - 1)) + ","@ + compact(v[v.len() - 1])
    }
}

/// The members of an object as compact JSON text, separated by commas.
pub open spec fn compact_members(v: Seq<(String, Json)>) -> Seq<char>
    decreases v,
{
    if v.len() == 0 {
        ""@
    } else if v.len() == 1 {
        json_quoted(v[0].0@) + ":"@ + compact(v[0].1)
    } else {
        compact_members(v.subrange(0, v.len() - 1)) + ","@ + (json_quoted(v[v.len() - 1].0@) + ":"@
            + compact(v[v.len() - 1].1))
    }
}

impl Json {
    /// The document as compact JSON text.
    pub fn to_text(&self) -> (r: String)
        ensures
            r@ == compact(*self),
        decreases *self,
    {
        match self {
            Json::Null => "null".to_owned(),
            Json::Bool(b) => if *b {
                "true".to_owned()
            } else {
                "false".to_owned()
            },
            Json::Int(n) => signed_decimal(*n),
            Json::Number(t) => t.clone(),
            Json::Text(t) => quote(t.as_str()),
            Json::Array(v) => {
                let mut items = "".to_owned();
                let mut i: usize = 0;
                while i < v.len()
                    invariant
                        i <= v.len(),
                        *self == Json::Array(*v),
                        items@ == compact_items(v@.subrange(0, i as int)),
                    decreases v.len() - i,
                {
                    let ghost upto = v@.subrange(0, i + 1);
                    proof {
                        assert(upto.subrange(0, upto.len() - 1) =~= v@.subrange(0, i as int));
                        assert(upto[upto.len() - 1] == v@[i as int]);
                        item_is_smaller(*self, *v, i as int);
                    }
                    let text = v[i].to_text();
                    if i > 0 {
                        items.append(",");
                        items.append(text.as_str());
                    } else {
                        items = text;
                    }
                    i += 1;
                }
                proof {
                    assert(v@.subrange(0, i as int) =~= v@);
                }
                "[".to_owned().concat(items.as_str()).concat("]")
            },
            Json::Object(v) => {
                let mut members = "".to_owned();
                let mut i: usize = 0;
                while i < v.len()
                    invariant
                        i <= v.len(),
                        *self == Json::Object(*v),
                        members@ == compact_members(v@.subrange(0, i as int)),
                    decreases v.len() - i,
                {
                    let ghost upto = v@.subrange(0, i + 1);
                    proof {
                        assert(upto.subrange(0, upto.len() - 1) =~= v@.subrange(0, i as int));
                        assert(upto[upto.len() - 1] == v@[i as int]);
                        member_is_smaller(*self, *v, i as int);
                    }
                    let value = v[i].1.to_text();
                    let text = quote(v[i].0.as_str()).concat(":").concat(value.as_str());
                    if i > 0 {
                        members.append(",");
                        members.append(text.as_str());
                    } else {
                        members = text;
                    }
                    i += 1;
                }
                proof {
                    assert(v@.subrange(0, i as int) =~= v@);
                }
                "{".to_owned().concat(members.as_str()).concat("}")
            },
        }
    }
}

/// A document as JSON text, each item and member on a line of its own, indented by two
/// spaces more than what it lies in.
pub open spec fn pretty(j: Json, indent: Seq<char>) -> Seq<char>
    decreases j,
{
    match j {
        Json::Array(v) => if v@.len() == 0 {
            "[]"@
        } else {
            "["@ + pretty_items(v@, indent + "  "@) + "\n"@ + indent + "]"@
        },
        Json::Object(v) => if v@.len() == 0 {
            "{}"@
        } else {
            "{"@ + pretty_members(v@, indent + "  "@) + "\n"@ + indent + "}"@
        },
        _ => compact(j),
    }
}

/// What comes before an item or a member: a comma unless it is the first, and a new
/// line.
pub open spec fn line_start(first: bool, indent: Seq<char>) -> Seq<char> {
    (if first {
        "\n"@
    } else {
        ",\n"@
    }) + indent
}

/// The items of an array, each on a line of its own.
pub open spec fn pretty_items(v: Seq<Json>, indent: Seq<char>) -> Seq<char>
    decreases v,
{
    if v.len() == 0 {
        ""@
    } else {
        pretty_items(v.subrange(0, v.len() - 1), indent) + (line_start(v.len() == 1, indent)
            + pretty(v[v.len() - 1], indent))
    }
}

/// The members of an object, each on a line of its own.
pub open spec fn pretty_members(v: Seq<(String, Json)>, indent: Seq<char>) -> Seq<char>
    decreases v,
{
    if v.len() == 0 {
        ""@
    } else {
        pretty_members(v.subrange(0, v.len() - 1), indent) + (line_start(v.len() == 1, indent)
            + json_quoted(v[v.len() - 1].0@) + ": "@ + pretty(v[v.len() - 1].1, indent))
    }
}

fn new_line(first: bool, indent: &str) -> (r: String)
    ensures
        r@ == line_start(first, indent@),
{
    if first {
        "\n".to_owned().concat(indent)
    } else {
        ",\n".to_owned().concat(indent)
    }
}

impl Json {
    /// The document as indented JSON text.
    pub fn to_pretty_text(&self) -> (r: String)
        ensures
            r@ == pretty(*self, ""@),
    {
        self.indented("")
    }

    fn indented(&self, indent: &str) -> (r: String)
        ensures
            r@ == pretty(*self, indent@),
        decreases *self,
    {
        match self {
            Json::Array(v) => {
                if v.len() == 0 {
                    return "[]".to_owned();
                }
                let inner = indent.to_owned().concat("  ");
                let mut items = "".to_owned();
                let mut i: usize = 0;
                while i < v.len()
                    invariant
                        i <= v.len(),
                        *self == Json::Array(*v),
                        items@ == pretty_items(v@.subrange(0, i as int), inner@),
                    decreases v.len() - i,
                {
                    let ghost upto = v@.subrange(0, i + 1);
                    proof {
                        assert(upto.subrange(0, upto.len() - 1) =~= v@.subrange(0, i as int));
                        assert(upto[upto.len() - 1] == v@[i as int]);
                        item_is_smaller(*self, *v, i as int);
                    }
                    let text = v[i].indented(inner.as_str());
                    items.append(new_line(i == 0, inner.as_str()).concat(text.as_str()).as_str());
                    i += 1;
                }
                proof {
                    assert(v@.subrange(0, i as int) =~= v@);
                }
                "[".to_owned().concat(items.as_str()).concat("\n").concat(indent).concat("]")
            },
            Json::Object(v) => {
                if v.len() == 0 {
                    return "{}".to_owned();
                }
                let inner = indent.to_owned().concat("  ");
                let mut members = "".to_owned();
                let mut i: usize = 0;
                while i < v.len()
                    invariant
                        i <= v.len(),
                        *self == Json::Object(*v),
                        members@ == pretty_members(v@.subrange(0, i as int), inner@),
                    decreases v.len() - i,
                {
                    let ghost upto = v@.subrange(0, i + 1);
                    proof {
                        assert(upto.subrange(0, upto.len() - 1) =~= v@.subrange(0, i as int));
                        assert(upto[upto.len() - 1] == v@[i as int]);
                        member_is_smaller(*self, *v, i as int);
                    }
                    let text = v[i].1.indented(inner.as_str());
                    let name = quote(v[i].0.as_str());
                    members.append(
                        new_line(i == 0, inner.as_str()).concat(name.as_str()).concat(": ").concat(
                            text.as_str(),
                        ).as_str(),
                    );
                    i += 1;
                }
                proof {
                    assert(v@.subrange(0, i as int) =~= v@);
                }
                "{".to_owned().concat(members.as_str()).concat("\n").concat(indent).concat("}")
            },
            _ => self.to_text(),
        }
    }
}

/// Documents with the same value are of the same kind: the same text, the same integer, the
/// same truth value, or arrays of the same length with the same values in the same order.
pub proof fn same_values_are_of_one_kind(a: Json, b: Json, i: int)
    requires
        same_value(a, b),
    ensures
        a.chars() == b.chars(),
        a.integer() == b.integer(),
        a is Null <==> b is Null,
        a matches Json::Bool(x) ==> b == Json::Bool(x),
        a is Object <==> b is Object,
        a.items() matches Some(x) ==> (b.items() matches Some(y) && x.len() == y.len() && (0 <= i
            < x.len() ==> same_value(x[i], y[i]))),
        b.items() is Some ==> a.items() is Some,
{
}

/// Texts, integers and truth values have the same value only if they are equal.
pub proof fn equal_scalars_have_the_same_value(a: Json, b: Json)
    ensures
        a is Text && b is Text ==> (same_value(a, b) <==> a.chars() == b.chars()),
        a is Int && b is Int ==> (same_value(a, b) <==> a.integer() == b.integer()),
        a is Bool && b is Bool ==> (same_value(a, b) <==> a == b),
        same_value(Json::Null, Json::Null),
{
}

/// Of two objects with the same value, what the one has under a name the other has too, with
/// the same value; and they have as many members.
pub proof fn same_objects_have_the_same_fields(a: Json, b: Json, key: Seq<char>)
    requires
        same_value(a, b),
    ensures
        a.field(key) matches Some(v) ==> (b.field(key) matches Some(w) && same_value(v, w)),
        (a matches Json::Object(x) && b matches Json::Object(y)) ==> a->Object_0@.len()
            == b->Object_0@.len(),
{
    if let Json::Object(x) = a {
        if a.field(key) is Some {
            let i = member_place(x@, key);
            assert(x@[i].0@ == key);
        }
    }
}

proof fn member_place(entries: Seq<(String, Json)>, key: Seq<char>) -> (i: int)
    requires
        member(entries, key) is Some,
    ensures
        0 <= i < entries.len(),
        entries[i].0@ == key,
        member(entries, key) == Some(entries[i].1),
    decreases entries.len(),
{
    if entries[0].0@ == key {
        0
    } else {
        let rest = entries.skip(1);
        let k = member_place(rest, key);
        assert(rest[k] == entries[k + 1]);
        k + 1
    }
}

/// A document has what an object of parts says under each name, and nothing besides.
pub proof fn objects_have_their_parts(j: Json, parts: Seq<(Seq<char>, Part)>, i: int)
    requires
        is_object(j, parts),
        0 <= i < parts.len(),
        forall|k: int| 0 <= k < i ==> (#[trigger] parts[k]).0 != parts[i].0,
    ensures
        j.field(parts[i].0) matches Some(v) && is_part(v, parts[i].1),
        parts[i].1 matches Part::Text(t) ==> text_in(j, parts[i].0) == Some(t),
{
    if let Json::Object(entries) = j {
        assert forall|k: int| 0 <= k < i implies (#[trigger] entries@[k]).0@ != entries@[i].0@ by {
            assert(entries@[k].0@ == parts[k].0);
        }
        first_member(entries@, i);
    }
}

/// Inside a JSON text quotation marks and backslashes stand behind a backslash, control
/// characters are written out, and every other character stands as it is.
pub proof fn json_escapes_what_it_must(c: char)
    ensures
        c != '"' && c != '\\' && c as u32 >= 32 ==> json_escaped(c) == seq![c],
        c == '"' || c == '\\' ==> json_escaped(c) == seq!['\\', c],
        (c as u32) < 32 ==> json_escaped(c).len() >= 2 && json_escaped(c)[0] == '\\',
        forall|i: int|
            0 <= i < json_escaped(c).len() ==> #[trigger] json_escaped(c)[i] as u32 >= 32,
{
    reveal_strlit("\\\"");
    reveal_strlit("\\\\");
    reveal_strlit("\\n");
    reveal_strlit("\\r");
    reveal_strlit("\\t");
    reveal_strlit("\\b");
    reveal_strlit("\\f");
    reveal_strlit("\\u00");
    if c == '"' {
        assert(json_escaped(c) =~= seq!['\\', c]);
    } else if c == '\\' {
        assert(json_escaped(c) =~= seq!['\\', c]);
    }
}

/// Texts are written one after the other: what is escaped of two texts is what is escaped of
/// the one and then of the other.
pub proof fn escapes_add_up(a: Seq<char>, b: Seq<char>)
    ensures
        json_escaped_all(a + b) == json_escaped_all(a) + json_escaped_all(b),
        b.len() == 1 ==> json_escaped_all(b) == json_escaped(b[0]),
        json_quoted(a) == "\""@ + json_escaped_all(a) + "\""@,
    decreases b.len(),
{
    reveal_strlit("");
    if b.len() == 0 {
        assert(a + b =~= a);
        assert(json_escaped_all(a) + json_escaped_all(b) =~= json_escaped_all(a));
    } else {
        escapes_add_up(a, b.drop_last());
        assert((a + b).drop_last() =~= a + b.drop_last());
        assert((a + b).last() == b.last());
        assert(json_escaped_all(a + b) =~= json_escaped_all(a) + json_escaped_all(b));
        if b.len() == 1 {
            assert(json_escaped_all(b.drop_last()) =~= ""@);
            assert(json_escaped_all(b) =~= json_escaped(b[0]));
        }
    }
}

} // verus!
