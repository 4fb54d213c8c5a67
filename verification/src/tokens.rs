//! JSON documents laid out flat, and trees grown from them.
//!
//! A document is a run of tokens: each value, then what lies in it, the last part
//! first. Read from the end, the parts of a value come before it and in order.

use serde_json::{from_slice, Value};
use vstd::prelude::*;

use crate::json::{is_tidy, Json};
use crate::text::texts;

verus! {

/// A value without what lies in it.
pub enum Token {
    Null,
    Bool(bool),
    /// A number: its value, where it is a 64-bit signed integer, and its text.
    Number(Option<i64>, String),
    Text(String),
    /// An array of so many items.
    Array(usize),
    /// An object with members of these names.
    Object(Vec<String>),
}

/// The mathematical value of a [`Token`].
pub enum TokenView {
    Null,
    Bool(bool),
    Int(i64),
    Number(Seq<char>),
    Text(Seq<char>),
    Array(nat),
    Object(Seq<Seq<char>>),
}

impl View for Token {
    type V = TokenView;

    open spec fn view(&self) -> TokenView {
        match self {
            Token::Null => TokenView::Null,
            Token::Bool(b) => TokenView::Bool(*b),
            Token::Number(Some(n), _) => TokenView::Int(*n),
            Token::Number(None, t) => TokenView::Number(t@),
            Token::Text(t) => TokenView::Text(t@),
            Token::Array(n) => TokenView::Array(*n as nat),
            Token::Object(names) => TokenView::Object(texts(names@)),
        }
    }
}

/// Tokens as their mathematical values.
pub open spec fn token_views(v: Seq<Token>) -> Seq<TokenView> {
    Seq::new(v.len(), |i: int| v[i]@)
}

/// The token of a value.
pub open spec fn token_of(j: Json) -> TokenView {
    match j {
        Json::Null => TokenView::Null,
        Json::Bool(b) => TokenView::Bool(b),
        Json::Int(n) => TokenView::Int(n),
        Json::Number(t) => TokenView::Number(t@),
        Json::Text(t) => TokenView::Text(t@),
        Json::Array(v) => TokenView::Array(v@.len()),
        Json::Object(v) => TokenView::Object(member_names(v@)),
    }
}

/// The names of members.
pub open spec fn member_names(v: Seq<(String, Json)>) -> Seq<Seq<char>> {
    Seq::new(v.len(), |i: int| v[i].0@)
}

/// The values of members.
pub open spec fn member_values(v: Seq<(String, Json)>) -> Seq<Json> {
    Seq::new(v.len(), |i: int| v[i].1)
}

/// The tokens of a document.
pub open spec fn tokens_of(j: Json) -> Seq<TokenView>
    decreases j,
{
    match j {
        Json::Array(v) => seq![token_of(j)] + tokens_of_items(v@),
        Json::Object(v) => seq![token_of(j)] + tokens_of_members(v@),
        _ => seq![token_of(j)],
    }
}

/// The tokens of documents, the last one first.
pub open spec fn tokens_of_items(v: Seq<Json>) -> Seq<TokenView>
    decreases v,
{
    if v.len() == 0 {
        seq![]
    } else {
        tokens_of(v[v.len() - 1]) + tokens_of_items(v.subrange(0, v.len() - 1))
    }
}

/// The tokens of the values of members, the last one first.
pub open spec fn tokens_of_members(v: Seq<(String, Json)>) -> Seq<TokenView>
    decreases v,
{
    if v.len() == 0 {
        seq![]
    } else {
        tokens_of(v[v.len() - 1].1) + tokens_of_members(v.subrange(0, v.len() - 1))
    }
}

/// Whether the tokens are those of a document.
pub open spec fn are_of_document(tokens: Seq<TokenView>) -> bool {
    exists|j: Json| #[trigger] tokens_of(j) == tokens
}

/// Whether no object has two members of the same name.
pub open spec fn names_are_distinct(tokens: Seq<TokenView>) -> bool {
    forall|i: int|
        0 <= i < tokens.len() ==> match #[trigger] tokens[i] {
            TokenView::Object(names) => names.no_duplicates(),
            _ => true,
        }
}

/// The tokens of what `serde_json::from_slice` reads from the bytes as a
/// `serde_json::Value`. `None` where it fails.
pub uninterp spec fn json_tokens(bytes: Seq<u8>) -> Option<Seq<TokenView>>;

/// `serde_json::from_slice` to a `serde_json::Value`, laid out flat. A `Value` is a
/// tree, so its tokens are those of a document; an object in it is a `serde_json::Map`,
/// which holds each name once.
#[verifier::external_body]
pub(crate) fn read_tokens(bytes: &[u8]) -> (r: Option<Vec<Token>>)
    ensures
        match r {
            Some(v) => json_tokens(bytes@) == Some(token_views(v@)),
            None => json_tokens(bytes@) is None,
        },
        r matches Some(v) ==> are_of_document(token_views(v@)),
        r matches Some(v) ==> names_are_distinct(token_views(v@)),
{
    let mut left: Vec<Value> = vec![from_slice(bytes).ok()?];
    let mut tokens: Vec<Token> = Vec::new();
    while let Some(value) = left.pop() {
        tokens.push(match value {
            Value::Null => Token::Null,
            Value::Bool(b) => Token::Bool(b),
            Value::Number(n) => Token::Number(n.as_i64(), n.to_string()),
            Value::String(s) => Token::Text(s),
            Value::Array(v) => (Token::Array(v.len()), left.extend(v)).0,
            Value::Object(m) => (Token::Object(m.keys().cloned().collect()), left.extend(m.into_values())).0,
        });
    }
    Some(tokens)
}

/// How many values lie directly in one with the given token.
pub open spec fn arity(t: TokenView) -> nat {
    match t {
        TokenView::Array(n) => n,
        TokenView::Object(names) => names.len(),
        _ => 0,
    }
}

/// How many documents the tokens hold, where they hold whole ones: each value is one,
/// and takes up those that lie in it.
pub open spec fn documents(tokens: Seq<TokenView>) -> int
    decreases tokens.len(),
{
    if tokens.len() == 0 {
        0
    } else {
        1 - arity(tokens[0]) + documents(tokens.skip(1))
    }
}

proof fn documents_add(a: Seq<TokenView>, b: Seq<TokenView>)
    ensures
        documents(a + b) == documents(a) + documents(b),
    decreases a.len(),
{
    if a.len() == 0 {
        assert(a + b =~= b);
    } else {
        assert((a + b)[0] == a[0]);
        assert((a + b).skip(1) =~= a.skip(1) + b);
        documents_add(a.skip(1), b);
    }
}

/// The tokens of members are those of their values.
proof fn members_are_items(v: Seq<(String, Json)>)
    ensures
        tokens_of_members(v) == tokens_of_items(member_values(v)),
    decreases v.len(),
{
    if v.len() > 0 {
        let front = v.subrange(0, v.len() - 1);
        members_are_items(front);
        let values = member_values(v);
        assert(values.subrange(0, values.len() - 1) =~= member_values(front));
    }
}

/// What lies directly in a value.
pub open spec fn parts_of(j: Json) -> Seq<Json> {
    match j {
        Json::Array(v) => v@,
        Json::Object(v) => member_values(v@),
        _ => seq![],
    }
}

/// The tokens of a value are its own and those of its parts.
proof fn tokens_start_with_own(j: Json)
    ensures
        tokens_of(j) == seq![token_of(j)] + tokens_of_items(parts_of(j)),
        arity(token_of(j)) == parts_of(j).len(),
        tokens_of(j).len() == 1 + tokens_of_items(parts_of(j)).len(),
        tokens_of(j)[0] == token_of(j),
{
    match j {
        Json::Object(v) => {
            members_are_items(v@);
        },
        Json::Array(_) => {},
        _ => {
            assert(seq![token_of(j)] + Seq::<TokenView>::empty() =~= seq![token_of(j)]);
        },
    }
}

/// The tokens of a document hold one document, and what is left of them behind any
/// place short of the end holds at least one.
proof fn document_is_one(j: Json, i: int)
    requires
        0 <= i < tokens_of(j).len(),
    ensures
        documents(tokens_of(j)) == 1,
        documents(tokens_of(j).skip(i)) >= 1,
    decreases tokens_of(j).len(), 0int,
{
    tokens_start_with_own(j);
    let ts = tokens_of(j);
    let inner = tokens_of_items(parts_of(j));
    assert(ts.skip(1) =~= inner);
    items_are_as_many(parts_of(j), 0);
    assert(inner.skip(0) =~= inner);
    assert(documents(ts) == 1);
    if i == 0 {
        assert(ts.skip(0) =~= ts);
    } else {
        assert(ts.skip(i) =~= inner.skip(i - 1));
        items_are_as_many(parts_of(j), i - 1);
    }
}

/// The tokens of documents hold as many as there are, and what is left of them behind
/// any place short of the end holds at least one.
proof fn items_are_as_many(v: Seq<Json>, i: int)
    requires
        0 <= i <= tokens_of_items(v).len(),
    ensures
        documents(tokens_of_items(v)) == v.len(),
        i < tokens_of_items(v).len() ==> documents(tokens_of_items(v).skip(i)) >= 1,
    decreases tokens_of_items(v).len(), 1int,
{
    if v.len() > 0 {
        let last = v[v.len() - 1];
        let front = v.subrange(0, v.len() - 1);
        let ts = tokens_of_items(v);
        tokens_start_with_own(last);
        document_is_one(last, 0);
        items_are_as_many(front, 0);
        documents_add(tokens_of(last), tokens_of_items(front));
        let n = tokens_of(last).len() as int;
        if i < n {
            document_is_one(last, i);
            documents_add(tokens_of(last).skip(i), tokens_of_items(front));
            assert(ts.skip(i) =~= tokens_of(last).skip(i) + tokens_of_items(front));
        } else {
            items_are_as_many(front, i - n);
            assert(ts.skip(i) =~= tokens_of_items(front).skip(i - n));
        }
    }
}

/// The tokens of documents are those of the ones from a place on and of the ones before.
proof fn items_split(v: Seq<Json>, k: int)
    requires
        0 <= k <= v.len(),
    ensures
        tokens_of_items(v) == tokens_of_items(v.subrange(k, v.len() as int)) + tokens_of_items(
            v.subrange(0, k),
        ),
    decreases v.len(),
{
    let high = v.subrange(k, v.len() as int);
    if k == v.len() {
        assert(v.subrange(0, k) =~= v);
        assert(high.len() == 0);
        assert(tokens_of_items(high) + tokens_of_items(v) =~= tokens_of_items(v));
    } else {
        let front = v.subrange(0, v.len() - 1);
        items_split(front, k);
        assert(front.subrange(k, front.len() as int) =~= high.subrange(0, high.len() - 1));
        assert(front.subrange(0, k) =~= v.subrange(0, k));
        assert(high[high.len() - 1] == v[v.len() - 1]);
        assert(tokens_of_items(v) =~= tokens_of_items(high) + tokens_of_items(v.subrange(0, k)));
    }
}

/// One more document comes before the others.
proof fn items_push(v: Seq<Json>, j: Json)
    ensures
        tokens_of_items(v.push(j)) == tokens_of(j) + tokens_of_items(v),
{
    assert(v.push(j).subrange(0, v.len() as int) =~= v);
}

/// The tree that tokens are of.
pub(crate) fn grow(tokens: Vec<Token>) -> (r: Json)
    requires
        are_of_document(token_views(tokens@)),
        names_are_distinct(token_views(tokens@)),
    ensures
        tokens_of(r) == token_views(tokens@),
        is_tidy(r),
{
    let ghost all = token_views(tokens@);
    let ghost whole = choose|j: Json| #[trigger] tokens_of(j) == all;
    let mut tokens = tokens;
    let mut stack: Vec<Json> = Vec::new();
    proof {
        tokens_start_with_own(whole);
        assert(all.take(all.len() as int) =~= all);
        assert(tokens_of_items(stack@) =~= all.skip(all.len() as int));
    }
    while tokens.len() > 0
        invariant
            tokens@.len() <= all.len(),
            token_views(tokens@) == all.take(tokens@.len() as int),
            tokens_of_items(stack@) == all.skip(tokens@.len() as int),
            tokens_of(whole) == all,
            names_are_distinct(all),
            forall|k: int| 0 <= k < stack@.len() ==> is_tidy(#[trigger] stack@[k]),
        decreases tokens.len(),
    {
        let ghost i = tokens@.len() - 1;
        let ghost before = stack@;
        proof {
            assert(token_views(tokens@)[i] == all[i]);
            assert(all.skip(i) =~= seq![all[i]] + all.skip(i + 1));
            assert(all.skip(i).skip(1) =~= all.skip(i + 1));
            document_is_one(whole, i);
            items_are_as_many(before, 0);
            assert(before.len() >= arity(all[i]));
        }
        let token = tokens.pop().unwrap();
        proof {
            assert(token_views(tokens@) =~= all.take(i));
            assert(token@ == all[i]);
        }
        match token {
            Token::Null => stack.push(Json::Null),
            Token::Bool(b) => stack.push(Json::Bool(b)),
            Token::Number(Some(n), _) => stack.push(Json::Int(n)),
            Token::Number(None, t) => stack.push(Json::Number(t)),
            Token::Text(t) => stack.push(Json::Text(t)),
            Token::Array(n) => {
                let at: usize = stack.len() - n;
                let items = stack.split_off(at);
                proof {
                    assert forall|k: int| 0 <= k < items@.len() implies is_tidy(
                        #[trigger] items@[k],
                    ) by {
                        assert(items@[k] == before[at + k]);
                    }
                }
                stack.push(Json::Array(items));
            },
            Token::Object(names) => {
                let at: usize = stack.len() - names.len();
                let values = stack.split_off(at);
                proof {
                    assert forall|k: int| 0 <= k < values@.len() implies is_tidy(
                        #[trigger] values@[k],
                    ) by {
                        assert(values@[k] == before[at + k]);
                    }
                }
                let entries = named(names, values);
                proof {
                    members_are_items(entries@);
                    assert(member_values(entries@) =~= values@);
                    assert(member_names(entries@) =~= texts(names@));
                    assert(all[i] == TokenView::Object(texts(names@)));
                    assert forall|k: int, l: int| 0 <= k < l < entries@.len() implies (
                    #[trigger] entries@[k]).0@ != (#[trigger] entries@[l]).0@ by {
                        assert(texts(names@)[k] != texts(names@)[l]);
                    }
                }
                stack.push(Json::Object(entries));
            },
        }
        proof {
            let j = stack@.last();
            let rest = stack@.drop_last();
            assert(stack@ =~= rest.push(j));
            items_push(rest, j);
            assert(token_of(j) == all[i]);
            tokens_start_with_own(j);
            let at = before.len() - arity(all[i]);
            items_split(before, at);
            assert(parts_of(j) =~= before.subrange(at, before.len() as int));
            assert(rest =~= before.subrange(0, at));
            assert(tokens_of_items(stack@) =~= all.skip(i));
            assert forall|k: int| 0 <= k < stack@.len() implies is_tidy(#[trigger] stack@[k]) by {
                if k < rest.len() {
                    assert(stack@[k] == before[k]);
                }
            }
        }
    }
    proof {
        assert(all.skip(0) =~= all);
        document_is_one(whole, 0);
        items_are_as_many(stack@, 0);
        assert(stack@.len() == 1);
        let j = stack@[0];
        assert(stack@.subrange(0, 0) =~= Seq::<Json>::empty());
        assert(tokens_of(j) + Seq::<TokenView>::empty() =~= tokens_of(j));
    }
    stack.pop().unwrap()
}

/// Members of the given names and values, in order.
fn named(names: Vec<String>, values: Vec<Json>) -> (r: Vec<(String, Json)>)
    requires
        names@.len() == values@.len(),
    ensures
        r@.len() == values@.len(),
        forall|k: int|
            0 <= k < r@.len() ==> (#[trigger] r@[k]).0@ == names@[k]@ && r@[k].1 == values@[k],
{
    let ghost all = values@;
    let mut r: Vec<(String, Json)> = Vec::new();
    for value in it: values
        invariant
            it.seq() == all,
            names@.len() == all.len(),
            r@.len() == it.index(),
            forall|k: int|
                0 <= k < r@.len() ==> (#[trigger] r@[k]).0@ == names@[k]@ && r@[k].1 == all[k],
    {
        r.push((names[r.len()].clone(), value));
    }
    r
}

/// Whether two documents have the same tokens: they are the same document.
pub open spec fn alike(a: Json, b: Json) -> bool {
    tokens_of(a) == tokens_of(b)
}

/// The tokens of a document show where it ends.
proof fn tokens_are_prefix_free(a: Json, b: Json, x: Seq<TokenView>, y: Seq<TokenView>)
    requires
        tokens_of(a) + x == tokens_of(b) + y,
    ensures
        alike(a, b),
        x == y,
{
    let s = tokens_of(a) + x;
    tokens_start_with_own(a);
    tokens_start_with_own(b);
    let m = tokens_of(a).len() as int;
    let n = tokens_of(b).len() as int;
    document_is_one(a, 0);
    document_is_one(b, 0);
    if m < n {
        let rest = tokens_of(b).skip(m);
        assert(tokens_of(b) =~= tokens_of(a) + rest) by {
            assert(tokens_of(b) =~= s.take(n));
            assert(tokens_of(a) =~= s.take(m));
        }
        documents_add(tokens_of(a), rest);
        document_is_one(b, m);
    } else if n < m {
        let rest = tokens_of(a).skip(n);
        assert(tokens_of(a) =~= tokens_of(b) + rest) by {
            assert(tokens_of(a) =~= s.take(m));
            assert(tokens_of(b) =~= s.take(n));
        }
        documents_add(tokens_of(b), rest);
        document_is_one(a, n);
    }
    assert(tokens_of(a) =~= s.take(m));
    assert(tokens_of(b) =~= s.take(n));
    assert(x =~= s.skip(m));
    assert(y =~= s.skip(n));
}

/// As many documents with the same tokens are alike one by one.
proof fn items_are_alike(a: Seq<Json>, b: Seq<Json>)
    requires
        a.len() == b.len(),
        tokens_of_items(a) == tokens_of_items(b),
    ensures
        forall|i: int| 0 <= i < a.len() ==> alike(#[trigger] a[i], b[i]),
    decreases a.len(),
{
    if a.len() > 0 {
        let n = a.len() - 1;
        let c = a.subrange(0, n);
        let d = b.subrange(0, n);
        tokens_are_prefix_free(a[n], b[n], tokens_of_items(c), tokens_of_items(d));
        items_are_alike(c, d);
        assert forall|i: int| 0 <= i < a.len() implies alike(#[trigger] a[i], b[i]) by {
            if i < n {
                assert(c[i] == a[i] && d[i] == b[i]);
            }
        }
    }
}

/// Documents that are alike have the same value at the outside, and parts that are
/// alike one by one.
pub proof fn alike_parts(a: Json, b: Json)
    requires
        alike(a, b),
    ensures
        token_of(a) == token_of(b),
        parts_of(a).len() == parts_of(b).len(),
        forall|i: int|
            0 <= i < parts_of(a).len() ==> alike(#[trigger] parts_of(a)[i], parts_of(b)[i]),
{
    tokens_start_with_own(a);
    tokens_start_with_own(b);
    assert(tokens_of_items(parts_of(a)) =~= tokens_of(a).skip(1));
    assert(tokens_of_items(parts_of(b)) =~= tokens_of(b).skip(1));
    items_are_alike(parts_of(a), parts_of(b));
}

} // verus!
