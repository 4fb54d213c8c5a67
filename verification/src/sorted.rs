//! Text maps kept in key order, and the order of texts.

use vstd::prelude::*;

use crate::text::{chars_of, same};

verus! {

/// Order of texts: by the first character in which they differ, a proper
/// prefix first.
pub open spec fn text_before(a: Seq<char>, b: Seq<char>) -> bool
    decreases a.len(),
{
    if b.len() == 0 {
        false
    } else if a.len() == 0 {
        true
    } else if a[0] != b[0] {
        a[0] < b[0]
    } else {
        text_before(a.skip(1), b.skip(1))
    }
}

/// No text comes before itself.
pub proof fn order_irreflexive(a: Seq<char>)
    ensures
        !text_before(a, a),
    decreases a.len(),
{
    if a.len() > 0 {
        order_irreflexive(a.skip(1));
    }
}

/// Text order is transitive.
pub proof fn order_transitive(a: Seq<char>, b: Seq<char>, c: Seq<char>)
    requires
        text_before(a, b),
        text_before(b, c),
    ensures
        text_before(a, c),
    decreases a.len(),
{
    if a.len() > 0 && b.len() > 0 && c.len() > 0 && a[0] == b[0] && b[0] == c[0] {
        order_transitive(a.skip(1), b.skip(1), c.skip(1));
    }
}

/// Of two different texts one comes before the other.
pub proof fn order_total(a: Seq<char>, b: Seq<char>)
    ensures
        a == b || text_before(a, b) || text_before(b, a),
    decreases a.len(),
{
    if a.len() == 0 && b.len() == 0 {
        assert(a =~= b);
    } else if a.len() > 0 && b.len() > 0 && a[0] == b[0] {
        order_total(a.skip(1), b.skip(1));
        if a.skip(1) == b.skip(1) {
            assert(a =~= seq![a[0]] + a.skip(1));
            assert(b =~= seq![b[0]] + b.skip(1));
        }
    }
}

/// Whether `a` comes before `b`.
pub fn before(a: &str, b: &str) -> (r: bool)
    ensures
        r == text_before(a@, b@),
{
    let x = chars_of(a);
    let y = chars_of(b);
    let mut i: usize = 0;
    proof {
        assert(x@.skip(0) =~= x@);
        assert(y@.skip(0) =~= y@);
    }
    while i < x.len() && i < y.len()
        invariant
            i <= x.len(),
            i <= y.len(),
            x@ == a@,
            y@ == b@,
            text_before(x@.skip(i as int), y@.skip(i as int)) == text_before(a@, b@),
        decreases x.len() - i,
    {
        proof {
            assert(x@.skip(i as int).skip(1) =~= x@.skip(i + 1));
            assert(y@.skip(i as int).skip(1) =~= y@.skip(i + 1));
        }
        if x[i] != y[i] {
            return x[i] < y[i];
        }
        i += 1;
    }
    i < y.len()
}

/// Names and values as sequences of characters.
pub open spec fn pairs(v: Seq<(String, String)>) -> Seq<(Seq<char>, Seq<char>)> {
    Seq::new(v.len(), |i: int| (v[i].0@, v[i].1@))
}

/// Append a pair.
pub fn push_pair(v: &mut Vec<(String, String)>, name: &str, value: &str)
    ensures
        pairs(final(v)@) == pairs(old(v)@).push((name@, value@)),
{
    v.push((name.to_owned(), value.to_owned()));
    proof {
        assert(pairs(v@) =~= pairs(old(v)@).push((name@, value@)));
    }
}

/// Copy a list of pairs.
pub fn copy_pairs(v: &Vec<(String, String)>) -> (r: Vec<(String, String)>)
    ensures
        pairs(r@) == pairs(v@),
{
    let mut r: Vec<(String, String)> = Vec::new();
    let mut i: usize = 0;
    while i < v.len()
        invariant
            i <= v.len(),
            pairs(r@) == pairs(v@).take(i as int),
        decreases v.len() - i,
    {
        push_pair(&mut r, v[i].0.as_str(), v[i].1.as_str());
        i += 1;
        proof {
            assert(pairs(v@).take(i as int) =~= pairs(v@).take(i - 1).push(pairs(v@)[i - 1]));
        }
    }
    proof {
        assert(pairs(v@).take(i as int) =~= pairs(v@));
    }
    r
}

/// Whether the names ascend, so that none occurs twice.
pub open spec fn ascending(list: Seq<(Seq<char>, Seq<char>)>) -> bool {
    forall|i: int, j: int|
        0 <= i < j < list.len() ==> text_before((#[trigger] list[i]).0, (#[trigger] list[j]).0)
}

/// Whether the list has the name.
pub open spec fn has_name(list: Seq<(Seq<char>, Seq<char>)>, name: Seq<char>) -> bool {
    exists|i: int| 0 <= i < list.len() && (#[trigger] list[i]).0 == name
}

/// The position of a name in the list.
pub open spec fn place(list: Seq<(Seq<char>, Seq<char>)>, name: Seq<char>) -> int {
    choose|i: int| 0 <= i < list.len() && (#[trigger] list[i]).0 == name
}

/// The map a list with distinct names stands for.
pub open spec fn map_of(list: Seq<(Seq<char>, Seq<char>)>) -> Map<Seq<char>, Seq<char>> {
    Map::new(|name: Seq<char>| has_name(list, name), |name: Seq<char>| list[place(list, name)].1)
}

/// A map from texts to texts, kept in ascending order of its names.
#[derive(Debug)]
pub struct SortedMap {
    entries: Vec<(String, String)>,
}

impl View for SortedMap {
    type V = Map<Seq<char>, Seq<char>>;

    open spec fn view(&self) -> Map<Seq<char>, Seq<char>> {
        map_of(self.list())
    }
}

impl SortedMap {
    /// The names ascend.
    #[verifier::type_invariant]
    pub open spec fn in_order(self) -> bool {
        ascending(self.list())
    }

    /// Names and values, in ascending order of the names.
    pub closed spec fn list(self) -> Seq<(Seq<char>, Seq<char>)> {
        pairs(self.entries@)
    }

    pub fn new() -> (r: SortedMap)
        ensures
            r@ == Map::<Seq<char>, Seq<char>>::empty(),
            r.list().len() == 0,
    {
        let r = SortedMap { entries: Vec::new() };
        proof {
            assert(r@ =~= Map::<Seq<char>, Seq<char>>::empty());
        }
        r
    }

    /// Set the value of a name.
    pub fn insert(&mut self, name: &str, value: &str)
        ensures
            final(self)@ == old(self)@.insert(name@, value@),
            final(self).in_order(),
    {
        proof {
            use_type_invariant(&*self);
        }
        let ghost start = self.list();
        let mut entries: Vec<(String, String)> = Vec::new();
        core::mem::swap(&mut self.entries, &mut entries);
        let mut i: usize = 0;
        while i < entries.len() && before(entries[i].0.as_str(), name)
            invariant
                i <= entries.len(),
                pairs(entries@) == start,
                forall|k: int| 0 <= k < i ==> text_before((#[trigger] start[k]).0, name@),
            decreases entries.len() - i,
        {
            i += 1;
        }
        let ghost now: Seq<(Seq<char>, Seq<char>)>;
        if i < entries.len() && same(entries[i].0.as_str(), name) {
            entries[i] = (name.to_owned(), value.to_owned());
            proof {
                now = pairs(entries@);
                assert(now =~= start.update(i as int, (name@, value@)));
                insert_places(start, now, i as int, name@, value@);
            }
        } else {
            entries.insert(i, (name.to_owned(), value.to_owned()));
            proof {
                now = pairs(entries@);
                assert(now =~= start.insert(i as int, (name@, value@)));
                if i < start.len() {
                    order_total(start[i as int].0, name@);
                }
                insert_places(start, now, i as int, name@, value@);
            }
        }
        core::mem::swap(&mut self.entries, &mut entries);
    }

    /// The value of a name.
    pub fn get(&self, name: &str) -> (r: Option<&str>)
        ensures
            match r {
                Some(v) => self@.contains_key(name@) && self@[name@] == v@,
                None => !self@.contains_key(name@),
            },
    {
        proof {
            use_type_invariant(self);
        }
        let mut i: usize = 0;
        while i < self.entries.len()
            invariant
                i <= self.entries.len(),
                self.in_order(),
                forall|k: int| 0 <= k < i ==> (#[trigger] self.list()[k]).0 != name@,
            decreases self.entries.len() - i,
        {
            if same(self.entries[i].0.as_str(), name) {
                proof {
                    assert(self.list()[i as int].0 == name@);
                    place_is_unique(self.list(), i as int);
                }
                return Some(self.entries[i].1.as_str());
            }
            i += 1;
        }
        None
    }

    pub fn len(&self) -> (r: usize)
        ensures
            r == self.list().len(),
    {
        self.entries.len()
    }

    /// Names and values, in ascending order of the names.
    pub fn entries(&self) -> (r: &Vec<(String, String)>)
        ensures
            pairs(r@) == self.list(),
            ascending(pairs(r@)),
    {
        proof {
            use_type_invariant(self);
        }
        &self.entries
    }

    /// Hand out names and values, in ascending order of the names.
    pub fn into_entries(self) -> (r: Vec<(String, String)>)
        ensures
            pairs(r@) == self.list(),
            ascending(pairs(r@)),
    {
        proof {
            use_type_invariant(&self);
        }
        self.entries
    }
}

/// In an ascending list each name has one place.
proof fn place_is_unique(list: Seq<(Seq<char>, Seq<char>)>, i: int)
    requires
        ascending(list),
        0 <= i < list.len(),
    ensures
        has_name(list, list[i].0),
        place(list, list[i].0) == i,
{
    let p = place(list, list[i].0);
    assert(list[i].0 == list[i].0);
    if p != i {
        order_irreflexive(list[i].0);
    }
}

/// Replacing or inserting at its place sets the name's value.
proof fn insert_places(
    start: Seq<(Seq<char>, Seq<char>)>,
    now: Seq<(Seq<char>, Seq<char>)>,
    i: int,
    name: Seq<char>,
    value: Seq<char>,
)
    requires
        ascending(start),
        0 <= i <= start.len(),
        forall|k: int| 0 <= k < i ==> text_before((#[trigger] start[k]).0, name),
        if i < start.len() && start[i].0 == name {
            now == start.update(i, (name, value))
        } else {
            now == start.insert(i, (name, value)) && (i < start.len() ==> text_before(
                name,
                start[i].0,
            ))
        },
    ensures
        ascending(now),
        map_of(now) == map_of(start).insert(name, value),
{
    let replaced = i < start.len() && start[i].0 == name;
    assert forall|k: int| i < k < now.len() implies text_before(name, (#[trigger] now[k]).0) by {
        if replaced {
            assert(text_before(start[i].0, start[k].0));
        } else if k - 1 > i {
            order_transitive(name, start[i].0, start[k - 1].0);
        }
    }
    assert forall|a: int, b: int| 0 <= a < b < now.len() implies text_before(
        (#[trigger] now[a]).0,
        (#[trigger] now[b]).0,
    ) by {
        if replaced {
            if a != i && b != i {
                assert(text_before(start[a].0, start[b].0));
            }
        } else if a < i && b > i {
            assert(text_before(start[a].0, start[b - 1].0));
        } else if a > i {
            assert(text_before(start[a - 1].0, start[b - 1].0));
        } else if b < i {
            assert(text_before(start[a].0, start[b].0));
        }
    }
    assert(ascending(now));
    let left = map_of(now);
    let right = map_of(start).insert(name, value);
    assert(now[i] == (name, value));
    place_is_unique(now, i);
    assert forall|n: Seq<char>| #[trigger] has_name(now, n) implies n == name || has_name(
        start,
        n,
    ) by {
        let k = place(now, n);
        if k < i || replaced {
            assert(start[k] == now[k] || k == i);
        } else if k > i {
            assert(start[k - 1] == now[k]);
        }
    }
    assert forall|n: Seq<char>| #[trigger] has_name(start, n) implies has_name(now, n) && (n != name
        ==> now[place(now, n)].1 == start[place(start, n)].1) by {
        let k = place(start, n);
        if replaced || k < i {
            assert(now[k].0 == n || n == name);
            place_is_unique(now, k);
        } else {
            assert(now[k + 1] == start[k]);
            place_is_unique(now, k + 1);
        }
    }
    assert(left =~= right);
}

/// The order of the entries does not depend on how they were inserted: two
/// ascending lists that stand for the same map are the same list.
pub proof fn ascending_list_is_unique(
    a: Seq<(Seq<char>, Seq<char>)>,
    b: Seq<(Seq<char>, Seq<char>)>,
)
    requires
        ascending(a),
        ascending(b),
        map_of(a) == map_of(b),
    ensures
        a == b,
    decreases a.len(),
{
    if a.len() == 0 {
        if b.len() > 0 {
            place_is_unique(b, 0);
            assert(map_of(b).contains_key(b[0].0));
            assert(map_of(a).contains_key(b[0].0));
        }
        assert(a =~= b);
    } else {
        place_is_unique(a, 0);
        assert(map_of(b).contains_key(a[0].0));
        let p = place(b, a[0].0);
        place_is_unique(b, 0);
        assert(map_of(a).contains_key(b[0].0));
        let q = place(a, b[0].0);
        if p > 0 && q > 0 {
            order_transitive(b[0].0, b[p].0, b[0].0);
            order_irreflexive(b[0].0);
        }
        assert(p == 0 || q == 0);
        assert(a[0].0 == b[0].0);
        assert(map_of(a)[a[0].0] == a[0].1);
        assert(map_of(b)[b[0].0] == b[0].1);
        let c = a.skip(1);
        let d = b.skip(1);
        tail_map(a);
        tail_map(b);
        assert(ascending(c));
        assert(ascending(d));
        ascending_list_is_unique(c, d);
        assert(a =~= seq![a[0]] + c);
        assert(b =~= seq![b[0]] + d);
    }
}

/// Dropping the first entry removes its name from the map.
proof fn tail_map(a: Seq<(Seq<char>, Seq<char>)>)
    requires
        ascending(a),
        a.len() > 0,
    ensures
        map_of(a.skip(1)) == map_of(a).remove(a[0].0),
{
    let c = a.skip(1);
    assert(ascending(c));
    assert forall|n: Seq<char>| has_name(c, n) <==> has_name(a, n) && n != a[0].0 by {
        if has_name(c, n) {
            let k = place(c, n);
            assert(a[k + 1] == c[k]);
            order_irreflexive(n);
        }
        if has_name(a, n) && n != a[0].0 {
            let k = place(a, n);
            assert(c[k - 1] == a[k]);
        }
    }
    assert forall|n: Seq<char>| has_name(c, n) implies c[place(c, n)].1 == a[place(a, n)].1 by {
        let k = place(c, n);
        assert(a[k + 1] == c[k]);
        place_is_unique(a, k + 1);
    }
    assert(map_of(c) =~= map_of(a).remove(a[0].0));
}

/// The map after the given assignments, made in order.
pub open spec fn assigned(
    map: Map<Seq<char>, Seq<char>>,
    list: Seq<(Seq<char>, Seq<char>)>,
) -> Map<Seq<char>, Seq<char>>
    decreases list.len(),
{
    if list.len() == 0 {
        map
    } else {
        assigned(map, list.drop_last()).insert(list.last().0, list.last().1)
    }
}

/// Make the given assignments in order.
pub fn assign_all(map: &mut SortedMap, list: &[(String, String)])
    ensures
        final(map)@ == assigned(old(map)@, pairs(list@)),
{
    let mut i: usize = 0;
    let ghost all = pairs(list@);
    while i < list.len()
        invariant
            i <= list.len(),
            all == pairs(list@),
            map@ == assigned(old(map)@, all.take(i as int)),
        decreases list.len() - i,
    {
        map.insert(list[i].0.as_str(), list[i].1.as_str());
        i += 1;
        proof {
            assert(all.take(i as int).drop_last() =~= all.take(i - 1));
            assert(all.take(i as int).last() == all[i - 1]);
        }
    }
    proof {
        assert(all.take(i as int) =~= all);
    }
}

/// A text comes before every longer one that it begins, and of two texts that part ways the
/// one with the smaller character comes first.
pub proof fn first_difference_decides(
    start: Seq<char>,
    x: char,
    y: char,
    a: Seq<char>,
    b: Seq<char>,
)
    ensures
        text_before(start, start + seq![x] + a),
        x < y ==> text_before(start + seq![x] + a, start + seq![y] + b),
    decreases start.len(),
{
    let s = start + seq![x] + a;
    let t = start + seq![y] + b;
    if start.len() > 0 {
        let rest = start.skip(1);
        first_difference_decides(rest, x, y, a, b);
        assert(s[0] == start[0] && t[0] == start[0]);
        assert(s.skip(1) =~= rest + seq![x] + a);
        assert(t.skip(1) =~= rest + seq![y] + b);
    } else {
        assert(s[0] == x && t[0] == y);
    }
}

/// Of assignments the last for a name counts, and a name without one keeps its value.
pub proof fn last_assignment_counts(
    map: Map<Seq<char>, Seq<char>>,
    list: Seq<(Seq<char>, Seq<char>)>,
    name: Seq<char>,
    value: Seq<char>,
)
    ensures
        assigned(map, list.push((name, value))).contains_key(name),
        assigned(map, list.push((name, value)))[name] == value,
        forall|other: Seq<char>|
            other != name ==> (#[trigger] assigned(map, list.push((name, value))).contains_key(other)
                <==> assigned(map, list).contains_key(other)),
{
    assert(list.push((name, value)).drop_last() =~= list);
}

} // verus!
