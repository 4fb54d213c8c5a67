//! Response headers as plain values.

use vstd::prelude::*;

use crate::text::{same, text_of};

verus! {

/// Response headers in order of arrival: lower-case name and value. A value
/// that is no visible ASCII text is `None`.
#[derive(Debug)]
pub struct Headers {
    pub entries: Vec<(String, Option<String>)>,
}

/// The text of the first header with the given name.
pub open spec fn first_value(entries: Seq<(String, Option<String>)>, name: Seq<char>) -> Option<
    Seq<char>,
>
    decreases entries.len(),
{
    if entries.len() == 0 {
        None
    } else if entries[0].0@ == name {
        match entries[0].1 {
            Some(v) => Some(v@),
            None => None,
        }
    } else {
        first_value(entries.skip(1), name)
    }
}

impl Headers {
    /// The text of the first header with the given name.
    pub open spec fn value_of(self, name: Seq<char>) -> Option<Seq<char>> {
        first_value(self.entries@, name)
    }

    pub fn new() -> (r: Headers)
        ensures
            r.entries@.len() == 0,
    {
        Headers { entries: Vec::new() }
    }

    /// Append a header.
    pub fn push(&mut self, name: &str, value: Option<String>)
        ensures
            final(self).entries@.len() == old(self).entries@.len() + 1,
            final(self).entries@.drop_last() == old(self).entries@,
            final(self).entries@.last().0@ == name@,
            final(self).entries@.last().1 == value,
    {
        self.entries.push((name.to_owned(), value));
        proof {
            assert(self.entries@.drop_last() =~= old(self).entries@);
        }
    }

    /// The text of the first header with the given name, where it is visible
    /// ASCII.
    pub fn get(&self, name: &str) -> (r: Option<&str>)
        ensures
            match r {
                Some(v) => self.value_of(name@) == Some(v@),
                None => self.value_of(name@) is None,
            },
    {
        let mut i: usize = 0;
        proof {
            assert(self.entries@.skip(0) =~= self.entries@);
        }
        while i < self.entries.len()
            invariant
                i <= self.entries.len(),
                first_value(self.entries@.skip(i as int), name@) == self.value_of(name@),
            decreases self.entries.len() - i,
        {
            proof {
                assert(self.entries@.skip(i as int)[0] == self.entries@[i as int]);
                assert(self.entries@.skip(i as int).skip(1) =~= self.entries@.skip(i + 1));
            }
            if same(self.entries[i].0.as_str(), name) {
                return match &self.entries[i].1 {
                    Some(v) => Some(v.as_str()),
                    None => None,
                };
            }
            i += 1;
        }
        None
    }
}

/// A header is found at its first place: no header before it has the name.
pub proof fn first_header_counts(entries: Seq<(String, Option<String>)>, i: int)
    requires
        0 <= i < entries.len(),
        forall|k: int| 0 <= k < i ==> (#[trigger] entries[k]).0@ != entries[i].0@,
    ensures
        first_value(entries, entries[i].0@) == text_of(entries[i].1),
    decreases i,
{
    if i > 0 {
        assert(entries[0].0@ != entries[i].0@);
        let rest = entries.skip(1);
        assert(rest[i - 1] == entries[i]);
        assert forall|k: int| 0 <= k < i - 1 implies (#[trigger] rest[k]).0@ != rest[i - 1].0@ by {
            assert(rest[k] == entries[k + 1]);
        }
        first_header_counts(rest, i - 1);
    }
}

/// A header that is not there has no value.
pub proof fn absent_headers_have_no_value(entries: Seq<(String, Option<String>)>, name: Seq<char>)
    requires
        forall|k: int| 0 <= k < entries.len() ==> (#[trigger] entries[k]).0@ != name,
    ensures
        first_value(entries, name) is None,
    decreases entries.len(),
{
    if entries.len() > 0 {
        assert(entries[0].0@ != name);
        let rest = entries.skip(1);
        assert forall|k: int| 0 <= k < rest.len() implies (#[trigger] rest[k]).0@ != name by {
            assert(rest[k] == entries[k + 1]);
        }
        absent_headers_have_no_value(rest, name);
    }
}

} // verus!
