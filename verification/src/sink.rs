//! Where raw objects go: what is written, and under which local path.

use vstd::prelude::*;

use crate::error::{GcsError, GcsErrorView};
use crate::meta::{
    has_x_keys, pretty_json, reads_back_as, sidecar_bytes, sidecar_key, ObjectMeta,
};
use crate::report::joined;
use crate::sorted::{ascending, map_of};
use crate::text::{chars_of, occurrences, occurs, texts, trim, trimmed};

verus! {

/// Refuse a bucket without a name.
pub fn validate_bucket(bucket: &str) -> (r: Result<(), GcsError>)
    ensures
        match r {
            Ok(_) => trimmed(bucket@).len() > 0,
            Err(e) => trimmed(bucket@).len() == 0 && e@ == GcsErrorView::Config(
                "bucket name must not be empty"@,
            ),
        },
{
    if trim(bucket).is_empty() {
        return Err(GcsError::Config("bucket name must not be empty".to_owned()));
    }
    Ok(())
}

/// One object to write. The metadata goes with the object it describes.
#[derive(Debug)]
pub struct ObjectWrite {
    pub key: String,
    pub body: Vec<u8>,
    pub carries_metadata: bool,
}

/// The writes of one raw object, in order: the body as it is, with its metadata,
/// and the sidecar that repeats the metadata.
pub fn raw_writes(key: &str, body: Vec<u8>, meta: &ObjectMeta) -> (r: (ObjectWrite, ObjectWrite))
    ensures
        r.0.key@ == key@,
        r.0.body == body,
        r.0.carries_metadata,
        r.1.key@ == key@ + ".meta.json"@,
        r.1.body@ == pretty_json(meta.list()),
        has_x_keys(meta.list()) ==> reads_back_as(r.1.body@, meta.list()),
        ascending(meta.list()),
        map_of(meta.list()) == meta@,
        !r.1.carries_metadata,
{
    (
        ObjectWrite { key: key.to_owned(), body, carries_metadata: true },
        ObjectWrite { key: sidecar_key(key), body: sidecar_bytes(meta), carries_metadata: false },
    )
}

/// A sink that mirrors the key layout below a directory on local disk.
#[derive(Debug)]
pub struct LocalDirSink {
    root: String,
}

/// The parts of a text between separators.
pub open spec fn split(s: Seq<char>, sep: char) -> Seq<Seq<char>>
    decreases s.len(),
{
    if s.len() == 0 {
        seq![Seq::empty()]
    } else {
        let front = split(s.drop_last(), sep);
        if s.last() == sep {
            front.push(Seq::empty())
        } else {
            front.drop_last().push(front.last().push(s.last()))
        }
    }
}

/// The folders and the file that a key leads to from the root, `None` where it
/// climbs above the root.
pub open spec fn descend(parts: Seq<Seq<char>>) -> Option<Seq<Seq<char>>>
    decreases parts.len(),
{
    if parts.len() == 0 {
        Some(Seq::empty())
    } else {
        match descend(parts.drop_last()) {
            None => None,
            Some(path) => {
                let part = parts.last();
                if part == ""@ || part == "."@ {
                    Some(path)
                } else if part == ".."@ {
                    if path.len() == 0 {
                        None
                    } else {
                        Some(path.drop_last())
                    }
                } else {
                    Some(path.push(part))
                }
            },
        }
    }
}

/// Where a key leads from the root. An absolute key leads nowhere.
pub open spec fn path_below_root(key: Seq<char>) -> Option<Seq<Seq<char>>> {
    if key.len() > 0 && key[0] == '/' {
        None
    } else {
        descend(split(key, '/'))
    }
}

/// What a text looks like in Rust's `Debug` form: in double quotes, with escapes.
pub uninterp spec fn debug_form(s: Seq<char>) -> Seq<char>;

/// `str` shown through its `Debug`.
#[verifier::external_body]
fn debug_text(s: &str) -> (r: String)
    ensures
        r@ == debug_form(s@),
{
    format!("{s:?}")
}

/// Split a text at each separator.
pub fn split_at(s: &str, sep: char) -> (r: Vec<String>)
    ensures
        texts(r@) == split(s@, sep),
{
    let v = chars_of(s);
    let mut done: Vec<String> = Vec::new();
    let mut part = String::new();
    let mut i: usize = 0;
    proof {
        assert(texts(done@).push(part@) =~= split(s@.take(0), sep));
    }
    while i < v.len()
        invariant
            i <= v.len(),
            v@ == s@,
            texts(done@).push(part@) == split(s@.take(i as int), sep),
        decreases v.len() - i,
    {
        let c = v[i];
        let ghost before = texts(done@);
        let ghost open = part@;
        proof {
            assert(s@.take(i + 1).drop_last() =~= s@.take(i as int));
            assert(s@.take(i + 1).last() == c);
            assert(before.push(open).drop_last() =~= before);
            assert(before.push(open).last() == open);
        }
        if c == sep {
            done.push(part);
            part = String::new();
            proof {
                assert(texts(done@) =~= before.push(open));
            }
        } else {
            part.push(c);
        }
        i += 1;
    }
    done.push(part);
    proof {
        assert(s@.take(i as int) =~= s@);
        assert(texts(done@) =~= split(s@, sep));
    }
    done
}

/// The refusal of a key that does not stay below the root.
pub open spec fn escape_failure(key: Seq<char>) -> GcsErrorView {
    GcsErrorView::Io("key "@ + debug_form(key) + " escapes the sink root directory"@)
}

impl LocalDirSink {
    pub closed spec fn directory(self) -> Seq<char> {
        self.root@
    }

    /// A sink below the given directory.
    pub fn new(root: &str) -> (r: LocalDirSink)
        ensures
            r.directory() == root@,
    {
        LocalDirSink { root: root.to_owned() }
    }

    /// The directory this sink writes under.
    pub fn root(&self) -> (r: &str)
        ensures
            r@ == self.directory(),
    {
        self.root.as_str()
    }

    /// The folders and the file below the root that a key leads to. The check
    /// looks at the text alone. An absolute key, or one whose `..` would climb
    /// above the root, is refused.
    pub fn resolve_within_root(&self, key: &str) -> (r: Result<Vec<String>, GcsError>)
        ensures
            match r {
                Ok(path) => path_below_root(key@) == Some(texts(path@)),
                Err(e) => path_below_root(key@) is None && e@ == escape_failure(key@),
            },
    {
        let mut parts = split_at(key, '/');
        let ghost all = texts(parts@);
        let chars = chars_of(key);
        if chars.len() > 0 && chars[0] == '/' {
            return Err(escapes(key));
        }
        let mut path: Vec<String> = Vec::new();
        let mut i: usize = 0;
        proof {
            assert(texts(path@) =~= Seq::<Seq<char>>::empty());
        }
        while i < parts.len()
            invariant
                i <= parts.len(),
                all == texts(parts@),
                all == split(key@, '/'),
                !(key@.len() > 0 && key@[0] == '/'),
                descend(all.take(i as int)) == Some(texts(path@)),
            decreases parts.len() - i,
        {
            let ghost before = texts(path@);
            proof {
                assert(all.take(i + 1).drop_last() =~= all.take(i as int));
                assert(all.take(i + 1).last() == parts@[i as int]@);
            }
            let part = &parts[i];
            if crate::text::same(part.as_str(), "") || crate::text::same(part.as_str(), ".") {
            } else if crate::text::same(part.as_str(), "..") {
                if path.len() == 0 {
                    proof {
                        dead_end(all, i + 1);
                    }
                    return Err(escapes(key));
                }
                path.pop();
                proof {
                    assert(texts(path@) =~= before.drop_last());
                }
            } else {
                path.push(part.clone());
                proof {
                    assert(texts(path@) =~= before.push(part@));
                }
            }
            i += 1;
        }
        proof {
            assert(all.take(i as int) =~= all);
        }
        Ok(path)
    }
}

fn escapes(key: &str) -> (r: GcsError)
    ensures
        r@ == escape_failure(key@),
{
    GcsError::Io(
        "key ".to_owned().concat(debug_text(key).as_str()).concat(
            " escapes the sink root directory",
        ),
    )
}

/// A key that has climbed above the root does not come back.
proof fn dead_end(parts: Seq<Seq<char>>, n: int)
    requires
        0 <= n <= parts.len(),
        descend(parts.take(n)) is None,
    ensures
        descend(parts) is None,
    decreases parts.len() - n,
{
    if n < parts.len() {
        assert(parts.take(n + 1).drop_last() =~= parts.take(n));
        dead_end(parts, n + 1);
    } else {
        assert(parts.take(n) =~= parts);
    }
}

/// What a key leads to stays below the root: no folder or file on the way is
/// empty, `.` or `..`, and none holds a slash.
pub proof fn resolved_path_stays_below_root(key: Seq<char>)
    requires
        path_below_root(key) is Some,
    ensures
        forall|i: int|
            0 <= i < path_below_root(key)->0.len() ==> {
                let part = #[trigger] path_below_root(key)->0[i];
                part != ""@ && part != "."@ && part != ".."@ && !occurs('/', part)
            },
{
    split_parts_have_no_separator(key, '/');
    descend_keeps_names(split(key, '/'));
}

proof fn split_parts_have_no_separator(s: Seq<char>, sep: char)
    ensures
        split(s, sep).len() > 0,
        forall|i: int| 0 <= i < split(s, sep).len() ==> !occurs(sep, #[trigger] split(s, sep)[i]),
    decreases s.len(),
{
    if s.len() > 0 {
        let front = split(s.drop_last(), sep);
        split_parts_have_no_separator(s.drop_last(), sep);
        assert forall|i: int| 0 <= i < split(s, sep).len() implies !occurs(
            sep,
            #[trigger] split(s, sep)[i],
        ) by {
            let part = split(s, sep)[i];
            if s.last() == sep {
                if i < front.len() {
                    assert(part == front[i]);
                }
            } else if i < front.len() - 1 {
                assert(part == front[i]);
            } else {
                assert(part == front.last().push(s.last()));
                if occurs(sep, part) {
                    let k = choose|k: int| 0 <= k < part.len() && part[k] == sep;
                    assert(front.last()[k] == sep);
                    assert(occurs(sep, front[front.len() - 1]));
                }
            }
        }
    }
}

proof fn descend_keeps_names(parts: Seq<Seq<char>>)
    requires
        descend(parts) is Some,
        forall|i: int| 0 <= i < parts.len() ==> !occurs('/', #[trigger] parts[i]),
    ensures
        forall|i: int|
            0 <= i < descend(parts)->0.len() ==> {
                let part = #[trigger] descend(parts)->0[i];
                part != ""@ && part != "."@ && part != ".."@ && !occurs('/', part)
            },
    decreases parts.len(),
{
    if parts.len() > 0 {
        let front = parts.drop_last();
        assert forall|i: int| 0 <= i < front.len() implies !occurs('/', #[trigger] front[i]) by {
            assert(front[i] == parts[i]);
        }
        descend_keeps_names(front);
        let path = descend(front)->0;
        assert forall|i: int| 0 <= i < descend(parts)->0.len() implies {
            let part = #[trigger] descend(parts)->0[i];
            part != ""@ && part != "."@ && part != ".."@ && !occurs('/', part)
        } by {
            if i < path.len() {
                assert(descend(parts)->0[i] == path[i]);
            } else {
                assert(descend(parts)->0[i] == parts[parts.len() - 1]);
            }
        }
    }
}

/// What a text is split into gives the text again when it is joined.
pub proof fn split_parts_join_again(s: Seq<char>, sep: char)
    ensures
        joined(split(s, sep), seq![sep]) == s,
        split(s, sep).len() == occurrences(sep, s) + 1,
    decreases s.len(),
{
    split_parts_have_no_separator(s, sep);
    if s.len() == 0 {
        assert(joined(split(s, sep), seq![sep]) =~= s);
    } else {
        let rest = s.drop_last();
        let front = split(rest, sep);
        let all = split(s, sep);
        split_parts_join_again(rest, sep);
        split_parts_have_no_separator(rest, sep);
        if s.last() == sep {
            assert(all.drop_last() =~= front);
            assert(joined(all, seq![sep]) =~= s);
        } else {
            assert(all.drop_last() =~= front.drop_last());
            assert(all.last() =~= front.last().push(s.last()));
            if front.len() == 1 {
                assert(joined(front, seq![sep]) == front[0]);
                assert(joined(all, seq![sep]) =~= s);
            } else {
                assert(joined(all, seq![sep]) =~= joined(front, seq![sep]).push(s.last()));
                assert(rest.push(s.last()) =~= s);
            }
        }
    }
}

/// A key of plain names leads to those names; a dot or an empty name leads no further, two
/// dots lead back up, and above the root they lead nowhere, whatever follows.
#[verifier::rlimit(40)]
pub proof fn keys_lead_where_they_say(parts: Seq<Seq<char>>, name: Seq<char>)
    ensures
        (forall|i: int|
            0 <= i < parts.len() ==> #[trigger] parts[i] != ""@ && parts[i] != "."@ && parts[i]
                != ".."@) ==> descend(parts) == Some(parts),
        descend(parts.push(""@)) == descend(parts),
        descend(parts.push("."@)) == descend(parts),
        descend(parts) is None ==> descend(parts.push(name)) is None,
        descend(parts) == Some(Seq::<Seq<char>>::empty()) ==> descend(parts.push(".."@)) is None,
        name != ""@ && name != "."@ && name != ".."@ ==> descend(parts.push(name).push(".."@))
            == descend(parts),
    decreases parts.len(),
{
    reveal_strlit("");
    reveal_strlit(".");
    reveal_strlit("..");
    assert(""@.len() == 0 && "."@.len() == 1 && ".."@.len() == 2);
    assert(parts.push(""@).drop_last() =~= parts);
    assert(parts.push("."@).drop_last() =~= parts);
    assert(parts.push(".."@).drop_last() =~= parts);
    assert(parts.push(name).drop_last() =~= parts);
    assert(parts.push(name).push(".."@).drop_last() =~= parts.push(name));
    if descend(parts) is Some {
        let path = descend(parts)->0;
        assert(path.push(name).drop_last() =~= path);
    }
    if parts.len() > 0 {
        let front = parts.drop_last();
        keys_lead_where_they_say(front, name);
        if forall|i: int|
            0 <= i < parts.len() ==> #[trigger] parts[i] != ""@ && parts[i] != "."@ && parts[i]
                != ".."@ {
            assert forall|i: int| 0 <= i < front.len() implies #[trigger] front[i] != ""@
                && front[i] != "."@ && front[i] != ".."@ by {
                assert(front[i] == parts[i]);
            }
            assert(parts[parts.len() - 1] == parts.last());
            assert(front.push(parts.last()) =~= parts);
        }
    } else {
        assert(descend(parts) == Some(Seq::<Seq<char>>::empty()));
        assert(parts =~= Seq::<Seq<char>>::empty());
    }
}

/// An absolute key leads nowhere, and any other where its parts lead.
pub proof fn absolute_keys_are_refused(key: Seq<char>)
    ensures
        path_below_root("/"@ + key) is None,
        key.len() == 0 || key[0] != '/' ==> path_below_root(key) == descend(split(key, '/')),
{
    reveal_strlit("/");
    assert(("/"@ + key)[0] == '/');
}

} // verus!
