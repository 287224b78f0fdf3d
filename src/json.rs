//! A JSON object as the indexer reads it: top-level keys, string values
//! read as text, any other value carried as its JSON text.
use vstd::prelude::*;
use crate::text::str_eq;

verus! {

/// A top-level JSON value: a string, or any other value as JSON text.
#[derive(Debug)]
pub enum JsonValue {
    Text(String),
    Raw(String),
}

impl JsonValue {
    /// A copy of the value.
    pub fn duplicate(&self) -> (r: JsonValue)
        ensures
            r == *self,
    {
        match self {
            JsonValue::Text(s) => JsonValue::Text(s.clone()),
            JsonValue::Raw(s) => JsonValue::Raw(s.clone()),
        }
    }
}

/// A JSON object as a list of members; a later member wins over an
/// earlier one with the same key.
#[derive(Debug)]
pub struct JsonObject {
    pub entries: Vec<(String, JsonValue)>,
}

/// Value of `key`: that of the last member with this key.
pub open spec fn obj_get(entries: Seq<(String, JsonValue)>, key: Seq<char>) -> Option<JsonValue>
    decreases entries.len(),
{
    if entries.len() == 0 {
        None
    } else if entries.last().0@ == key {
        Some(entries.last().1)
    } else {
        obj_get(entries.drop_last(), key)
    }
}

/// Text of `key` when its value is a JSON string.
pub open spec fn obj_text(entries: Seq<(String, JsonValue)>, key: Seq<char>) -> Option<Seq<char>> {
    match obj_get(entries, key) {
        Some(JsonValue::Text(s)) => Some(s@),
        _ => None,
    }
}

/// Top-level overlay: every key of `top` takes its value there, every
/// other key keeps its value in `base`.
pub open spec fn overlays(r: Seq<(String, JsonValue)>, base: Seq<(String, JsonValue)>, top: Seq<(String, JsonValue)>) -> bool {
    forall|k: Seq<char>|
        #[trigger] obj_get(r, k) == match obj_get(top, k) {
            Some(v) => Some(v),
            None => obj_get(base, k),
        }
}

proof fn lemma_obj_get_append(a: Seq<(String, JsonValue)>, b: Seq<(String, JsonValue)>, k: Seq<char>)
    ensures
        obj_get(a + b, k) == match obj_get(b, k) {
            Some(v) => Some(v),
            None => obj_get(a, k),
        },
    decreases b.len(),
{
    if b.len() == 0 {
        assert(a + b =~= a);
    } else {
        assert((a + b).drop_last() =~= a + b.drop_last());
        assert((a + b).last() == b.last());
        lemma_obj_get_append(a, b.drop_last(), k);
    }
}

proof fn lemma_obj_get_push(a: Seq<(String, JsonValue)>, e: (String, JsonValue), k: Seq<char>)
    ensures
        obj_get(a.push(e), k) == if e.0@ == k { Some(e.1) } else { obj_get(a, k) },
{
    assert(a.push(e).drop_last() =~= a);
}

impl JsonObject {
    /// An object with no members.
    pub fn new() -> (r: JsonObject)
        ensures
            r.entries@.len() == 0,
            forall|k: Seq<char>| #[trigger] obj_get(r.entries@, k) is None,
    {
        JsonObject { entries: Vec::new() }
    }

    /// Value of `key`, if present.
    pub fn get(&self, key: &str) -> (r: Option<JsonValue>)
        ensures
            r == obj_get(self.entries@, key@),
    {
        let mut i = self.entries.len();
        proof {
            assert(self.entries@.take(i as int) =~= self.entries@);
        }
        while i > 0
            invariant
                i <= self.entries@.len(),
                obj_get(self.entries@, key@) == obj_get(self.entries@.take(i as int), key@),
            decreases i,
        {
            proof {
                assert(self.entries@.take(i as int).drop_last() =~= self.entries@.take(i - 1));
            }
            let e = &self.entries[i - 1];
            if str_eq(e.0.as_str(), key) {
                return Some(e.1.duplicate());
            }
            i = i - 1;
        }
        None
    }

    /// Text of `key` when its value is a JSON string.
    pub fn get_str(&self, key: &str) -> (r: Option<String>)
        ensures
            r matches Some(s) ==> obj_text(self.entries@, key@) == Some(s@),
            r is None ==> obj_text(self.entries@, key@) is None,
    {
        match self.get(key) {
            Some(JsonValue::Text(s)) => Some(s),
            _ => None,
        }
    }

    /// Sets `key` to `value`, leaving every other key as it was.
    pub fn insert(&mut self, key: String, value: JsonValue)
        ensures
            forall|k: Seq<char>|
                #[trigger] obj_get(final(self).entries@, k) == if k == key@ {
                    Some(value)
                } else {
                    obj_get(old(self).entries@, k)
                },
    {
        let ghost k0 = key@;
        let ghost v0 = value;
        self.entries.push((key, value));
        proof {
            assert forall|k: Seq<char>| #[trigger] obj_get(self.entries@, k) == if k == k0 {
                Some(v0)
            } else {
                obj_get(old(self).entries@, k)
            } by {
                lemma_obj_get_push(old(self).entries@, self.entries@.last(), k);
                assert(self.entries@ =~= old(self).entries@.push(self.entries@.last()));
            }
        }
    }

    /// A copy of the object.
    pub fn duplicate(&self) -> (r: JsonObject)
        ensures
            r.entries@ == self.entries@,
    {
        let mut out: Vec<(String, JsonValue)> = Vec::new();
        let mut i: usize = 0;
        while i < self.entries.len()
            invariant
                i <= self.entries@.len(),
                out@ == self.entries@.take(i as int),
            decreases self.entries@.len() - i,
        {
            let e = &self.entries[i];
            out.push((e.0.clone(), e.1.duplicate()));
            proof {
                assert(self.entries@.take(i + 1) =~= self.entries@.take(i as int).push(self.entries@[i as int]));
            }
            i = i + 1;
        }
        proof {
            assert(self.entries@.take(i as int) =~= self.entries@);
        }
        JsonObject { entries: out }
    }

    /// Top-level overlay of `top` on this object: keys of `top` take their
    /// values there, all other keys keep theirs. Nested values are
    /// replaced, not merged.
    pub fn overlay(&self, top: &JsonObject) -> (r: JsonObject)
        ensures
            r.entries@ == self.entries@ + top.entries@,
            overlays(r.entries@, self.entries@, top.entries@),
    {
        let mut r = self.duplicate();
        let t = top.duplicate();
        let mut rest = t.entries;
        r.entries.append(&mut rest);
        proof {
            assert forall|k: Seq<char>| #[trigger] obj_get(r.entries@, k) == match obj_get(top.entries@, k) {
                Some(v) => Some(v),
                None => obj_get(self.entries@, k),
            } by {
                lemma_obj_get_append(self.entries@, top.entries@, k);
            }
        }
        r
    }
}

} // verus!
