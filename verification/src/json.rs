//! A JSON document model that the library reads and builds.
//!
//! Objects are kept as the list of `(key, value)` insertions that made them;
//! a lookup finds the last insertion of a key, which is how a map that
//! overwrites on insert answers.
use vstd::prelude::*;
use vstd::string::*;

verus! {

/// The mathematical value of a JSON document.
pub enum JsonV {
    Null,
    Bool(bool),
    /// A number, by its text and, where it is a non-negative integer that
    /// fits in 64 bits, that integer.
    Number(Seq<char>, Option<u64>),
    Str(Seq<char>),
    Array(Seq<JsonV>),
    Object(Seq<(Seq<char>, JsonV)>),
}

/// A JSON number: its text, and its value where it is an unsigned 64-bit integer.
#[derive(Debug, PartialEq)]
pub struct JsonNumber {
    pub text: String,
    pub as_u64: Option<u64>,
}

#[derive(Debug, PartialEq)]
pub enum Json {
    Null,
    Bool(bool),
    Number(JsonNumber),
    Str(String),
    Array(Vec<Json>),
    Object(Vec<(String, Json)>),
}

/// The value of the last entry whose key is `key`.
pub open spec fn entries_lookup(es: Seq<(Seq<char>, JsonV)>, key: Seq<char>) -> Option<JsonV>
    decreases es.len(),
{
    if es.len() == 0 {
        None
    } else if es[es.len() - 1].0 == key {
        Some(es[es.len() - 1].1)
    } else {
        entries_lookup(es.subrange(0, es.len() - 1), key)
    }
}

impl JsonV {
    /// The member `key` of an object; `None` for a missing key or a value that is no object.
    pub open spec fn lookup(self, key: Seq<char>) -> Option<JsonV> {
        match self {
            JsonV::Object(es) => entries_lookup(es, key),
            _ => None,
        }
    }

    /// Indexing by a key as a JSON value does it: `Null` where there is no such member.
    pub open spec fn field(self, key: Seq<char>) -> JsonV {
        match self.lookup(key) {
            Some(v) => v,
            None => JsonV::Null,
        }
    }

    /// Indexing by a position: `Null` where the value is no array or too short.
    pub open spec fn item(self, i: int) -> JsonV {
        match self {
            JsonV::Array(v) => if 0 <= i < v.len() {
                v[i]
            } else {
                JsonV::Null
            },
            _ => JsonV::Null,
        }
    }

    pub open spec fn str_value(self) -> Option<Seq<char>> {
        match self {
            JsonV::Str(s) => Some(s),
            _ => None,
        }
    }

    pub open spec fn u64_value(self) -> Option<u64> {
        match self {
            JsonV::Number(_, u) => u,
            _ => None,
        }
    }

    pub open spec fn array_value(self) -> Option<Seq<JsonV>> {
        match self {
            JsonV::Array(v) => Some(v),
            _ => None,
        }
    }

    pub open spec fn is_object(self) -> bool {
        self is Object
    }
}

impl JsonNumber {
    pub open spec fn deep(self) -> JsonV {
        JsonV::Number(self.text@, self.as_u64)
    }
}

impl Json {
    pub open spec fn deep(self) -> JsonV
        decreases self,
    {
        match self {
            Json::Null => JsonV::Null,
            Json::Bool(b) => JsonV::Bool(b),
            Json::Number(n) => JsonV::Number(n.text@, n.as_u64),
            Json::Str(s) => JsonV::Str(s@),
            Json::Array(v) => JsonV::Array(Json::deep_seq(v@)),
            Json::Object(v) => JsonV::Object(Json::deep_entries(v@)),
        }
    }

    pub open spec fn deep_seq(s: Seq<Json>) -> Seq<JsonV>
        decreases s,
    {
        if s.len() == 0 {
            Seq::empty()
        } else {
            Json::deep_seq(s.subrange(0, s.len() - 1)).push(s[s.len() - 1].deep())
        }
    }

    pub open spec fn deep_entries(s: Seq<(String, Json)>) -> Seq<(Seq<char>, JsonV)>
        decreases s,
    {
        if s.len() == 0 {
            Seq::empty()
        } else {
            Json::deep_entries(s.subrange(0, s.len() - 1)).push(
                (s[s.len() - 1].0@, s[s.len() - 1].1.deep()),
            )
        }
    }

    pub open spec fn deep_of(o: Option<Json>) -> Option<JsonV> {
        match o {
            Some(j) => Some(j.deep()),
            None => None,
        }
    }

    pub open spec fn deep_opt(o: Option<&Json>) -> Option<JsonV> {
        match o {
            Some(j) => Some(j.deep()),
            None => None,
        }
    }
}

/// The deep value of a sequence, element by element.
pub proof fn lemma_deep_seq(s: Seq<Json>)
    ensures
        Json::deep_seq(s).len() == s.len(),
        forall|i: int| 0 <= i < s.len() ==> #[trigger] Json::deep_seq(s)[i] == s[i].deep(),
    decreases s.len(),
{
    if s.len() > 0 {
        lemma_deep_seq(s.subrange(0, s.len() - 1));
        assert forall|i: int| 0 <= i < s.len() implies #[trigger] Json::deep_seq(s)[i]
            == s[i].deep() by {
            if i < s.len() - 1 {
                assert(s.subrange(0, s.len() - 1)[i] == s[i]);
            }
        }
    }
}

/// The deep value of an entry list, entry by entry.
pub proof fn lemma_deep_entries(s: Seq<(String, Json)>)
    ensures
        Json::deep_entries(s).len() == s.len(),
        forall|i: int|
            0 <= i < s.len() ==> #[trigger] Json::deep_entries(s)[i] == (s[i].0@, s[i].1.deep()),
    decreases s.len(),
{
    if s.len() > 0 {
        lemma_deep_entries(s.subrange(0, s.len() - 1));
        assert forall|i: int| 0 <= i < s.len() implies #[trigger] Json::deep_entries(s)[i] == (
        s[i].0@, s[i].1.deep()) by {
            if i < s.len() - 1 {
                assert(s.subrange(0, s.len() - 1)[i] == s[i]);
            }
        }
    }
}

/// Two entry lists with the same length and the same deep entries have the same deep value.
pub proof fn lemma_deep_entries_ext(a: Seq<(String, Json)>, b: Seq<(Seq<char>, JsonV)>)
    requires
        a.len() == b.len(),
        forall|i: int| 0 <= i < a.len() ==> (#[trigger] a[i]).0@ == b[i].0 && a[i].1.deep() == b[i].1,
    ensures
        Json::deep_entries(a) == b,
{
    lemma_deep_entries(a);
    assert(Json::deep_entries(a) =~= b);
}

/// Two sequences with the same length and the same deep elements have the same deep value.
pub proof fn lemma_deep_seq_ext(a: Seq<Json>, b: Seq<JsonV>)
    requires
        a.len() == b.len(),
        forall|i: int| 0 <= i < a.len() ==> (#[trigger] a[i]).deep() == b[i],
    ensures
        Json::deep_seq(a) == b,
{
    lemma_deep_seq(a);
    assert(Json::deep_seq(a) =~= b);
}

/// Looking a key up in a list of entries finds the last entry with that key.
pub proof fn lemma_entries_lookup(es: Seq<(Seq<char>, JsonV)>, key: Seq<char>, i: int)
    requires
        0 <= i < es.len(),
        es[i].0 == key,
        forall|j: int| i < j < es.len() ==> (#[trigger] es[j]).0 != key,
    ensures
        entries_lookup(es, key) == Some(es[i].1),
    decreases es.len(),
{
    if i < es.len() - 1 {
        let pre = es.subrange(0, es.len() - 1);
        assert forall|j: int| i < j < pre.len() implies (#[trigger] pre[j]).0 != key by {
            assert(pre[j] == es[j]);
        }
        lemma_entries_lookup(pre, key, i);
    }
}

/// A key that no entry has is not found.
pub proof fn lemma_entries_lookup_none(es: Seq<(Seq<char>, JsonV)>, key: Seq<char>)
    requires
        forall|j: int| 0 <= j < es.len() ==> (#[trigger] es[j]).0 != key,
    ensures
        entries_lookup(es, key) == None::<JsonV>,
    decreases es.len(),
{
    if es.len() > 0 {
        let pre = es.subrange(0, es.len() - 1);
        assert forall|j: int| 0 <= j < pre.len() implies (#[trigger] pre[j]).0 != key by {
            assert(pre[j] == es[j]);
        }
        lemma_entries_lookup_none(pre, key);
    }
}

/// A string that holds the same characters as a string slice.
pub fn owned(s: &str) -> (r: String)
    ensures
        r@ == s@,
{
    String::from_str(s)
}

impl Json {
    /// A string value.
    pub fn string(s: &str) -> (r: Json)
        ensures
            r.deep() == JsonV::Str(s@),
    {
        Json::Str(owned(s))
    }

    /// The member `key` of an object (its last entry with that key).
    pub fn get(&self, key: &str) -> (r: Option<&Json>)
        ensures
            Json::deep_opt(r) == self.deep().lookup(key@),
    {
        match self {
            Json::Object(es) => {
                let k = owned(key);
                proof {
                    lemma_deep_entries(es@);
                }
                let mut i: usize = es.len();
                while i > 0
                    invariant
                        i <= es@.len(),
                        *self == Json::Object(*es),
                        k@ == key@,
                        Json::deep_entries(es@).len() == es@.len(),
                        forall|j: int|
                            0 <= j < es@.len() ==> #[trigger] Json::deep_entries(es@)[j] == (
                            es@[j].0@, es@[j].1.deep()),
                        forall|j: int| i <= j < es@.len() ==> (#[trigger] es@[j]).0@ != key@,
                    decreases i,
                {
                    if es[i - 1].0 == k {
                        proof {
                            let d = Json::deep_entries(es@);
                            assert forall|j: int| i - 1 < j < d.len() implies (#[trigger] d[j]).0
                                != key@ by {
                                assert(d[j].0 == es@[j].0@);
                            }
                            lemma_entries_lookup(d, key@, i - 1);
                            assert(d[i - 1] == (es@[i - 1].0@, es@[i - 1].1.deep()));
                            assert(self.deep() == JsonV::Object(d));
                        }
                        return Some(&es[i - 1].1);
                    }
                    i = i - 1;
                }
                proof {
                    let d = Json::deep_entries(es@);
                    assert forall|j: int| 0 <= j < d.len() implies (#[trigger] d[j]).0 != key@ by {
                        assert(d[j].0 == es@[j].0@);
                    }
                    lemma_entries_lookup_none(d, key@);
                }
                None
            },
            _ => None,
        }
    }

    /// The element at position `i` of an array.
    pub fn at(&self, i: usize) -> (r: Option<&Json>)
        ensures
            Json::deep_opt(r) == (match self.deep() {
                JsonV::Array(v) => if i < v.len() {
                    Some(v[i as int])
                } else {
                    None
                },
                _ => None,
            }),
    {
        match self {
            Json::Array(v) => {
                proof {
                    lemma_deep_seq(v@);
                }
                if i < v.len() {
                    Some(&v[i])
                } else {
                    None
                }
            },
            _ => None,
        }
    }

    pub fn as_str(&self) -> (r: Option<&str>)
        ensures
            match r {
                Some(s) => self.deep().str_value() == Some(s@),
                None => self.deep().str_value() is None,
            },
    {
        match self {
            Json::Str(s) => Some(s.as_str()),
            _ => None,
        }
    }

    pub fn as_u64(&self) -> (r: Option<u64>)
        ensures
            r == self.deep().u64_value(),
    {
        match self {
            Json::Number(n) => n.as_u64,
            _ => None,
        }
    }

    pub fn as_array(&self) -> (r: Option<&Vec<Json>>)
        ensures
            match r {
                Some(v) => self.deep().array_value() == Some(Json::deep_seq(v@)),
                None => self.deep().array_value() is None,
            },
    {
        match self {
            Json::Array(v) => Some(v),
            _ => None,
        }
    }

    pub fn is_object(&self) -> (r: bool)
        ensures
            r == self.deep().is_object(),
    {
        match self {
            Json::Object(_) => true,
            _ => false,
        }
    }

    /// A copy of the document.
    pub fn duplicate(&self) -> (r: Json)
        ensures
            r.deep() == self.deep(),
        decreases self,
    {
        match self {
            Json::Null => Json::Null,
            Json::Bool(b) => Json::Bool(*b),
            Json::Number(n) => Json::Number(JsonNumber { text: n.text.clone(), as_u64: n.as_u64 }),
            Json::Str(s) => Json::Str(s.clone()),
            Json::Array(v) => {
                let mut out: Vec<Json> = Vec::new();
                let mut i: usize = 0;
                while i < v.len()
                    invariant
                        i <= v@.len(),
                        *self == Json::Array(*v),
                        out@.len() == i,
                        forall|k: int| 0 <= k < i ==> #[trigger] out@[k].deep() == v@[k].deep(),
                    decreases v@.len() - i,
                {
                    proof {
                        assert(decreases_to!(*self => (*self)->Array_0));
                        assert(decreases_to!(*v => v@));
                        assert(decreases_to!(v@ => v@[i as int]));
                    }
                    out.push(v[i].duplicate());
                    i = i + 1;
                }
                proof {
                    lemma_deep_seq(v@);
                    lemma_deep_seq_ext(out@, Json::deep_seq(v@));
                }
                Json::Array(out)
            },
            Json::Object(es) => {
                let mut out: Vec<(String, Json)> = Vec::new();
                let mut i: usize = 0;
                while i < es.len()
                    invariant
                        i <= es@.len(),
                        *self == Json::Object(*es),
                        out@.len() == i,
                        forall|k: int|
                            0 <= k < i ==> (#[trigger] out@[k]).0@ == es@[k].0@ && out@[k].1.deep()
                                == es@[k].1.deep(),
                    decreases es@.len() - i,
                {
                    proof {
                        assert(decreases_to!(*self => (*self)->Object_0));
                        assert(decreases_to!(*es => es@));
                        assert(decreases_to!(es@ => es@[i as int]));
                        assert(decreases_to!(es@[i as int] => es@[i as int].1));
                    }
                    let v = es[i].1.duplicate();
                    out.push((es[i].0.clone(), v));
                    i = i + 1;
                }
                proof {
                    lemma_deep_entries(es@);
                    let d = Json::deep_entries(es@);
                    assert forall|k: int| 0 <= k < out@.len() implies (#[trigger] out@[k]).0@ == d[k].0
                        && out@[k].1.deep() == d[k].1 by {
                        assert(d[k] == (es@[k].0@, es@[k].1.deep()));
                    }
                    lemma_deep_entries_ext(out@, d);
                }
                Json::Object(out)
            },
        }
    }
}

} // verus!
