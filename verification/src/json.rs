//! JSON documents: the value held in memory, its mathematical view, and the
//! read and build operations the translators use.

use crate::text::same;
use vstd::prelude::*;

verus! {

/// The mathematical value of a JSON document.
///
/// Integers are one variant whatever their sign; a number with a fraction
/// or an exponent is kept as the text that denotes it. The entries of an
/// object are kept in the order in which they were written.
pub enum JsonV {
    Null,
    Bool(bool),
    Int(int),
    Real(Seq<char>),
    Str(Seq<char>),
    Array(Seq<JsonV>),
    Object(Seq<(Seq<char>, JsonV)>),
}

/// A JSON document held in memory.
///
/// An object may hold a key more than once: the entry written last is the
/// one that is read.
#[derive(Debug, PartialEq, Eq)]
pub enum Json {
    Null,
    Bool(bool),
    /// An integer that is not negative.
    Unsigned(u64),
    /// An integer; a negative one is always held so.
    Signed(i64),
    /// A number with a fraction or an exponent, as the text that denotes it.
    /// A text that denotes no number is written as `null`.
    Real(String),
    Str(String),
    Array(Vec<Json>),
    /// The entries of an object, in the order in which they were written.
    Object(Vec<(String, Json)>),
}

impl Json {
    /// The mathematical value of the document.
    pub open spec fn view(&self) -> JsonV
        decreases self,
    {
        match self {
            Json::Null => JsonV::Null,
            Json::Bool(b) => JsonV::Bool(*b),
            Json::Unsigned(n) => JsonV::Int(*n as int),
            Json::Signed(n) => JsonV::Int(*n as int),
            Json::Real(t) => JsonV::Real(t@),
            Json::Str(t) => JsonV::Str(t@),
            Json::Array(items) => JsonV::Array(
                Seq::new(
                    items@.len(),
                    |i: int|
                        if 0 <= i < items@.len() {
                            items@[i].view()
                        } else {
                            JsonV::Null
                        },
                ),
            ),
            Json::Object(entries) => JsonV::Object(
                Seq::new(
                    entries@.len(),
                    |i: int|
                        if 0 <= i < entries@.len() {
                            (entries@[i].0@, entries@[i].1.view())
                        } else {
                            (Seq::empty(), JsonV::Null)
                        },
                ),
            ),
        }
    }
}

/// The views of a run of documents.
pub open spec fn views(items: Seq<Json>) -> Seq<JsonV> {
    Seq::new(items.len(), |i: int| items[i]@)
}

/// The views of a run of object entries.
pub open spec fn entry_views(entries: Seq<(String, Json)>) -> Seq<(Seq<char>, JsonV)> {
    Seq::new(entries.len(), |i: int| (entries[i].0@, entries[i].1@))
}

/// The position of the last of the first `n` entries whose key is `key`,
/// or -1 where there is none.
pub open spec fn last_entry(entries: Seq<(Seq<char>, JsonV)>, key: Seq<char>, n: int) -> int
    decreases n,
{
    if n <= 0 || n > entries.len() {
        -1
    } else if entries[n - 1].0 == key {
        n - 1
    } else {
        last_entry(entries, key, n - 1)
    }
}

impl JsonV {
    /// The object with the member `key` set to `value`: in place of the
    /// entry written last under that key, or as a new last entry. Anything
    /// that is no object counts as an empty one.
    pub open spec fn with_member(self, key: Seq<char>, value: JsonV) -> JsonV {
        match self {
            JsonV::Object(entries) => {
                let i = last_entry(entries, key, entries.len() as int);
                if 0 <= i < entries.len() {
                    JsonV::Object(entries.update(i, (key, value)))
                } else {
                    JsonV::Object(entries.push((key, value)))
                }
            },
            _ => JsonV::Object(seq![(key, value)]),
        }
    }

    /// The member `key` of an object: the entry written last under that
    /// key. Nothing for a missing key and for a document that is no object.
    pub open spec fn get(self, key: Seq<char>) -> Option<JsonV> {
        match self {
            JsonV::Object(entries) => {
                let i = last_entry(entries, key, entries.len() as int);
                if i >= 0 {
                    Some(entries[i].1)
                } else {
                    None
                }
            },
            _ => None,
        }
    }

    /// The text of a string document.
    pub open spec fn as_str(self) -> Option<Seq<char>> {
        match self {
            JsonV::Str(t) => Some(t),
            _ => None,
        }
    }

    /// The value of a boolean document.
    pub open spec fn as_bool(self) -> Option<bool> {
        match self {
            JsonV::Bool(b) => Some(b),
            _ => None,
        }
    }

    /// The value of an integer document that is not negative and fits in
    /// 64 bits.
    pub open spec fn as_u64(self) -> Option<u64> {
        match self {
            JsonV::Int(n) => if 0 <= n <= u64::MAX {
                Some(n as u64)
            } else {
                None
            },
            _ => None,
        }
    }

    /// The items of an array document.
    pub open spec fn as_array(self) -> Option<Seq<JsonV>> {
        match self {
            JsonV::Array(items) => Some(items),
            _ => None,
        }
    }

    /// The text of the string member `key`.
    pub open spec fn get_str(self, key: Seq<char>) -> Option<Seq<char>> {
        match self.get(key) {
            Some(v) => v.as_str(),
            None => None,
        }
    }

    /// The value of the integer member `key`.
    pub open spec fn get_u64(self, key: Seq<char>) -> Option<u64> {
        match self.get(key) {
            Some(v) => v.as_u64(),
            None => None,
        }
    }

    /// The items of the array member `key`.
    pub open spec fn get_array(self, key: Seq<char>) -> Option<Seq<JsonV>> {
        match self.get(key) {
            Some(v) => v.as_array(),
            None => None,
        }
    }

    /// The member `key`, or `default` where it is missing.
    pub open spec fn get_or(self, key: Seq<char>, default: JsonV) -> JsonV {
        match self.get(key) {
            Some(v) => v,
            None => default,
        }
    }

}

/// Where the last entry under a key stands: its key is that key, and no
/// later entry among the first `n` has it.
pub proof fn lemma_last_entry(entries: Seq<(Seq<char>, JsonV)>, key: Seq<char>, n: int)
    requires
        0 <= n <= entries.len(),
    ensures
        -1 <= last_entry(entries, key, n) < n,
        last_entry(entries, key, n) >= 0 ==> entries[last_entry(entries, key, n)].0 == key,
        forall|j: int| last_entry(entries, key, n) < j < n ==> (#[trigger] entries[j]).0 != key,
    decreases n,
{
    if n > 0 && entries[n - 1].0 != key {
        lemma_last_entry(entries, key, n - 1);
    }
}

/// The last entry under a key stays where it is when entries change that
/// have another key, before and after.
pub proof fn lemma_last_entry_at(entries: Seq<(Seq<char>, JsonV)>, key: Seq<char>, n: int, i: int)
    requires
        0 <= i < n <= entries.len(),
        entries[i].0 == key,
        forall|j: int| i < j < n ==> (#[trigger] entries[j]).0 != key,
    ensures
        last_entry(entries, key, n) == i,
    decreases n,
{
    if n - 1 > i {
        lemma_last_entry_at(entries, key, n - 1, i);
    }
}

/// A member that was set is the member that is read.
pub proof fn lemma_with_member(v: JsonV, key: Seq<char>, value: JsonV)
    ensures
        v.with_member(key, value).get(key) == Some(value),
{
    match v {
        JsonV::Object(entries) => {
            let i = last_entry(entries, key, entries.len() as int);
            lemma_last_entry(entries, key, entries.len() as int);
            if 0 <= i < entries.len() {
                let after = entries.update(i, (key, value));
                assert forall|j: int| i < j < after.len() implies (#[trigger] after[j]).0
                    != key by {
                    assert(after[j] == entries[j]);
                }
                lemma_last_entry_at(after, key, after.len() as int, i);
            } else {
                let after = entries.push((key, value));
                lemma_last_entry_at(after, key, after.len() as int, entries.len() as int);
            }
        },
        _ => {
            let after = seq![(key, value)];
            lemma_last_entry_at(after, key, 1, 0);
        },
    }
}

/// The view of an array is made of the views of its items.
pub proof fn lemma_array_view(items: Vec<Json>)
    ensures
        Json::Array(items)@ == JsonV::Array(views(items@)),
{
    assert(Json::Array(items)@->Array_0 =~= views(items@));
}

/// The view of an object is made of the views of its entries.
pub proof fn lemma_object_view(entries: Vec<(String, Json)>)
    ensures
        Json::Object(entries)@ == JsonV::Object(entry_views(entries@)),
{
    assert(Json::Object(entries)@->Object_0 =~= entry_views(entries@));
}

/// Appends the entry `key: value` to the entries of an object under
/// construction.
pub fn put(entries: &mut Vec<(String, Json)>, key: &str, value: Json)
    ensures
        entry_views(final(entries)@) == entry_views(old(entries)@).push((key@, value@)),
{
    entries.push((key.to_owned(), value));
    assert(entry_views(entries@) =~= entry_views(old(entries)@).push((key@, value@)));
}

/// Appends `value` to the items of an array under construction.
pub fn append(items: &mut Vec<Json>, value: Json)
    ensures
        views(final(items)@) == views(old(items)@).push(value@),
{
    items.push(value);
    assert(views(items@) =~= views(old(items)@).push(value@));
}

impl Json {
    /// A string document.
    pub fn string(text: &str) -> (r: Json)
        ensures
            r@ == JsonV::Str(text@),
    {
        Json::Str(text.to_owned())
    }

    /// An object document with the given entries.
    pub fn object(entries: Vec<(String, Json)>) -> (r: Json)
        ensures
            r@ == JsonV::Object(entry_views(entries@)),
    {
        proof {
            lemma_object_view(entries);
        }
        Json::Object(entries)
    }

    /// An array document with the given items.
    pub fn array(items: Vec<Json>) -> (r: Json)
        ensures
            r@ == JsonV::Array(views(items@)),
    {
        proof {
            lemma_array_view(items);
        }
        Json::Array(items)
    }

    /// An integer document. A value that is not negative is kept unsigned.
    pub fn integer(n: i64) -> (r: Json)
        ensures
            r@ == JsonV::Int(n as int),
    {
        if n >= 0 {
            Json::Unsigned(n as u64)
        } else {
            Json::Signed(n)
        }
    }

    /// The position of the entry written last under `key`.
    fn find_entry(entries: &Vec<(String, Json)>, key: &str) -> (r: Option<usize>)
        ensures
            match r {
                Some(i) => i == last_entry(entry_views(entries@), key@, entries@.len() as int) && i
                    < entries@.len(),
                None => last_entry(entry_views(entries@), key@, entries@.len() as int) < 0,
            },
    {
        let ghost all = entry_views(entries@);
        let mut n: usize = entries.len();
        while n > 0
            invariant
                n <= entries.len(),
                all == entry_views(entries@),
                last_entry(all, key@, all.len() as int) == last_entry(all, key@, n as int),
            decreases n,
        {
            if same(entries[n - 1].0.as_str(), key) {
                assert(all[n - 1].0 == entries@[n - 1].0@);
                return Some(n - 1);
            }
            assert(all[n - 1].0 == entries@[n - 1].0@);
            n -= 1;
        }
        None
    }

    /// Sets the member `key` of an object to `value`. A null document
    /// counts as an empty object.
    pub fn with_member(self, key: &str, value: Json) -> (r: Json)
        requires
            self@ is Object || self@ is Null,
        ensures
            r@ == self@.with_member(key@, value@),
    {
        match self {
            Json::Object(entries) => {
                proof {
                    lemma_object_view(entries);
                }
                let mut entries = entries;
                let ghost before = entry_views(entries@);
                match Json::find_entry(&entries, key) {
                    Some(i) => {
                        entries.remove(i);
                        entries.insert(i, (key.to_owned(), value));
                        assert(entry_views(entries@) =~= before.update(i as int, (key@, value@)));
                    },
                    None => {
                        entries.push((key.to_owned(), value));
                        assert(entry_views(entries@) =~= before.push((key@, value@)));
                    },
                }
                Json::object(entries)
            },
            _ => {
                let mut entries: Vec<(String, Json)> = Vec::new();
                entries.push((key.to_owned(), value));
                assert(entry_views(entries@) =~= seq![(key@, value@)]);
                Json::object(entries)
            },
        }
    }

    /// The member `key` of an object.
    pub fn get(&self, key: &str) -> (r: Option<&Json>)
        ensures
            match r {
                Some(v) => self@.get(key@) == Some(v@),
                None => self@.get(key@) is None,
            },
    {
        match self {
            Json::Object(entries) => {
                proof {
                    lemma_object_view(*entries);
                }
                let ghost all = entry_views(entries@);
                let mut n: usize = entries.len();
                while n > 0
                    invariant
                        n <= entries.len(),
                        all == entry_views(entries@),
                        self@ == JsonV::Object(all),
                        last_entry(all, key@, all.len() as int) == last_entry(all, key@, n as int),
                    decreases n,
                {
                    if same(entries[n - 1].0.as_str(), key) {
                        assert(all[n - 1] == (entries@[n - 1].0@, entries@[n - 1].1@));
                        return Some(&entries[n - 1].1);
                    }
                    assert(all[n - 1].0 == entries@[n - 1].0@);
                    n -= 1;
                }
                None
            },
            _ => None,
        }
    }

    /// The text of a string document.
    pub fn as_str(&self) -> (r: Option<&str>)
        ensures
            match r {
                Some(t) => self@.as_str() == Some(t@),
                None => self@.as_str() is None,
            },
    {
        match self {
            Json::Str(t) => Some(t.as_str()),
            _ => None,
        }
    }

    /// The value of a boolean document.
    pub fn as_bool(&self) -> (r: Option<bool>)
        ensures
            r == self@.as_bool(),
    {
        match self {
            Json::Bool(b) => Some(*b),
            _ => None,
        }
    }

    /// The value of an integer document that is not negative.
    pub fn as_u64(&self) -> (r: Option<u64>)
        ensures
            r == self@.as_u64(),
    {
        match self {
            Json::Unsigned(n) => Some(*n),
            Json::Signed(n) => if *n >= 0 {
                Some(*n as u64)
            } else {
                None
            },
            _ => None,
        }
    }

    /// The items of an array document.
    pub fn as_array(&self) -> (r: Option<&Vec<Json>>)
        ensures
            match r {
                Some(items) => self@.as_array() == Some(views(items@)),
                None => self@.as_array() is None,
            },
    {
        match self {
            Json::Array(items) => {
                proof {
                    lemma_array_view(*items);
                }
                Some(items)
            },
            _ => None,
        }
    }

    /// The text of the string member `key`.
    pub fn get_str(&self, key: &str) -> (r: Option<&str>)
        ensures
            match r {
                Some(t) => self@.get_str(key@) == Some(t@),
                None => self@.get_str(key@) is None,
            },
    {
        match self.get(key) {
            Some(v) => v.as_str(),
            None => None,
        }
    }

    /// The value of the integer member `key`.
    pub fn get_u64(&self, key: &str) -> (r: Option<u64>)
        ensures
            r == self@.get_u64(key@),
    {
        match self.get(key) {
            Some(v) => v.as_u64(),
            None => None,
        }
    }

    /// The items of the array member `key`.
    pub fn get_array(&self, key: &str) -> (r: Option<&Vec<Json>>)
        ensures
            match r {
                Some(items) => self@.get_array(key@) == Some(views(items@)),
                None => self@.get_array(key@) is None,
            },
    {
        match self.get(key) {
            Some(v) => v.as_array(),
            None => None,
        }
    }

    /// A copy of the member `key`, or `default` where it is missing.
    pub fn get_or(&self, key: &str, default: Json) -> (r: Json)
        ensures
            r@ == self@.get_or(key@, default@),
    {
        match self.get(key) {
            Some(v) => v.deep_clone(),
            None => default,
        }
    }

    /// A copy of the document.
    pub fn deep_clone(&self) -> (r: Json)
        ensures
            r@ == self@,
        decreases self,
    {
        match self {
            Json::Null => Json::Null,
            Json::Bool(b) => Json::Bool(*b),
            Json::Unsigned(n) => Json::Unsigned(*n),
            Json::Signed(n) => Json::Signed(*n),
            Json::Real(t) => Json::Real(t.clone()),
            Json::Str(t) => Json::Str(t.clone()),
            Json::Array(items) => {
                let mut out: Vec<Json> = Vec::new();
                let mut i: usize = 0;
                while i < items.len()
                    invariant
                        i <= items.len(),
                        self matches Json::Array(v) && v == items,
                        out@.len() == i,
                        forall|k: int| 0 <= k < i ==> out@[k]@ == items@[k]@,
                    decreases items.len() - i,
                {
                    out.push(items[i].deep_clone());
                    i += 1;
                }
                let r = Json::Array(out);
                assert(r@->Array_0 =~= self@->Array_0);
                r
            },
            Json::Object(entries) => {
                let mut out: Vec<(String, Json)> = Vec::new();
                let mut i: usize = 0;
                while i < entries.len()
                    invariant
                        i <= entries.len(),
                        self matches Json::Object(v) && v == entries,
                        out@.len() == i,
                        forall|k: int|
                            0 <= k < i ==> out@[k].0@ == entries@[k].0@ && out@[k].1@
                                == entries@[k].1@,
                    decreases entries.len() - i,
                {
                    out.push((entries[i].0.clone(), entries[i].1.deep_clone()));
                    i += 1;
                }
                let r = Json::Object(out);
                assert(r@->Object_0 =~= self@->Object_0);
                r
            },
        }
    }
}

} // verus!
