//! The telemetry tree: a JSON-like value, and the mathematical model that
//! contracts speak of.

use vstd::prelude::*;
use crate::number::Number;
use crate::text::text_eq;

verus! {

/// A JSON-like value: what a device reports, and what is kept of its reports.
#[derive(Debug, PartialEq, Eq)]
pub enum Tree {
    Null,
    Bool(bool),
    Number(Number),
    String(String),
    Array(Vec<Tree>),
    /// The entries of an object, in the order in which their keys first came.
    Object(Vec<(String, Tree)>),
}

/// The model of a `Tree`: strings are character sequences, arrays and objects
/// are sequences.
pub enum Json {
    Null,
    Bool(bool),
    Number(Number),
    String(Seq<char>),
    Array(Seq<Json>),
    Object(Seq<(Seq<char>, Json)>),
}

/// The entries of an object model.
pub type Entries = Seq<(Seq<char>, Json)>;

/// The first index from `from` on at which `key` stands among `entries`.
pub open spec fn position_from(entries: Entries, key: Seq<char>, from: int) -> Option<int>
    decreases entries.len() - from,
{
    if from < 0 || from >= entries.len() {
        None
    } else if entries[from].0 == key {
        Some(from)
    } else {
        position_from(entries, key, from + 1)
    }
}

/// The first index at which `key` stands among `entries`.
pub open spec fn position(entries: Entries, key: Seq<char>) -> Option<int> {
    position_from(entries, key, 0)
}

/// The value that `entries` hold under `key`.
pub open spec fn lookup(entries: Entries, key: Seq<char>) -> Option<Json> {
    match position(entries, key) {
        Some(i) => Some(entries[i].1),
        None => None,
    }
}

/// No key stands twice among `entries`.
pub open spec fn keys_unique(entries: Entries) -> bool {
    forall|i: int, j: int| 0 <= i < j < entries.len() ==> entries[i].0 != entries[j].0
}

/// What `position_from` finds is the first entry under `key` from `from` on.
pub proof fn lemma_position_from(entries: Entries, key: Seq<char>, from: int)
    requires
        0 <= from,
    ensures
        match position_from(entries, key, from) {
            Some(i) => from <= i < entries.len() && entries[i].0 == key && forall|j: int|
                from <= j < i ==> entries[j].0 != key,
            None => forall|j: int| from <= j < entries.len() ==> entries[j].0 != key,
        },
    decreases entries.len() - from,
{
    if from < entries.len() && entries[from].0 != key {
        lemma_position_from(entries, key, from + 1);
    }
}

/// What `position` finds is the first entry under `key`.
pub proof fn lemma_position(entries: Entries, key: Seq<char>)
    ensures
        match position(entries, key) {
            Some(i) => 0 <= i < entries.len() && entries[i].0 == key && forall|j: int|
                0 <= j < i ==> entries[j].0 != key,
            None => forall|j: int| 0 <= j < entries.len() ==> entries[j].0 != key,
        },
{
    lemma_position_from(entries, key, 0);
}

/// The first entry under `key` is what `position` finds.
pub proof fn lemma_position_is(entries: Entries, key: Seq<char>, i: int)
    requires
        0 <= i < entries.len(),
        entries[i].0 == key,
        forall|j: int| 0 <= j < i ==> entries[j].0 != key,
    ensures
        position(entries, key) == Some(i),
{
    lemma_position(entries, key);
}

/// Where no entry stands under `key`, `position` finds none.
pub proof fn lemma_position_none(entries: Entries, key: Seq<char>)
    requires
        forall|j: int| 0 <= j < entries.len() ==> entries[j].0 != key,
    ensures
        position(entries, key) is None,
{
    lemma_position(entries, key);
}

/// Looking a key up in two runs of entries, one after the other: the first
/// run that holds the key decides.
pub proof fn lemma_lookup_concat(first: Entries, second: Entries, key: Seq<char>)
    ensures
        lookup(first + second, key) == if lookup(first, key) is Some {
            lookup(first, key)
        } else {
            lookup(second, key)
        },
{
    let all = first + second;
    lemma_position(first, key);
    lemma_position(second, key);
    match position(first, key) {
        Some(i) => {
            lemma_position_is(all, key, i);
        },
        None => {
            match position(second, key) {
                Some(i) => {
                    assert forall|j: int| 0 <= j < first.len() + i implies all[j].0 != key by {
                        if j >= first.len() {
                            assert(all[j] == second[j - first.len()]);
                        }
                    }
                    assert(all[first.len() + i] == second[i]);
                    lemma_position_is(all, key, first.len() + i);
                },
                None => {
                    assert forall|j: int| 0 <= j < all.len() implies all[j].0 != key by {
                        if j >= first.len() {
                            assert(all[j] == second[j - first.len()]);
                        }
                    }
                    lemma_position_none(all, key);
                },
            }
        },
    }
}

impl Json {
    /// The empty object.
    pub open spec fn empty_object() -> Json {
        Json::Object(Seq::empty())
    }

    /// Every object in the tree holds each key once, and every number is
    /// well formed.
    pub open spec fn wf(self) -> bool
        decreases self,
    {
        match self {
            Json::Number(n) => n.wf(),
            Json::Array(items) => forall|i: int| 0 <= i < items.len() ==> (#[trigger] items[i]).wf(),
            Json::Object(entries) => keys_unique(entries) && forall|i: int|
                0 <= i < entries.len() ==> (#[trigger] entries[i]).1.wf(),
            _ => true,
        }
    }

    /// The member of an object under `key`; nothing for a missing key or
    /// another kind of value.
    pub open spec fn get(self, key: Seq<char>) -> Option<Json> {
        match self {
            Json::Object(entries) => lookup(entries, key),
            _ => None,
        }
    }

    /// The characters of a string value.
    pub open spec fn as_str(self) -> Option<Seq<char>> {
        match self {
            Json::String(s) => Some(s),
            _ => None,
        }
    }

    /// The number of a number value.
    pub open spec fn as_number(self) -> Option<Number> {
        match self {
            Json::Number(n) => Some(n),
            _ => None,
        }
    }

    /// A number value as a 64-bit signed integer.
    pub open spec fn as_i64(self) -> Option<i64> {
        match self {
            Json::Number(n) => n.spec_as_i64(),
            _ => None,
        }
    }
}

/// The models of the entries of an object.
pub open spec fn entry_views(entries: Seq<(String, Tree)>) -> Entries
    decreases entries,
{
    Seq::new(
        entries.len(),
        |i: int|
            if 0 <= i < entries.len() {
                (entries[i].0@, entries[i].1@)
            } else {
                (Seq::empty(), Json::Null)
            },
    )
}

/// The models of the items of an array.
pub open spec fn item_views(items: Seq<Tree>) -> Seq<Json>
    decreases items,
{
    Seq::new(
        items.len(),
        |i: int|
            if 0 <= i < items.len() {
                items[i]@
            } else {
                Json::Null
            },
    )
}

impl View for Tree {
    type V = Json;

    open spec fn view(&self) -> Json
        decreases self,
    {
        match self {
            Tree::Null => Json::Null,
            Tree::Bool(b) => Json::Bool(*b),
            Tree::Number(n) => Json::Number(*n),
            Tree::String(s) => Json::String(s@),
            Tree::Array(items) => Json::Array(item_views(items@)),
            Tree::Object(entries) => Json::Object(entry_views(entries@)),
        }
    }
}

/// The index of the first entry under `key`.
pub fn find_entry(entries: &Vec<(String, Tree)>, key: &str) -> (r: Option<usize>)
    ensures
        match r {
            Some(i) => position(entry_views(entries@), key@) == Some(i as int) && i < entries@.len(),
            None => position(entry_views(entries@), key@) is None,
        },
{
    let mut i: usize = 0;
    while i < entries.len()
        invariant
            i <= entries@.len(),
            position(entry_views(entries@), key@) == position_from(entry_views(entries@), key@, i as int),
        decreases entries@.len() - i,
    {
        if text_eq(entries[i].0.as_str(), key) {
            return Some(i);
        }
        i += 1;
    }
    None
}

impl Tree {
    /// An object without entries.
    pub fn empty_object() -> (r: Tree)
        ensures
            r@ == Json::empty_object(),
    {
        let r = Tree::Object(Vec::new());
        assert(entry_views(Seq::<(String, Tree)>::empty()) =~= Seq::empty());
        r
    }

    /// The member of an object under `key`; nothing for a missing key or
    /// another kind of value.
    pub fn get(&self, key: &str) -> (r: Option<&Tree>)
        ensures
            match r {
                Some(t) => self@.get(key@) == Some(t@),
                None => self@.get(key@) is None,
            },
    {
        match self {
            Tree::Object(entries) => match find_entry(entries, key) {
                Some(i) => Some(&entries[i].1),
                None => None,
            },
            _ => None,
        }
    }

    /// Whether the value is an object.
    pub fn is_object(&self) -> (r: bool)
        ensures
            r == (self@ is Object),
    {
        match self {
            Tree::Object(_) => true,
            _ => false,
        }
    }

    /// The text of a string value.
    pub fn as_str(&self) -> (r: Option<&str>)
        ensures
            match r {
                Some(s) => self@.as_str() == Some(s@),
                None => self@.as_str() is None,
            },
    {
        match self {
            Tree::String(s) => Some(s.as_str()),
            _ => None,
        }
    }

    /// The number of a number value.
    pub fn as_number(&self) -> (r: Option<Number>)
        ensures
            r == self@.as_number(),
    {
        match self {
            Tree::Number(n) => Some(*n),
            _ => None,
        }
    }

    /// A number value as a 64-bit signed integer.
    pub fn as_i64(&self) -> (r: Option<i64>)
        ensures
            r == self@.as_i64(),
    {
        match self {
            Tree::Number(n) => n.as_i64(),
            _ => None,
        }
    }
}

/// A copy of the items of an array.
fn clone_items(items: &Vec<Tree>) -> (r: Vec<Tree>)
    ensures
        item_views(r@) == item_views(items@),
    decreases items,
{
    let mut r: Vec<Tree> = Vec::new();
    let mut i: usize = 0;
    while i < items.len()
        invariant
            i <= items@.len(),
            r@.len() == i,
            forall|j: int| 0 <= j < i ==> r@[j]@ == items@[j]@,
        decreases items@.len() - i,
    {
        let copy = items[i].clone();
        r.push(copy);
        i += 1;
    }
    assert(item_views(r@) =~= item_views(items@));
    r
}

/// A copy of the entries of an object.
fn clone_entries(entries: &Vec<(String, Tree)>) -> (r: Vec<(String, Tree)>)
    ensures
        entry_views(r@) == entry_views(entries@),
    decreases entries,
{
    let mut r: Vec<(String, Tree)> = Vec::new();
    let mut i: usize = 0;
    while i < entries.len()
        invariant
            i <= entries@.len(),
            r@.len() == i,
            forall|j: int| 0 <= j < i ==> r@[j].0@ == entries@[j].0@ && r@[j].1@ == entries@[j].1@,
        decreases entries@.len() - i,
    {
        let key = entries[i].0.clone();
        let copy = entries[i].1.clone();
        r.push((key, copy));
        i += 1;
    }
    assert(entry_views(r@) =~= entry_views(entries@));
    r
}

impl Clone for Tree {
    /// A copy with the same model.
    fn clone(&self) -> (r: Self)
        ensures
            r@ == self@,
        decreases self,
    {
        match self {
            Tree::Null => Tree::Null,
            Tree::Bool(b) => Tree::Bool(*b),
            Tree::Number(n) => Tree::Number(*n),
            Tree::String(s) => Tree::String(s.clone()),
            Tree::Array(items) => Tree::Array(clone_items(items)),
            Tree::Object(entries) => Tree::Object(clone_entries(entries)),
        }
    }
}

} // verus!
