use vstd::prelude::*;
use crate::order::compare_text;
use crate::order::TextOrder;

verus! {

/// A JSON number as a protocol document carries it.
#[derive(Debug)]
pub enum JsonNumber {
    /// A non-negative integer.
    PosInt(u64),
    /// An integer held as signed (the form negative integers take).
    NegInt(i64),
    /// A finite floating-point number, held as its shortest decimal text.
    Float(String),
}

/// A JSON document.  Objects keep their entries in the order they came in;
/// when a key occurs twice the later entry is the one that counts.
#[derive(Debug)]
pub enum JsonValue {
    Null,
    Bool(bool),
    Number(JsonNumber),
    String(String),
    Array(Vec<JsonValue>),
    Object(Vec<(String, JsonValue)>),
}

/// Mathematical model of a JSON number.
pub enum NumberModel {
    Int(int),
    Float(Seq<char>),
}

/// Mathematical model of a JSON document.
pub enum JsonModel {
    Null,
    Bool(bool),
    Number(NumberModel),
    Str(Seq<char>),
    Array(Seq<JsonModel>),
    Object(Seq<(Seq<char>, JsonModel)>),
}

impl JsonNumber {
    pub open spec fn model(&self) -> NumberModel {
        match self {
            JsonNumber::PosInt(n) => NumberModel::Int(*n as int),
            JsonNumber::NegInt(n) => NumberModel::Int(*n as int),
            JsonNumber::Float(t) => NumberModel::Float(t@),
        }
    }
}

impl JsonValue {
    pub open spec fn model(&self) -> JsonModel
        decreases self,
    {
        match self {
            JsonValue::Null => JsonModel::Null,
            JsonValue::Bool(b) => JsonModel::Bool(*b),
            JsonValue::Number(n) => JsonModel::Number(n.model()),
            JsonValue::String(s) => JsonModel::Str(s@),
            JsonValue::Array(items) => JsonModel::Array(models_of(items@)),
            JsonValue::Object(entries) => JsonModel::Object(entry_models(entries@)),
        }
    }
}

/// The models of a sequence of documents.
pub open spec fn models_of(items: Seq<JsonValue>) -> Seq<JsonModel>
    decreases items,
{
    if items.len() == 0 {
        Seq::empty()
    } else {
        models_of(items.drop_last()).push(items.last().model())
    }
}

/// The models of a sequence of object entries.
pub open spec fn entry_models(entries: Seq<(String, JsonValue)>) -> Seq<(Seq<char>, JsonModel)>
    decreases entries,
{
    if entries.len() == 0 {
        Seq::empty()
    } else {
        entry_models(entries.drop_last()).push((entries.last().0@, entries.last().1.model()))
    }
}

pub broadcast proof fn lemma_models_of(items: Seq<JsonValue>)
    ensures
        #[trigger] models_of(items).len() == items.len(),
        forall|i: int| 0 <= i < items.len() ==> models_of(items)[i] == items[i].model(),
    decreases items.len(),
{
    if items.len() > 0 {
        lemma_models_of(items.drop_last());
    }
}

pub broadcast proof fn lemma_entry_models(entries: Seq<(String, JsonValue)>)
    ensures
        #[trigger] entry_models(entries).len() == entries.len(),
        forall|i: int|
            0 <= i < entries.len() ==> entry_models(entries)[i] == (
                entries[i].0@,
                entries[i].1.model(),
            ),
    decreases entries.len(),
{
    if entries.len() > 0 {
        lemma_entry_models(entries.drop_last());
    }
}

pub broadcast group group_json_models {
    lemma_models_of,
    lemma_entry_models,
}

/// The value that an object's entries give a key: that of the last entry
/// with the key, if there is one.
pub open spec fn lookup(entries: Seq<(Seq<char>, JsonModel)>, key: Seq<char>) -> Option<JsonModel>
    decreases entries.len(),
{
    if entries.len() == 0 {
        None
    } else if entries.last().0 == key {
        Some(entries.last().1)
    } else {
        lookup(entries.drop_last(), key)
    }
}

/// The member `key` of a document, when the document is an object that has it.
pub open spec fn field_of(doc: JsonModel, key: Seq<char>) -> Option<JsonModel> {
    match doc {
        JsonModel::Object(entries) => lookup(entries, key),
        _ => None,
    }
}

/// The text of a document that is a JSON string.
pub open spec fn text_of(doc: JsonModel) -> Option<Seq<char>> {
    match doc {
        JsonModel::Str(s) => Some(s),
        _ => None,
    }
}

/// The value of a document that is an integer within the range of `i64`.
pub open spec fn i64_of(doc: JsonModel) -> Option<i64> {
    match doc {
        JsonModel::Number(NumberModel::Int(i)) => if i64::MIN <= i <= i64::MAX {
            Some(i as i64)
        } else {
            None
        },
        _ => None,
    }
}

/// Whether some entry has the key.
pub open spec fn has_key(entries: Seq<(Seq<char>, JsonModel)>, key: Seq<char>) -> bool {
    exists|i: int| 0 <= i < entries.len() && #[trigger] entries[i].0 == key
}

/// Whether entry `i` is the last one with its key.
pub open spec fn is_last_entry(entries: Seq<(Seq<char>, JsonModel)>, i: int) -> bool {
    &&& 0 <= i < entries.len()
    &&& forall|m: int| i < m < entries.len() ==> #[trigger] entries[m].0 != entries[i].0
}

/// Whether no key occurs twice.
pub open spec fn keys_distinct(entries: Seq<(Seq<char>, JsonModel)>) -> bool {
    forall|i: int, j: int|
        0 <= i < j < entries.len() ==> #[trigger] entries[i].0 != #[trigger] entries[j].0
}

pub proof fn lemma_lookup_has_key(entries: Seq<(Seq<char>, JsonModel)>, key: Seq<char>)
    ensures
        lookup(entries, key) is Some <==> has_key(entries, key),
    decreases entries.len(),
{
    if entries.len() > 0 {
        let n = entries.len() - 1;
        let rest = entries.drop_last();
        lemma_lookup_has_key(rest, key);
        if entries[n].0 == key {
            assert(entries[n].0 == key);
        } else {
            if has_key(entries, key) {
                let i = choose|i: int| 0 <= i < entries.len() && #[trigger] entries[i].0 == key;
                assert(rest[i].0 == key);
            }
            if has_key(rest, key) {
                let i = choose|i: int| 0 <= i < rest.len() && #[trigger] rest[i].0 == key;
                assert(entries[i].0 == key);
            }
        }
    }
}

pub proof fn lemma_lookup_last_entry(entries: Seq<(Seq<char>, JsonModel)>, k: int)
    requires
        is_last_entry(entries, k),
    ensures
        lookup(entries, entries[k].0) == Some(entries[k].1),
    decreases entries.len(),
{
    let n = entries.len() - 1;
    if k < n {
        assert(entries[n].0 != entries[k].0);
        let rest = entries.drop_last();
        assert forall|m: int| k < m < rest.len() implies #[trigger] rest[m].0 != rest[k].0 by {
            assert(entries[m].0 != entries[k].0);
        }
        lemma_lookup_last_entry(rest, k);
    }
}

pub proof fn lemma_lookup_witness(entries: Seq<(Seq<char>, JsonModel)>, key: Seq<char>)
    requires
        lookup(entries, key) is Some,
    ensures
        exists|k: int|
            is_last_entry(entries, k) && #[trigger] entries[k].0 == key && lookup(entries, key)
                == Some(entries[k].1),
    decreases entries.len(),
{
    let n = entries.len() - 1;
    if entries[n].0 == key {
        assert(is_last_entry(entries, n));
    } else {
        let rest = entries.drop_last();
        lemma_lookup_witness(rest, key);
        let k = choose|k: int|
            is_last_entry(rest, k) && #[trigger] rest[k].0 == key && lookup(rest, key) == Some(
                rest[k].1,
            );
        assert forall|m: int| k < m < entries.len() implies #[trigger] entries[m].0
            != entries[k].0 by {
            if m < n {
                assert(rest[m].0 != rest[k].0);
            }
        }
        assert(entries[k].0 == key);
    }
}

pub proof fn lemma_lookup_distinct(entries: Seq<(Seq<char>, JsonModel)>, j: int)
    requires
        keys_distinct(entries),
        0 <= j < entries.len(),
    ensures
        lookup(entries, entries[j].0) == Some(entries[j].1),
{
    assert forall|m: int| j < m < entries.len() implies #[trigger] entries[m].0
        != entries[j].0 by {
        assert(entries[j].0 != entries[m].0);
    }
    lemma_lookup_last_entry(entries, j);
}

impl JsonValue {
    /// The member `key` of an object (the last entry with that key); `None`
    /// for a missing key or a document that is not an object.
    pub fn get(&self, key: &str) -> (res: Option<&JsonValue>)
        ensures
            match res {
                Some(v) => field_of(self.model(), key@) == Some(v.model()),
                None => field_of(self.model(), key@) is None,
            },
    {
        broadcast use group_json_models;

        match self {
            JsonValue::Object(entries) => {
                let ghost e = entry_models(entries@);
                let mut i: usize = entries.len();
                assert(e.take(i as int) =~= e);
                assert(self.model() == JsonModel::Object(e));
                while i > 0
                    invariant
                        self.model() == JsonModel::Object(e),
                        i <= entries@.len(),
                        e == entry_models(entries@),
                        e.len() == entries@.len(),
                        lookup(e, key@) == lookup(e.take(i as int), key@),
                    decreases i,
                {
                    let j = i - 1;
                    assert(e.take(i as int).drop_last() =~= e.take(j as int));
                    assert(e.take(i as int).last() == e[j as int]);
                    let entry = &entries[j];
                    proof {
                        lemma_entry_models(entries@);
                    }
                    assert(e[j as int] == (entry.0@, entry.1.model()));
                    if compare_text(entry.0.as_str(), key) == TextOrder::Equal {
                        assert(lookup(e.take(i as int), key@) == Some(entry.1.model()));
                        return Some(&entry.1);
                    }
                    assert(lookup(e.take(i as int), key@) == lookup(e.take(j as int), key@));
                    i = j;
                }
                None
            },
            _ => None,
        }
    }

    /// The text of a JSON string.
    pub fn as_str(&self) -> (res: Option<&String>)
        ensures
            match res {
                Some(s) => text_of(self.model()) == Some(s@),
                None => text_of(self.model()) is None,
            },
    {
        match self {
            JsonValue::String(s) => Some(s),
            _ => None,
        }
    }

    /// The value of an integer that fits `i64`.
    pub fn as_i64(&self) -> (res: Option<i64>)
        ensures
            res == i64_of(self.model()),
    {
        match self {
            JsonValue::Number(JsonNumber::PosInt(n)) => {
                if *n <= 9223372036854775807u64 {
                    Some(*n as i64)
                } else {
                    None
                }
            },
            JsonValue::Number(JsonNumber::NegInt(n)) => Some(*n),
            _ => None,
        }
    }
}

} // verus!
