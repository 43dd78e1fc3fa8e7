use vstd::prelude::*;
use crate::json::{
    entry_models, group_json_models, has_key, is_last_entry, keys_distinct, lookup, models_of,
    JsonModel, JsonNumber, JsonValue, lemma_lookup_distinct,
    lemma_lookup_has_key, lemma_lookup_last_entry, lemma_lookup_witness, lemma_models_of,
};
use crate::order::{
    compare_text, key_less, lemma_key_less_asymmetric, lemma_key_less_irreflexive,
    lemma_key_less_total, lemma_key_less_transitive, TextOrder,
};

verus! {

broadcast use group_json_models;

/// Entries whose keys rise strictly in `String` order.
pub open spec fn strictly_ascending(entries: Seq<(Seq<char>, JsonModel)>) -> bool {
    forall|i: int, j: int|
        0 <= i < j < entries.len() ==> key_less(#[trigger] entries[i].0, #[trigger] entries[j].0)
}

/// `c` is the canonical form of `v`: arrays keep their order and have each
/// element in canonical form; an object becomes the object whose keys are
/// those of `v`, in ascending `String` order, each with the canonical form of
/// the value that `v` gives it (the last entry with the key); every other
/// value stays as it is.
pub open spec fn is_canonical_form(c: JsonModel, v: JsonModel) -> bool
    decreases v,
{
    match v {
        JsonModel::Array(items) => match c {
            JsonModel::Array(citems) => {
                &&& citems.len() == items.len()
                &&& forall|i: int|
                    0 <= i < items.len() ==> is_canonical_form(#[trigger] citems[i], items[i])
            },
            _ => false,
        },
        JsonModel::Object(entries) => match c {
            JsonModel::Object(centries) => {
                &&& strictly_ascending(centries)
                &&& forall|j: int|
                    0 <= j < centries.len() ==> has_key(entries, #[trigger] centries[j].0)
                &&& forall|i: int|
                    0 <= i < entries.len() && is_last_entry(entries, i) ==> exists|j: int|
                        0 <= j < centries.len() && #[trigger] centries[j].0 == entries[i].0
                            && is_canonical_form(centries[j].1, entries[i].1)
            },
            _ => false,
        },
        _ => c == v,
    }
}

pub proof fn lemma_ascending_distinct(entries: Seq<(Seq<char>, JsonModel)>)
    requires
        strictly_ascending(entries),
    ensures
        keys_distinct(entries),
{
    assert forall|i: int, j: int| 0 <= i < j < entries.len() implies #[trigger] entries[i].0
        != #[trigger] entries[j].0 by {
        assert(key_less(entries[i].0, entries[j].0));
        lemma_key_less_irreflexive(entries[i].0);
    }
}

/// In a sequence without repeated keys, `lookup` finds exactly the entries.
proof fn lemma_lookup_distinct_cases(entries: Seq<(Seq<char>, JsonModel)>, key: Seq<char>)
    requires
        keys_distinct(entries),
    ensures
        forall|j: int|
            0 <= j < entries.len() && #[trigger] entries[j].0 == key ==> lookup(entries, key)
                == Some(entries[j].1),
        !has_key(entries, key) ==> lookup(entries, key) is None,
{
    assert forall|j: int| 0 <= j < entries.len() && #[trigger] entries[j].0 == key implies lookup(
        entries,
        key,
    ) == Some(entries[j].1) by {
        lemma_lookup_distinct(entries, j);
    }
    lemma_lookup_has_key(entries, key);
}

proof fn lemma_insert_at(
    o: Seq<(Seq<char>, JsonModel)>,
    p: int,
    k: Seq<char>,
    v: JsonModel,
)
    requires
        strictly_ascending(o),
        0 <= p <= o.len(),
        forall|j: int| 0 <= j < p ==> key_less(#[trigger] o[j].0, k),
        p < o.len() ==> key_less(k, o[p].0),
    ensures
        strictly_ascending(o.insert(p, (k, v))),
        forall|x: Seq<char>|
            #[trigger] lookup(o.insert(p, (k, v)), x) == if x == k {
                Some(v)
            } else {
                lookup(o, x)
            },
{
    let o2 = o.insert(p, (k, v));
    assert forall|i: int, j: int| 0 <= i < j < o2.len() implies key_less(
        #[trigger] o2[i].0,
        #[trigger] o2[j].0,
    ) by {
        if i < p && j < p {
            assert(o2[i] == o[i] && o2[j] == o[j]);
        } else if i < p && j == p {
        } else if i < p {
            assert(o2[j] == o[j - 1]);
            assert(key_less(o[i].0, k));
            if j - 1 > p {
                assert(key_less(o[p].0, o[j - 1].0));
                lemma_key_less_transitive(k, o[p].0, o[j - 1].0);
            }
            lemma_key_less_transitive(o[i].0, k, o[j - 1].0);
        } else if i == p {
            assert(o2[j] == o[j - 1]);
            if j - 1 > p {
                assert(key_less(o[p].0, o[j - 1].0));
                lemma_key_less_transitive(k, o[p].0, o[j - 1].0);
            }
        } else {
            assert(o2[i] == o[i - 1] && o2[j] == o[j - 1]);
        }
    }
    lemma_ascending_distinct(o);
    lemma_ascending_distinct(o2);
    assert forall|x: Seq<char>| #[trigger] lookup(o2, x) == if x == k {
        Some(v)
    } else {
        lookup(o, x)
    } by {
        lemma_lookup_distinct_cases(o2, x);
        lemma_lookup_distinct_cases(o, x);
        if x == k {
            assert(o2[p].0 == x);
        } else if has_key(o, x) {
            let j = choose|j: int| 0 <= j < o.len() && #[trigger] o[j].0 == x;
            if j < p {
                assert(o2[j] == o[j]);
            } else {
                assert(o2[j + 1] == o[j]);
            }
        } else {
            if has_key(o2, x) {
                let j = choose|j: int| 0 <= j < o2.len() && #[trigger] o2[j].0 == x;
                if j < p {
                    assert(o[j] == o2[j]);
                } else if j > p {
                    assert(o[j - 1] == o2[j]);
                }
            }
        }
    }
}

proof fn lemma_replace_at(
    o: Seq<(Seq<char>, JsonModel)>,
    p: int,
    k: Seq<char>,
    v: JsonModel,
)
    requires
        strictly_ascending(o),
        0 <= p < o.len(),
        o[p].0 == k,
    ensures
        strictly_ascending(o.update(p, (k, v))),
        forall|x: Seq<char>|
            #[trigger] lookup(o.update(p, (k, v)), x) == if x == k {
                Some(v)
            } else {
                lookup(o, x)
            },
{
    let o2 = o.update(p, (k, v));
    assert forall|i: int, j: int| 0 <= i < j < o2.len() implies key_less(
        #[trigger] o2[i].0,
        #[trigger] o2[j].0,
    ) by {
        assert(o2[i].0 == o[i].0 && o2[j].0 == o[j].0);
    }
    lemma_ascending_distinct(o);
    lemma_ascending_distinct(o2);
    assert forall|x: Seq<char>| #[trigger] lookup(o2, x) == if x == k {
        Some(v)
    } else {
        lookup(o, x)
    } by {
        lemma_lookup_distinct_cases(o2, x);
        lemma_lookup_distinct_cases(o, x);
        if x == k {
            assert(o2[p].0 == x);
        } else if has_key(o, x) {
            let j = choose|j: int| 0 <= j < o.len() && #[trigger] o[j].0 == x;
            assert(o2[j] == o[j]);
        } else {
            if has_key(o2, x) {
                let j = choose|j: int| 0 <= j < o2.len() && #[trigger] o2[j].0 == x;
                assert(o[j] == o2[j]);
            }
        }
    }
}

fn copy_number(n: &JsonNumber) -> (res: JsonNumber)
    ensures
        res.model() == n.model(),
{
    match n {
        JsonNumber::PosInt(v) => JsonNumber::PosInt(*v),
        JsonNumber::NegInt(v) => JsonNumber::NegInt(*v),
        JsonNumber::Float(t) => JsonNumber::Float(t.clone()),
    }
}

/// Puts an entry into entries sorted by key, replacing the entry that has
/// the same key if there is one.
fn insert_sorted(out: &mut Vec<(String, JsonValue)>, key: String, value: JsonValue)
    requires
        strictly_ascending(entry_models(old(out)@)),
    ensures
        strictly_ascending(entry_models(final(out)@)),
        forall|x: Seq<char>|
            #[trigger] lookup(entry_models(final(out)@), x) == if x == key@ {
                Some(value.model())
            } else {
                lookup(entry_models(old(out)@), x)
            },
{
    let ghost o = entry_models(out@);
    let mut p: usize = 0;
    while p < out.len() && compare_text(out[p].0.as_str(), key.as_str()) == TextOrder::Less
        invariant
            p <= out@.len(),
            o == entry_models(out@),
            o.len() == out@.len(),
            forall|j: int| 0 <= j < p ==> key_less(#[trigger] o[j].0, key@),
        decreases out@.len() - p,
    {
        assert(o[p as int].0 == out@[p as int].0@);
        p = p + 1;
    }
    let ghost kv = (key@, value.model());
    if p < out.len() && compare_text(out[p].0.as_str(), key.as_str()) == TextOrder::Equal {
        assert(o[p as int].0 == key@);
        out.set(p, (key, value));
        proof {
            lemma_replace_at(o, p as int, kv.0, kv.1);
            assert(entry_models(out@) =~= o.update(p as int, kv));
        }
    } else {
        proof {
            if p < o.len() {
                assert(o[p as int].0 == out@[p as int].0@);
                lemma_key_less_total(o[p as int].0, key@);
            }
            lemma_insert_at(o, p as int, kv.0, kv.1);
        }
        out.insert(p, (key, value));
        assert(entry_models(out@) =~= o.insert(p as int, kv));
    }
}

/// The canonical form of a document: every object, at any depth, has its
/// entries in ascending key order with one entry per key.
#[verifier::loop_isolation(false)]
pub fn canonical_value(value: &JsonValue) -> (res: JsonValue)
    ensures
        is_canonical_form(res.model(), value.model()),
    decreases value,
{
    match value {
        JsonValue::Null => JsonValue::Null,
        JsonValue::Bool(b) => JsonValue::Bool(*b),
        JsonValue::Number(n) => JsonValue::Number(copy_number(n)),
        JsonValue::String(s) => JsonValue::String(s.clone()),
        JsonValue::Array(items) => {
            let mut out: Vec<JsonValue> = Vec::new();
            let mut i: usize = 0;
            while i < items.len()
                invariant
                    i <= items@.len(),
                    out@.len() == i,
                    forall|k: int|
                        0 <= k < i ==> is_canonical_form(
                            #[trigger] out@[k].model(),
                            items@[k].model(),
                        ),
                decreases items@.len() - i,
            {
                assert(decreases_to!(value => items@[i as int]));
                let c = canonical_value(&items[i]);
                out.push(c);
                i = i + 1;
            }
            let res = JsonValue::Array(out);
            proof {
                let cm = models_of(out@);
                let vm = models_of(items@);
                lemma_models_of(out@);
                lemma_models_of(items@);
                assert forall|k: int| 0 <= k < vm.len() implies is_canonical_form(
                    #[trigger] cm[k],
                    vm[k],
                ) by {
                    assert(cm[k] == out@[k].model());
                    assert(vm[k] == items@[k].model());
                }
            }
            res
        },
        JsonValue::Object(entries) => {
            let ghost e = entry_models(entries@);
            let mut out: Vec<(String, JsonValue)> = Vec::new();
            let mut i: usize = 0;
            while i < entries.len()
                invariant
                    i <= entries@.len(),
                    e == entry_models(entries@),
                    e.len() == entries@.len(),
                    strictly_ascending(entry_models(out@)),
                    forall|x: Seq<char>|
                        (#[trigger] lookup(entry_models(out@), x) is Some) <==> lookup(
                            e.take(i as int),
                            x,
                        ) is Some,
                    forall|x: Seq<char>|
                        #[trigger] lookup(entry_models(out@), x) is Some ==> is_canonical_form(
                            lookup(entry_models(out@), x).unwrap(),
                            lookup(e.take(i as int), x).unwrap(),
                        ),
                decreases entries@.len() - i,
            {
                assert(decreases_to!(value => entries@[i as int].1));
                let c = canonical_value(&entries[i].1);
                let k = entries[i].0.clone();
                assert(e[i as int] == (entries@[i as int].0@, entries@[i as int].1.model()));
                insert_sorted(&mut out, k, c);
                assert(e.take(i + 1).drop_last() =~= e.take(i as int));
                assert(e.take(i + 1).last() == e[i as int]);
                i = i + 1;
            }
            let res = JsonValue::Object(out);
            proof {
                let o = entry_models(out@);
                assert(e.take(i as int) =~= e);
                lemma_ascending_distinct(o);
                assert forall|j: int| 0 <= j < o.len() implies has_key(e, #[trigger] o[j].0) by {
                    lemma_lookup_distinct(o, j);
                    lemma_lookup_has_key(e, o[j].0);
                }
                assert forall|i2: int|
                    0 <= i2 < e.len() && is_last_entry(e, i2) implies exists|j: int|
                    0 <= j < o.len() && #[trigger] o[j].0 == e[i2].0 && is_canonical_form(
                        o[j].1,
                        e[i2].1,
                    ) by {
                    lemma_lookup_last_entry(e, i2);
                    lemma_lookup_has_key(o, e[i2].0);
                    let j = choose|j: int| 0 <= j < o.len() && #[trigger] o[j].0 == e[i2].0;
                    lemma_lookup_distinct(o, j);
                }
            }
            res
        },
    }
}

/// `a` and `b` are the same document up to the order of object entries:
/// arrays agree element by element, and objects have the same keys with the
/// same documents (taking, for each key, the last entry that has it).
pub open spec fn same_document(a: JsonModel, b: JsonModel) -> bool
    decreases a,
{
    match a {
        JsonModel::Array(xs) => match b {
            JsonModel::Array(ys) => {
                &&& xs.len() == ys.len()
                &&& forall|i: int| 0 <= i < xs.len() ==> same_document(#[trigger] xs[i], ys[i])
            },
            _ => false,
        },
        JsonModel::Object(xe) => match b {
            JsonModel::Object(ye) => {
                &&& forall|i: int| 0 <= i < xe.len() ==> has_key(ye, #[trigger] xe[i].0)
                &&& forall|j: int| 0 <= j < ye.len() ==> has_key(xe, #[trigger] ye[j].0)
                &&& forall|i: int, j: int|
                    #![trigger xe[i].0, ye[j].0]
                    0 <= i < xe.len() && is_last_entry(xe, i) && 0 <= j < ye.len()
                        && is_last_entry(ye, j) && xe[i].0 == ye[j].0 ==> same_document(
                        xe[i].1,
                        ye[j].1,
                    )
            },
            _ => false,
        },
        _ => a == b,
    }
}

proof fn lemma_last_entry_of(entries: Seq<(Seq<char>, JsonModel)>, key: Seq<char>) -> (i: int)
    requires
        has_key(entries, key),
    ensures
        is_last_entry(entries, i),
        entries[i].0 == key,
{
    lemma_lookup_has_key(entries, key);
    lemma_lookup_witness(entries, key);
    choose|k: int|
        is_last_entry(entries, k) && #[trigger] entries[k].0 == key && lookup(entries, key)
            == Some(entries[k].1)
}

/// Two key-sorted entry sequences with the same keys, giving each key the
/// same value, are the same sequence.
proof fn lemma_sorted_unique(s: Seq<(Seq<char>, JsonModel)>, t: Seq<(Seq<char>, JsonModel)>)
    requires
        strictly_ascending(s),
        strictly_ascending(t),
        forall|j: int| 0 <= j < s.len() ==> has_key(t, #[trigger] s[j].0),
        forall|j: int| 0 <= j < t.len() ==> has_key(s, #[trigger] t[j].0),
        forall|i: int, j: int|
            #![trigger s[i].0, t[j].0]
            0 <= i < s.len() && 0 <= j < t.len() && s[i].0 == t[j].0 ==> s[i].1 == t[j].1,
    ensures
        s == t,
    decreases s.len(),
{
    if s.len() == 0 {
        if t.len() > 0 {
            assert(has_key(s, t[0].0));
        }
        assert(s =~= t);
    } else {
        assert(has_key(t, s[0].0));
        let j = choose|j: int| 0 <= j < t.len() && #[trigger] t[j].0 == s[0].0;
        assert(has_key(s, t[0].0));
        let i = choose|i: int| 0 <= i < s.len() && #[trigger] s[i].0 == t[0].0;
        if i > 0 && j > 0 {
            assert(key_less(s[0].0, s[i].0));
            assert(key_less(t[0].0, t[j].0));
            lemma_key_less_asymmetric(s[0].0, t[0].0);
        }
        assert(s[0].0 == t[0].0);
        assert(s[0].1 == t[0].1);
        let s2 = s.drop_first();
        let t2 = t.drop_first();
        assert forall|a: int| 0 <= a < s2.len() implies has_key(t2, #[trigger] s2[a].0) by {
            assert(s2[a] == s[a + 1]);
            assert(key_less(s[0].0, s[a + 1].0));
            lemma_key_less_irreflexive(s[0].0);
            assert(has_key(t, s[a + 1].0));
            let m = choose|m: int| 0 <= m < t.len() && #[trigger] t[m].0 == s[a + 1].0;
            assert(m != 0);
            assert(t2[m - 1].0 == s2[a].0);
        }
        assert forall|a: int| 0 <= a < t2.len() implies has_key(s2, #[trigger] t2[a].0) by {
            assert(t2[a] == t[a + 1]);
            assert(key_less(t[0].0, t[a + 1].0));
            lemma_key_less_irreflexive(t[0].0);
            assert(has_key(s, t[a + 1].0));
            let m = choose|m: int| 0 <= m < s.len() && #[trigger] s[m].0 == t[a + 1].0;
            assert(m != 0);
            assert(s2[m - 1].0 == t2[a].0);
        }
        assert forall|a: int, b: int|
            #![trigger s2[a].0, t2[b].0]
            0 <= a < s2.len() && 0 <= b < t2.len() && s2[a].0 == t2[b].0 implies s2[a].1
            == t2[b].1 by {
            assert(s2[a] == s[a + 1] && t2[b] == t[b + 1]);
            assert(s[a + 1].0 == t[b + 1].0);
        }
        lemma_sorted_unique(s2, t2);
        assert(s =~= seq![s[0]] + s2);
        assert(t =~= seq![t[0]] + t2);
    }
}

/// Documents that are the same up to the order of object entries have the
/// same canonical form.
#[verifier::rlimit(60)]
#[verifier::spinoff_prover]
pub proof fn law_same_document_same_canonical_form(
    a: JsonModel,
    b: JsonModel,
    ca: JsonModel,
    cb: JsonModel,
)
    requires
        same_document(a, b),
        is_canonical_form(ca, a),
        is_canonical_form(cb, b),
    ensures
        ca == cb,
    decreases a,
{
    match a {
        JsonModel::Array(xs) => {
            let ys = b->Array_0;
            let cxs = ca->Array_0;
            let cys = cb->Array_0;
            assert forall|i: int| 0 <= i < cxs.len() implies cxs[i] == cys[i] by {
                assert(same_document(xs[i], ys[i]));
                assert(is_canonical_form(cxs[i], xs[i]));
                assert(is_canonical_form(cys[i], ys[i]));
                law_same_document_same_canonical_form(xs[i], ys[i], cxs[i], cys[i]);
            }
            assert(cxs =~= cys);
        },
        JsonModel::Object(xe) => {
            let ye = b->Object_0;
            let ce = ca->Object_0;
            let de = cb->Object_0;
            lemma_ascending_distinct(ce);
            lemma_ascending_distinct(de);
            // For each key of `ca`: the matching key of `cb`, and equal values.
            assert forall|j: int| 0 <= j < ce.len() implies has_key(de, #[trigger] ce[j].0)
                && (forall|m: int|
                0 <= m < de.len() && de[m].0 == ce[j].0 ==> ce[j].1 == de[m].1) by {
                let k = ce[j].0;
                assert(has_key(xe, k));
                let i = lemma_last_entry_of(xe, k);
                let j2 = choose|j2: int|
                    0 <= j2 < ce.len() && #[trigger] ce[j2].0 == xe[i].0 && is_canonical_form(
                        ce[j2].1,
                        xe[i].1,
                    );
                if j2 != j {
                    assert(ce[j2].0 != ce[j].0);
                }
                assert(has_key(ye, xe[i].0));
                let i2 = lemma_last_entry_of(ye, k);
                assert(same_document(xe[i].1, ye[i2].1));
                let m2 = choose|m2: int|
                    0 <= m2 < de.len() && #[trigger] de[m2].0 == ye[i2].0 && is_canonical_form(
                        de[m2].1,
                        ye[i2].1,
                    );
                law_same_document_same_canonical_form(xe[i].1, ye[i2].1, ce[j].1, de[m2].1);
                assert(de[m2].0 == k);
                assert forall|m: int| 0 <= m < de.len() && de[m].0 == ce[j].0 implies ce[j].1
                    == de[m].1 by {
                    if m != m2 {
                        assert(de[m].0 != de[m2].0);
                    }
                }
            }
            assert forall|m: int| 0 <= m < de.len() implies has_key(ce, #[trigger] de[m].0) by {
                let k = de[m].0;
                assert(has_key(ye, k));
                let i2 = lemma_last_entry_of(ye, k);
                assert(has_key(xe, ye[i2].0));
                let i = lemma_last_entry_of(xe, k);
                let j2 = choose|j2: int|
                    0 <= j2 < ce.len() && #[trigger] ce[j2].0 == xe[i].0 && is_canonical_form(
                        ce[j2].1,
                        xe[i].1,
                    );
                assert(ce[j2].0 == k);
            }
            assert forall|i: int, j: int|
                #![trigger ce[i].0, de[j].0]
                0 <= i < ce.len() && 0 <= j < de.len() && ce[i].0 == de[j].0 implies ce[i].1
                == de[j].1 by {
                assert(has_key(de, ce[i].0));
            }
            lemma_sorted_unique(ce, de);
        },
        _ => {},
    }
}


/// Every document is the same document as itself.
pub proof fn law_same_document_reflexive(a: JsonModel)
    ensures
        same_document(a, a),
    decreases a,
{
    match a {
        JsonModel::Array(xs) => {
            assert forall|i: int| 0 <= i < xs.len() implies same_document(#[trigger] xs[i], xs[i]) by {
                law_same_document_reflexive(xs[i]);
            }
        },
        JsonModel::Object(xe) => {
            assert forall|i: int| 0 <= i < xe.len() implies has_key(xe, #[trigger] xe[i].0) by {}
            assert forall|i: int, j: int|
                #![trigger xe[i].0, xe[j].0]
                0 <= i < xe.len() && is_last_entry(xe, i) && 0 <= j < xe.len() && is_last_entry(
                    xe,
                    j,
                ) && xe[i].0 == xe[j].0 implies same_document(xe[i].1, xe[j].1) by {
                if i < j {
                    assert(xe[j].0 != xe[i].0);
                } else if j < i {
                    assert(xe[i].0 != xe[j].0);
                }
                law_same_document_reflexive(xe[i].1);
            }
        },
        _ => {},
    }
}

/// A document has one canonical form.
pub proof fn law_canonical_form_unique(v: JsonModel, c1: JsonModel, c2: JsonModel)
    requires
        is_canonical_form(c1, v),
        is_canonical_form(c2, v),
    ensures
        c1 == c2,
{
    law_same_document_reflexive(v);
    law_same_document_same_canonical_form(v, v, c1, c2);
}

/// The canonical form of a document is the same document.
#[verifier::rlimit(30)]
pub proof fn law_canonical_form_same_document(c: JsonModel, v: JsonModel)
    requires
        is_canonical_form(c, v),
    ensures
        same_document(c, v),
    decreases v,
{
    match v {
        JsonModel::Array(xs) => {
            let cs = c->Array_0;
            assert forall|i: int| 0 <= i < cs.len() implies same_document(#[trigger] cs[i], xs[i]) by {
                assert(is_canonical_form(cs[i], xs[i]));
                law_canonical_form_same_document(cs[i], xs[i]);
            }
        },
        JsonModel::Object(ve) => {
            let ce = c->Object_0;
            lemma_ascending_distinct(ce);
            assert forall|j: int| 0 <= j < ve.len() implies has_key(ce, #[trigger] ve[j].0) by {
                let i = lemma_last_entry_of(ve, ve[j].0);
                let j2 = choose|j2: int|
                    0 <= j2 < ce.len() && #[trigger] ce[j2].0 == ve[i].0 && is_canonical_form(
                        ce[j2].1,
                        ve[i].1,
                    );
            }
            assert forall|i: int, j: int|
                #![trigger ce[i].0, ve[j].0]
                0 <= i < ce.len() && is_last_entry(ce, i) && 0 <= j < ve.len() && is_last_entry(
                    ve,
                    j,
                ) && ce[i].0 == ve[j].0 implies same_document(ce[i].1, ve[j].1) by {
                let j2 = choose|j2: int|
                    0 <= j2 < ce.len() && #[trigger] ce[j2].0 == ve[j].0 && is_canonical_form(
                        ce[j2].1,
                        ve[j].1,
                    );
                if j2 != i {
                    assert(ce[j2].0 != ce[i].0);
                }
                law_canonical_form_same_document(ce[i].1, ve[j].1);
            }
        },
        _ => {},
    }
}

/// A canonical form is its own canonical form.
#[verifier::rlimit(30)]
pub proof fn law_canonical_form_idempotent(c: JsonModel, v: JsonModel)
    requires
        is_canonical_form(c, v),
    ensures
        is_canonical_form(c, c),
    decreases v,
{
    match v {
        JsonModel::Array(xs) => {
            let cs = c->Array_0;
            assert forall|i: int| 0 <= i < cs.len() implies is_canonical_form(#[trigger] cs[i], cs[i]) by {
                assert(is_canonical_form(cs[i], xs[i]));
                law_canonical_form_idempotent(cs[i], xs[i]);
            }
        },
        JsonModel::Object(ve) => {
            let ce = c->Object_0;
            lemma_ascending_distinct(ce);
            assert forall|j: int| 0 <= j < ce.len() implies has_key(ce, #[trigger] ce[j].0) by {}
            assert forall|i: int|
                0 <= i < ce.len() && is_last_entry(ce, i) implies exists|j: int|
                0 <= j < ce.len() && #[trigger] ce[j].0 == ce[i].0 && is_canonical_form(
                    ce[j].1,
                    ce[i].1,
                ) by {
                assert(has_key(ve, ce[i].0));
                let k = lemma_last_entry_of(ve, ce[i].0);
                let j2 = choose|j2: int|
                    0 <= j2 < ce.len() && #[trigger] ce[j2].0 == ve[k].0 && is_canonical_form(
                        ce[j2].1,
                        ve[k].1,
                    );
                if j2 != i {
                    assert(ce[j2].0 != ce[i].0);
                }
                law_canonical_form_idempotent(ce[i].1, ve[k].1);
            }
        },
        _ => {},
    }
}

} // verus!
