use vstd::prelude::*;
use crate::json::{
    entry_models, group_json_models, lemma_entry_models, lemma_models_of, models_of, JsonModel,
    JsonNumber, JsonValue, NumberModel,
};

verus! {

broadcast use group_json_models;

/// How serde_json writes one character inside a JSON string: `"` and `\`
/// after a backslash, backspace, form feed, line feed, carriage return and
/// tab as `\b`, `\f`, `\n`, `\r`, `\t`, the other control characters
/// below U+0020 as `\u00` and two lower-case hex digits, every other
/// character as it is.
pub open spec fn escaped_char(c: char) -> Seq<char> {
    let u = c as u32;
    if c == '"' {
        seq!['\\', '"']
    } else if c == '\\' {
        seq!['\\', '\\']
    } else if u == 0x08 {
        seq!['\\', 'b']
    } else if u == 0x0c {
        seq!['\\', 'f']
    } else if u == 0x0a {
        seq!['\\', 'n']
    } else if u == 0x0d {
        seq!['\\', 'r']
    } else if u == 0x09 {
        seq!['\\', 't']
    } else if u < 0x20 {
        seq!['\\', 'u', '0', '0', digit_char((u / 16) as int), digit_char((u % 16) as int)]
    } else {
        seq![c]
    }
}

/// The characters of a text, each escaped.
pub open spec fn escaped_text(text: Seq<char>) -> Seq<char>
    decreases text.len(),
{
    if text.len() == 0 {
        Seq::empty()
    } else {
        escaped_text(text.drop_last()) + escaped_char(text.last())
    }
}

/// What `serde_json::to_string` makes of a string slice: the escaped text
/// between double quotes.
pub open spec fn json_quoted(text: Seq<char>) -> Seq<char> {
    seq!['"'] + escaped_text(text) + seq!['"']
}

/// The digit characters `0`-`9` then `a`-`f`.
pub open spec fn digit_char(d: int) -> char {
    if d == 0 { '0' }
    else if d == 1 { '1' }
    else if d == 2 { '2' }
    else if d == 3 { '3' }
    else if d == 4 { '4' }
    else if d == 5 { '5' }
    else if d == 6 { '6' }
    else if d == 7 { '7' }
    else if d == 8 { '8' }
    else if d == 9 { '9' }
    else if d == 10 { 'a' }
    else if d == 11 { 'b' }
    else if d == 12 { 'c' }
    else if d == 13 { 'd' }
    else if d == 14 { 'e' }
    else { 'f' }
}

/// The decimal digits of a natural number, without leading zeros.
pub open spec fn decimal_text(n: nat) -> Seq<char>
    decreases n,
{
    if n < 10 {
        seq![digit_char(n as int)]
    } else {
        decimal_text(n / 10).push(digit_char((n % 10) as int))
    }
}

/// The number a digit character stands for: `0`-`9` and `a`-`f` (as in
/// hexadecimal); -1 for any other character.
pub open spec fn digit_value(c: char) -> int {
    let u = c as u32;
    if 0x30 <= u <= 0x39 {
        u - 0x30
    } else if 0x61 <= u <= 0x66 {
        u - 0x61 + 10
    } else {
        -1
    }
}

/// The number that a text of decimal digits denotes.
pub open spec fn decimal_value(digits: Seq<char>) -> int
    decreases digits.len(),
{
    if digits.len() == 0 {
        0
    } else {
        decimal_value(digits.drop_last()) * 10 + digit_value(digits.last())
    }
}

/// Each digit character reads back as the digit it was written for.
pub proof fn law_digit_reads_back(d: int)
    requires
        0 <= d < 16,
    ensures
        digit_value(digit_char(d)) == d,
{
}

/// The decimal text of a number reads back as that number: it is made of
/// the digits `0`-`9` only, has no leading zero (but for zero itself), and
/// denotes `n`.
pub proof fn law_decimal_text_reads_back(n: nat)
    ensures
        decimal_value(decimal_text(n)) == n,
        decimal_text(n).len() > 0,
        forall|i: int| 0 <= i < decimal_text(n).len() ==> 0 <= #[trigger] digit_value(decimal_text(n)[i]) < 10,
        n > 0 ==> decimal_text(n)[0] != '0',
    decreases n,
{
    law_digit_reads_back((n % 10) as int);
    if n >= 10 {
        law_decimal_text_reads_back(n / 10);
        let t = decimal_text(n);
        assert(t.drop_last() =~= decimal_text(n / 10));
        assert(t.last() == digit_char((n % 10) as int));
        assert(decimal_value(t) == decimal_value(t.drop_last()) * 10 + digit_value(t.last()));
        assert((n / 10) * 10 + n % 10 == n);
        assert(t[0] == decimal_text(n / 10)[0]);
        assert forall|i: int| 0 <= i < t.len() implies 0 <= #[trigger] digit_value(t[i]) < 10 by {
            if i < t.len() - 1 {
                assert(t[i] == decimal_text(n / 10)[i]);
            }
        }
    } else {
        let t = decimal_text(n);
        assert(t.drop_last() =~= Seq::<char>::empty());
        assert(decimal_value(t) == decimal_value(t.drop_last()) * 10 + digit_value(t.last()));
    }
}

/// The decimal text of an integer: a minus sign before a negative one.
pub open spec fn integer_text(i: int) -> Seq<char> {
    if i < 0 {
        seq!['-'] + decimal_text((-i) as nat)
    } else {
        decimal_text(i as nat)
    }
}

pub open spec fn number_text(n: NumberModel) -> Seq<char> {
    match n {
        NumberModel::Int(i) => integer_text(i),
        NumberModel::Float(t) => t,
    }
}

/// The compact JSON text of a document: no whitespace, elements and members
/// separated by commas, each member as its quoted key, a colon and its value.
pub open spec fn json_text(v: JsonModel) -> Seq<char>
    decreases v,
{
    match v {
        JsonModel::Null => seq!['n', 'u', 'l', 'l'],
        JsonModel::Bool(b) => if b {
            seq!['t', 'r', 'u', 'e']
        } else {
            seq!['f', 'a', 'l', 's', 'e']
        },
        JsonModel::Number(n) => number_text(n),
        JsonModel::Str(s) => json_quoted(s),
        JsonModel::Array(items) => seq!['['] + items_text(items) + seq![']'],
        JsonModel::Object(entries) => seq!['{'] + members_text(entries) + seq!['}'],
    }
}

/// The texts of array elements, separated by commas.
pub open spec fn items_text(items: Seq<JsonModel>) -> Seq<char>
    decreases items,
{
    if items.len() == 0 {
        Seq::empty()
    } else if items.len() == 1 {
        json_text(items[0])
    } else {
        items_text(items.drop_last()) + seq![','] + json_text(items.last())
    }
}

/// The texts of object members, separated by commas.
pub open spec fn members_text(entries: Seq<(Seq<char>, JsonModel)>) -> Seq<char>
    decreases entries,
{
    if entries.len() == 0 {
        Seq::empty()
    } else if entries.len() == 1 {
        json_quoted(entries[0].0) + seq![':'] + json_text(entries[0].1)
    } else {
        members_text(entries.drop_last()) + seq![','] + json_quoted(entries.last().0) + seq![':']
            + json_text(entries.last().1)
    }
}

/// Splitting a list of elements anywhere splits its text at a comma: the
/// text of `a + b` is the text of `a`, a comma, and the text of `b`.
pub proof fn law_items_text_concat(a: Seq<JsonModel>, b: Seq<JsonModel>)
    requires
        a.len() > 0,
        b.len() > 0,
    ensures
        items_text(a + b) == items_text(a) + seq![','] + items_text(b),
    decreases b.len(),
{
    if b.len() == 1 {
        assert((a + b).drop_last() =~= a);
        assert((a + b).last() == b[0]);
    } else {
        assert((a + b).drop_last() =~= a + b.drop_last());
        assert((a + b).last() == b.last());
        law_items_text_concat(a, b.drop_last());
        assert(items_text(a + b) =~= items_text(a) + seq![','] + items_text(b));
    }
}

/// An array's text is its elements' texts joined by commas, in brackets:
/// one element gives its own text, and every element's text appears whole
/// between those of its neighbours.
pub proof fn law_array_text_holds_every_element(items: Seq<JsonModel>, i: int)
    requires
        0 <= i < items.len(),
    ensures
        items_text(seq![items[i]]) == json_text(items[i]),
        json_text(JsonModel::Array(items)) == seq!['['] + (if i > 0 {
            items_text(items.take(i)) + seq![',']
        } else {
            Seq::empty()
        }) + json_text(items[i]) + (if i + 1 < items.len() {
            seq![','] + items_text(items.skip(i + 1))
        } else {
            Seq::empty()
        }) + seq![']'],
{
    let one = seq![items[i]];
    assert(items_text(one) == json_text(items[i]));
    let head = items.take(i);
    let tail = items.skip(i + 1);
    let mid = if i > 0 {
        law_items_text_concat(head, one);
        assert(head + one =~= items.take(i + 1));
        items_text(head) + seq![','] + json_text(items[i])
    } else {
        assert(one =~= items.take(i + 1));
        json_text(items[i])
    };
    assert(items_text(items.take(i + 1)) == mid);
    if i + 1 < items.len() {
        law_items_text_concat(items.take(i + 1), tail);
        assert(items.take(i + 1) + tail =~= items);
        assert(items_text(items) =~= mid + seq![','] + items_text(tail));
    } else {
        assert(items.take(i + 1) =~= items);
    }
    assert(json_text(JsonModel::Array(items)) =~= seq!['['] + (if i > 0 {
        items_text(items.take(i)) + seq![',']
    } else {
        Seq::empty()
    }) + json_text(items[i]) + (if i + 1 < items.len() {
        seq![','] + items_text(items.skip(i + 1))
    } else {
        Seq::empty()
    }) + seq![']']);
}

/// Splitting a list of object members anywhere splits its text at a comma.
pub proof fn law_members_text_concat(a: Seq<(Seq<char>, JsonModel)>, b: Seq<(Seq<char>, JsonModel)>)
    requires
        a.len() > 0,
        b.len() > 0,
    ensures
        members_text(a + b) == members_text(a) + seq![','] + members_text(b),
    decreases b.len(),
{
    if b.len() == 1 {
        assert((a + b).drop_last() =~= a);
        assert((a + b).last() == b[0]);
        assert(members_text(a + b) =~= members_text(a) + seq![','] + members_text(b));
    } else {
        assert((a + b).drop_last() =~= a + b.drop_last());
        assert((a + b).last() == b.last());
        law_members_text_concat(a, b.drop_last());
        assert(members_text(a + b) =~= members_text(a) + seq![','] + members_text(b));
    }
}

/// A one-member object's text is its quoted key, a colon and its value's text.
pub proof fn law_single_member_text(key: Seq<char>, value: JsonModel)
    ensures
        json_text(JsonModel::Object(seq![(key, value)])) == seq!['{'] + json_quoted(key) + seq![':']
            + json_text(value) + seq!['}'],
{
    assert(json_text(JsonModel::Object(seq![(key, value)])) =~= seq!['{'] + json_quoted(key) + seq![':']
        + json_text(value) + seq!['}']);
}

/// Escaping works character by character: the escaped text of `a + b` is
/// the escaped text of `a` followed by that of `b`, so no character is lost.
pub proof fn law_escaped_text_concat(a: Seq<char>, b: Seq<char>)
    ensures
        escaped_text(a + b) == escaped_text(a) + escaped_text(b),
    decreases b.len(),
{
    if b.len() == 0 {
        assert(a + b =~= a);
        assert(escaped_text(a) + escaped_text(b) =~= escaped_text(a));
    } else {
        assert((a + b).drop_last() =~= a + b.drop_last());
        assert((a + b).last() == b.last());
        law_escaped_text_concat(a, b.drop_last());
        assert(escaped_text(a + b) =~= escaped_text(a) + escaped_text(b));
    }
}

/// `String::push` (std): appends one character.
#[verifier::external_body]
pub(crate) fn push_char(out: &mut String, c: char)
    ensures
        final(out)@ == old(out)@.push(c),
{
    out.push(c);
}

/// `String::push_str` (std): appends a string slice.
#[verifier::external_body]
pub(crate) fn push_text(out: &mut String, text: &str)
    ensures
        final(out)@ == old(out)@ + text@,
{
    out.push_str(text);
}

/// `serde_json::to_string` on a string slice.  The contract names its result;
/// it succeeds, as serializing a `str` only writes into a `Vec<u8>`.
#[verifier::external_body]
fn quote_json_string(text: &str) -> (res: Result<String, String>)
    ensures
        res is Ok,
        res matches Ok(q) ==> q@ == json_quoted(text@),
{
    serde_json::to_string(text).map_err(|error| error.to_string())
}

/// The character of a digit below sixteen.
pub fn digit(d: u64) -> (c: char)
    requires
        d < 16,
    ensures
        c == digit_char(d as int),
{
    if d == 0 { '0' }
    else if d == 1 { '1' }
    else if d == 2 { '2' }
    else if d == 3 { '3' }
    else if d == 4 { '4' }
    else if d == 5 { '5' }
    else if d == 6 { '6' }
    else if d == 7 { '7' }
    else if d == 8 { '8' }
    else if d == 9 { '9' }
    else if d == 10 { 'a' }
    else if d == 11 { 'b' }
    else if d == 12 { 'c' }
    else if d == 13 { 'd' }
    else if d == 14 { 'e' }
    else { 'f' }
}

/// Appends the decimal digits of `n`.
pub fn push_decimal(out: &mut String, n: u64)
    ensures
        final(out)@ == old(out)@ + decimal_text(n as nat),
    decreases n,
{
    if n >= 10 {
        push_decimal(out, n / 10);
    }
    push_char(out, digit(n % 10));
    assert(final(out)@ =~= old(out)@ + decimal_text(n as nat)) by {
        if n >= 10 {
            assert(decimal_text(n as nat) == decimal_text((n / 10) as nat).push(
                digit_char((n % 10) as int),
            ));
        }
    }
}

/// Appends the decimal text of an `i64`.
pub fn push_integer(out: &mut String, n: i64)
    ensures
        final(out)@ == old(out)@ + integer_text(n as int),
{
    if n < 0 {
        push_char(out, '-');
        let magnitude: u64 = if n == i64::MIN {
            9223372036854775808u64
        } else {
            (-n) as u64
        };
        push_decimal(out, magnitude);
        assert(final(out)@ =~= old(out)@ + integer_text(n as int));
    } else {
        push_decimal(out, n as u64);
    }
}

fn push_number(out: &mut String, n: &JsonNumber)
    ensures
        final(out)@ == old(out)@ + number_text(n.model()),
{
    match n {
        JsonNumber::PosInt(v) => {
            push_decimal(out, *v);
        },
        JsonNumber::NegInt(v) => {
            push_integer(out, *v);
        },
        JsonNumber::Float(t) => {
            push_text(out, t.as_str());
        },
    }
}

/// Appends the compact JSON text of a document.
pub fn write_json(value: &JsonValue, out: &mut String) -> (res: Result<(), String>)
    ensures
        res is Ok,
        final(out)@ == old(out)@ + json_text(value.model()),
    decreases value,
{
    match value {
        JsonValue::Null => {
            push_text(out, "null");
            proof {
                reveal_strlit("null");
            }
            assert(final(out)@ =~= old(out)@ + json_text(value.model()));
            Ok(())
        },
        JsonValue::Bool(b) => {
            if *b {
                push_text(out, "true");
                proof {
                    reveal_strlit("true");
                }
            } else {
                push_text(out, "false");
                proof {
                    reveal_strlit("false");
                }
            }
            assert(final(out)@ =~= old(out)@ + json_text(value.model()));
            Ok(())
        },
        JsonValue::Number(n) => {
            push_number(out, n);
            Ok(())
        },
        JsonValue::String(s) => {
            let q = quote_json_string(s.as_str())?;
            push_text(out, q.as_str());
            Ok(())
        },
        JsonValue::Array(items) => {
            push_char(out, '[');
            assert(decreases_to!(value => items));
            write_items(items, out)?;
            push_char(out, ']');
            assert(final(out)@ =~= old(out)@ + json_text(value.model()));
            Ok(())
        },
        JsonValue::Object(entries) => {
            push_char(out, '{');
            assert(decreases_to!(value => entries));
            write_members(entries, out)?;
            push_char(out, '}');
            assert(final(out)@ =~= old(out)@ + json_text(value.model()));
            Ok(())
        },
    }
}

fn write_items(items: &Vec<JsonValue>, out: &mut String) -> (res: Result<(), String>)
    ensures
        res is Ok,
        final(out)@ == old(out)@ + items_text(models_of(items@)),
    decreases items,
{
    let ghost start = out@;
    let ghost ms = models_of(items@);
    proof {
        lemma_models_of(items@);
    }
    let mut i: usize = 0;
    assert(ms.take(0) =~= Seq::<JsonModel>::empty());
    while i < items.len()
        invariant
            i <= items@.len(),
            ms == models_of(items@),
            ms.len() == items@.len(),
            forall|k: int| 0 <= k < items@.len() ==> ms[k] == #[trigger] items@[k].model(),
            out@ == start + items_text(ms.take(i as int)),
        decreases items@.len() - i,
    {
        if i > 0 {
            push_char(out, ',');
        }
        assert(decreases_to!(items => items@[i as int]));
        write_json(&items[i], out)?;
        proof {
            assert(ms[i as int] == items@[i as int].model());
            assert(ms.take(i + 1).drop_last() =~= ms.take(i as int));
            assert(ms.take(i + 1).last() == ms[i as int]);
            if i == 0 {
                assert(ms.take(1).len() == 1);
            }
            assert(out@ =~= start + items_text(ms.take(i + 1)));
        }
        i = i + 1;
    }
    assert(ms.take(i as int) =~= ms);
    Ok(())
}

fn write_members(entries: &Vec<(String, JsonValue)>, out: &mut String) -> (res: Result<(), String>)
    ensures
        res is Ok,
        final(out)@ == old(out)@ + members_text(entry_models(entries@)),
    decreases entries,
{
    let ghost start = out@;
    let ghost es = entry_models(entries@);
    proof {
        lemma_entry_models(entries@);
    }
    let mut i: usize = 0;
    assert(es.take(0) =~= Seq::<(Seq<char>, JsonModel)>::empty());
    while i < entries.len()
        invariant
            i <= entries@.len(),
            es == entry_models(entries@),
            es.len() == entries@.len(),
            forall|k: int|
                0 <= k < entries@.len() ==> es[k] == (
                    #[trigger] entries@[k].0@,
                    entries@[k].1.model(),
                ),
            out@ == start + members_text(es.take(i as int)),
        decreases entries@.len() - i,
    {
        if i > 0 {
            push_char(out, ',');
        }
        let entry = &entries[i];
        let q = quote_json_string(entry.0.as_str())?;
        push_text(out, q.as_str());
        push_char(out, ':');
        assert(decreases_to!(entries => entries@[i as int].1));
        write_json(&entry.1, out)?;
        proof {
            assert(es[i as int] == (entries@[i as int].0@, entries@[i as int].1.model()));
            assert(es.take(i + 1).drop_last() =~= es.take(i as int));
            assert(es.take(i + 1).last() == es[i as int]);
            if i == 0 {
                assert(es.take(1).len() == 1);
            }
            assert(out@ =~= start + members_text(es.take(i + 1)));
        }
        i = i + 1;
    }
    assert(es.take(i as int) =~= es);
    Ok(())
}

/// The compact JSON text of a document, in the order its entries come.
pub fn to_json_string(value: &JsonValue) -> (res: Result<String, String>)
    ensures
        res matches Ok(t) && t@ == json_text(value.model()),
{
    let mut out = String::new();
    write_json(value, &mut out)?;
    assert(out@ =~= json_text(value.model()));
    Ok(out)
}

} // verus!
