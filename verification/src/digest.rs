use vstd::prelude::*;
use sha2::Digest;
use crate::text::{digit, digit_char, digit_value, law_digit_reads_back, push_char};

verus! {

/// The SHA-256 digest of a byte sequence (as `sha2::Sha256` computes it).
pub uninterp spec fn sha256(data: Seq<u8>) -> Seq<u8>;

/// `sha2::Sha256::digest`: the 32-byte SHA-256 digest of `data`.
#[verifier::external_body]
fn sha256_digest(data: &[u8]) -> (res: Vec<u8>)
    ensures
        res@ == sha256(data@),
        res@.len() == 32,
{
    sha2::Sha256::digest(data).to_vec()
}

/// Lower-case hexadecimal: two digits per byte, high half first.
pub open spec fn lower_hex(bytes: Seq<u8>) -> Seq<char>
    decreases bytes.len(),
{
    if bytes.len() == 0 {
        Seq::empty()
    } else {
        lower_hex(bytes.drop_last()) + seq![
            digit_char((bytes.last() / 16) as int),
            digit_char((bytes.last() % 16) as int),
        ]
    }
}

/// Lower-case hex reads back as the bytes it was written for: each byte
/// becomes two digits of `0`-`9a-f`, high half first, in the bytes' order.
pub proof fn law_lower_hex_reads_back(bytes: Seq<u8>, i: int)
    requires
        0 <= i < bytes.len(),
    ensures
        lower_hex(bytes).len() == 2 * bytes.len(),
        0 <= digit_value(lower_hex(bytes)[2 * i]) < 16,
        0 <= digit_value(lower_hex(bytes)[2 * i + 1]) < 16,
        16 * digit_value(lower_hex(bytes)[2 * i]) + digit_value(lower_hex(bytes)[2 * i + 1])
            == bytes[i],
    decreases bytes.len(),
{
    lemma_lower_hex_len(bytes);
    lemma_lower_hex_len(bytes.drop_last());
    let last = bytes.last();
    law_digit_reads_back((last / 16) as int);
    law_digit_reads_back((last % 16) as int);
    if i < bytes.len() - 1 {
        law_lower_hex_reads_back(bytes.drop_last(), i);
        assert(lower_hex(bytes)[2 * i] == lower_hex(bytes.drop_last())[2 * i]);
        assert(lower_hex(bytes)[2 * i + 1] == lower_hex(bytes.drop_last())[2 * i + 1]);
    } else {
        assert(lower_hex(bytes)[2 * i] == digit_char((last / 16) as int));
        assert(lower_hex(bytes)[2 * i + 1] == digit_char((last % 16) as int));
    }
}

pub proof fn lemma_lower_hex_len(bytes: Seq<u8>)
    ensures
        lower_hex(bytes).len() == 2 * bytes.len(),
    decreases bytes.len(),
{
    if bytes.len() > 0 {
        lemma_lower_hex_len(bytes.drop_last());
    }
}

/// The lower-case hexadecimal text of a byte string.
pub fn to_lower_hex(bytes: &[u8]) -> (res: String)
    ensures
        res@ == lower_hex(bytes@),
{
    let mut out = String::new();
    let mut i: usize = 0;
    assert(bytes@.take(0) =~= Seq::<u8>::empty());
    while i < bytes.len()
        invariant
            i <= bytes@.len(),
            out@ == lower_hex(bytes@.take(i as int)),
        decreases bytes@.len() - i,
    {
        let b = bytes[i];
        push_char(&mut out, digit((b / 16) as u64));
        push_char(&mut out, digit((b % 16) as u64));
        assert(bytes@.take(i + 1).drop_last() =~= bytes@.take(i as int));
        assert(out@ =~= lower_hex(bytes@.take(i + 1)));
        i = i + 1;
    }
    assert(bytes@.take(i as int) =~= bytes@);
    out
}

/// The SHA-256 digest of `data` in lower-case hexadecimal (64 characters).
pub fn sha256_hex(data: &[u8]) -> (res: String)
    ensures
        res@ == lower_hex(sha256(data@)),
        res@.len() == 64,
{
    let d = sha256_digest(data);
    proof {
        lemma_lower_hex_len(d@);
    }
    to_lower_hex(d.as_slice())
}

} // verus!
