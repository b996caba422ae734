//! SHA-256 and its textual form.
use crate::text::lower_digit;
use crate::text::lower_hex_char;
use sha2::{Digest, Sha256};
use vstd::prelude::*;

verus! {

/// The SHA-256 digest of a byte sequence.
pub uninterp spec fn sha256_of(data: Seq<u8>) -> Seq<u8>;

/// `sha2::Sha256`: a fresh hasher, updated with all of `data` and finalized. The
/// digest is a function of the data, and has 32 bytes.
#[verifier::external_body]
pub(crate) fn sha256(data: &[u8]) -> (r: Vec<u8>)
    ensures
        r@ == sha256_of(data@),
        r@.len() == 32,
{
    let mut hasher = Sha256::new();
    hasher.update(data);
    hasher.finalize().to_vec()
}

/// Two lower-case hexadecimal digits for each byte.
pub open spec fn hex_of(bytes: Seq<u8>) -> Seq<char>
    decreases bytes.len(),
{
    if bytes.len() == 0 {
        Seq::empty()
    } else {
        hex_of(bytes.drop_last()).push(lower_digit(bytes.last() as int / 16)).push(
            lower_digit(bytes.last() as int % 16),
        )
    }
}

/// Writes bytes as lower-case hexadecimal digits, two for each byte.
pub fn hex_text(bytes: &[u8]) -> (r: String)
    ensures
        r@ == hex_of(bytes@),
{
    let mut out: String = String::new();
    let mut i: usize = 0;
    assert(bytes@.take(0) =~= Seq::<u8>::empty());
    while i < bytes.len()
        invariant
            i <= bytes@.len(),
            out@ == hex_of(bytes@.take(i as int)),
        decreases bytes@.len() - i,
    {
        assert(bytes@.take(i + 1).drop_last() =~= bytes@.take(i as int));
        assert(bytes@.take(i + 1).last() == bytes@[i as int]);
        out.push(lower_hex_char(bytes[i] / 16));
        out.push(lower_hex_char(bytes[i] % 16));
        i += 1;
    }
    assert(bytes@.take(i as int) =~= bytes@);
    out
}

/// The SHA-256 digest of `data` in hexadecimal: 64 digits.
pub fn sha256_hex(data: &[u8]) -> (r: String)
    ensures
        r@ == hex_of(sha256_of(data@)),
        r@.len() == 64,
{
    let digest: Vec<u8> = sha256(data);
    proof {
        law_hex_length(digest@);
    }
    hex_text(digest.as_slice())
}

/// The hexadecimal text has two digits for each byte.
pub proof fn law_hex_length(bytes: Seq<u8>)
    ensures
        hex_of(bytes).len() == 2 * bytes.len(),
    decreases bytes.len(),
{
    if bytes.len() > 0 {
        law_hex_length(bytes.drop_last());
    }
}

/// Different bytes have different hexadecimal texts.
pub proof fn law_hex_injective(a: Seq<u8>, b: Seq<u8>)
    requires
        hex_of(a) == hex_of(b),
    ensures
        a == b,
    decreases a.len(),
{
    law_hex_length(a);
    law_hex_length(b);
    if a.len() == 0 {
        assert(a =~= b);
    } else {
        let ha = hex_of(a);
        let hb = hex_of(b);
        let n = ha.len() as int;
        assert(ha[n - 1] == hb[n - 1]);
        assert(ha[n - 2] == hb[n - 2]);
        assert(hex_of(a.drop_last()) =~= ha.take(n - 2));
        assert(hex_of(b.drop_last()) =~= hb.take(n - 2));
        law_hex_injective(a.drop_last(), b.drop_last());
        assert(a.last() == b.last());
        assert(a =~= a.drop_last().push(a.last()));
        assert(b =~= b.drop_last().push(b.last()));
    }
}

/// Byte `i` is written at positions `2 * i` and `2 * i + 1`, its higher half first, in
/// digits and lower-case letters.
pub proof fn law_each_byte_has_its_digits(bytes: Seq<u8>, i: int)
    requires
        0 <= i < bytes.len(),
    ensures
        hex_of(bytes).len() == 2 * bytes.len(),
        hex_of(bytes)[2 * i] == (if bytes[i] / 16 < 10 {
            ('0' as int + bytes[i] as int / 16) as char
        } else {
            ('a' as int + (bytes[i] as int / 16 - 10)) as char
        }),
        hex_of(bytes)[2 * i + 1] == (if bytes[i] % 16 < 10 {
            ('0' as int + bytes[i] as int % 16) as char
        } else {
            ('a' as int + (bytes[i] as int % 16 - 10)) as char
        }),
    decreases bytes.len(),
{
    law_hex_length(bytes);
    law_hex_length(bytes.drop_last());
    if i < bytes.len() - 1 {
        law_each_byte_has_its_digits(bytes.drop_last(), i);
        assert(bytes.drop_last()[i] == bytes[i]);
    }
}

} // verus!
