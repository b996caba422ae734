use vstd::prelude::*;
use vstd::utf8::encode_utf8;

verus! {

/// One round of 32-bit FNV-1a: the byte is xored in, then the state is multiplied
/// by the FNV prime modulo 2^32.
pub open spec fn fnv1a_round(state: u32, byte: u8) -> u32 {
    (((state ^ (byte as u32)) as int * 0x01000193) % 0x1_0000_0000) as u32
}

/// 32-bit FNV-1a of a byte sequence, started from `state`.
pub open spec fn fnv1a_from(state: u32, bytes: Seq<u8>) -> u32
    decreases bytes.len(),
{
    if bytes.len() == 0 {
        state
    } else {
        fnv1a_round(fnv1a_from(state, bytes.drop_last()), bytes.last())
    }
}

/// 32-bit FNV-1a of a byte sequence.
pub open spec fn fnv1a(bytes: Seq<u8>) -> u32 {
    fnv1a_from(0x811c9dc5, bytes)
}

/// 32-bit FNV-1a of the UTF-8 bytes of `s`.
pub fn fnv1a_hash(s: &str) -> (hash: u32)
    ensures
        hash == fnv1a(encode_utf8(s@)),
{
    let bytes: &[u8] = s.as_bytes();
    let mut hash: u32 = 0x811c9dc5;
    let mut i: usize = 0;
    assert(bytes@.take(0) =~= Seq::<u8>::empty());
    while i < bytes.len()
        invariant
            i <= bytes@.len(),
            hash == fnv1a(bytes@.take(i as int)),
        decreases bytes@.len() - i,
    {
        proof {
            assert(bytes@.take(i + 1).drop_last() =~= bytes@.take(i as int));
            assert(bytes@.take(i + 1).last() == bytes@[i as int]);
        }
        hash = (hash ^ (bytes[i] as u32)).wrapping_mul(0x01000193);
        i += 1;
    }
    assert(bytes@.take(i as int) =~= bytes@);
    hash
}

/// Hashing is incremental: the hash of a concatenation is the hash of the second
/// part started from the hash of the first.
pub proof fn law_fnv1a_concat(state: u32, a: Seq<u8>, b: Seq<u8>)
    ensures
        fnv1a_from(state, a + b) == fnv1a_from(fnv1a_from(state, a), b),
    decreases b.len(),
{
    if b.len() == 0 {
        assert(a + b =~= a);
    } else {
        assert((a + b).drop_last() =~= a + b.drop_last());
        assert((a + b).last() == b.last());
        law_fnv1a_concat(state, a, b.drop_last());
    }
}

/// The hash starts from the offset basis; each further byte is combined with all bits of
/// the hash so far by exclusive or, and the result multiplied by the prime modulo 2^32.
pub proof fn law_each_byte_is_mixed_in(bytes: Seq<u8>, byte: u8)
    ensures
        fnv1a(Seq::empty()) == 2166136261u32,
        fnv1a(bytes.push(byte)) as int == ((fnv1a(bytes) ^ (byte as u32)) as int * 16777619)
            % 4294967296,
{
    assert(bytes.push(byte).drop_last() =~= bytes);
}

} // verus!
