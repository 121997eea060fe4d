//! SCALE encoding of the values that the runtime hashes and stores, through `parity_scale_codec`.
use vstd::prelude::*;
use parity_scale_codec::{Decode, Encode};

verus! {

/// The little-endian bytes of a `u64`, as SCALE encodes it.
pub open spec fn u64_le(x: u64) -> Seq<u8> {
    seq![
        x as u8,
        (x >> 8u64) as u8,
        (x >> 16u64) as u8,
        (x >> 24u64) as u8,
        (x >> 32u64) as u8,
        (x >> 40u64) as u8,
        (x >> 48u64) as u8,
        (x >> 56u64) as u8,
    ]
}

/// The little-endian bytes of a `u32`, as SCALE encodes it.
pub open spec fn u32_le(x: u32) -> Seq<u8> {
    seq![x as u8, (x >> 8u32) as u8, (x >> 16u32) as u8, (x >> 24u32) as u8]
}

/// SCALE encoding of an `Option<u64>`: a tag byte, then the value if there is one.
pub open spec fn option_u64_bytes(v: Option<u64>) -> Seq<u8> {
    match v {
        None => seq![0u8],
        Some(x) => seq![1u8] + u64_le(x),
    }
}

/// SCALE encoding of an `Option<u32>`: a tag byte, then the value if there is one.
pub open spec fn option_u32_bytes(v: Option<u32>) -> Seq<u8> {
    match v {
        None => seq![0u8],
        Some(x) => seq![1u8] + u32_le(x),
    }
}

/// The codec's own error, carried through unchanged.
#[verifier::external_type_specification]
#[verifier::external_body]
pub struct ExCodecError(parity_scale_codec::Error);

/// Calls `Encode::encode` on a `u64`; the codec writes its eight little-endian bytes.
#[verifier::external_body]
pub(crate) fn encode_u64(x: u64) -> (bytes: Vec<u8>)
    ensures
        bytes@ == u64_le(x),
{
    x.encode()
}

/// Calls `Encode::encode` on an `Option<u32>`; the codec writes the tag byte (0 or 1) and, for
/// `Some`, the four little-endian bytes of the value.
#[verifier::external_body]
pub(crate) fn encode_option_u32(v: Option<u32>) -> (bytes: Vec<u8>)
    ensures
        bytes@ == option_u32_bytes(v),
{
    v.encode()
}

/// Calls `Encode::encode` on a `[u8; 32]`; the codec writes the bytes as they are, with no
/// length prefix.
#[verifier::external_body]
pub(crate) fn encode_bytes32(h: &[u8; 32]) -> (bytes: Vec<u8>)
    ensures
        bytes@ == h@,
{
    h.encode()
}

/// Calls `Encode::encode_to` on an `Option<u64>` with a `Vec<u8>` as output; the codec appends
/// the tag byte and, for `Some`, the eight little-endian bytes of the value.
#[verifier::external_body]
pub(crate) fn encode_option_u64_to(v: &Option<u64>, dest: &mut Vec<u8>)
    ensures
        final(dest)@ == old(dest)@ + option_u64_bytes(*v),
{
    v.encode_to(dest)
}

/// Calls `Decode::decode` for an `Option<u64>` on a byte slice. The codec reads a tag byte:
/// 0 gives `None`, 1 followed by eight bytes gives `Some` of their little-endian value, anything
/// else fails. On success the slice left over is handed back; so the input is the encoding of
/// the value followed by the rest, and it fails exactly when no encoding starts the input.
#[verifier::external_body]
pub(crate) fn decode_option_u64(input: &[u8]) -> (res: Result<(Option<u64>, &[u8]), parity_scale_codec::Error>)
    ensures
        match res {
            Ok((v, rest)) => input@ == option_u64_bytes(v) + rest@,
            Err(_) => forall|v: Option<u64>, rest: Seq<u8>| input@ != option_u64_bytes(v) + rest,
        },
{
    let mut rest = input;
    let v = Option::<u64>::decode(&mut rest)?;
    Ok((v, rest))
}

/// SCALE encoding of the tuple (random seed, account, number).
pub open spec fn seed_account_number_bytes(seed: [u8; 32], account: u64, number: u64) -> Seq<u8> {
    seed@ + u64_le(account) + u64_le(number)
}

/// Encodes the tuple (random seed, account, number) as SCALE does: the fields one after another.
pub fn encode_seed_account_number(seed: &[u8; 32], account: u64, number: u64) -> (bytes: Vec<u8>)
    ensures
        bytes@ == seed_account_number_bytes(*seed, account, number),
{
    let mut bytes = encode_bytes32(seed);
    let mut a = encode_u64(account);
    bytes.append(&mut a);
    let mut n = encode_u64(number);
    bytes.append(&mut n);
    assert(bytes@ =~= seed_account_number_bytes(*seed, account, number));
    bytes
}

/// The number whose little-endian bytes are `s`.
pub open spec fn le_value(s: Seq<u8>) -> nat
    decreases s.len(),
{
    if s.len() == 0 {
        0
    } else {
        s[0] as nat + 256 * le_value(s.drop_first())
    }
}

/// 256 to the power `n`.
pub open spec fn pow256(n: nat) -> nat
    decreases n,
{
    if n == 0 {
        1
    } else {
        256 * pow256((n - 1) as nat)
    }
}

proof fn lemma_le_value_bound(s: Seq<u8>)
    ensures
        le_value(s) < pow256(s.len()),
    decreases s.len(),
{
    if s.len() > 0 {
        lemma_le_value_bound(s.drop_first());
    }
}

proof fn lemma_pow256_mono(a: nat, b: nat)
    requires
        a <= b,
    ensures
        pow256(a) <= pow256(b),
    decreases b,
{
    if a < b {
        lemma_pow256_mono(a, (b - 1) as nat);
    }
}

/// The `u128` whose little-endian bytes are `bytes`.
pub fn u128_from_le(bytes: &[u8; 16]) -> (v: u128)
    ensures
        v as nat == le_value(bytes@),
{
    proof {
        reveal_with_fuel(pow256, 17);
        assert(pow256(16) == 0x1_0000_0000_0000_0000_0000_0000_0000_0000nat);
    }
    let mut acc: u128 = 0;
    let mut i: usize = 16;
    assert(bytes@.subrange(16, 16) =~= Seq::<u8>::empty());
    while i > 0
        invariant
            i <= 16,
            bytes@.len() == 16,
            pow256(16) == 0x1_0000_0000_0000_0000_0000_0000_0000_0000nat,
            acc as nat == le_value(bytes@.subrange(i as int, 16)),
        decreases i,
    {
        let ghost tail = bytes@.subrange(i as int, 16);
        proof {
            lemma_le_value_bound(tail);
            lemma_pow256_mono(tail.len() + 1, 16);
            assert(pow256(tail.len() + 1) == 256 * pow256(tail.len()));
        }
        i = i - 1;
        let b = bytes[i];
        acc = acc * 256 + b as u128;
        proof {
            let cur = bytes@.subrange(i as int, 16);
            assert(cur.drop_first() =~= tail);
            assert(cur[0] == b);
        }
    }
    assert(bytes@.subrange(0, 16) =~= bytes@);
    acc
}

/// Two `u64`s with the same little-endian bytes are equal.
pub proof fn lemma_u64_le_injective(x: u64, y: u64)
    requires
        u64_le(x) == u64_le(y),
    ensures
        x == y,
{
    assert(u64_le(x)[0] == u64_le(y)[0]);
    assert(u64_le(x)[1] == u64_le(y)[1]);
    assert(u64_le(x)[2] == u64_le(y)[2]);
    assert(u64_le(x)[3] == u64_le(y)[3]);
    assert(u64_le(x)[4] == u64_le(y)[4]);
    assert(u64_le(x)[5] == u64_le(y)[5]);
    assert(u64_le(x)[6] == u64_le(y)[6]);
    assert(u64_le(x)[7] == u64_le(y)[7]);
    assert(x == y) by (bit_vector)
        requires
            x as u8 == y as u8,
            (x >> 8u64) as u8 == (y >> 8u64) as u8,
            (x >> 16u64) as u8 == (y >> 16u64) as u8,
            (x >> 24u64) as u8 == (y >> 24u64) as u8,
            (x >> 32u64) as u8 == (y >> 32u64) as u8,
            (x >> 40u64) as u8 == (y >> 40u64) as u8,
            (x >> 48u64) as u8 == (y >> 48u64) as u8,
            (x >> 56u64) as u8 == (y >> 56u64) as u8,
    ;
}

/// If the encodings of `a` and `b` both start the same bytes, `a` and `b` are equal and what
/// follows each encoding is the same.
pub proof fn lemma_option_u64_prefix_unique(a: Option<u64>, ra: Seq<u8>, b: Option<u64>, rb: Seq<u8>)
    requires
        option_u64_bytes(a) + ra == option_u64_bytes(b) + rb,
    ensures
        a == b,
        ra == rb,
{
    let sa = option_u64_bytes(a) + ra;
    let sb = option_u64_bytes(b) + rb;
    assert(sa[0] == sb[0]);
    match (a, b) {
        (Some(x), Some(y)) => {
            assert forall|i: int| 0 <= i < 8 implies u64_le(x)[i] == u64_le(y)[i] by {
                assert(sa[i + 1] == sb[i + 1]);
            }
            assert(u64_le(x) =~= u64_le(y));
            lemma_u64_le_injective(x, y);
            assert(ra =~= sa.subrange(9, sa.len() as int));
            assert(rb =~= sb.subrange(9, sb.len() as int));
        },
        (None, None) => {
            assert(ra =~= sa.subrange(1, sa.len() as int));
            assert(rb =~= sb.subrange(1, sb.len() as int));
        },
        _ => {},
    }
}

} // verus!
