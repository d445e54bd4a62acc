//! Canonical byte encodings of the scalar field types.
//!
//! The bytes themselves are produced and read by the `borsh` crate. This
//! module says, as specifications over byte sequences, what each of those
//! calls yields, and proves the facts about the encodings that the record
//! grammar is built on.

use vstd::prelude::*;
use vstd::utf8::*;

verus! {

/// The `width` low-order base-256 digits of `x`, least significant first.
pub open spec fn le_bytes(x: nat, width: nat) -> Seq<u8>
    decreases width,
{
    if width == 0 {
        Seq::empty()
    } else {
        seq![(x % 256) as u8] + le_bytes(x / 256, (width - 1) as nat)
    }
}

/// The number of values that `width` bytes can tell apart: 256 to the `width`.
pub open spec fn radix(width: nat) -> nat
    decreases width,
{
    if width == 0 {
        1
    } else {
        256 * radix((width - 1) as nat)
    }
}

/// Encoding of a 32-bit unsigned integer: four bytes, little-endian.
pub open spec fn u32_le(x: u32) -> Seq<u8> {
    le_bytes(x as nat, 4)
}

/// Encoding of a 64-bit unsigned integer: eight bytes, little-endian.
pub open spec fn u64_le(x: u64) -> Seq<u8> {
    le_bytes(x as nat, 8)
}

/// The unsigned integer with the same 64-bit two's complement pattern as `x`.
pub open spec fn i64_bits(x: i64) -> nat {
    if x >= 0 {
        x as nat
    } else {
        (x + 0x1_0000_0000_0000_0000) as nat
    }
}

/// Encoding of a 64-bit signed integer: its two's complement pattern in
/// eight bytes, little-endian.
pub open spec fn i64_le(x: i64) -> Seq<u8> {
    le_bytes(i64_bits(x), 8)
}

/// Whether a text can be encoded: its UTF-8 form must be short enough for
/// the 32-bit length prefix.
pub open spec fn text_encodable(s: Seq<char>) -> bool {
    encode_utf8(s).len() <= u32::MAX
}

/// Encoding of a text: the byte length of its UTF-8 form as a `u32`,
/// followed by the UTF-8 bytes.
pub open spec fn text_encoding(s: Seq<char>) -> Seq<u8> {
    u32_le(encode_utf8(s).len() as u32) + encode_utf8(s)
}

/// Whether `b` is the encoding of some text: a length prefix that counts
/// exactly the bytes after it, and those bytes valid UTF-8.
pub open spec fn is_text_encoding(b: Seq<u8>) -> bool {
    &&& 4 <= b.len() <= 4 + u32::MAX
    &&& b.subrange(0, 4) == u32_le((b.len() - 4) as u32)
    &&& valid_utf8(b.subrange(4, b.len() as int))
}

/// `width` bytes are `width` bytes long.
pub proof fn lemma_le_bytes_len(x: nat, width: nat)
    ensures
        le_bytes(x, width).len() == width,
    decreases width,
{
    if width > 0 {
        lemma_le_bytes_len(x / 256, (width - 1) as nat);
    }
}

/// Two numbers below `radix(width)` with the same `width` bytes are equal.
pub proof fn lemma_le_bytes_injective(x: nat, y: nat, width: nat)
    requires
        x < radix(width),
        y < radix(width),
        le_bytes(x, width) == le_bytes(y, width),
    ensures
        x == y,
    decreases width,
{
    if width > 0 {
        let w = (width - 1) as nat;
        let a = le_bytes(x, width);
        let b = le_bytes(y, width);
        assert(a[0] == (x % 256) as u8);
        assert(b[0] == (y % 256) as u8);
        assert(a.drop_first() =~= le_bytes(x / 256, w));
        assert(b.drop_first() =~= le_bytes(y / 256, w));
        lemma_le_bytes_injective(x / 256, y / 256, w);
    }
}

/// Four bytes tell 2^32 values apart, eight bytes 2^64.
pub proof fn lemma_radix_values()
    ensures
        radix(4) == 0x1_0000_0000,
        radix(8) == 0x1_0000_0000_0000_0000,
{
    reveal_with_fuel(radix, 9);
}

/// Distinct 32-bit integers have distinct encodings.
pub proof fn lemma_u32_le_injective(x: u32, y: u32)
    requires
        u32_le(x) == u32_le(y),
    ensures
        x == y,
{
    lemma_radix_values();
    lemma_le_bytes_injective(x as nat, y as nat, 4);
}

/// Distinct 64-bit unsigned integers have distinct encodings.
pub proof fn lemma_u64_le_injective(x: u64, y: u64)
    requires
        u64_le(x) == u64_le(y),
    ensures
        x == y,
{
    lemma_radix_values();
    lemma_le_bytes_injective(x as nat, y as nat, 8);
}

/// Distinct 64-bit signed integers have distinct encodings.
pub proof fn lemma_i64_le_injective(x: i64, y: i64)
    requires
        i64_le(x) == i64_le(y),
    ensures
        x == y,
{
    lemma_radix_values();
    lemma_le_bytes_injective(i64_bits(x), i64_bits(y), 8);
}

/// The encoding of a text is `4 + n` bytes long, `n` being the length of its
/// UTF-8 form; it starts with the prefix and is itself recognised as an
/// encoding.
pub proof fn lemma_text_encoding_shape(s: Seq<char>)
    requires
        text_encodable(s),
    ensures
        text_encoding(s).len() == 4 + encode_utf8(s).len(),
        text_encoding(s).subrange(0, 4) == u32_le(encode_utf8(s).len() as u32),
        text_encoding(s).subrange(4, text_encoding(s).len() as int) == encode_utf8(s),
        is_text_encoding(text_encoding(s)),
{
    let n = encode_utf8(s).len();
    lemma_le_bytes_len(n as u32 as nat, 4);
    let e = text_encoding(s);
    assert(e.subrange(0, 4) =~= u32_le(n as u32));
    assert(e.subrange(4, e.len() as int) =~= encode_utf8(s));
    encode_utf8_valid_utf8(s);
}

/// Texts with the same encoding are the same text.
pub proof fn lemma_text_encoding_injective(s: Seq<char>, t: Seq<char>)
    requires
        text_encodable(s),
        text_encodable(t),
        text_encoding(s) == text_encoding(t),
    ensures
        s == t,
{
    lemma_text_encoding_shape(s);
    lemma_text_encoding_shape(t);
    assert(encode_utf8(s) == encode_utf8(t));
    encode_utf8_decode_utf8(s);
    encode_utf8_decode_utf8(t);
}

/// The error of borsh's readers and writers, `borsh::io::Error`. The codec
/// passes it on without looking inside: what a failure means is decided by
/// the function that made the call.
#[verifier::external_type_specification]
#[verifier::external_body]
pub struct ExIoError(borsh::io::Error);

/// Serialises a 16-byte array with `borsh::to_vec`, that is with borsh's
/// `BorshSerialize` for `[u8; 16]`. borsh writes the bytes as they are,
/// without a length, into a fresh vector, a write that cannot fail.
#[verifier::external_body]
pub(crate) fn borsh_id_to_vec(id: &[u8; 16]) -> (r: Result<Vec<u8>, borsh::io::Error>)
    ensures
        r is Ok,
        r->Ok_0@ == id@,
{
    borsh::to_vec(id)
}

/// Deserialises a 16-byte array with `borsh::from_slice`, that is with
/// borsh's `BorshDeserialize` for `[u8; 16]`. borsh accepts exactly sixteen
/// bytes and returns them as the array; any other length is an error.
#[verifier::external_body]
pub(crate) fn borsh_id_from_slice(bytes: &[u8]) -> (r: Result<[u8; 16], borsh::io::Error>)
    ensures
        r is Ok <==> bytes@.len() == 16,
        r is Ok ==> r->Ok_0@ == bytes@,
{
    borsh::from_slice::<[u8; 16]>(bytes)
}

/// Serialises a `u64` with `borsh::to_vec`, that is with borsh's
/// `BorshSerialize` for `u64`. borsh writes the integer's `to_le_bytes()`
/// into a fresh vector, a write that cannot fail, so the result is always
/// there and holds the eight little-endian bytes.
#[verifier::external_body]
pub(crate) fn borsh_u64_to_vec(x: u64) -> (r: Result<Vec<u8>, borsh::io::Error>)
    ensures
        r is Ok,
        r->Ok_0@ == u64_le(x),
{
    borsh::to_vec(&x)
}

/// Serialises an `i64` with `borsh::to_vec`, that is with borsh's
/// `BorshSerialize` for `i64`. borsh writes the integer's `to_le_bytes()`,
/// the two's complement pattern in little-endian order, into a fresh
/// vector, a write that cannot fail.
#[verifier::external_body]
pub(crate) fn borsh_i64_to_vec(x: i64) -> (r: Result<Vec<u8>, borsh::io::Error>)
    ensures
        r is Ok,
        r->Ok_0@ == i64_le(x),
{
    borsh::to_vec(&x)
}

/// Serialises a `String` with `borsh::to_vec`, that is with borsh's
/// `BorshSerialize` for `String`. borsh writes the byte length of the string
/// as a little-endian `u32` and then the string's bytes, and fails exactly
/// when that length does not fit in a `u32`.
#[verifier::external_body]
pub(crate) fn borsh_string_to_vec(s: &String) -> (r: Result<Vec<u8>, borsh::io::Error>)
    ensures
        r is Ok <==> text_encodable(s@),
        r is Ok ==> r->Ok_0@ == text_encoding(s@),
{
    borsh::to_vec(s)
}

/// Deserialises a `u32` with `borsh::from_slice`, that is with borsh's
/// `BorshDeserialize` for `u32`. borsh accepts exactly four bytes and
/// returns the integer that has them as its `to_le_bytes()`; any other
/// length is an error.
#[verifier::external_body]
pub(crate) fn borsh_u32_from_slice(bytes: &[u8]) -> (r: Result<u32, borsh::io::Error>)
    ensures
        r is Ok <==> bytes@.len() == 4,
        r is Ok ==> u32_le(r->Ok_0) == bytes@,
{
    borsh::from_slice::<u32>(bytes)
}

/// Deserialises a `u64` with `borsh::from_slice`, that is with borsh's
/// `BorshDeserialize` for `u64`. borsh accepts exactly eight bytes and
/// returns the integer that has them as its `to_le_bytes()`; any other
/// length is an error.
#[verifier::external_body]
pub(crate) fn borsh_u64_from_slice(bytes: &[u8]) -> (r: Result<u64, borsh::io::Error>)
    ensures
        r is Ok <==> bytes@.len() == 8,
        r is Ok ==> u64_le(r->Ok_0) == bytes@,
{
    borsh::from_slice::<u64>(bytes)
}

/// Deserialises an `i64` with `borsh::from_slice`, that is with borsh's
/// `BorshDeserialize` for `i64`. borsh accepts exactly eight bytes and
/// returns the integer that has them as its `to_le_bytes()`; any other
/// length is an error.
#[verifier::external_body]
pub(crate) fn borsh_i64_from_slice(bytes: &[u8]) -> (r: Result<i64, borsh::io::Error>)
    ensures
        r is Ok <==> bytes@.len() == 8,
        r is Ok ==> i64_le(r->Ok_0) == bytes@,
{
    borsh::from_slice::<i64>(bytes)
}

/// Deserialises a `String` with `borsh::from_slice`, that is with borsh's
/// `BorshDeserialize` for `String`. borsh reads a little-endian `u32`
/// length, then exactly that many bytes, which must be valid UTF-8 and must
/// be the rest of the input; the string returned has those bytes as its
/// UTF-8 form. Anything else is an error.
#[verifier::external_body]
pub(crate) fn borsh_string_from_slice(bytes: &[u8]) -> (r: Result<String, borsh::io::Error>)
    ensures
        r is Ok <==> is_text_encoding(bytes@),
        r is Ok ==> text_encoding(r->Ok_0@) == bytes@,
{
    borsh::from_slice::<String>(bytes)
}

} // verus!
