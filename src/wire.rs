//! MessagePack payloads of the wire protocol.
//!
//! The encoder used here (rmp_serde with its default configuration) always
//! writes the shortest form: the spec functions below state those forms
//! byte for byte. Decoding accepts more than those forms, so what it reads
//! from arbitrary bytes is named rather than stated.

use vstd::prelude::*;
use vstd::utf8::encode_utf8;
use crate::game::NameId;

verus! {

/// The low `len` bytes of `n`, most significant first.
pub open spec fn be_bytes(n: nat, len: nat) -> Seq<u8>
    decreases len,
{
    if len == 0 {
        seq![]
    } else {
        be_bytes(n / 256, (len - 1) as nat).push((n % 256) as u8)
    }
}

/// Shortest MessagePack form of an unsigned integer.
pub open spec fn mp_uint(n: nat) -> Seq<u8> {
    if n < 0x80 {
        seq![n as u8]
    } else if n < 0x100 {
        seq![0xccu8, n as u8]
    } else if n < 0x1_0000 {
        seq![0xcdu8] + be_bytes(n, 2)
    } else if n < 0x1_0000_0000 {
        seq![0xceu8] + be_bytes(n, 4)
    } else {
        seq![0xcfu8] + be_bytes(n, 8)
    }
}

/// Header of a MessagePack string whose UTF-8 form has `n` bytes.
pub open spec fn mp_str_header(n: nat) -> Seq<u8> {
    if n < 32 {
        seq![(0xa0 + n) as u8]
    } else if n < 0x100 {
        seq![0xd9u8, n as u8]
    } else if n < 0x1_0000 {
        seq![0xdau8] + be_bytes(n, 2)
    } else {
        seq![0xdbu8] + be_bytes(n, 4)
    }
}

/// MessagePack string.
pub open spec fn mp_str(s: Seq<char>) -> Seq<u8> {
    mp_str_header(encode_utf8(s).len()) + encode_utf8(s)
}

/// MessagePack binary value.
pub open spec fn mp_bin(b: Seq<u8>) -> Seq<u8> {
    let n = b.len();
    (if n < 0x100 {
        seq![0xc4u8, n as u8]
    } else if n < 0x1_0000 {
        seq![0xc5u8] + be_bytes(n, 2)
    } else {
        seq![0xc6u8] + be_bytes(n, 4)
    }) + b
}

/// Header of a MessagePack array of `n` elements.
pub open spec fn mp_array_header(n: nat) -> Seq<u8> {
    if n < 16 {
        seq![(0x90 + n) as u8]
    } else if n < 0x1_0000 {
        seq![0xdcu8] + be_bytes(n, 2)
    } else {
        seq![0xddu8] + be_bytes(n, 4)
    }
}

/// The strings of `xs` one after the other, without an array header.
pub open spec fn mp_strs(xs: Seq<Seq<char>>) -> Seq<u8>
    decreases xs.len(),
{
    if xs.len() == 0 {
        seq![]
    } else {
        mp_strs(xs.drop_last()) + mp_str(xs.last())
    }
}

/// A UUID travels as a 16-byte binary value, most significant byte first.
pub open spec fn mp_id(id: u128) -> Seq<u8> {
    mp_bin(be_bytes(id as nat, 16))
}

/// Payload of a name together with its identifier: a two-element array.
pub open spec fn mp_str_id(s: Seq<char>, id: u128) -> Seq<u8> {
    mp_array_header(2) + mp_str(s) + mp_id(id)
}

/// Payload of the frozen names and the guess bits: a two-element array of
/// an array of strings and a binary value.
pub open spec fn mp_names(names: Seq<Seq<char>>, guesses: Seq<u8>) -> Seq<u8> {
    mp_array_header(2) + mp_array_header(names.len()) + mp_strs(names) + mp_bin(guesses)
}

/// MessagePack lengths are 32-bit: a string must fit.
pub open spec fn str_fits(s: Seq<char>) -> bool {
    encode_utf8(s).len() <= u32::MAX
}

/// Every length in a names payload fits in 32 bits.
pub open spec fn names_fit(names: Seq<Seq<char>>, guesses: Seq<u8>) -> bool {
    &&& names.len() <= u32::MAX
    &&& guesses.len() <= u32::MAX
    &&& forall|i: int| 0 <= i < names.len() ==> str_fits(#[trigger] names[i])
}

/// The texts that a vector of strings holds.
pub open spec fn texts(v: Seq<String>) -> Seq<Seq<char>> {
    v.map_values(|s: String| s@)
}

/// What rmp_serde reads as a `u64` from a payload.
pub uninterp spec fn rmp_uint_of(p: Seq<u8>) -> Option<u64>;

/// What rmp_serde reads as a `String` from a payload.
pub uninterp spec fn rmp_str_of(p: Seq<u8>) -> Option<Seq<char>>;

/// What rmp_serde reads as a `(String, Uuid)` from a payload.
pub uninterp spec fn rmp_str_id_of(p: Seq<u8>) -> Option<(Seq<char>, u128)>;

/// What rmp_serde reads as a `Uuid` from a payload.
pub uninterp spec fn rmp_id_of(p: Seq<u8>) -> Option<u128>;

/// What rmp_serde reads as a `(Vec<String>, ByteBuf)` from a payload.
pub uninterp spec fn rmp_names_of(p: Seq<u8>) -> Option<(Seq<Seq<char>>, Seq<u8>)>;

/// Relies on rmp_serde::encode::write of a `u64`: rmp's `write_uint`
/// appends the shortest form. Writing into a `Vec` cannot fail.
#[verifier::external_body]
pub(crate) fn write_uint(out: &mut Vec<u8>, v: u64)
    ensures
        final(out)@ == old(out)@ + mp_uint(v as nat),
{
    let _ = rmp_serde::encode::write(out, &v);
}

/// Relies on rmp_serde::encode::write of a `&str`: rmp's `write_str`
/// appends the header for the byte length, then the UTF-8 bytes.
#[verifier::external_body]
pub(crate) fn write_str(out: &mut Vec<u8>, s: &str)
    requires
        str_fits(s@),
    ensures
        final(out)@ == old(out)@ + mp_str(s@),
{
    let _ = rmp_serde::encode::write(out, s);
}

/// Relies on rmp_serde::encode::write of a `Uuid`: a binary serializer gets
/// the UUID's 16 bytes, which rmp's `write_bin` appends after a bin8 header.
#[verifier::external_body]
pub(crate) fn write_id(out: &mut Vec<u8>, id: NameId)
    ensures
        final(out)@ == old(out)@ + mp_id(id.0),
{
    let _ = rmp_serde::encode::write(out, &uuid::Uuid::from_u128(id.0));
}

/// Relies on rmp_serde::encode::write of a `(&str, Uuid)`: a tuple becomes
/// an array header followed by its elements.
#[verifier::external_body]
pub(crate) fn write_str_id(out: &mut Vec<u8>, s: &str, id: NameId)
    requires
        str_fits(s@),
    ensures
        final(out)@ == old(out)@ + mp_str_id(s@, id.0),
{
    let _ = rmp_serde::encode::write(out, &(s, uuid::Uuid::from_u128(id.0)));
}

/// Relies on rmp_serde::encode::write of a `(&Vec<String>, &serde_bytes::Bytes)`:
/// a vector of known length becomes an array, the bytes a binary value.
#[verifier::external_body]
pub(crate) fn write_names(out: &mut Vec<u8>, names: &Vec<String>, guesses: &Vec<u8>)
    requires
        names_fit(texts(names@), guesses@),
    ensures
        final(out)@ == old(out)@ + mp_names(texts(names@), guesses@),
{
    let _ = rmp_serde::encode::write(out, &(names, serde_bytes::Bytes::new(guesses)));
}

/// Relies on rmp_serde::from_slice::<u64>; it reads back the shortest form
/// of every value, and fails on an empty payload, which has no marker byte.
#[verifier::external_body]
pub(crate) fn read_uint(p: &[u8]) -> (r: Option<u64>)
    ensures
        r == rmp_uint_of(p@),
        p@.len() == 0 ==> r is None,
        forall|v: u64| #[trigger] mp_uint(v as nat) == p@ ==> r == Some(v),
{
    rmp_serde::from_slice::<u64>(p).ok()
}

/// Relies on rmp_serde::from_slice::<String>; it reads back every string
/// that `write_str` writes, and an integer marker (a first byte below 0x80)
/// is no string.
#[verifier::external_body]
pub(crate) fn read_str(p: &[u8]) -> (r: Option<String>)
    ensures
        match r {
            Some(s) => rmp_str_of(p@) == Some(s@),
            None => rmp_str_of(p@) is None,
        },
        p@.len() == 0 ==> r is None,
        p@.len() > 0 && p@[0] < 0x80 ==> r is None,
        forall|s: Seq<char>| #[trigger] mp_str(s) == p@ && str_fits(s) ==> r is Some && r->0@ == s,
{
    rmp_serde::from_slice::<String>(p).ok()
}

/// Relies on rmp_serde::from_slice::<Uuid>; uuid reads a 16-byte binary
/// value as the UUID's bytes.
#[verifier::external_body]
pub(crate) fn read_id(p: &[u8]) -> (r: Option<NameId>)
    ensures
        match r {
            Some(id) => rmp_id_of(p@) == Some(id.0),
            None => rmp_id_of(p@) is None,
        },
        p@.len() == 0 ==> r is None,
        p@.len() > 0 && p@[0] < 0x80 ==> r is None,
        forall|id: u128| #[trigger] mp_id(id) == p@ ==> r == Some(NameId(id)),
{
    match rmp_serde::from_slice::<uuid::Uuid>(p) {
        Ok(u) => Some(NameId(u.as_u128())),
        Err(_) => None,
    }
}

/// Relies on rmp_serde::from_slice::<(String, Uuid)>; it reads back every
/// pair that `write_str_id` writes.
#[verifier::external_body]
pub(crate) fn read_str_id(p: &[u8]) -> (r: Option<(String, NameId)>)
    ensures
        match r {
            Some(x) => rmp_str_id_of(p@) == Some((x.0@, x.1.0)),
            None => rmp_str_id_of(p@) is None,
        },
        p@.len() == 0 ==> r is None,
        p@.len() > 0 && p@[0] < 0x80 ==> r is None,
        forall|s: Seq<char>, id: u128| #[trigger] mp_str_id(s, id) == p@ && str_fits(s)
            ==> r is Some && (r->0).0@ == s && (r->0).1 == NameId(id),
{
    match rmp_serde::from_slice::<(String, uuid::Uuid)>(p) {
        Ok((s, u)) => Some((s, NameId(u.as_u128()))),
        Err(_) => None,
    }
}

/// Relies on rmp_serde::from_slice::<(Vec<String>, serde_bytes::ByteBuf)>;
/// it reads back every pair that `write_names` writes.
#[verifier::external_body]
pub(crate) fn read_names(p: &[u8]) -> (r: Option<(Vec<String>, Vec<u8>)>)
    ensures
        match r {
            Some(x) => rmp_names_of(p@) == Some((texts(x.0@), x.1@)),
            None => rmp_names_of(p@) is None,
        },
        p@.len() == 0 ==> r is None,
        p@.len() > 0 && p@[0] < 0x80 ==> r is None,
        forall|names: Seq<Seq<char>>, guesses: Seq<u8>| #[trigger] mp_names(names, guesses) == p@
            && names_fit(names, guesses) ==> r is Some && texts((r->0).0@) == names && (r->0).1@
            == guesses,
{
    match rmp_serde::from_slice::<(Vec<String>, serde_bytes::ByteBuf)>(p) {
        Ok((names, guesses)) => Some((names, guesses.into_vec())),
        Err(_) => None,
    }
}

} // verus!
