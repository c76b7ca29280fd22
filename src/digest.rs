//! Digests of objects: a fixed byte encoding of the fields, hashed.
//!
//! Each field is written in a fixed order: integers little-endian, a flag as
//! one byte, a string as its UTF-8 length (eight bytes) and then its UTF-8
//! bytes, a list as its length (eight bytes) and then its items.

use vstd::prelude::*;
use vstd::utf8::encode_utf8;

verus! {

/// The digest of a byte string.
pub uninterp spec fn hash_of(bytes: Seq<u8>) -> u64;

/// Relies on std's `DefaultHasher` through `BuildHasher::hash_one`: the
/// hasher that `DefaultHasher::default` makes has fixed keys, so the value
/// depends on the bytes alone.
#[verifier::external_body]
pub(crate) fn hash_bytes(b: &Vec<u8>) -> (r: u64)
    ensures
        r == hash_of(b@),
{
    std::hash::BuildHasher::hash_one(
        &std::hash::BuildHasherDefault::<std::collections::hash_map::DefaultHasher>::default(),
        b.as_slice(),
    )
}

pub open spec fn u64_bytes(x: u64) -> Seq<u8> {
    seq![
        (x % 0x100) as u8,
        (x / 0x100 % 0x100) as u8,
        (x / 0x1_0000 % 0x100) as u8,
        (x / 0x100_0000 % 0x100) as u8,
        (x / 0x1_0000_0000 % 0x100) as u8,
        (x / 0x100_0000_0000 % 0x100) as u8,
        (x / 0x1_0000_0000_0000 % 0x100) as u8,
        (x / 0x100_0000_0000_0000 % 0x100) as u8,
    ]
}

pub open spec fn i32_bytes(x: i32) -> Seq<u8> {
    let u = x as u32;
    seq![
        (u % 0x100) as u8,
        (u / 0x100 % 0x100) as u8,
        (u / 0x1_0000 % 0x100) as u8,
        (u / 0x100_0000 % 0x100) as u8,
    ]
}

pub open spec fn i16_bytes(x: i16) -> Seq<u8> {
    let u = x as u16;
    seq![(u % 0x100) as u8, (u / 0x100) as u8]
}

pub open spec fn bool_bytes(b: bool) -> Seq<u8> {
    seq![if b { 1u8 } else { 0u8 }]
}

pub open spec fn text_bytes(s: Seq<char>) -> Seq<u8> {
    u64_bytes(encode_utf8(s).len() as u64) + encode_utf8(s)
}

pub open spec fn texts_items(v: Seq<String>) -> Seq<u8>
    decreases v.len(),
{
    if v.len() == 0 {
        Seq::empty()
    } else {
        texts_items(v.drop_last()) + text_bytes(v.last()@)
    }
}

pub open spec fn texts_bytes(v: Seq<String>) -> Seq<u8> {
    u64_bytes(v.len() as u64) + texts_items(v)
}

pub fn push_u64(out: &mut Vec<u8>, x: u64)
    ensures
        final(out)@ == old(out)@ + u64_bytes(x),
{
    out.push((x % 0x100) as u8);
    out.push((x / 0x100 % 0x100) as u8);
    out.push((x / 0x1_0000 % 0x100) as u8);
    out.push((x / 0x100_0000 % 0x100) as u8);
    out.push((x / 0x1_0000_0000 % 0x100) as u8);
    out.push((x / 0x100_0000_0000 % 0x100) as u8);
    out.push((x / 0x1_0000_0000_0000 % 0x100) as u8);
    out.push((x / 0x100_0000_0000_0000 % 0x100) as u8);
    assert(out@ =~= old(out)@ + u64_bytes(x));
}

pub fn push_i32(out: &mut Vec<u8>, x: i32)
    ensures
        final(out)@ == old(out)@ + i32_bytes(x),
{
    let u = x as u32;
    out.push((u % 0x100) as u8);
    out.push((u / 0x100 % 0x100) as u8);
    out.push((u / 0x1_0000 % 0x100) as u8);
    out.push((u / 0x100_0000 % 0x100) as u8);
    assert(out@ =~= old(out)@ + i32_bytes(x));
}

pub fn push_i16(out: &mut Vec<u8>, x: i16)
    ensures
        final(out)@ == old(out)@ + i16_bytes(x),
{
    let u = x as u16;
    out.push((u % 0x100) as u8);
    out.push((u / 0x100) as u8);
    assert(out@ =~= old(out)@ + i16_bytes(x));
}

pub fn push_bool(out: &mut Vec<u8>, b: bool)
    ensures
        final(out)@ == old(out)@ + bool_bytes(b),
{
    out.push(if b { 1u8 } else { 0u8 });
    assert(out@ =~= old(out)@ + bool_bytes(b));
}

pub fn push_text(out: &mut Vec<u8>, s: &str)
    ensures
        final(out)@ == old(out)@ + text_bytes(s@),
{
    let mut b = s.as_bytes_vec();
    push_u64(out, b.len() as u64);
    out.append(&mut b);
    assert(out@ =~= old(out)@ + text_bytes(s@));
}

pub fn push_texts(out: &mut Vec<u8>, v: &Vec<String>)
    ensures
        final(out)@ == old(out)@ + texts_bytes(v@),
{
    push_u64(out, v.len() as u64);
    let ghost start = out@;
    let mut i: usize = 0;
    while i < v.len()
        invariant
            i <= v@.len(),
            out@ == start + texts_items(v@.subrange(0, i as int)),
        decreases v@.len() - i,
    {
        assert(v@.subrange(0, i as int + 1).drop_last() =~= v@.subrange(0, i as int));
        push_text(out, v[i].as_str());
        assert(out@ =~= start + texts_items(v@.subrange(0, i as int + 1)));
        i = i + 1;
    }
    assert(v@.subrange(0, i as int) =~= v@);
    assert(out@ =~= old(out)@ + texts_bytes(v@));
}

} // verus!
