//! Adapters of the machine integers to the wire types, with the decoders that
//! read their slots back.
use vstd::prelude::*;

use crate::wire::{slot_after, AsOci, EncodeError, Int, Num, NUM_SIZE};
#[allow(unused_imports)]
use crate::column::row_fits;

verus! {

/// Little-endian two's-complement bytes of a 32-bit integer.
pub open spec fn i32_bytes(x: i32) -> Seq<u8> {
    let u = x as u32;
    seq![(u & 0xff) as u8, ((u >> 8u32) & 0xff) as u8, ((u >> 16u32) & 0xff) as u8, ((u >> 24u32) & 0xff) as u8]
}

/// Little-endian two's-complement bytes of a 16-bit integer.
pub open spec fn i16_bytes(x: i16) -> Seq<u8> {
    let u = x as u16;
    seq![(u & 0xff) as u8, ((u >> 8u16) & 0xff) as u8]
}

/// The 32-bit integer whose little-endian bytes open `s`.
pub open spec fn i32_of(s: Seq<u8>) -> i32
    recommends
        s.len() >= 4,
{
    ((s[0] as u32) | ((s[1] as u32) << 8u32) | ((s[2] as u32) << 16u32) | ((s[3] as u32) << 24u32)) as i32
}

/// The 16-bit integer whose little-endian bytes open `s`.
pub open spec fn i16_of(s: Seq<u8>) -> i16
    recommends
        s.len() >= 2,
{
    ((s[0] as u16) | ((s[1] as u16) << 8u16)) as i16
}

/// A 32-bit integer bound as a native integer: four bytes.
impl AsOci<Int> for i32 {
    open spec fn encoding(&self) -> Option<Seq<u8>> {
        Some(i32_bytes(*self))
    }

    open spec fn slot_size() -> Option<u16> {
        Some(4)
    }

    fn oci_capped_size() -> (r: Option<u16>) {
        Some(4)
    }

    fn oci_write(&self, slice: &mut [u8]) -> (r: Result<u16, EncodeError>) {
        if slice.len() < 4 {
            return Ok(4);
        }
        let u = *self as u32;
        slice[0] = (u & 0xff) as u8;
        slice[1] = ((u >> 8u32) & 0xff) as u8;
        slice[2] = ((u >> 16u32) & 0xff) as u8;
        slice[3] = ((u >> 24u32) & 0xff) as u8;
        assert(slice@ =~= i32_bytes(*self) + old(slice)@.skip(4));
        Ok(4)
    }
}

/// A 16-bit integer bound as a native integer: two bytes.
impl AsOci<Int> for i16 {
    open spec fn encoding(&self) -> Option<Seq<u8>> {
        Some(i16_bytes(*self))
    }

    open spec fn slot_size() -> Option<u16> {
        Some(2)
    }

    fn oci_capped_size() -> (r: Option<u16>) {
        Some(2)
    }

    fn oci_write(&self, slice: &mut [u8]) -> (r: Result<u16, EncodeError>) {
        if slice.len() < 2 {
            return Ok(2);
        }
        let u = *self as u16;
        slice[0] = (u & 0xff) as u8;
        slice[1] = ((u >> 8u16) & 0xff) as u8;
        assert(slice@ =~= i16_bytes(*self) + old(slice)@.skip(2));
        Ok(2)
    }
}

/// A 32-bit integer bound in the numeric format: declared, with its slot, but
/// without an encoding yet, so every write reports `Unimplemented`.
impl AsOci<Num> for i32 {
    open spec fn slot_size() -> Option<u16> {
        Some(NUM_SIZE)
    }

    fn oci_capped_size() -> (r: Option<u16>) {
        Some(NUM_SIZE)
    }

    fn oci_write(&self, slice: &mut [u8]) -> (r: Result<u16, EncodeError>) {
        Err(EncodeError::Unimplemented)
    }
}

/// Reads the 32-bit integer from the first four bytes of a slot.
pub fn read_i32(bytes: &[u8]) -> (r: Option<i32>)
    ensures
        r == (if bytes@.len() >= 4 { Some(i32_of(bytes@)) } else { None }),
{
    if bytes.len() < 4 {
        return None;
    }
    let u = (bytes[0] as u32) | ((bytes[1] as u32) << 8u32) | ((bytes[2] as u32) << 16u32) | ((
    bytes[3] as u32) << 24u32);
    Some(u as i32)
}

/// Reads the 16-bit integer from the first two bytes of a slot.
pub fn read_i16(bytes: &[u8]) -> (r: Option<i16>)
    ensures
        r == (if bytes@.len() >= 2 { Some(i16_of(bytes@)) } else { None }),
{
    if bytes.len() < 2 {
        return None;
    }
    let u = (bytes[0] as u16) | ((bytes[1] as u16) << 8u16);
    Some(u as i16)
}

/// Every 32-bit integer reads back from the bytes it encodes to, whatever
/// follows them in the slot.
pub proof fn lemma_i32_round_trip(x: i32, rest: Seq<u8>)
    ensures
        i32_of(i32_bytes(x) + rest) == x,
{
    let s = i32_bytes(x) + rest;
    let u = x as u32;
    assert(s[0] == (u & 0xff) as u8);
    assert(s[1] == ((u >> 8u32) & 0xff) as u8);
    assert(s[2] == ((u >> 16u32) & 0xff) as u8);
    assert(s[3] == ((u >> 24u32) & 0xff) as u8);
    assert((((u & 0xff) as u8 as u32) | ((((u >> 8u32) & 0xff) as u8 as u32) << 8u32) | ((((u
        >> 16u32) & 0xff) as u8 as u32) << 16u32) | ((((u >> 24u32) & 0xff) as u8 as u32)
        << 24u32)) == u) by (bit_vector);
    assert((x as u32) as i32 == x) by (bit_vector);
}

/// Every 16-bit integer reads back from the bytes it encodes to, whatever
/// follows them in the slot.
pub proof fn lemma_i16_round_trip(x: i16, rest: Seq<u8>)
    ensures
        i16_of(i16_bytes(x) + rest) == x,
{
    let s = i16_bytes(x) + rest;
    let u = x as u16;
    assert(s[0] == (u & 0xff) as u8);
    assert(s[1] == ((u >> 8u16) & 0xff) as u8);
    assert((((u & 0xff) as u8 as u16) | ((((u >> 8u16) & 0xff) as u8 as u16) << 8u16)) == u)
        by (bit_vector);
    assert((x as u16) as i16 == x) by (bit_vector);
}

/// A 32-bit integer written into any slot of four bytes or more reads back
/// from that slot unchanged.
pub proof fn lemma_i32_slot_round_trip(x: i32, slot: Seq<u8>)
    requires
        slot.len() >= 4,
    ensures
        i32_of(slot_after(AsOci::<Int>::encoding(&x), slot)) == x,
{
    lemma_i32_round_trip(x, slot.skip(4));
}

/// A 16-bit integer written into any slot of two bytes or more reads back
/// from that slot unchanged.
pub proof fn lemma_i16_slot_round_trip(x: i16, slot: Seq<u8>)
    requires
        slot.len() >= 2,
    ensures
        i16_of(slot_after(AsOci::<Int>::encoding(&x), slot)) == x,
{
    lemma_i16_round_trip(x, slot.skip(2));
}

/// The integer adapters fit every value into their own slot: four bytes for
/// a 32-bit integer, two for a 16-bit one.
pub proof fn lemma_int_adapters_fit(x: i32, y: i16)
    ensures
        row_fits(AsOci::<Int>::encoding(&x), <i32 as AsOci<Int>>::slot_size()),
        row_fits(AsOci::<Int>::encoding(&y), <i16 as AsOci<Int>>::slot_size()),
{
}

} // verus!
