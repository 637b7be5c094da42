//! Wire-type contracts: the tag and slot-size policy of each on-wire type, and
//! the capability a value type implements to be encoded under one of them.
use vstd::prelude::*;

verus! {

/// Tag of character data.
pub const SQLT_CHR: u16 = 1;

/// Tag of the binary numeric (decimal) format.
pub const SQLT_NUM: u16 = 2;

/// Tag of native signed integers.
pub const SQLT_INT: u16 = 3;

/// Largest slot an integer column may use, in bytes.
pub const INT_MAX_SIZE: u16 = 8;

/// Slot size of the numeric format, in bytes.
pub const NUM_SIZE: u16 = 21;

/// An on-wire type: its tag, and the slot size that bounds every value bound
/// under it (`None` for variable-length data).
pub trait WireType {
    spec fn tag() -> u16;

    spec fn capped() -> Option<u16>;

    fn oci_sqlt() -> (r: u16)
        ensures
            r == Self::tag(),
    ;

    fn oci_capped_size() -> (r: Option<u16>)
        ensures
            r == Self::capped(),
    ;
}

/// Character data; variable length.
pub struct Chr;

/// Native signed integers.
pub struct Int;

/// Binary numeric (decimal) format.
pub struct Num;

impl WireType for Chr {
    open spec fn tag() -> u16 {
        SQLT_CHR
    }

    open spec fn capped() -> Option<u16> {
        None
    }

    fn oci_sqlt() -> (r: u16) {
        SQLT_CHR
    }

    fn oci_capped_size() -> (r: Option<u16>) {
        None
    }
}

impl WireType for Int {
    open spec fn tag() -> u16 {
        SQLT_INT
    }

    open spec fn capped() -> Option<u16> {
        Some(INT_MAX_SIZE)
    }

    fn oci_sqlt() -> (r: u16) {
        SQLT_INT
    }

    fn oci_capped_size() -> (r: Option<u16>) {
        Some(INT_MAX_SIZE)
    }
}

impl WireType for Num {
    open spec fn tag() -> u16 {
        SQLT_NUM
    }

    open spec fn capped() -> Option<u16> {
        Some(NUM_SIZE)
    }

    fn oci_sqlt() -> (r: u16) {
        SQLT_NUM
    }

    fn oci_capped_size() -> (r: Option<u16>) {
        Some(NUM_SIZE)
    }
}

/// Why an adapter could not encode a value.
#[derive(Clone, Copy, Debug, PartialEq, Eq, Structural)]
pub enum EncodeError {
    /// The adapter is declared for the wire type but has no encoding yet.
    Unimplemented,
}

/// The slot after an encoding is written into it: the encoded bytes followed
/// by what the slot held past them. A slot too short for the encoding, or a
/// value without one, is left as it was.
pub open spec fn slot_after(enc: Option<Seq<u8>>, slot: Seq<u8>) -> Seq<u8> {
    match enc {
        Some(b) => if b.len() <= slot.len() {
            b + slot.skip(b.len() as int)
        } else {
            slot
        },
        None => slot,
    }
}

/// What an adapter reports for an encoding: its length in bytes, whether or
/// not it fitted the slot, or `Unimplemented` where there is none.
pub open spec fn write_report(enc: Option<Seq<u8>>) -> Result<u16, EncodeError> {
    match enc {
        Some(b) => Ok(b.len() as u16),
        None => Err(EncodeError::Unimplemented),
    }
}

/// The capability of a value type to be encoded under wire type `W`.
///
/// `encoding` is the byte sequence of a value; an adapter that does not give
/// one is declared but not implemented, and every write through it reports
/// `Unimplemented`. `slot_size` is the slot this adapter asks for, which
/// takes precedence over the wire type's cap but must stay within it for a
/// column to be bound.
pub trait AsOci<W: WireType> {
    open spec fn encoding(&self) -> Option<Seq<u8>> {
        None
    }

    spec fn slot_size() -> Option<u16>;

    fn oci_capped_size() -> (r: Option<u16>)
        ensures
            r == Self::slot_size(),
    ;

    /// Writes the encoding to the front of `slice` if it fits and reports its
    /// length; the slice never changes length.
    fn oci_write(&self, slice: &mut [u8]) -> (r: Result<u16, EncodeError>)
        ensures
            final(slice)@ == slot_after(self.encoding(), old(slice)@),
            r == write_report(self.encoding()),
            self.encoding() matches Some(b) ==> b.len() <= u16::MAX,
    ;
}

} // verus!
