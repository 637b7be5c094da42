//! The column buffer manager: one buffer for one column across all its rows,
//! every slot written under the same wire type.
use vstd::prelude::*;

use crate::wire::{slot_after, write_report, AsOci, EncodeError, WireType};

verus! {

/// First slot tried for a value of a variable-length column, in bytes; a
/// value that needs more gets a slot of its own length.
pub const CHUNK_SIZE: usize = 32;

/// A bound column, ready for the transport: the wire-type tag shared by all
/// rows, the slot size (`None` for variable length), the bytes of all slots
/// one after the other, and for each row the bytes its value used and the
/// offset of its slot.
#[derive(Debug)]
pub struct ColumnBuffer {
    pub col: u16,
    pub sqlt: u16,
    pub slot_size: Option<u16>,
    pub data: Vec<u8>,
    pub lens: Vec<u16>,
    pub offsets: Vec<usize>,
}

/// Why a column could not be bound. The whole column fails; no buffer is
/// handed out.
#[derive(Clone, Copy, Debug, PartialEq, Eq, Structural)]
pub enum BindError {
    /// The adapter's slot size is not allowed by the wire type's cap.
    CappedSizeMismatch { col: u16, sqlt: u16, contract: Option<u16>, adapter: Option<u16> },
    /// A value needs more bytes than the slot holds.
    EncodingOverflow { col: u16, row: usize, sqlt: u16, needed: u16, slot: u16 },
    /// A value's adapter is declared but has no encoding.
    UnimplementedAdapter { col: u16, row: usize, sqlt: u16 },
}

/// `n` zero bytes.
pub open spec fn zeros(n: nat) -> Seq<u8> {
    Seq::new(n, |_i: int| 0u8)
}

/// An adapter's slot size agrees with a wire type's cap: where the wire type
/// caps its slots, the adapter asks for a fixed slot within the cap.
pub open spec fn caps_consistent(contract: Option<u16>, adapter: Option<u16>) -> bool {
    match contract {
        Some(c) => adapter matches Some(n) && n <= c,
        None => true,
    }
}

/// A value can be written into its slot: it has an encoding, and in a
/// fixed-size column the encoding is no longer than the slot.
pub open spec fn row_fits(enc: Option<Seq<u8>>, slot: Option<u16>) -> bool {
    enc matches Some(b) && (slot matches Some(n) ==> b.len() <= n)
}

/// The bytes a row occupies in the buffer: in a fixed-size column the
/// encoding padded with zeros to the slot size, else the encoding itself.
pub open spec fn slot_image(b: Seq<u8>, slot: Option<u16>) -> Seq<u8> {
    match slot {
        Some(n) => b + zeros((n - b.len()) as nat),
        None => b,
    }
}

/// The byte sequences of `s`, one after the other.
pub open spec fn concat(s: Seq<Seq<u8>>) -> Seq<u8>
    decreases s.len(),
{
    if s.len() == 0 {
        Seq::empty()
    } else {
        concat(s.drop_last()) + s.last()
    }
}

/// Every value of the column can be written into its slot.
pub open spec fn all_fit<W: WireType, T: AsOci<W>>(vals: Seq<T>) -> bool {
    forall|i: int| 0 <= i < vals.len() ==> row_fits(#[trigger] vals[i].encoding(), T::slot_size())
}

/// `row` is the first row whose value cannot be written into its slot.
pub open spec fn first_bad_row<W: WireType, T: AsOci<W>>(vals: Seq<T>, row: int) -> bool {
    &&& 0 <= row < vals.len()
    &&& !row_fits(vals[row].encoding(), T::slot_size())
    &&& forall|j: int| 0 <= j < row ==> row_fits(#[trigger] vals[j].encoding(), T::slot_size())
}

/// The slot images of the rows, in order.
pub open spec fn images<W: WireType, T: AsOci<W>>(vals: Seq<T>) -> Seq<Seq<u8>> {
    Seq::new(vals.len(), |i: int| slot_image(vals[i].encoding().unwrap(), T::slot_size()))
}

/// The bytes each row's value used.
pub open spec fn written_lens<W: WireType, T: AsOci<W>>(vals: Seq<T>) -> Seq<u16> {
    Seq::new(vals.len(), |i: int| vals[i].encoding().unwrap().len() as u16)
}

/// Where each row's slot starts in the buffer.
pub open spec fn slot_offsets<W: WireType, T: AsOci<W>>(vals: Seq<T>) -> Seq<int> {
    Seq::new(vals.len(), |i: int| concat(images(vals).take(i)).len() as int)
}

impl ColumnBuffer {
    /// The buffer is the binding of `vals` to column `col` under wire type `W`.
    pub open spec fn binds<W: WireType, T: AsOci<W>>(self, col: u16, vals: Seq<T>) -> bool {
        &&& self.col == col
        &&& self.sqlt == W::tag()
        &&& self.slot_size == T::slot_size()
        &&& self.data@ == concat(images(vals))
        &&& self.lens@ == written_lens(vals)
        &&& self.offsets@.len() == vals.len()
        &&& forall|i: int|
            0 <= i < vals.len() ==> #[trigger] self.offsets@[i] == slot_offsets(vals)[i]
    }
}

/// What binding `vals` to column `col` under `W` gives: the buffer where the
/// adapter's slot size agrees with the cap and every row fits; otherwise the
/// mismatch, or the first row that does not fit and why.
pub open spec fn bind_outcome<W: WireType, T: AsOci<W>>(
    col: u16,
    vals: Seq<T>,
    r: Result<ColumnBuffer, BindError>,
) -> bool {
    match r {
        Ok(buf) => {
            &&& caps_consistent(W::capped(), T::slot_size())
            &&& all_fit(vals)
            &&& buf.binds(col, vals)
        },
        Err(BindError::CappedSizeMismatch { col: c, sqlt, contract, adapter }) => {
            &&& !caps_consistent(W::capped(), T::slot_size())
            &&& c == col && sqlt == W::tag()
            &&& contract == W::capped() && adapter == T::slot_size()
        },
        Err(BindError::UnimplementedAdapter { col: c, row, sqlt }) => {
            &&& caps_consistent(W::capped(), T::slot_size())
            &&& first_bad_row(vals, row as int)
            &&& vals[row as int].encoding() is None
            &&& c == col && sqlt == W::tag()
        },
        Err(BindError::EncodingOverflow { col: c, row, sqlt, needed, slot }) => {
            &&& caps_consistent(W::capped(), T::slot_size())
            &&& first_bad_row(vals, row as int)
            &&& vals[row as int].encoding() matches Some(b) && needed == b.len()
            &&& T::slot_size() == Some(slot)
            &&& c == col && sqlt == W::tag()
        },
    }
}

fn zeroed(n: usize) -> (r: Vec<u8>)
    ensures
        r@ == zeros(n as nat),
{
    let mut v: Vec<u8> = Vec::new();
    let mut i: usize = 0;
    while i < n
        invariant
            i <= n,
            v@ == zeros(i as nat),
        decreases n - i,
    {
        v.push(0);
        i = i + 1;
        assert(v@ =~= zeros(i as nat));
    }
    v
}

proof fn lemma_fixed_image(b: Seq<u8>, n: u16)
    requires
        b.len() <= n,
    ensures
        slot_after(Some(b), zeros(n as nat)) == slot_image(b, Some(n)),
{
    assert(zeros(n as nat).skip(b.len() as int) =~= zeros((n - b.len()) as nat));
}

/// Encodes one value into its slot image, and reports the bytes it used.
fn encode_row<W: WireType, T: AsOci<W>>(
    v: &T,
    slot: Option<u16>,
    col: u16,
    row: usize,
    sqlt: u16,
) -> (r: Result<(u16, Vec<u8>), BindError>)
    requires
        slot == T::slot_size(),
    ensures
        match r {
            Ok((w, img)) => {
                &&& row_fits(v.encoding(), slot)
                &&& w == v.encoding().unwrap().len()
                &&& img@ == slot_image(v.encoding().unwrap(), slot)
            },
            Err(BindError::UnimplementedAdapter { col: c, row: rw, sqlt: t }) => {
                v.encoding() is None && c == col && rw == row && t == sqlt
            },
            Err(BindError::EncodingOverflow { col: c, row: rw, sqlt: t, needed, slot: s }) => {
                &&& v.encoding() matches Some(b) && needed == b.len()
                &&& !row_fits(v.encoding(), slot)
                &&& slot == Some(s)
                &&& c == col && rw == row && t == sqlt
            },
            Err(BindError::CappedSizeMismatch { .. }) => false,
        },
{
    match slot {
        Some(n) => {
            let mut buf = zeroed(n as usize);
            let res = v.oci_write(buf.as_mut_slice());
            match res {
                Err(EncodeError::Unimplemented) => Err(
                    BindError::UnimplementedAdapter { col, row, sqlt },
                ),
                Ok(w) => {
                    if w > n {
                        Err(BindError::EncodingOverflow { col, row, sqlt, needed: w, slot: n })
                    } else {
                        proof {
                            lemma_fixed_image(v.encoding().unwrap(), n);
                        }
                        Ok((w, buf))
                    }
                },
            }
        },
        None => {
            let mut buf = zeroed(CHUNK_SIZE);
            let res = v.oci_write(buf.as_mut_slice());
            match res {
                Err(EncodeError::Unimplemented) => Err(
                    BindError::UnimplementedAdapter { col, row, sqlt },
                ),
                Ok(w) => {
                    if w as usize > buf.len() {
                        buf = zeroed(w as usize);
                        let again = v.oci_write(buf.as_mut_slice());
                        match again {
                            Ok(w2) => {
                                if w2 != w {
                                    return Err(
                                        BindError::EncodingOverflow {
                                            col,
                                            row,
                                            sqlt,
                                            needed: w2,
                                            slot: w,
                                        },
                                    );
                                }
                            },
                            Err(_) => {
                                return Err(BindError::UnimplementedAdapter { col, row, sqlt });
                            },
                        }
                    }
                    buf.truncate(w as usize);
                    assert(buf@ =~= v.encoding().unwrap());
                    Ok((w, buf))
                },
            }
        },
    }
}

proof fn lemma_concat_take(s: Seq<Seq<u8>>, i: int)
    requires
        0 <= i < s.len(),
    ensures
        concat(s.take(i + 1)) == concat(s.take(i)) + s[i],
{
    assert(s.take(i + 1).drop_last() =~= s.take(i));
}

/// Binds `values` to column `col` under wire type `W`, one slot per value.
///
/// Fails as a whole, with no buffer, where the adapter's slot size breaks the
/// wire type's cap, or at the first value that has no encoding or needs more
/// bytes than its slot; otherwise every slot holds its value's encoding
/// (padded with zeros in a fixed-size column) under the one tag of `W`.
pub fn bind_column<W: WireType, T: AsOci<W>>(col: u16, values: &Vec<T>) -> (r: Result<
    ColumnBuffer,
    BindError,
>)
    ensures
        bind_outcome::<W, T>(col, values@, r),
        r matches Ok(buf) ==> {
            &&& buf.sqlt == W::tag()
            &&& buf.lens@.len() == values@.len()
            &&& buf.offsets@.len() == values@.len()
        },
        r matches Ok(buf) ==> (T::slot_size() matches Some(n) ==> {
            &&& buf.data@.len() == n * values@.len()
            &&& forall|i: int| 0 <= i < values@.len() ==> #[trigger] buf.offsets@[i] == i * n
        }),
{
    let sqlt = W::oci_sqlt();
    let contract = W::oci_capped_size();
    let slot = T::oci_capped_size();
    let consistent = match contract {
        Some(c) => match slot {
            Some(n) => n <= c,
            None => false,
        },
        None => true,
    };
    if !consistent {
        return Err(BindError::CappedSizeMismatch { col, sqlt, contract, adapter: slot });
    }
    let ghost vals = values@;
    let ghost imgs = images::<W, T>(vals);
    let mut data: Vec<u8> = Vec::new();
    let mut lens: Vec<u16> = Vec::new();
    let mut offsets: Vec<usize> = Vec::new();
    let mut i: usize = 0;
    while i < values.len()
        invariant
            vals == values@,
            imgs == images::<W, T>(vals),
            slot == T::slot_size(),
            sqlt == W::tag(),
            caps_consistent(W::capped(), T::slot_size()),
            i <= vals.len(),
            forall|j: int| 0 <= j < i ==> row_fits(#[trigger] vals[j].encoding(), slot),
            data@ == concat(imgs.take(i as int)),
            lens@ == written_lens::<W, T>(vals).take(i as int),
            offsets@.len() == i,
            forall|j: int|
                0 <= j < i ==> #[trigger] offsets@[j] == slot_offsets::<W, T>(vals)[j],
        decreases vals.len() - i,
    {
        match encode_row(&values[i], slot, col, i, sqlt) {
            Err(e) => {
                return Err(e);
            },
            Ok((w, img)) => {
                let mut img = img;
                proof {
                    lemma_concat_take(imgs, i as int);
                }
                offsets.push(data.len());
                lens.push(w);
                data.append(&mut img);
                i = i + 1;
                assert(lens@ =~= written_lens::<W, T>(vals).take(i as int));
            },
        }
    }
    assert(imgs.take(vals.len() as int) =~= imgs);
    proof {
        if let Some(n) = slot {
            lemma_fixed_layout::<W, T>(vals, n);
        }
    }
    assert(lens@ =~= written_lens::<W, T>(vals));
    Ok(ColumnBuffer { col, sqlt, slot_size: slot, data, lens, offsets })
}

proof fn lemma_concat_uniform(s: Seq<Seq<u8>>, n: nat)
    requires
        forall|k: int| 0 <= k < s.len() ==> (#[trigger] s[k]).len() == n,
    ensures
        concat(s).len() == s.len() * n,
    decreases s.len(),
{
    if s.len() > 0 {
        lemma_concat_uniform(s.drop_last(), n);
        assert((s.len() - 1) * n + n == s.len() * n) by (nonlinear_arith);
    }
}

/// In a fixed-size column whose rows all fit, the buffer holds exactly one
/// slot of `n` bytes per row, and row `i` starts at byte `i * n`.
pub proof fn lemma_fixed_layout<W: WireType, T: AsOci<W>>(vals: Seq<T>, n: u16)
    requires
        T::slot_size() == Some(n),
        all_fit(vals),
    ensures
        concat(images(vals)).len() == n * vals.len(),
        forall|i: int| 0 <= i < vals.len() ==> #[trigger] slot_offsets(vals)[i] == i * n,
{
    let imgs = images(vals);
    assert forall|k: int| 0 <= k < imgs.len() implies (#[trigger] imgs[k]).len() == n by {
        assert(row_fits(vals[k].encoding(), T::slot_size()));
    }
    lemma_concat_uniform(imgs, n as nat);
    assert forall|i: int| 0 <= i < vals.len() implies #[trigger] slot_offsets(vals)[i] == i * n by {
        let pre = imgs.take(i);
        assert forall|k: int| 0 <= k < pre.len() implies (#[trigger] pre[k]).len() == n by {
            assert(pre[k] == imgs[k]);
        }
        lemma_concat_uniform(pre, n as nat);
    }
}

/// Writing a value whose encoding fits a fixed slot leaves the slot's length
/// unchanged, and the reported byte count is within the slot size, which is
/// itself within the wire type's cap.
pub proof fn lemma_write_within_slot<W: WireType, T: AsOci<W>>(v: T, slot: Seq<u8>)
    requires
        caps_consistent(W::capped(), T::slot_size()),
        T::slot_size() is Some,
        row_fits(v.encoding(), T::slot_size()),
        slot.len() == T::slot_size().unwrap(),
    ensures
        slot_after(v.encoding(), slot).len() == slot.len(),
        write_report(v.encoding()) matches Ok(c) && c <= slot.len(),
        W::capped() matches Some(cap) ==> slot.len() <= cap,
{
}

/// Writing a value again into the slot it was just written to changes
/// nothing; in particular two writes of one value into fresh zeroed slots of
/// one size give the same bytes.
pub proof fn lemma_rewrite_idempotent<W: WireType, T: AsOci<W>>(v: T, slot: Seq<u8>)
    ensures
        slot_after(v.encoding(), slot_after(v.encoding(), slot)) == slot_after(
            v.encoding(),
            slot,
        ),
{
    if let Some(b) = v.encoding() {
        if b.len() <= slot.len() {
            let once = b + slot.skip(b.len() as int);
            assert(once.skip(b.len() as int) =~= slot.skip(b.len() as int));
            assert(b + once.skip(b.len() as int) =~= once);
        }
    }
}

/// A column of no rows binds, wherever the adapter agrees with the cap, to an
/// empty buffer.
pub proof fn lemma_empty_column<W: WireType, T: AsOci<W>>(
    col: u16,
    r: Result<ColumnBuffer, BindError>,
)
    requires
        caps_consistent(W::capped(), T::slot_size()),
        bind_outcome::<W, T>(col, Seq::<T>::empty(), r),
    ensures
        r matches Ok(buf) && buf.data@.len() == 0 && buf.lens@.len() == 0,
{
    let vals = Seq::<T>::empty();
    assert(all_fit(vals));
    assert(images(vals) =~= Seq::<Seq<u8>>::empty());
    assert(written_lens(vals) =~= Seq::<u16>::empty());
}

/// A column whose slots are zero bytes binds, wherever every value's encoding
/// is empty, to an empty buffer whatever the row count.
pub proof fn lemma_zero_slot_column<W: WireType, T: AsOci<W>>(
    col: u16,
    vals: Seq<T>,
    r: Result<ColumnBuffer, BindError>,
)
    requires
        caps_consistent(W::capped(), T::slot_size()),
        T::slot_size() == Some(0u16),
        forall|i: int| 0 <= i < vals.len() ==> #[trigger] vals[i].encoding() == Some(Seq::<u8>::empty()),
        bind_outcome::<W, T>(col, vals, r),
    ensures
        r matches Ok(buf) && buf.data@.len() == 0 && buf.lens@.len() == vals.len(),
{
    assert forall|i: int| 0 <= i < vals.len() implies row_fits(#[trigger] vals[i].encoding(), T::slot_size()) by {
        assert(vals[i].encoding() == Some(Seq::<u8>::empty()));
    }
    if let Err(e) = r {
        match e {
            BindError::UnimplementedAdapter { row, .. } => {
                assert(row_fits(vals[row as int].encoding(), T::slot_size()));
            },
            BindError::EncodingOverflow { row, .. } => {
                assert(row_fits(vals[row as int].encoding(), T::slot_size()));
            },
            _ => {},
        }
    }
    lemma_fixed_layout::<W, T>(vals, 0);
}

} // verus!
