//! The flat binary image of a program laid out in memory.

use vstd::prelude::*;
use vstd::bytes::{spec_u64_to_le_bytes, u64_to_le_bytes};
use crate::assembler::{Exec, ExecView, SByte, SByteView};
use crate::seqs::views;

verus! {

broadcast use crate::seqs::group_views;

/// The byte that stands in the image for `b`: a byte of data is the low
/// eight bits of its character, a byte of an instruction is 0.
pub open spec fn raw_byte(b: SByteView) -> u8 {
    match b {
        SByteView::Byte(c) => c as u8,
        _ => 0,
    }
}

/// The bytes that stand in the image for `bs`.
pub open spec fn raw_bytes(bs: Seq<SByteView>) -> Seq<u8>
    decreases bs.len(),
{
    if bs.len() == 0 {
        seq![]
    } else {
        raw_bytes(bs.drop_last()).push(raw_byte(bs.last()))
    }
}

/// The image of `exec`: the length of the code, the length of the data and
/// the entry address, each as eight bytes with the least significant first,
/// then the code, then the data.
pub open spec fn image_of(exec: ExecView) -> Seq<u8> {
    spec_u64_to_le_bytes(exec.text_seg.len() as u64) + spec_u64_to_le_bytes(
        exec.data_seg.len() as u64,
    ) + spec_u64_to_le_bytes(exec.entry as u64) + raw_bytes(exec.text_seg) + raw_bytes(
        exec.data_seg,
    )
}

/// An image has as many bytes as what it stands for.
pub proof fn lemma_raw_bytes_len(bs: Seq<SByteView>)
    ensures
        raw_bytes(bs).len() == bs.len(),
    decreases bs.len(),
{
    if bs.len() > 0 {
        lemma_raw_bytes_len(bs.drop_last());
    }
}

/// Appends the bytes that stand in the image for `seg` to `out`.
fn push_raw(out: &mut Vec<u8>, seg: &Vec<SByte>)
    ensures
        final(out)@ == old(out)@ + raw_bytes(views(seg@)),
{
    let ghost bs = views(seg@);
    let mut i: usize = 0;
    assert(bs.take(0) =~= seq![]);
    assert(out@ =~= old(out)@ + raw_bytes(bs.take(0)));
    while i < seg.len()
        invariant
            i <= seg.len(),
            bs == views(seg@),
            out@ == old(out)@ + raw_bytes(bs.take(i as int)),
        decreases seg.len() - i,
    {
        assert(bs.take(i as int + 1).drop_last() == bs.take(i as int));
        assert(bs.take(i as int + 1).last() == seg@[i as int]@);
        let b: u8 = match &seg[i] {
            SByte::Byte(c) => *c as u8,
            SByte::InsB0(_) => 0u8,
            SByte::InsFrag => 0u8,
        };
        out.push(b);
        assert(out@ =~= old(out)@ + raw_bytes(bs.take(i as int + 1)));
        i += 1;
    }
    assert(bs.take(i as int) == bs);
}

/// The image of `exec`.
pub fn image(exec: &Exec) -> (r: Vec<u8>)
    ensures
        r@ == image_of(exec@),
{
    let mut out: Vec<u8> = u64_to_le_bytes(exec.text_seg.len() as u64);
    let mut data_len = u64_to_le_bytes(exec.data_seg.len() as u64);
    out.append(&mut data_len);
    let mut entry = u64_to_le_bytes(#[verifier::truncate] (exec.entry as u64));
    out.append(&mut entry);
    push_raw(&mut out, &exec.text_seg);
    push_raw(&mut out, &exec.data_seg);
    out
}

} // verus!
