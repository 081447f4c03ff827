//! The frame in which the configuration of the ledger is kept across an
//! upgrade: the length of the data as a 32-bit little-endian number, then the
//! data.

use crate::codec::put_raw;
use vstd::bytes::{
    lemma_auto_spec_u32_to_from_le_bytes, spec_u32_from_le_bytes, spec_u32_to_le_bytes,
    u32_from_le_bytes, u32_to_le_bytes,
};
use vstd::prelude::*;
use vstd::slice::slice_subrange;

verus! {

/// The frame of `data`: its length, then `data` itself.
pub open spec fn framed(data: Seq<u8>) -> Seq<u8> {
    spec_u32_to_le_bytes(data.len() as u32) + data
}

/// The data that the frame at the start of `memory` holds, if `memory`
/// starts with a whole frame.
pub open spec fn unframed(memory: Seq<u8>) -> Option<Seq<u8>> {
    if memory.len() < 4 {
        None
    } else {
        let len = spec_u32_from_le_bytes(memory.take(4));
        if memory.len() - 4 < len {
            None
        } else {
            Some(memory.subrange(4, 4 + len))
        }
    }
}

/// The frame of `data`, if the length of `data` fits into 32 bits.
pub fn frame_state(data: &Vec<u8>) -> (r: Option<Vec<u8>>)
    ensures
        r is Some <==> data@.len() <= u32::MAX,
        r matches Some(frame) ==> frame@ == framed(data@),
{
    if data.len() > u32::MAX as usize {
        return None;
    }
    let mut out = u32_to_le_bytes(data.len() as u32);
    put_raw(&mut out, data.as_slice());
    Some(out)
}

/// The data of the frame at the start of `memory`, if `memory` starts with a
/// whole frame. What follows the frame is ignored.
pub fn unframe_state(memory: &[u8]) -> (r: Option<Vec<u8>>)
    ensures
        match unframed(memory@) {
            Some(data) => r matches Some(v) && v@ == data,
            None => r is None,
        },
{
    if memory.len() < 4 {
        return None;
    }
    let head = slice_subrange(memory, 0, 4);
    assert(head@ =~= memory@.take(4));
    let len = u32_from_le_bytes(head) as usize;
    if memory.len() - 4 < len {
        return None;
    }
    let mut out: Vec<u8> = Vec::new();
    put_raw(&mut out, slice_subrange(memory, 4, 4 + len));
    assert(out@ =~= memory@.subrange(4, 4 + len));
    Some(out)
}

/// Unframing gives back what was framed, whatever follows the frame.
pub proof fn law_frame_round_trip(data: Seq<u8>, rest: Seq<u8>)
    requires
        data.len() <= u32::MAX,
    ensures
        unframed(framed(data) + rest) == Some(data),
{
    lemma_auto_spec_u32_to_from_le_bytes();
    let memory = framed(data) + rest;
    let head = spec_u32_to_le_bytes(data.len() as u32);
    assert(memory.take(4) =~= head);
    assert(memory.subrange(4, 4 + data.len() as int) =~= data);
}

} // verus!
