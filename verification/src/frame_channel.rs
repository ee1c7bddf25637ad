//! Fixed-size HID report layout: a logical byte string travels as a run of
//! 65-byte host reports, each carrying up to 63 payload bytes behind a report
//! identifier and a length byte; a device report is 64 bytes with the length
//! in front.

use vstd::prelude::*;

use crate::error::ByteChannelError;

verus! {

/// The 65-byte host report that carries `chunk`: report identifier zero, the
/// chunk's length, the chunk, and zero padding.
pub open spec fn spec_report(chunk: Seq<u8>) -> Seq<u8> {
    seq![0u8, chunk.len() as u8] + chunk + Seq::new((63 - chunk.len()) as nat, |i: int| 0u8)
}

/// Builds the 65-byte host report for one chunk of at most 63 bytes.
pub fn build_report(chunk: &[u8]) -> (r: Vec<u8>)
    requires
        chunk@.len() <= 63,
    ensures
        r@ == spec_report(chunk@),
        r@.len() == 65,
{
    let mut frame: Vec<u8> = Vec::new();
    frame.push(0x00);
    frame.push(chunk.len() as u8);
    let mut body = vstd::slice::slice_to_vec(chunk);
    frame.append(&mut body);
    let ghost padded_from = frame@.len();
    while frame.len() < 65
        invariant
            padded_from == 2 + chunk@.len(),
            padded_from <= frame@.len() <= 65,
            frame@.subrange(0, padded_from as int) == seq![0u8, chunk@.len() as u8] + chunk@,
            forall|i: int| padded_from <= i < frame@.len() ==> frame@[i] == 0u8,
        decreases 65 - frame@.len(),
    {
        frame.push(0x00);
        proof {
            assert(frame@.subrange(0, padded_from as int) =~= seq![0u8, chunk@.len() as u8]
                + chunk@);
        }
    }
    proof {
        assert(frame@ =~= spec_report(chunk@));
    }
    frame
}

/// The payload of a 64-byte device report: its first byte announces how many
/// of the following bytes are payload.
pub fn report_payload(buf: &[u8]) -> (r: Result<Vec<u8>, ByteChannelError>)
    requires
        buf@.len() == 64,
    ensures
        buf@[0] <= 63 ==> (r matches Ok(p) && p@ == buf@.subrange(1, 1 + buf@[0] as int)),
        buf@[0] > 63 ==> r is Err,
{
    let m_len = buf[0] as usize;
    if m_len > 63 {
        return Err(ByteChannelError::Other("incorrect report length".to_owned()));
    }
    Ok(vstd::slice::slice_to_vec(vstd::slice::slice_subrange(buf, 1, m_len + 1)))
}

} // verus!
