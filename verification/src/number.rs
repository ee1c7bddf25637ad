//! Big-endian and checksum helpers shared by the message framing layer.

use vstd::prelude::*;

verus! {

/// Exclusive-or of every byte of `s`: the longitudinal redundancy check that
/// closes each message envelope.
pub open spec fn spec_lrc(s: Seq<u8>) -> u8
    decreases s.len(),
{
    if s.len() == 0 {
        0u8
    } else {
        spec_lrc(s.drop_last()) ^ s.last()
    }
}

/// The LEN field for an envelope of `byte_size` bytes counted without the LEN
/// field itself.  The stored value is the total envelope size, LEN field
/// included: one byte when that fits under 0x80, else a 0x81 or 0x82 marker
/// followed by the value itself.
pub open spec fn spec_length_field(byte_size: nat) -> Seq<u8> {
    if byte_size + 1 <= 0x7f {
        seq![(byte_size + 1) as u8]
    } else if byte_size + 2 <= 0xff {
        seq![0x81u8, (byte_size + 2) as u8]
    } else {
        seq![0x82u8, (((byte_size + 3) / 256) as u8), (((byte_size + 3) % 256) as u8)]
    }
}

/// Reads a 16-bit big-endian value from the first two bytes of `array`.
pub fn to_u16_big_endian(array: &[u8]) -> (r: Option<u16>)
    ensures
        array@.len() >= 2 ==> r == Some((array@[0] * 256 + array@[1]) as u16),
        array@.len() < 2 ==> r is None,
{
    if array.len() < 2 {
        return None;
    }
    let first_part: u8 = array[0];
    let second_part: u8 = array[1];
    Some((first_part as u16) * 256 + second_part as u16)
}

/// Splits a 16-bit value into its two big-endian bytes.
pub fn get_bytes_big_endian(value: u16) -> (r: Vec<u8>)
    ensures
        r@ =~= seq![(value / 256) as u8, (value % 256) as u8],
{
    let mut out: Vec<u8> = Vec::new();
    out.push((value / 256) as u8);
    out.push((value % 256) as u8);
    out
}

/// Encodes the LEN field for an envelope of `byte_size` bytes (the LEN field
/// itself not yet counted).
pub fn calculate_length_field(byte_size: usize) -> (r: Vec<u8>)
    requires
        byte_size + 3 <= 0xffff,
    ensures
        r@ =~= spec_length_field(byte_size as nat),
{
    if byte_size + 1 <= 0x7f {
        let mut out: Vec<u8> = Vec::new();
        out.push((byte_size + 1) as u8);
        out
    } else if byte_size + 2 <= 0xff {
        let mut out: Vec<u8> = Vec::new();
        out.push(0x81);
        out.push((byte_size + 2) as u8);
        out
    } else {
        let total: usize = byte_size + 3;
        let mut out: Vec<u8> = Vec::new();
        out.push(0x82);
        out.push((total / 256) as u8);
        out.push((total % 256) as u8);
        out
    }
}

/// Exclusive-ors every byte of `buf`.
pub fn calculate_lrc(buf: &[u8]) -> (r: u8)
    ensures
        r == spec_lrc(buf@),
{
    let mut lrc: u8 = 0;
    let mut i: usize = 0;
    while i < buf.len()
        invariant
            i <= buf@.len(),
            lrc == spec_lrc(buf@.take(i as int)),
        decreases buf@.len() - i,
    {
        proof {
            assert(buf@.take(i + 1).drop_last() =~= buf@.take(i as int));
        }
        lrc = lrc ^ buf[i];
        i = i + 1;
    }
    proof {
        assert(buf@.take(buf@.len() as int) =~= buf@);
    }
    lrc
}

/// Decodes the LEN field found at `offset`: the announced total envelope
/// length together with the index of the first byte after the LEN field.
pub fn get_message_length(buf: &[u8], offset: usize) -> (r: Option<(u16, usize)>)
    requires
        offset + 4 <= buf@.len(),
    ensures
        buf@[offset as int] == 0x81 ==> r == Some((buf@[offset + 1] as u16, (offset + 2) as usize)),
        buf@[offset as int] == 0x82 ==> r == Some(
            ((buf@[offset + 1] * 256 + buf@[offset + 2]) as u16, (offset + 3) as usize),
        ),
        buf@[offset as int] != 0x81 && buf@[offset as int] != 0x82 ==> r == Some(
            (buf@[offset as int] as u16, (offset + 1) as usize),
        ),
{
    if buf[offset] == 0x81 {
        Some((buf[offset + 1] as u16, offset + 2))
    } else if buf[offset] == 0x82 {
        match to_u16_big_endian(&buf[(offset + 1)..(offset + 3)]) {
            Some(v) => Some((v, offset + 3)),
            None => None,
        }
    } else {
        Some((buf[offset] as u16, offset + 1))
    }
}

} // verus!
