//! Byte-level building blocks shared by every MSU2 packet: big-endian field
//! splitting, the 390-byte "64 groups of 4 data bytes + footer" frame, and
//! searching a reply buffer for an expected byte sequence.

use vstd::prelude::*;

verus! {

/// High byte of a big-endian 16-bit field.
pub open spec fn hi_byte(value: u16) -> u8 {
    (value / 256) as u8
}

/// Low byte of a big-endian 16-bit field.
pub open spec fn lo_byte(value: u16) -> u8 {
    (value % 256) as u8
}

/// Byte 2 (bits 16..24) of a 24-bit address or page number.
pub open spec fn addr_byte_hi(value: u32) -> u8 {
    ((value / 65536) % 256) as u8
}

/// Byte 1 (bits 8..16) of a 24-bit address or page number.
pub open spec fn addr_byte_mid(value: u32) -> u8 {
    ((value / 256) % 256) as u8
}

/// Byte 0 (bits 0..8) of a 24-bit address or page number.
pub open spec fn addr_byte_lo(value: u32) -> u8 {
    (value % 256) as u8
}

pub fn hi16(value: u16) -> (r: u8)
    ensures
        r == hi_byte(value),
{
    assert(((value >> 8u16) & 0xffu16) == value / 256) by (bit_vector);
    ((value >> 8) & 0xff) as u8
}

pub fn lo16(value: u16) -> (r: u8)
    ensures
        r == lo_byte(value),
{
    assert((value & 0xffu16) == value % 256) by (bit_vector);
    (value & 0xff) as u8
}

/// Byte 2 (bits 16..24) of a 24-bit address or page number.
pub fn addr_hi(value: u32) -> (r: u8)
    ensures
        r == addr_byte_hi(value),
{
    assert(((value >> 16u32) & 0xffu32) == (value / 65536) % 256) by (bit_vector);
    ((value >> 16) & 0xff) as u8
}

/// Byte 1 (bits 8..16) of a 24-bit address or page number.
pub fn addr_mid(value: u32) -> (r: u8)
    ensures
        r == addr_byte_mid(value),
{
    assert(((value >> 8u32) & 0xffu32) == (value / 256) % 256) by (bit_vector);
    ((value >> 8) & 0xff) as u8
}

/// Byte 0 (bits 0..8) of a 24-bit address or page number.
pub fn addr_lo(value: u32) -> (r: u8)
    ensures
        r == addr_byte_lo(value),
{
    assert((value & 0xffu32) == value % 256) by (bit_vector);
    (value & 0xff) as u8
}

/// Recombining the two bytes of a big-endian field gives the value back.
pub proof fn lemma_hi_lo_roundtrip(value: u16)
    ensures
        hi_byte(value) as int * 256 + lo_byte(value) as int == value as int,
{
}

/// Recombining the three low bytes of a 24-bit number gives the number back.
pub proof fn lemma_24bit_roundtrip(value: u32)
    requires
        value < 0x0100_0000,
    ensures
        addr_byte_hi(value) as int * 65536 + addr_byte_mid(value) as int * 256
            + addr_byte_lo(value) as int == value as int,
{
}

/// The 384-byte body of a data frame: 64 groups `04 index d0 d1 d2 d3`
/// carrying the 256 data bytes in order.
pub open spec fn frame_body_ok(frame: Seq<u8>, data: Seq<u8>) -> bool {
    &&& frame.len() >= 384
    &&& forall|g: int|
        0 <= g < 64 ==> {
            &&& #[trigger] frame[6 * g] == 0x04
            &&& frame[6 * g + 1] == g as u8
            &&& frame[6 * g + 2] == data[4 * g]
            &&& frame[6 * g + 3] == data[4 * g + 1]
            &&& frame[6 * g + 4] == data[4 * g + 2]
            &&& frame[6 * g + 5] == data[4 * g + 3]
        }
}

/// The full 390-byte data frame: body then the 6-byte footer command.
pub open spec fn data_frame(data: Seq<u8>, footer: Seq<u8>) -> Seq<u8> {
    Seq::new(
        390,
        |i: int|
            if i >= 384 {
                footer[i - 384]
            } else if i % 6 == 0 {
                0x04u8
            } else if i % 6 == 1 {
                (i / 6) as u8
            } else {
                data[4 * (i / 6) + (i % 6) - 2]
            },
    )
}

/// Builds the 390-byte frame that streams 256 data bytes followed by `footer`.
pub fn build_data_frame(data: &[u8; 256], footer: [u8; 6]) -> (r: [u8; 390])
    ensures
        r@ == data_frame(data@, footer@),
        frame_body_ok(r@, data@),
{
    let mut packet = [0u8; 390];
    let mut index: usize = 0;
    while index < 64
        invariant
            index <= 64,
            packet@.len() == 390,
            forall|i: int|
                0 <= i < 6 * index ==> packet@[i] == #[trigger] data_frame(data@, footer@)[i],
        decreases 64 - index,
    {
        let src = index * 4;
        let dst = index * 6;
        packet[dst] = 0x04;
        packet[dst + 1] = index as u8;
        packet[dst + 2] = data[src];
        packet[dst + 3] = data[src + 1];
        packet[dst + 4] = data[src + 2];
        packet[dst + 5] = data[src + 3];
        proof {
            assert forall|i: int| 0 <= i < 6 * (index + 1) implies packet@[i]
                == #[trigger] data_frame(data@, footer@)[i] by {
                if i >= 6 * index {
                    assert(i / 6 == index as int);
                    assert(i % 6 == i - 6 * index);
                }
            }
        }
        index = index + 1;
    }
    packet[384] = footer[0];
    packet[385] = footer[1];
    packet[386] = footer[2];
    packet[387] = footer[3];
    packet[388] = footer[4];
    packet[389] = footer[5];
    assert(packet@ =~= data_frame(data@, footer@));
    proof {
        assert forall|g: int| 0 <= g < 64 implies {
            &&& #[trigger] packet@[6 * g] == 0x04
            &&& packet@[6 * g + 1] == g as u8
            &&& packet@[6 * g + 2] == data@[4 * g]
            &&& packet@[6 * g + 3] == data@[4 * g + 1]
            &&& packet@[6 * g + 4] == data@[4 * g + 2]
            &&& packet@[6 * g + 5] == data@[4 * g + 3]
        } by {
            assert((6 * g) / 6 == g && (6 * g) % 6 == 0);
            assert((6 * g + 1) / 6 == g && (6 * g + 1) % 6 == 1);
            assert((6 * g + 2) / 6 == g && (6 * g + 2) % 6 == 2);
            assert((6 * g + 3) / 6 == g && (6 * g + 3) % 6 == 3);
            assert((6 * g + 4) / 6 == g && (6 * g + 4) % 6 == 4);
            assert((6 * g + 5) / 6 == g && (6 * g + 5) % 6 == 5);
        }
    }
    packet
}

/// `needle` occurs as a contiguous run starting at `start` in `haystack`.
pub open spec fn occurs_at(haystack: Seq<u8>, needle: Seq<u8>, start: int) -> bool {
    &&& 0 <= start
    &&& start + needle.len() <= haystack.len()
    &&& haystack.subrange(start, start + needle.len()) == needle
}

/// A non-empty `needle` occurs somewhere in `haystack`.
pub open spec fn contains_seq(haystack: Seq<u8>, needle: Seq<u8>) -> bool {
    needle.len() > 0 && exists|start: int| occurs_at(haystack, needle, start)
}

fn matches_at(haystack: &[u8], needle: &[u8], start: usize) -> (r: bool)
    requires
        start + needle@.len() <= haystack@.len(),
    ensures
        r == occurs_at(haystack@, needle@, start as int),
{
    let mut k: usize = 0;
    let hlen = haystack.len();
    while k < needle.len()
        invariant
            k <= needle@.len(),
            hlen == haystack@.len(),
            start + needle@.len() <= haystack@.len(),
            forall|j: int| 0 <= j < k ==> haystack@[start + j] == needle@[j],
        decreases needle@.len() - k,
    {
        if haystack[start + k] != needle[k] {
            assert(haystack@.subrange(start as int, start + needle@.len())[k as int] != needle@[k as int]);
            return false;
        }
        k = k + 1;
    }
    assert(haystack@.subrange(start as int, start + needle@.len()) =~= needle@);
    true
}

/// Whether a reply buffer contains the expected (non-empty) byte sequence.
pub fn contains_sequence(haystack: &[u8], needle: &[u8]) -> (r: bool)
    ensures
        r == contains_seq(haystack@, needle@),
{
    if needle.len() == 0 || haystack.len() < needle.len() {
        if needle.len() > 0 {
            assert forall|s: int| !occurs_at(haystack@, needle@, s) by {}
        }
        return false;
    }
    let hlen = haystack.len();
    let last = hlen - needle.len();
    let mut start: usize = 0;
    while start <= last
        invariant
            hlen == haystack@.len(),
            last == haystack@.len() - needle@.len(),
            last + 1 <= haystack@.len(),
            needle@.len() > 0,
            start <= last + 1,
            forall|s: int| 0 <= s < start ==> !occurs_at(haystack@, needle@, s),
        decreases last + 1 - start,
    {
        if matches_at(haystack, needle, start) {
            return true;
        }
        start = start + 1;
    }
    assert forall|s: int| !occurs_at(haystack@, needle@, s) by {
        if 0 <= s && s < start {
        }
    }
    false
}

} // verus!
