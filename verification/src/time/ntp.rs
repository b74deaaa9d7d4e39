//! SNTPv4 client packet encoding & decoding.
//!
//! Only the bits actually needed (client → server query, server → client
//! response with the "transmit timestamp"). Everything else is left as zero.

use vstd::prelude::*;

verus! {

/// Seconds between 1900-01-01 (NTP epoch) and 1970-01-01 (Unix epoch).
pub const NTP_UNIX_EPOCH_OFFSET: u64 = 2_208_988_800;

pub const NTP_PACKET_LEN: usize = 48;

#[derive(Clone, Copy, Debug)]
pub struct NtpRequest;

/// The client request: `LI=0`, `VN=4`, `Mode=3` in the first byte, then
/// zeros.
pub open spec fn request_bytes() -> Seq<u8> {
    Seq::new(NTP_PACKET_LEN as nat, |i: int| if i == 0 { 0x23u8 } else { 0u8 })
}

/// The big-endian `u32` at byte `at` of `s`.
pub open spec fn from_be32_at(s: Seq<u8>, at: int) -> u32 {
    (((s[at] as u32) << 24u32) | ((s[at + 1] as u32) << 16u32) | ((s[at + 2] as u32) << 8u32)
        | (s[at + 3] as u32)) as u32
}

/// What `parse_ntp_response` reads from a response: `None` for a short
/// packet, a zero stratum (kiss-of-death / unspecified) or a zero transmit
/// timestamp, else the transmit seconds moved to the Unix epoch.
pub open spec fn ntp_response_spec(buf: Seq<u8>) -> Option<i64> {
    if buf.len() < NTP_PACKET_LEN {
        None
    } else if buf[1] == 0 {
        None
    } else if from_be32_at(buf, 40) == 0 {
        None
    } else {
        Some((from_be32_at(buf, 40) - NTP_UNIX_EPOCH_OFFSET) as i64)
    }
}

impl NtpRequest {
    /// Build the raw 48-byte client request payload.
    ///
    /// First byte:  `LI (2 bits) | VN (3 bits) | Mode (3 bits)`
    /// We send `LI=0`, `VN=4`, `Mode=3` (client) which is `0b00_100_011 = 0x23`.
    /// Everything else stays zero — servers don't need any client timestamps
    /// for a basic SNTP request.
    pub fn to_bytes() -> (buf: [u8; NTP_PACKET_LEN])
        ensures
            buf@ == request_bytes(),
    {
        let mut buf = [0u8; NTP_PACKET_LEN];
        buf[0] = 0x23;
        assert(buf@ =~= request_bytes());
        buf
    }
}

/// Extract the unix timestamp (seconds) from a 48-byte SNTP response.
///
/// Looks at the "Transmit Timestamp" field at byte offset 40..44 (seconds
/// since 1900-01-01) and subtracts the 1900→1970 offset. Returns `None` if
/// the response is too short, the stratum is zero (servers use that for
/// "kiss-of-death" replies), or the seconds field is zero (which servers use
/// when they cannot provide a valid timestamp).
pub fn parse_ntp_response(buf: &[u8]) -> (r: Option<i64>)
    ensures
        r == ntp_response_spec(buf@),
{
    if buf.len() < NTP_PACKET_LEN {
        return None;
    }
    let stratum = buf[1];
    if stratum == 0 {
        return None;
    }
    let seconds_1900 = ((buf[40] as u32) << 24) | ((buf[41] as u32) << 16) | ((buf[42] as u32)
        << 8) | (buf[43] as u32);
    if seconds_1900 == 0 {
        return None;
    }
    Some(seconds_1900 as i64 - NTP_UNIX_EPOCH_OFFSET as i64)
}

/// A response from a synchronised server whose transmit timestamp carries
/// unix second `unix` (in big-endian NTP seconds) parses back to `unix`.
pub proof fn lemma_transmit_timestamp_roundtrip(buf: Seq<u8>, unix: int)
    requires
        buf.len() >= NTP_PACKET_LEN,
        buf[1] != 0,
        0 < unix + NTP_UNIX_EPOCH_OFFSET <= u32::MAX,
        ({
            let s = (unix + NTP_UNIX_EPOCH_OFFSET) as u32;
            &&& buf[40] == (s >> 24u32) as u8
            &&& buf[41] == (s >> 16u32) as u8
            &&& buf[42] == (s >> 8u32) as u8
            &&& buf[43] == s as u8
        }),
    ensures
        ntp_response_spec(buf) == Some(unix as i64),
{
    let s = (unix + NTP_UNIX_EPOCH_OFFSET) as u32;
    let b0 = buf[40];
    let b1 = buf[41];
    let b2 = buf[42];
    let b3 = buf[43];
    assert((((b0 as u32) << 24u32) | ((b1 as u32) << 16u32) | ((b2 as u32) << 8u32) | (b3 as u32))
        == s) by (bit_vector)
        requires
            b0 == (s >> 24u32) as u8,
            b1 == (s >> 16u32) as u8,
            b2 == (s >> 8u32) as u8,
            b3 == s as u8,
    ;
}

} // verus!
