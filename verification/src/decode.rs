//! Pure frame decoding: classifies a raw link-layer frame and extracts the
//! network-layer source and destination addresses together with the capture
//! timestamp.

use vstd::prelude::*;

use crate::text::{ipv4_string, ipv4_text, ipv6_string, ipv6_text};

verus! {

/// Capture metadata delivered with each frame: the capture time as a
/// seconds + microseconds pair since the Unix epoch.
#[derive(Clone, Copy, PartialEq, Eq, Structural, Debug)]
pub struct CaptureMeta {
    pub secs: i64,
    pub micros: i64,
}

/// One successfully decoded IP frame: textual source and destination
/// addresses and the capture time in milliseconds since the Unix epoch.
#[derive(Clone, Debug)]
pub struct CaptureRecord {
    pub source: String,
    pub destination: String,
    pub timestamp_ms: i64,
}

/// Why a frame produced no record: its envelope or IP header was truncated
/// or unrecognized, or it carries no IP payload at all.
#[derive(Clone, Copy, PartialEq, Eq, Structural, Debug)]
pub enum DecodeError {
    Malformed,
    NotIp,
}

/// The EtherType field of a frame with a complete link-layer header.
pub open spec fn ether_type(f: Seq<u8>) -> int {
    f[12] * 256 + f[13]
}

/// An IPv4 frame complete enough to decode: Ethernet envelope with the IPv4
/// EtherType, version nibble 4, a plausible header length, and both
/// addresses present.
pub open spec fn is_ipv4_frame(f: Seq<u8>) -> bool {
    &&& f.len() >= 34
    &&& ether_type(f) == 0x0800
    &&& f[14] / 16 == 4
    &&& f[14] % 16 >= 5
}

/// An IPv6 frame complete enough to decode: Ethernet envelope with the IPv6
/// EtherType, version nibble 6, and the full fixed header present.
pub open spec fn is_ipv6_frame(f: Seq<u8>) -> bool {
    &&& f.len() >= 54
    &&& ether_type(f) == 0x86DD
    &&& f[14] / 16 == 6
}

/// A frame whose envelope is intact but whose payload is not IP at all.
pub open spec fn frame_not_ip(f: Seq<u8>) -> bool {
    f.len() >= 14 && ether_type(f) != 0x0800 && ether_type(f) != 0x86DD
}

/// A truncated or unrecognized frame: the envelope itself is short, or the
/// announced IP payload does not decode.
pub open spec fn frame_malformed(f: Seq<u8>) -> bool {
    ||| f.len() < 14
    ||| (f.len() >= 14 && ether_type(f) == 0x0800 && !is_ipv4_frame(f))
    ||| (f.len() >= 14 && ether_type(f) == 0x86DD && !is_ipv6_frame(f))
}

/// A frame that decodes to a record.
pub open spec fn decode_ok(f: Seq<u8>) -> bool {
    is_ipv4_frame(f) || is_ipv6_frame(f)
}

/// The eight 16-bit big-endian groups of an IPv6 address read at byte
/// offset `off` of the frame.
pub open spec fn v6_groups(f: Seq<u8>, off: int) -> Seq<u16> {
    Seq::new(8, |i: int| (f[off + 2 * i] * 256 + f[off + 2 * i + 1]) as u16)
}

/// Text of the source address of a decodable frame.
pub open spec fn spec_source(f: Seq<u8>) -> Seq<char> {
    if is_ipv4_frame(f) {
        ipv4_text(f[26] as int, f[27] as int, f[28] as int, f[29] as int)
    } else {
        ipv6_text(v6_groups(f, 22))
    }
}

/// Text of the destination address of a decodable frame.
pub open spec fn spec_destination(f: Seq<u8>) -> Seq<char> {
    if is_ipv4_frame(f) {
        ipv4_text(f[30] as int, f[31] as int, f[32] as int, f[33] as int)
    } else {
        ipv6_text(v6_groups(f, 38))
    }
}

/// Capture time in whole milliseconds: seconds scaled, microseconds floored.
pub open spec fn spec_timestamp_ms(meta: CaptureMeta) -> int {
    meta.secs * 1000 + meta.micros / 1000
}

/// Metadata whose millisecond value fits the record's field.
pub open spec fn meta_in_range(meta: CaptureMeta) -> bool {
    0 <= meta.secs && 0 <= meta.micros && spec_timestamp_ms(meta) <= i64::MAX
}

/// Reads the eight big-endian groups of an IPv6 address at `off`.
fn read_groups(frame: &Vec<u8>, off: usize) -> (g: Vec<u16>)
    requires
        off + 16 <= frame@.len(),
    ensures
        g@ == v6_groups(frame@, off as int),
{
    let n = frame.len();
    let mut g: Vec<u16> = Vec::new();
    let mut i: usize = 0;
    while i < 8
        invariant
            off + 16 <= n == frame@.len(),
            i <= 8,
            g@.len() == i,
            forall|j: int| 0 <= j < i ==> g@[j] == v6_groups(frame@, off as int)[j],
        decreases 8 - i,
    {
        let hi = frame[off + 2 * i];
        let lo = frame[off + 2 * i + 1];
        g.push((hi as u16) * 256 + (lo as u16));
        i += 1;
    }
    proof {
        assert(g@ =~= v6_groups(frame@, off as int));
    }
    g
}

/// Decodes one captured frame into a record, or classifies the failure:
/// `Malformed` for a truncated or unrecognized envelope or IP header,
/// `NotIp` for intact frames that carry no IP payload.
pub fn decode(frame: &Vec<u8>, meta: CaptureMeta) -> (r: Result<CaptureRecord, DecodeError>)
    requires
        meta_in_range(meta),
    ensures
        r is Ok <==> decode_ok(frame@),
        match r {
            Ok(rec) => rec.source@ == spec_source(frame@) && rec.destination@ == spec_destination(
                frame@,
            ) && rec.timestamp_ms == spec_timestamp_ms(meta),
            Err(e) => (e == DecodeError::Malformed <==> frame_malformed(frame@)) && (e
                == DecodeError::NotIp <==> frame_not_ip(frame@)),
        },
{
    if frame.len() < 14 {
        return Err(DecodeError::Malformed);
    }
    let et: u32 = (frame[12] as u32) * 256 + (frame[13] as u32);
    let timestamp_ms: i64 = meta.secs * 1000 + meta.micros / 1000;
    if et == 0x0800 {
        if frame.len() < 34 {
            return Err(DecodeError::Malformed);
        }
        let vihl = frame[14];
        if vihl / 16 != 4 || vihl % 16 < 5 {
            return Err(DecodeError::Malformed);
        }
        let source = ipv4_string(frame[26], frame[27], frame[28], frame[29]);
        let destination = ipv4_string(frame[30], frame[31], frame[32], frame[33]);
        Ok(CaptureRecord { source, destination, timestamp_ms })
    } else if et == 0x86DD {
        if frame.len() < 54 {
            return Err(DecodeError::Malformed);
        }
        if frame[14] / 16 != 6 {
            return Err(DecodeError::Malformed);
        }
        let src_groups = read_groups(frame, 22);
        let dst_groups = read_groups(frame, 38);
        let source = ipv6_string(&src_groups);
        let destination = ipv6_string(&dst_groups);
        Ok(CaptureRecord { source, destination, timestamp_ms })
    } else {
        Err(DecodeError::NotIp)
    }
}

} // verus!
