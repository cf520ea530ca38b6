//! The Opus-in-Ogg container: trusted items over the `ogg` crate's
//! packet writer, and the verified assembly of a complete stream from
//! already-encoded Opus frame packets.

use vstd::prelude::*;
use crate::opus::{
    granule_at, opus_head_bytes, opus_tags_bytes, GRANULE_PER_FRAME,
};
use std::time::{SystemTime, UNIX_EPOCH};

verus! {

/// How a packet ends its page or stream, mirroring the writer's three
/// end modes.
#[derive(Clone, Copy, Debug, PartialEq, Eq, Structural)]
pub enum OggEnd {
    /// An ordinary packet.
    Normal,
    /// The packet closes the current page.
    EndPage,
    /// The packet closes the whole logical stream.
    EndStream,
}

/// One packet as handed to the writer: its payload, stream serial,
/// granule position and end mode.
pub struct OggPacketInfo {
    pub data: Seq<u8>,
    pub serial: u32,
    pub granule: u64,
    pub end: OggEnd,
}

/// An Ogg packet writer over an in-memory buffer: it holds ogg's
/// `PacketWriter`, whose contents the contracts model through
/// [`ogg_packets`].
#[verifier::external_body]
pub struct OggWriter {
    inner: ogg::writing::PacketWriter<'static, std::io::Cursor<Vec<u8>>>,
}

/// The packets written to the writer so far, oldest first.
pub uninterp spec fn ogg_packets(w: &OggWriter) -> Seq<OggPacketInfo>;

/// The byte image the `ogg` crate's paging produces for a sequence of
/// packets; it depends on the packets alone.
pub uninterp spec fn ogg_bytes_of(packets: Seq<OggPacketInfo>) -> Seq<u8>;

/// Relies on ogg's `PacketWriter::new` over an empty in-memory buffer:
/// a fresh writer holds no packets.
#[verifier::external_body]
fn ogg_writer_new() -> (w: OggWriter)
    ensures
        ogg_packets(&w) == Seq::<OggPacketInfo>::empty(),
{
    OggWriter { inner: ogg::writing::PacketWriter::new(std::io::Cursor::new(Vec::new())) }
}

/// Relies on ogg's `PacketWriter::write_packet`: the packet joins the
/// stream with the given serial, end mode and granule position. Its
/// only error source is the wrapped writer, and writes to the
/// in-memory cursor under it cannot fail, so the call succeeds.
#[verifier::external_body]
fn ogg_write_packet(w: &mut OggWriter, data: Vec<u8>, serial: u32, end: OggEnd, granule: u64) -> (r:
    Result<(), String>)
    ensures
        r is Ok,
        ogg_packets(final(w)) == ogg_packets(old(w)).push(
            OggPacketInfo { data: data@, serial, granule, end },
        ),
{
    let info = match end {
        OggEnd::Normal => ogg::writing::PacketWriteEndInfo::NormalPacket,
        OggEnd::EndPage => ogg::writing::PacketWriteEndInfo::EndPage,
        OggEnd::EndStream => ogg::writing::PacketWriteEndInfo::EndStream,
    };
    w.inner.write_packet(data, serial, info, granule).map_err(
        |e| format!("Failed to write Ogg packet: {}", e),
    )
}

/// Relies on ogg's `PacketWriter::into_inner` and the cursor it wraps:
/// the buffer holds exactly the pages of the packets written.
#[verifier::external_body]
fn ogg_writer_bytes(w: OggWriter) -> (r: Vec<u8>)
    ensures
        r@ == ogg_bytes_of(ogg_packets(&w)),
{
    w.inner.into_inner().into_inner()
}

/// Relies on std's `SystemTime`: the nanoseconds since the Unix epoch,
/// where the clock can tell them. The value differs from call to call.
#[verifier::external_body]
pub(crate) fn unix_time_nanos() -> (r: Option<u128>) {
    SystemTime::now().duration_since(UNIX_EPOCH).ok().map(|d| d.as_nanos())
}

/// A serial number for a fresh Ogg stream, drawn from the clock, with a
/// fixed fallback where the clock is unavailable.
pub fn rand_serial() -> u32 {
    match unix_time_nanos() {
        Some(n) => (n % 4294967296) as u32,
        None => 12345678,
    }
}

/// The packet sequence of a complete Opus-in-Ogg stream: the
/// identification header closing its page, the comment header closing
/// its page, then one packet per frame, the granule position advancing
/// by [`GRANULE_PER_FRAME`] per frame and the last packet ending the
/// stream.
pub open spec fn opus_ogg_packets(frames: Seq<Seq<u8>>, serial: u32) -> Seq<OggPacketInfo> {
    seq![
        OggPacketInfo { data: opus_head_bytes(), serial, granule: 0, end: OggEnd::EndPage },
        OggPacketInfo { data: opus_tags_bytes(), serial, granule: 0, end: OggEnd::EndPage },
    ] + Seq::new(
        frames.len(),
        |i: int|
            OggPacketInfo {
                data: frames[i],
                serial,
                granule: granule_at(i) as u64,
                end: if i == frames.len() - 1 {
                    OggEnd::EndStream
                } else {
                    OggEnd::Normal
                },
            },
    )
}

/// Assembles a complete Opus-in-Ogg stream from already-encoded frame
/// packets: the two header packets, then every frame in order with its
/// granule position, the last flagged stream-terminating. The stream
/// is written into memory, so assembly always succeeds; the `Result`
/// keeps the shape a failing page writer would need.
pub fn assemble_opus_ogg(frames: &Vec<Vec<u8>>, serial: u32) -> (r: Result<Vec<u8>, String>)
    requires
        frames@.len() >= 1,
        frames@.len() * GRANULE_PER_FRAME <= u64::MAX,
    ensures
        r is Ok,
        r matches Ok(bytes) ==> bytes@ == ogg_bytes_of(
            opus_ogg_packets(frames.deep_view(), serial),
        ),
{
    let ghost all = opus_ogg_packets(frames.deep_view(), serial);
    let mut w = ogg_writer_new();
    let head = crate::opus::create_opus_head();
    let _ = ogg_write_packet(&mut w, head, serial, OggEnd::EndPage, 0);
    let tags = crate::opus::create_opus_tags();
    let _ = ogg_write_packet(&mut w, tags, serial, OggEnd::EndPage, 0);
    let n = frames.len();
    let mut i: usize = 0;
    while i < n
        invariant
            0 <= i <= n,
            n == frames@.len(),
            n >= 1,
            n * GRANULE_PER_FRAME <= u64::MAX,
            all == opus_ogg_packets(frames.deep_view(), serial),
            ogg_packets(&w) == all.subrange(0, 2 + i),
        decreases n - i,
    {
        let frame = frames[i].clone();
        proof {
            vstd::arithmetic::mul::lemma_mul_inequality(
                i as int + 1,
                n as int,
                GRANULE_PER_FRAME as int,
            );
            vstd::arithmetic::mul::lemma_mul_is_distributive_add_other_way(
                GRANULE_PER_FRAME as int,
                i as int,
                1,
            );
        }
        let granule = (i as u64 + 1) * GRANULE_PER_FRAME;
        let end = if i + 1 == n {
            OggEnd::EndStream
        } else {
            OggEnd::Normal
        };
        let _ = ogg_write_packet(&mut w, frame, serial, end, granule);
        proof {
            assert(frames.deep_view()[i as int] == frames@[i as int]@);
            assert(all[2 + i] == OggPacketInfo {
                data: frames.deep_view()[i as int],
                serial,
                granule: granule_at(i as int) as u64,
                end,
            });
            assert(ogg_packets(&w) =~= all.subrange(0, 2 + i + 1));
        }
        i = i + 1;
    }
    proof {
        assert(all.subrange(0, 2 + n) =~= all);
    }
    Ok(ogg_writer_bytes(w))
}

} // verus!
