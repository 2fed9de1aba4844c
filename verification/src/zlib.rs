//! The Compressed Block encoder: an in-memory buffer that, once finished,
//! is deflate-compressed and flushed to an outer sink as one 4-byte
//! length-prefixed record. Compression itself is done by flate2.
use crate::wire::{spec_le32, spec_le64, spec_len_prefixed, spec_pas_str, WritePascalString};
use vstd::prelude::*;

verus! {

/// The exact byte stream that flate2's zlib compressor at the default level
/// produces for the given input. The stream depends on the input bytes alone.
pub uninterp spec fn deflate_of(data: Seq<u8>) -> Seq<u8>;

/// What flate2's zlib decompressor recovers from a byte stream: the original
/// bytes for a well-formed stream, nothing for one it rejects.
pub uninterp spec fn inflate_of(data: Seq<u8>) -> Option<Seq<u8>>;

/// What every compressor call establishes for its payload: decompressing
/// the output restores the payload, and the output is never empty (a zlib
/// stream carries a header and a checksum). The encoders re-export this for
/// each block they emit.
pub open spec fn spec_deflate_inverts(p: Seq<u8>) -> bool {
    &&& inflate_of(deflate_of(p)) == Some(p)
    &&& deflate_of(p).len() > 0
}

/// All that the round-trip laws assume of the compressor on one payload:
/// what its wrapper establishes, plus that the output fits the 4-byte
/// length field, which is a machine limit.
pub open spec fn spec_zlib_ok(p: Seq<u8>) -> bool {
    &&& spec_deflate_inverts(p)
    &&& deflate_of(p).len() < 0x1_0000_0000
}

/// Relies on flate2's `write::ZlibEncoder` with `Compression::default()`:
/// the output is a zlib stream for exactly the written bytes, so it is
/// non-empty and `read::ZlibDecoder` restores the input from it. Writing
/// into a `Vec`-backed encoder cannot fail.
#[verifier::external_body]
fn deflate_bytes(data: &Vec<u8>) -> (r: Vec<u8>)
    ensures
        r@ == deflate_of(data@),
        inflate_of(r@) == Some(data@),
        r@.len() > 0,
{
    let mut enc = flate2::write::ZlibEncoder::new(Vec::new(), flate2::Compression::default());
    std::io::Write::write_all(&mut enc, data.as_slice()).expect("writing to a Vec cannot fail");
    enc.finish().expect("writing to a Vec cannot fail")
}

/// Wire form of one Compressed Block holding the payload `p`: a 4-byte
/// little-endian length of the compressed stream, then the stream itself.
pub open spec fn spec_block(p: Seq<u8>) -> Seq<u8> {
    spec_len_prefixed(deflate_of(p))
}

/// A write-once accumulation buffer for one Compressed Block. Primitive
/// writes append to it in caller-chosen order; `finish` compresses the whole
/// buffer and flushes it, consuming the block.
pub struct ZlibWriter {
    buf: Vec<u8>,
}

impl View for ZlibWriter {
    type V = Seq<u8>;

    closed spec fn view(&self) -> Seq<u8> {
        self.buf@
    }
}

impl ZlibWriter {
    /// Creates an empty accumulation buffer.
    pub fn new() -> (r: ZlibWriter)
        ensures
            r@ == Seq::<u8>::empty(),
    {
        ZlibWriter { buf: Vec::new() }
    }

    /// Compresses everything accumulated so far and writes it to `writer` as
    /// one length-prefixed block, returning the total bytes written. The
    /// stored length is the compressed byte count, not the buffered one, and
    /// decompressing the flushed stream restores the buffered bytes exactly.
    pub fn finish<W: WritePascalString>(self, writer: &mut W) -> (r: usize)
        ensures
            final(writer)@ == old(writer)@ + spec_block(self@),
            r == spec_block(self@).len(),
            spec_deflate_inverts(self@),
            final(writer)@.len() <= usize::MAX,
    {
        let compressed = deflate_bytes(&self.buf);
        let w: u32 = #[verifier::truncate] (compressed.len() as u32);
        writer.write_u32_le(w);
        let payload_len = writer.write_all(compressed.as_slice());
        proof {
            assert(writer@ =~= old(writer)@ + spec_block(self@));
        }
        4 + payload_len
    }
}

impl WritePascalString for ZlibWriter {
    fn write_u32_le(&mut self, v: u32) -> (r: usize)
        ensures
            final(self)@ == old(self)@ + spec_le32(v),
            r == 4,
            final(self)@.len() <= usize::MAX,
    {
        self.buf.write_u32_le(v)
    }

    fn write_i32_le(&mut self, v: i32) -> (r: usize)
        ensures
            final(self)@ == old(self)@ + spec_le32(v as u32),
            r == 4,
            final(self)@.len() <= usize::MAX,
    {
        self.buf.write_i32_le(v)
    }

    fn write_u64_le(&mut self, v: u64) -> (r: usize)
        ensures
            final(self)@ == old(self)@ + spec_le64(v),
            r == 8,
            final(self)@.len() <= usize::MAX,
    {
        self.buf.write_u64_le(v)
    }

    fn write_all(&mut self, data: &[u8]) -> (r: usize)
        ensures
            final(self)@ == old(self)@ + data@,
            r == data@.len(),
            final(self)@.len() <= usize::MAX,
    {
        self.buf.write_all(data)
    }

    fn write_pas_string(&mut self, s: &str) -> (r: usize)
        ensures
            final(self)@ == old(self)@ + spec_pas_str(s@),
            r == spec_pas_str(s@).len(),
            final(self)@.len() <= usize::MAX,
    {
        self.buf.write_pas_string(s)
    }
}

} // verus!
