//! The wire-level building blocks of the project-file format: little-endian
//! words, length-prefixed byte runs, Pascal strings, and the byte-sink trait
//! that every encoder writes through.
use vstd::prelude::*;

verus! {

/// Little-endian byte sequence of a 32-bit word.
pub open spec fn spec_le32(v: u32) -> Seq<u8> {
    seq![v as u8, (v >> 8) as u8, (v >> 16) as u8, (v >> 24) as u8]
}

/// Little-endian byte sequence of a 64-bit word.
pub open spec fn spec_le64(v: u64) -> Seq<u8> {
    seq![
        v as u8,
        (v >> 8) as u8,
        (v >> 16) as u8,
        (v >> 24) as u8,
        (v >> 32) as u8,
        (v >> 40) as u8,
        (v >> 48) as u8,
        (v >> 56) as u8,
    ]
}

/// The 0/1 word that the format stores a boolean as.
pub open spec fn spec_bool_word(b: bool) -> u32 {
    if b {
        1
    } else {
        0
    }
}

/// A 4-byte little-endian length prefix, holding the byte count itself,
/// followed by the raw bytes. Beyond the 4-byte field the count would
/// truncate; the writers' preconditions exclude such runs wherever the
/// caller supplies them.
pub open spec fn spec_len_prefixed(b: Seq<u8>) -> Seq<u8> {
    spec_le32(b.len() as u32) + b
}

/// Whether a string's UTF-8 form fits the Pascal string's 4-byte length
/// field: a machine limit of the format.
pub open spec fn spec_pas_fits(s: Seq<char>) -> bool {
    vstd::utf8::encode_utf8(s).len() <= u32::MAX
}

/// The empty string always fits the length field.
pub proof fn lemma_empty_pas_fits()
    ensures
        spec_pas_fits(""@),
        vstd::utf8::encode_utf8(""@).len() == 0,
{
    reveal_strlit("");
    assert(""@.len() == 0);
}

/// Wire form of a Pascal string: length prefix plus the string's UTF-8 bytes,
/// with no terminator and no padding.
pub open spec fn spec_pas_str(s: Seq<char>) -> Seq<u8> {
    spec_len_prefixed(vstd::utf8::encode_utf8(s))
}

/// Wire form of a run of 32-bit words, in order.
pub open spec fn spec_words(ws: Seq<u32>) -> Seq<u8>
    decreases ws.len(),
{
    if ws.len() == 0 {
        Seq::empty()
    } else {
        spec_le32(ws[0]) + spec_words(ws.skip(1))
    }
}

pub proof fn lemma_words_push(ws: Seq<u32>, w: u32)
    ensures
        spec_words(ws.push(w)) == spec_words(ws) + spec_le32(w),
    decreases ws.len(),
{
    reveal_with_fuel(spec_words, 3);
    if ws.len() == 0 {
        assert(ws.push(w)[0] == w);
        assert(ws.push(w).skip(1) =~= Seq::<u32>::empty());
        assert(spec_words(ws.push(w)) =~= spec_words(ws) + spec_le32(w));
    } else {
        assert(ws.push(w)[0] == ws[0]);
        assert(ws.push(w).skip(1) =~= ws.skip(1).push(w));
        lemma_words_push(ws.skip(1), w);
        assert(spec_words(ws.push(w)) =~= spec_words(ws) + spec_le32(w));
    }
}

pub proof fn lemma_words_concat(a: Seq<u32>, b: Seq<u32>)
    ensures
        spec_words(a + b) == spec_words(a) + spec_words(b),
    decreases a.len(),
{
    reveal_with_fuel(spec_words, 3);
    if a.len() == 0 {
        assert(a + b =~= b);
        assert(spec_words(a) + spec_words(b) =~= spec_words(a + b));
    } else {
        assert((a + b)[0] == a[0]);
        assert((a + b).skip(1) =~= a.skip(1) + b);
        lemma_words_concat(a.skip(1), b);
        assert(spec_words(a + b) =~= spec_words(a) + spec_words(b));
    }
}

/// `lemma_words_push`, restated against an arbitrary already-written prefix,
/// so that a writer can extend a word run in place.
pub proof fn lemma_words_push_base(base: Seq<u8>, ws: Seq<u32>, w: u32)
    ensures
        (base + spec_words(ws)) + spec_le32(w) == base + spec_words(ws.push(w)),
{
    lemma_words_push(ws, w);
    assert((base + spec_words(ws)) + spec_le32(w) =~= base + (spec_words(ws) + spec_le32(w)));
}

/// The byte sinks that the encoders write into: a plain byte buffer destined
/// for the outer stream, or a compressed block being accumulated. Every method
/// appends to the sink and reports how many bytes it appended.
pub trait WritePascalString: View<V = Seq<u8>> + Sized {
    fn write_u32_le(&mut self, v: u32) -> (r: usize)
        ensures
            final(self)@ == old(self)@ + spec_le32(v),
            r == 4,
            final(self)@.len() <= usize::MAX,
    ;

    fn write_i32_le(&mut self, v: i32) -> (r: usize)
        ensures
            final(self)@ == old(self)@ + spec_le32(v as u32),
            r == 4,
            final(self)@.len() <= usize::MAX,
    ;

    fn write_u64_le(&mut self, v: u64) -> (r: usize)
        ensures
            final(self)@ == old(self)@ + spec_le64(v),
            r == 8,
            final(self)@.len() <= usize::MAX,
    ;

    fn write_all(&mut self, data: &[u8]) -> (r: usize)
        ensures
            final(self)@ == old(self)@ + data@,
            r == data@.len(),
            final(self)@.len() <= usize::MAX,
    ;

    fn write_pas_string(&mut self, s: &str) -> (r: usize)
        requires
            spec_pas_fits(s@),
        ensures
            final(self)@ == old(self)@ + spec_pas_str(s@),
            r == spec_pas_str(s@).len(),
            final(self)@.len() <= usize::MAX,
    ;
}

/// The 4-byte-word value that a boolean is stored as.
pub fn bool_word(b: bool) -> (r: u32)
    ensures
        r == spec_bool_word(b),
{
    if b {
        1
    } else {
        0
    }
}

/// Appends a 4-byte little-endian length prefix, then the bytes themselves.
pub fn write_len_prefixed<W: WritePascalString>(writer: &mut W, data: &[u8]) -> (r: usize)
    requires
        data@.len() <= u32::MAX,
    ensures
        final(writer)@ == old(writer)@ + spec_len_prefixed(data@),
        r == spec_len_prefixed(data@).len(),
        final(writer)@.len() <= usize::MAX,
{
    let w: u32 = data.len() as u32;
    writer.write_u32_le(w);
    let n = writer.write_all(data);
    proof {
        assert(writer@ =~= old(writer)@ + spec_len_prefixed(data@));
    }
    4 + n
}

impl WritePascalString for Vec<u8> {
    fn write_u32_le(&mut self, v: u32) -> (r: usize)
        ensures
            final(self)@ == old(self)@ + spec_le32(v),
            r == 4,
            final(self)@.len() <= usize::MAX,
    {
        self.push(#[verifier::truncate] (v as u8));
        self.push(#[verifier::truncate] ((v >> 8) as u8));
        self.push(#[verifier::truncate] ((v >> 16) as u8));
        self.push(#[verifier::truncate] ((v >> 24) as u8));
        proof {
            assert(self@ =~= old(self)@ + spec_le32(v));
        }
        let total = self.len();
        4
    }

    fn write_i32_le(&mut self, v: i32) -> (r: usize)
        ensures
            final(self)@ == old(self)@ + spec_le32(v as u32),
            r == 4,
            final(self)@.len() <= usize::MAX,
    {
        let w: u32 = #[verifier::truncate] (v as u32);
        self.write_u32_le(w)
    }

    fn write_u64_le(&mut self, v: u64) -> (r: usize)
        ensures
            final(self)@ == old(self)@ + spec_le64(v),
            r == 8,
            final(self)@.len() <= usize::MAX,
    {
        self.push(#[verifier::truncate] (v as u8));
        self.push(#[verifier::truncate] ((v >> 8) as u8));
        self.push(#[verifier::truncate] ((v >> 16) as u8));
        self.push(#[verifier::truncate] ((v >> 24) as u8));
        self.push(#[verifier::truncate] ((v >> 32) as u8));
        self.push(#[verifier::truncate] ((v >> 40) as u8));
        self.push(#[verifier::truncate] ((v >> 48) as u8));
        self.push(#[verifier::truncate] ((v >> 56) as u8));
        proof {
            assert(self@ =~= old(self)@ + spec_le64(v));
        }
        let total = self.len();
        8
    }

    fn write_all(&mut self, data: &[u8]) -> (r: usize)
        ensures
            final(self)@ == old(self)@ + data@,
            r == data@.len(),
            final(self)@.len() <= usize::MAX,
    {
        let n = data.len();
        let mut i: usize = 0;
        while i < n
            invariant
                i <= n,
                n == data@.len(),
                self@ == old(self)@ + data@.take(i as int),
            decreases n - i,
        {
            let b = *vstd::slice::slice_index_get(data, i);
            self.push(b);
            proof {
                assert(self@ =~= old(self)@ + data@.take((i + 1) as int));
            }
            i = i + 1;
        }
        proof {
            assert(data@.take(n as int) =~= data@);
        }
        let total = self.len();
        n
    }

    fn write_pas_string(&mut self, s: &str) -> (r: usize)
        ensures
            final(self)@ == old(self)@ + spec_pas_str(s@),
            r == spec_pas_str(s@).len(),
            final(self)@.len() <= usize::MAX,
    {
        let start = self.len();
        let bytes = s.as_bytes();
        let w: u32 = bytes.len() as u32;
        self.write_u32_le(w);
        self.write_all(bytes);
        proof {
            assert(self@ =~= old(self)@ + spec_pas_str(s@));
        }
        let total = self.len();
        total - start
    }
}

} // verus!
