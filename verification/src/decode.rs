//! A specification-level reference decoder for the wire format, and the
//! round-trip laws proved against it: what a compliant reader parses out of
//! an encoded record is exactly what the encoder was given.
use crate::wire::{spec_le32, spec_len_prefixed, spec_words};
use crate::zlib::{deflate_of, inflate_of, spec_block, spec_zlib_ok};
use crate::{
    spec_asset_list, spec_images, spec_mid_words, spec_opt_image, spec_placeholders,
    spec_scalar_words, spec_settings_body, spec_slot, spec_slots, spec_splash_image,
    spec_tail_words, GameVersion, GmkAsset, Settings, LOADING_BAR_CUSTOM,
};
use vstd::prelude::*;

verus! {

/// The 32-bit word stored little-endian in the first four bytes of `b`.
pub open spec fn spec_u32_of_le(b: Seq<u8>) -> u32 {
    (b[0] as u32) | ((b[1] as u32) << 8) | ((b[2] as u32) << 16) | ((b[3] as u32) << 24)
}

/// Reads one little-endian word off the front of the stream.
pub open spec fn take_u32(b: Seq<u8>) -> Option<(u32, Seq<u8>)> {
    if b.len() >= 4 {
        Some((spec_u32_of_le(b), b.skip(4)))
    } else {
        None
    }
}

/// Reads a fixed number of raw bytes off the front of the stream.
pub open spec fn take_bytes(n: int, b: Seq<u8>) -> Option<(Seq<u8>, Seq<u8>)> {
    if 0 <= n <= b.len() {
        Some((b.take(n), b.skip(n)))
    } else {
        None
    }
}

/// Reads a length-prefixed byte run (the Pascal-string wire form).
pub open spec fn take_pas(b: Seq<u8>) -> Option<(Seq<u8>, Seq<u8>)> {
    match take_u32(b) {
        Option::Some((n, r)) => take_bytes(n as int, r),
        Option::None => Option::None,
    }
}

/// Reads one Compressed Block and decompresses it back to its payload.
pub open spec fn take_block(b: Seq<u8>) -> Option<(Seq<u8>, Seq<u8>)> {
    match take_pas(b) {
        Option::Some((z, r)) => match inflate_of(z) {
            Option::Some(p) => Option::Some((p, r)),
            Option::None => Option::None,
        },
        Option::None => Option::None,
    }
}

/// Reads a run of little-endian words off the front of the stream.
pub open spec fn take_words(b: Seq<u8>, n: nat) -> Option<(Seq<u32>, Seq<u8>)>
    decreases n,
{
    if n == 0 {
        Option::Some((Seq::empty(), b))
    } else {
        match take_u32(b) {
            Option::Some((w, r)) => match take_words(r, (n - 1) as nat) {
                Option::Some((ws, r2)) => Option::Some((seq![w] + ws, r2)),
                Option::None => Option::None,
            },
            Option::None => Option::None,
        }
    }
}

pub proof fn lemma_take_u32(v: u32, rest: Seq<u8>)
    ensures
        take_u32(spec_le32(v) + rest) == Some((v, rest)),
{
    let b = spec_le32(v) + rest;
    assert(b.skip(4) =~= rest);
    assert(b[0] == v as u8);
    assert(b[1] == (v >> 8) as u8);
    assert(b[2] == (v >> 16) as u8);
    assert(b[3] == (v >> 24) as u8);
    assert((((v as u8) as u32) | ((((v >> 8) as u8) as u32) << 8) | ((((v >> 16) as u8) as u32)
        << 16) | ((((v >> 24) as u8) as u32) << 24)) == v) by (bit_vector);
}

pub proof fn lemma_take_bytes(p: Seq<u8>, rest: Seq<u8>)
    ensures
        take_bytes(p.len() as int, p + rest) == Some((p, rest)),
{
    assert((p + rest).take(p.len() as int) =~= p);
    assert((p + rest).skip(p.len() as int) =~= rest);
}

/// Law (Pascal-string round trip): for any byte content that fits the 4-byte
/// length field, including the empty run and runs with embedded zero bytes,
/// the stored prefix is exactly the content's length and decoding returns
/// the content unchanged, leaving the rest of the stream intact.
pub proof fn lemma_take_pas(p: Seq<u8>, rest: Seq<u8>)
    ensures
        p.len() < 0x1_0000_0000 ==> take_pas(spec_len_prefixed(p) + rest) == Some((p, rest)),
        p.len() < 0x1_0000_0000 ==> spec_len_prefixed(p).take(4) == spec_le32(p.len() as u32),
{
    if p.len() < 0x1_0000_0000 {
        let w = p.len() as u32;
        assert(spec_len_prefixed(p) + rest =~= spec_le32(w) + (p + rest));
        lemma_take_u32(w, p + rest);
        assert(w as int == p.len());
        lemma_take_bytes(p, rest);
        assert(spec_len_prefixed(p).take(4) =~= spec_le32(p.len() as u32));
    }
}

/// Law (Compressed Block round trip): wherever the compressor round-trips a
/// payload, decoding the block reproduces the payload exactly and consumes
/// exactly the block's bytes.
pub proof fn lemma_take_block(p: Seq<u8>, rest: Seq<u8>)
    ensures
        spec_zlib_ok(p) ==> take_block(spec_block(p) + rest) == Some((p, rest)),
{
    if spec_zlib_ok(p) {
        lemma_take_pas(deflate_of(p), rest);
    }
}

pub proof fn lemma_take_words(ws: Seq<u32>, rest: Seq<u8>)
    ensures
        take_words(spec_words(ws) + rest, ws.len()) == Some((ws, rest)),
    decreases ws.len(),
{
    if ws.len() == 0 {
        assert(spec_words(ws) + rest =~= rest);
        assert(ws =~= Seq::<u32>::empty());
    } else {
        assert(spec_words(ws) + rest =~= spec_le32(ws[0]) + (spec_words(ws.skip(1)) + rest));
        lemma_take_u32(ws[0], spec_words(ws.skip(1)) + rest);
        lemma_take_words(ws.skip(1), rest);
        assert(seq![ws[0]] + ws.skip(1) =~= ws);
    }
}

/// What an optional `Vec` blob holds, as a spec value.
pub open spec fn spec_opt_bytes(o: Option<Vec<u8>>) -> Option<Seq<u8>> {
    match o {
        Option::Some(d) => Option::Some(d@),
        Option::None => Option::None,
    }
}

/// Whether the compressor round-trips every image blob a settings record
/// holds and each compressed image fits its 4-byte length field. The
/// encoder's own `ensures` establishes all of it except the length bound,
/// which is a machine limit.
pub open spec fn spec_blobs_ok(s: Settings) -> bool {
    &&& (s.backdata matches Option::Some(d) ==> spec_zlib_ok(d@))
    &&& (s.frontdata matches Option::Some(d) ==> spec_zlib_ok(d@))
    &&& (s.custom_load_image matches Option::Some(d) ==> spec_zlib_ok(d@))
}

/// Reads one optional loading-bar image: presence word, then a block.
pub open spec fn decode_opt_image(b: Seq<u8>) -> Option<(Option<Seq<u8>>, Seq<u8>)> {
    match take_u32(b) {
        Option::Some((flag, r)) => if flag == 0 {
            Option::Some((Option::None, r))
        } else {
            match take_block(r) {
                Option::Some((img, r2)) => Option::Some((Option::Some(img), r2)),
                Option::None => Option::None,
            }
        },
        Option::None => Option::None,
    }
}

/// Reads the custom splash image: the two redundant presence words, then a
/// block. Streams whose two words disagree are rejected.
pub open spec fn decode_splash(b: Seq<u8>) -> Option<(Option<Seq<u8>>, Seq<u8>)> {
    match take_u32(b) {
        Option::Some((flag, r)) => if flag == 0 {
            Option::Some((Option::None, r))
        } else {
            match take_u32(r) {
                Option::Some((flag2, r2)) => if flag2 == 0 {
                    Option::None
                } else {
                    match take_block(r2) {
                        Option::Some((img, r3)) => Option::Some((Option::Some(img), r3)),
                        Option::None => Option::None,
                    }
                },
                Option::None => Option::None,
            }
        },
        Option::None => Option::None,
    }
}

/// Everything a reference reader parses out of one settings payload.
pub struct SettingsDec {
    /// The 24 leading scalar words, the loading-bar style last.
    pub scalar_words: Seq<u32>,
    pub backdata: Option<Seq<u8>>,
    pub frontdata: Option<Seq<u8>>,
    pub custom_load_image: Option<Seq<u8>>,
    /// transparent, translucency, scale-progress-bar.
    pub mid_words: Seq<u32>,
    pub icon: Seq<u8>,
    /// The error-reporting words and the packed flags word.
    pub tail_words: Seq<u32>,
    /// Whatever follows the meaningful fields: the placeholder suffix.
    pub trailer: Seq<u8>,
}

/// Reads the image section: under the custom style word, the two optional
/// loading-bar images; otherwise nothing.
pub open spec fn decode_images_section(style: u32, b: Seq<u8>) -> Option<
    (Option<Seq<u8>>, Option<Seq<u8>>, Seq<u8>),
> {
    if style == LOADING_BAR_CUSTOM {
        match decode_opt_image(b) {
            Option::Some((back, r1)) => match decode_opt_image(r1) {
                Option::Some((front, r2)) => Option::Some((back, front, r2)),
                Option::None => Option::None,
            },
            Option::None => Option::None,
        }
    } else {
        Option::Some((Option::None, Option::None, b))
    }
}

/// Reads everything after the splash image: the three middle words, the
/// icon blob, the tail words; the rest is the trailer.
pub open spec fn decode_settings_end(
    sw: Seq<u32>,
    back: Option<Seq<u8>>,
    front: Option<Seq<u8>>,
    splash: Option<Seq<u8>>,
    b: Seq<u8>,
) -> Option<SettingsDec> {
    match take_words(b, 3) {
        Option::Some((mid, r4)) => match take_pas(r4) {
            Option::Some((icon, r5)) => match take_words(r5, 4) {
                Option::Some((tail, r6)) => Option::Some(
                    SettingsDec {
                        scalar_words: sw,
                        backdata: back,
                        frontdata: front,
                        custom_load_image: splash,
                        mid_words: mid,
                        icon: icon,
                        tail_words: tail,
                        trailer: r6,
                    },
                ),
                Option::None => Option::None,
            },
            Option::None => Option::None,
        },
        Option::None => Option::None,
    }
}

/// Reads everything after the leading scalar words.
pub open spec fn decode_settings_rest(sw: Seq<u32>, b: Seq<u8>) -> Option<SettingsDec> {
    match decode_images_section(sw[23], b) {
        Option::Some((back, front, r2)) => match decode_splash(r2) {
            Option::Some((splash, r3)) => decode_settings_end(sw, back, front, splash, r3),
            Option::None => Option::None,
        },
        Option::None => Option::None,
    }
}

/// The reference reader for one uncompressed settings payload.
pub open spec fn decode_settings_body(b: Seq<u8>) -> Option<SettingsDec> {
    match take_words(b, 24) {
        Option::Some((sw, r)) => decode_settings_rest(sw, r),
        Option::None => Option::None,
    }
}

/// The decoded fields that the settings round-trip law promises.
pub open spec fn spec_settings_dec(s: Settings, ico: Seq<u8>, v: GameVersion) -> SettingsDec {
    SettingsDec {
        scalar_words: spec_scalar_words(s),
        backdata: if s.loading_bar == LOADING_BAR_CUSTOM {
            spec_opt_bytes(s.backdata)
        } else {
            Option::None
        },
        frontdata: if s.loading_bar == LOADING_BAR_CUSTOM {
            spec_opt_bytes(s.frontdata)
        } else {
            Option::None
        },
        custom_load_image: spec_opt_bytes(s.custom_load_image),
        mid_words: spec_mid_words(s),
        icon: ico,
        tail_words: spec_tail_words(s, v),
        trailer: spec_placeholders(),
    }
}

#[verifier::rlimit(100)]
proof fn lemma_settings_round_trip_inner(s: Settings, ico: Seq<u8>, v: GameVersion)
    requires
        ico.len() < 0x1_0000_0000,
        spec_blobs_ok(s),
    ensures
        decode_settings_body(spec_settings_body(s, ico, v)) == Some(spec_settings_dec(s, ico, v)),
{
    let rest5 = spec_words(spec_tail_words(s, v)) + spec_placeholders();
    let rest4 = spec_len_prefixed(ico) + rest5;
    let rest3 = spec_words(spec_mid_words(s)) + rest4;
    let rest2 = spec_splash_image(s.custom_load_image) + rest3;
    let rest1 = spec_images(s) + rest3;
    let body = spec_settings_body(s, ico, v);
    assert(body =~= spec_words(spec_scalar_words(s)) + rest1);
    lemma_take_words(spec_scalar_words(s), rest1);
    assert(spec_scalar_words(s).len() == 24);
    assert(spec_scalar_words(s)[23] == s.loading_bar);
    lemma_images_section(s, rest3);
    lemma_decode_splash(s.custom_load_image, rest3);
    lemma_settings_end(s, ico, v, rest3);
}

proof fn lemma_images_section(s: Settings, rest3: Seq<u8>)
    requires
        spec_blobs_ok(s),
    ensures
        decode_images_section(s.loading_bar, spec_images(s) + rest3) == Some(
            (
                if s.loading_bar == LOADING_BAR_CUSTOM {
                    spec_opt_bytes(s.backdata)
                } else {
                    Option::None
                },
                if s.loading_bar == LOADING_BAR_CUSTOM {
                    spec_opt_bytes(s.frontdata)
                } else {
                    Option::None
                },
                spec_splash_image(s.custom_load_image) + rest3,
            ),
        ),
{
    let rest2 = spec_splash_image(s.custom_load_image) + rest3;
    let rest1 = spec_images(s) + rest3;
    if s.loading_bar == LOADING_BAR_CUSTOM {
        let rest_front = spec_opt_image(s.frontdata) + rest2;
        assert(rest1 =~= spec_opt_image(s.backdata) + rest_front);
        lemma_decode_opt_image(s.backdata, rest_front);
        lemma_decode_opt_image(s.frontdata, rest2);
    } else {
        assert(rest1 =~= rest2);
    }
}

proof fn lemma_settings_end(s: Settings, ico: Seq<u8>, v: GameVersion, rest3: Seq<u8>)
    requires
        ico.len() < 0x1_0000_0000,
        rest3 == spec_words(spec_mid_words(s)) + (spec_len_prefixed(ico) + (spec_words(
            spec_tail_words(s, v),
        ) + spec_placeholders())),
    ensures
        forall|sw: Seq<u32>, back: Option<Seq<u8>>, front: Option<Seq<u8>>, splash: Option<
            Seq<u8>,
        >|
            #[trigger] decode_settings_end(sw, back, front, splash, rest3) == Some(
                SettingsDec {
                    scalar_words: sw,
                    backdata: back,
                    frontdata: front,
                    custom_load_image: splash,
                    mid_words: spec_mid_words(s),
                    icon: ico,
                    tail_words: spec_tail_words(s, v),
                    trailer: spec_placeholders(),
                },
            ),
{
    let rest5 = spec_words(spec_tail_words(s, v)) + spec_placeholders();
    let rest4 = spec_len_prefixed(ico) + rest5;
    lemma_take_words(spec_mid_words(s), rest4);
    assert(spec_mid_words(s).len() == 3);
    lemma_take_pas(ico, rest5);
    lemma_take_words(spec_tail_words(s, v), spec_placeholders());
    assert(spec_tail_words(s, v).len() == 4);
}

proof fn lemma_decode_opt_image(o: Option<Vec<u8>>, rest: Seq<u8>)
    requires
        o matches Option::Some(d) ==> spec_zlib_ok(d@),
    ensures
        decode_opt_image(spec_opt_image(o) + rest) == Some((spec_opt_bytes(o), rest)),
{
    match o {
        Option::Some(d) => {
            assert(spec_opt_image(o) + rest =~= spec_le32(1) + (spec_block(d@) + rest));
            lemma_take_u32(1, spec_block(d@) + rest);
            lemma_take_block(d@, rest);
        },
        Option::None => {
            assert(spec_opt_image(o) + rest =~= spec_le32(0) + rest);
            lemma_take_u32(0, rest);
        },
    }
}

proof fn lemma_decode_splash(o: Option<Vec<u8>>, rest: Seq<u8>)
    requires
        o matches Option::Some(d) ==> spec_zlib_ok(d@),
    ensures
        decode_splash(spec_splash_image(o) + rest) == Some((spec_opt_bytes(o), rest)),
{
    match o {
        Option::Some(d) => {
            assert(spec_splash_image(o) + rest =~= spec_le32(1) + (spec_le32(1) + (spec_block(d@)
                + rest)));
            lemma_take_u32(1, spec_le32(1) + (spec_block(d@) + rest));
            lemma_take_u32(1, spec_block(d@) + rest);
            lemma_take_block(d@, rest);
        },
        Option::None => {
            assert(spec_splash_image(o) + rest =~= spec_le32(0) + rest);
            lemma_take_u32(0, rest);
        },
    }
}

/// Law (settings round trip): for both format versions, decoding an encoded
/// settings payload with the reference reader reproduces every scalar word,
/// the icon blob bit for bit, and the loading-bar and splash images exactly
/// where the format carries them - the loading-bar images only under the
/// custom style word - and what remains after the meaningful fields is the
/// fixed placeholder suffix, whatever the input was. The hypothesis is just
/// `spec_blobs_ok`: the round-trip half comes out of `write_settings`'s own
/// `ensures`; only the 4-byte length bound on each compressed image remains
/// a machine limit.
pub proof fn lemma_settings_round_trip(s: Settings, ico: Seq<u8>, v: GameVersion)
    requires
        ico.len() < 0x1_0000_0000,
    ensures
        spec_blobs_ok(s) ==> decode_settings_body(spec_settings_body(s, ico, v)) == Some(
            spec_settings_dec(s, ico, v),
        ),
{
    if spec_blobs_ok(s) {
        lemma_settings_round_trip_inner(s, ico, v);
    }
}


/// Law (loading-bar gating): while the style word is not the custom
/// sentinel, the loading-bar image fields leave no trace in the output:
/// any two settings records that agree on every word run and on the splash
/// image - however their loading-bar image fields differ - encode to
/// identical bytes.
pub proof fn lemma_loading_bar_gated(s1: Settings, s2: Settings, ico: Seq<u8>, v: GameVersion)
    requires
        s1.loading_bar != LOADING_BAR_CUSTOM,
        crate::spec_scalar_words(s2) == crate::spec_scalar_words(s1),
        s2.custom_load_image == s1.custom_load_image,
        spec_mid_words(s2) == spec_mid_words(s1),
        spec_tail_words(s2, v) == spec_tail_words(s1, v),
    ensures
        crate::spec_settings(s2, ico, v) == crate::spec_settings(s1, ico, v),
{
    assert(s2.loading_bar == crate::spec_scalar_words(s2)[23]);
    assert(s1.loading_bar == crate::spec_scalar_words(s1)[23]);
    assert(spec_images(s2) == spec_images(s1));
    assert(spec_settings_body(s2, ico, v) == spec_settings_body(s1, ico, v));
}

/// Law (flags-word inversion): the version-dependent bit packing of the two
/// variable-initialisation flags loses neither bit in the newer version and
/// stores the single meaningful bit in the older one.
pub proof fn lemma_flags_word_inverts(s: Settings)
    ensures
        crate::spec_flags_word(s, GameVersion::GameMaker8_0) == crate::wire::spec_bool_word(
            s.zero_uninitalized_vars,
        ),
        crate::spec_flags_word(s, GameVersion::GameMaker8_1) & 1 == crate::wire::spec_bool_word(
            s.zero_uninitalized_vars,
        ),
        (crate::spec_flags_word(s, GameVersion::GameMaker8_1) >> 1) & 1
            == crate::wire::spec_bool_word(s.error_on_uninitalized_args),
{
    let e = crate::wire::spec_bool_word(s.error_on_uninitalized_args);
    let z = crate::wire::spec_bool_word(s.zero_uninitalized_vars);
    assert(((e << 1) | z) & 1 == z && (((e << 1) | z) >> 1) & 1 == e) by (bit_vector)
        requires
            (e == 0 || e == 1) && (z == 0 || z == 1),
    ;
}

/// Law (scaling-word inversion): the scaling value survives its trip
/// through the unsigned word slot.
pub proof fn lemma_scaling_word_inverts(x: i32)
    ensures
        (x as u32) as i32 == x,
{
    assert((x as u32) as i32 == x) by (bit_vector);
}

/// The presence pattern of an asset slot list.
pub open spec fn spec_presence<T: GmkAsset>(list: Seq<Option<Box<T>>>) -> Seq<bool> {
    Seq::new(list.len(), |i: int| list[i] is Some)
}

/// Whether the compressor round-trips every present slot's block payload
/// and each compressed block fits its 4-byte length field. The encoder's
/// own `ensures` establishes all of it except the length bound, which is a
/// machine limit.
pub open spec fn spec_slots_ok<T: GmkAsset>(list: Seq<Option<Box<T>>>, v: GameVersion) -> bool {
    forall|i: int|
        0 <= i < list.len() ==> ((#[trigger] list[i]) matches Option::Some(a) ==> spec_zlib_ok(
            spec_le32(1) + a.encoded(v),
        ))
}

/// Reads `n` slots: a zero word is an empty slot; a nonzero word is the
/// compressed length of a present slot's block, whose payload must open
/// with a one word.
pub open spec fn decode_slots(b: Seq<u8>, n: nat) -> Option<(Seq<bool>, Seq<u8>)>
    decreases n,
{
    if n == 0 {
        Option::Some((Seq::empty(), b))
    } else {
        match take_u32(b) {
            Option::Some((w, r)) => if w == 0 {
                match decode_slots(r, (n - 1) as nat) {
                    Option::Some((pat, r2)) => Option::Some((seq![false] + pat, r2)),
                    Option::None => Option::None,
                }
            } else {
                match take_bytes(w as int, r) {
                    Option::Some((z, r2)) => match inflate_of(z) {
                        Option::Some(payload) => match take_u32(payload) {
                            Option::Some((flag, fields)) => if flag == 1 {
                                match decode_slots(r2, (n - 1) as nat) {
                                    Option::Some((pat, r3)) => Option::Some(
                                        (seq![true] + pat, r3),
                                    ),
                                    Option::None => Option::None,
                                }
                            } else {
                                Option::None
                            },
                            Option::None => Option::None,
                        },
                        Option::None => Option::None,
                    },
                    Option::None => Option::None,
                }
            },
            Option::None => Option::None,
        }
    }
}

/// The reference reader for one asset-category section.
pub open spec fn decode_asset_list(b: Seq<u8>) -> Option<(u32, u32, Seq<bool>, Seq<u8>)> {
    match take_u32(b) {
        Option::Some((gv, r)) => match take_u32(r) {
            Option::Some((count, r2)) => match decode_slots(r2, count as nat) {
                Option::Some((pat, r3)) => Option::Some((gv, count, pat, r3)),
                Option::None => Option::None,
            },
            Option::None => Option::None,
        },
        Option::None => Option::None,
    }
}

#[verifier::rlimit(100)]
proof fn lemma_decode_slots<T: GmkAsset>(list: Seq<Option<Box<T>>>, v: GameVersion, rest: Seq<u8>)
    requires
        spec_slots_ok(list, v),
    ensures
        decode_slots(spec_slots(list, v) + rest, list.len()) == Some((spec_presence(list), rest)),
    decreases list.len(),
{
    if list.len() == 0 {
        assert(spec_slots(list, v) + rest =~= rest);
        assert(spec_presence(list) =~= Seq::<bool>::empty());
    } else {
        let tail_bytes = spec_slots(list.skip(1), v) + rest;
        assert(spec_slots_ok(list.skip(1), v)) by {
            assert forall|i: int| 0 <= i < list.skip(1).len() implies ((#[trigger] list.skip(1)[i])
                matches Option::Some(a) ==> spec_zlib_ok(spec_le32(1) + a.encoded(v))) by {
                assert(list.skip(1)[i] == list[i + 1]);
            }
        }
        lemma_decode_slots(list.skip(1), v, rest);
        match list[0] {
            Option::None => {
                assert(spec_slots(list, v) + rest =~= spec_le32(0) + tail_bytes);
                lemma_take_u32(0, tail_bytes);
                assert(seq![false] + spec_presence(list.skip(1)) =~= spec_presence(list));
            },
            Option::Some(a) => {
                let payload = spec_le32(1) + a.encoded(v);
                assert(list[0] matches Option::Some(x) ==> spec_zlib_ok(spec_le32(1) + x.encoded(
                    v,
                )));
                assert(spec_zlib_ok(payload));
                let z = deflate_of(payload);
                let w = z.len() as u32;
                assert(spec_slot(list[0], v) == spec_block(payload));
                assert(spec_slots(list, v) + rest =~= spec_le32(w) + (z + tail_bytes));
                lemma_take_u32(w, z + tail_bytes);
                assert(w != 0);
                assert(w as int == z.len());
                lemma_take_bytes(z, tail_bytes);
                lemma_take_u32(1, a.encoded(v));
                assert(seq![true] + spec_presence(list.skip(1)) =~= spec_presence(list));
            },
        }
    }
}

/// Law (asset-list round trip): for every slot list that fits the count
/// word, the encoded count is exactly the input length, and decoding the
/// section reproduces the exact pattern of present and absent slots - the
/// all-empty list included, whose section is just the two header words and
/// one zero word per slot. The hypothesis is `spec_slots_ok`: the
/// round-trip half comes out of `write_asset_list`'s own `ensures`; only
/// the 4-byte length bound on each compressed block remains a machine
/// limit.
pub proof fn lemma_asset_list_round_trip<T: GmkAsset>(
    list: Seq<Option<Box<T>>>,
    gmk_version: u32,
    v: GameVersion,
    rest: Seq<u8>,
)
    requires
        list.len() < 0x1_0000_0000,
    ensures
        spec_slots_ok(list, v) ==> decode_asset_list(
            spec_asset_list(list, gmk_version, v) + rest,
        ) == Some((gmk_version, list.len() as u32, spec_presence(list), rest)),
{
    if spec_slots_ok(list, v) {
        let count_w = list.len() as u32;
        let slots = spec_slots(list, v) + rest;
        assert(spec_asset_list(list, gmk_version, v) + rest =~= spec_le32(gmk_version) + (
        spec_le32(count_w) + slots));
        lemma_take_u32(gmk_version, spec_le32(count_w) + slots);
        lemma_take_u32(count_w, slots);
        assert(count_w as nat == list.len());
        lemma_decode_slots(list, v, rest);
    }
}

} // verus!
