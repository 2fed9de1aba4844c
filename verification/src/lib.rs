//! A verified writer for the legacy game-authoring tool's project-file
//! format: given already-decoded settings and asset records, it re-encodes
//! them into the tool's versioned binary layout, byte for byte.
//!
//! Encoders append to in-memory byte sinks; pushing the finished bytes into
//! a file or stream is left to the surrounding program.
pub mod decode;
pub mod wire;
pub mod zlib;

use crate::wire::{
    bool_word, lemma_empty_pas_fits, lemma_words_concat, lemma_words_push_base, spec_bool_word,
    spec_le32, spec_le64, spec_len_prefixed, spec_pas_fits, spec_pas_str, spec_words,
    write_len_prefixed, WritePascalString,
};
use crate::zlib::{spec_block, spec_deflate_inverts, ZlibWriter};
use vstd::string::StringSliceAdditionalSpecFns;
use vstd::prelude::*;

verus! {

/// The fixed signature value that opens every project file.
pub const GMK_MAGIC: u32 = 1234321;

/// The legacy sub-version marker written before the settings block and at
/// the head of each trigger record.
pub const GMK_SUBVERSION: u32 = 800;

/// The loading-bar style value that marks a custom loading bar; only then
/// are the two loading-bar images part of the format.
pub const LOADING_BAR_CUSTOM: u32 = 2;

/// Which release of the authoring tool the output must be readable by.
/// Selected once per output file; it gates field layout and bit-packing.
#[derive(Clone, Copy, PartialEq, Eq, Structural, Debug)]
pub enum GameVersion {
    GameMaker8_0,
    GameMaker8_1,
}

/// The numeric version code the header stores for each format version.
pub open spec fn spec_version_code(v: GameVersion) -> u32 {
    match v {
        GameVersion::GameMaker8_0 => 800,
        GameVersion::GameMaker8_1 => 810,
    }
}

/// The project's global configuration, as the reader component delivers it:
/// flat boolean, integer and optional binary-blob fields. The encoder only
/// reads it. The two loading-bar images are meaningful only while
/// `loading_bar` equals `LOADING_BAR_CUSTOM`; otherwise they are treated as
/// absent whatever they hold.
pub struct Settings {
    pub fullscreen: bool,
    pub dont_draw_border: bool,
    pub display_cursor: bool,
    pub interpolate_pixels: bool,
    pub scaling: i32,
    pub allow_resize: bool,
    pub window_on_top: bool,
    pub clear_colour: u32,
    pub set_resolution: bool,
    pub colour_depth: u32,
    pub resolution: u32,
    pub frequency: u32,
    pub dont_show_buttons: bool,
    pub vsync: bool,
    pub disable_screensaver: bool,
    pub f4_fullscreen_toggle: bool,
    pub f1_help_menu: bool,
    pub esc_close_game: bool,
    pub f5_save_f6_load: bool,
    pub f9_screenshot: bool,
    pub treat_close_as_esc: bool,
    pub priority: u32,
    pub freeze_on_lose_focus: bool,
    pub loading_bar: u32,
    pub backdata: Option<Vec<u8>>,
    pub frontdata: Option<Vec<u8>>,
    pub custom_load_image: Option<Vec<u8>>,
    pub transparent: bool,
    pub translucency: u32,
    pub scale_progress_bar: bool,
    pub show_error_messages: bool,
    pub log_errors: bool,
    pub always_abort: bool,
    pub zero_uninitalized_vars: bool,
    pub error_on_uninitalized_args: bool,
}

/// One trigger asset: a representative per-asset record.
pub struct Trigger {
    pub name: String,
    pub condition: String,
    pub moment: u32,
    pub constant_name: String,
}

/// Wire form of the file header.
pub open spec fn spec_header(v: GameVersion, game_id: u32, guid: Seq<u32>) -> Seq<u8> {
    spec_le32(GMK_MAGIC) + spec_le32(spec_version_code(v)) + spec_le32(game_id) + spec_le32(
        guid[0],
    ) + spec_le32(guid[1]) + spec_le32(guid[2]) + spec_le32(guid[3])
}

/// Writes the fixed magic/version/identity preamble of a project file.
pub fn write_header<W: WritePascalString>(
    writer: &mut W,
    version: GameVersion,
    game_id: u32,
    guid: [u32; 4],
) -> (r: usize)
    ensures
        final(writer)@ == old(writer)@ + spec_header(version, game_id, guid@),
        r == spec_header(version, game_id, guid@).len(),
        final(writer)@.len() <= usize::MAX,
{
    let mut result = writer.write_u32_le(GMK_MAGIC);
    result = result + writer.write_u32_le(
        match version {
            GameVersion::GameMaker8_0 => 800,
            GameVersion::GameMaker8_1 => 810,
        },
    );
    result = result + writer.write_u32_le(game_id);
    result = result + writer.write_u32_le(guid[0]);
    result = result + writer.write_u32_le(guid[1]);
    result = result + writer.write_u32_le(guid[2]);
    result = result + writer.write_u32_le(guid[3]);
    proof {
        assert(writer@ =~= old(writer)@ + spec_header(version, game_id, guid@));
    }
    result
}

/// Writes a fixed-width timestamp. True authoring times are not
/// reconstructable from decompiled input, so this always writes the zero
/// value, which readers interpret as the fixed epoch date.
pub fn write_timestamp<W: WritePascalString>(writer: &mut W) -> (r: usize)
    ensures
        final(writer)@ == old(writer)@ + spec_le64(0),
        r == 8,
        final(writer)@.len() <= usize::MAX,
{
    writer.write_u64_le(0)
}

/// Wire form of one trigger record.
pub open spec fn spec_trigger(t: Trigger) -> Seq<u8> {
    spec_le32(GMK_SUBVERSION) + spec_pas_str(t.name@) + spec_pas_str(t.condition@) + spec_le32(
        t.moment,
    ) + spec_pas_str(t.constant_name@)
}

/// Writes one trigger's fields in legacy order. The format version is
/// accepted for interface uniformity; triggers encode the same way in both.
pub fn write_trigger<W: WritePascalString>(
    writer: &mut W,
    trigger: &Trigger,
    _version: GameVersion,
) -> (r: usize)
    requires
        spec_pas_fits(trigger.name@),
        spec_pas_fits(trigger.condition@),
        spec_pas_fits(trigger.constant_name@),
    ensures
        final(writer)@ == old(writer)@ + spec_trigger(*trigger),
        r == spec_trigger(*trigger).len(),
        final(writer)@.len() <= usize::MAX,
{
    let mut result = writer.write_u32_le(GMK_SUBVERSION);
    result = result + writer.write_pas_string(trigger.name.as_str());
    result = result + writer.write_pas_string(trigger.condition.as_str());
    result = result + writer.write_u32_le(trigger.moment);
    result = result + writer.write_pas_string(trigger.constant_name.as_str());
    proof {
        assert(writer@ =~= old(writer)@ + spec_trigger(*trigger));
    }
    result
}

/// The string the legacy author placeholder field carries.
pub open spec fn spec_author() -> Seq<char> {
    "decompiler clan :police_car: :police_car: :police_car:"@
}

/// The fixed author placeholder: a structurally required legacy field with
/// no behaviourally meaningful value.
pub fn legacy_author() -> (r: &'static str)
    ensures
        r@ == spec_author(),
        spec_pas_fits(spec_author()),
{
    let a = "decompiler clan :police_car: :police_car: :police_car:";
    proof {
        reveal_strlit("decompiler clan :police_car: :police_car: :police_car:");
        broadcast use vstd::string::is_ascii_spec_bytes;

        assert(vstd::string::is_ascii(a));
        assert(a.spec_bytes().len() == a@.len());
    }
    a
}

/// The 24 leading scalar words of the settings record, in legacy order,
/// the loading-bar style word last, written as its four runs.
pub open spec fn spec_scalar_words(s: Settings) -> Seq<u32> {
    spec_scalar_words_a(s) + (spec_scalar_words_b(s) + (spec_scalar_words_c(s)
        + spec_scalar_words_d(s)))
}

/// Wire form of one optional loading-bar image: a presence word, then a
/// Compressed Block of the raw image bytes if present.
pub open spec fn spec_opt_image(o: Option<Vec<u8>>) -> Seq<u8> {
    match o {
        Option::None => spec_le32(0),
        Option::Some(d) => spec_le32(1) + spec_block(d@),
    }
}

/// Wire form of the custom splash image. When present the legacy format
/// stores two redundant presence words, kept exactly as the authoring tool
/// wrote them, then the Compressed Block.
pub open spec fn spec_splash_image(o: Option<Vec<u8>>) -> Seq<u8> {
    match o {
        Option::None => spec_le32(0),
        Option::Some(d) => spec_le32(1) + spec_le32(1) + spec_block(d@),
    }
}

/// The image section: the two loading-bar images are on the wire only while
/// the style word is the custom sentinel; the splash image always follows.
pub open spec fn spec_images(s: Settings) -> Seq<u8> {
    (if s.loading_bar == LOADING_BAR_CUSTOM {
        spec_opt_image(s.backdata) + spec_opt_image(s.frontdata)
    } else {
        Seq::empty()
    }) + spec_splash_image(s.custom_load_image)
}

/// The three scalar words between the images and the icon.
pub open spec fn spec_mid_words(s: Settings) -> Seq<u32> {
    seq![spec_bool_word(s.transparent), s.translucency, spec_bool_word(s.scale_progress_bar)]
}

/// The version-dependent packing of the variable-initialisation flags: one
/// bit for the older format version, two bits packed into the same single
/// word for the newer one.
pub open spec fn spec_flags_word(s: Settings, v: GameVersion) -> u32 {
    match v {
        GameVersion::GameMaker8_0 => spec_bool_word(s.zero_uninitalized_vars),
        GameVersion::GameMaker8_1 => (spec_bool_word(s.error_on_uninitalized_args) << 1)
            | spec_bool_word(s.zero_uninitalized_vars),
    }
}

/// The error-reporting words and the packed flags word that close the
/// meaningful part of the settings record.
pub open spec fn spec_tail_words(s: Settings, v: GameVersion) -> Seq<u32> {
    seq![
        spec_bool_word(s.show_error_messages),
        spec_bool_word(s.log_errors),
        spec_bool_word(s.always_abort),
        spec_flags_word(s, v),
    ]
}

/// The fixed placeholder suffix every settings record ends with: author
/// string, empty version string, zero timestamp, empty information string,
/// four zero version-number words, four empty metadata strings, a final zero
/// timestamp. Structurally required; independent of all input.
pub open spec fn spec_placeholders() -> Seq<u8> {
    spec_pas_str(spec_author()) + spec_pas_str(""@) + spec_le64(0) + spec_pas_str(""@) + spec_le32(
        0,
    ) + spec_le32(0) + spec_le32(0) + spec_le32(0) + spec_pas_str(""@) + spec_pas_str(""@)
        + spec_pas_str(""@) + spec_pas_str(""@) + spec_le64(0)
}

/// The whole uncompressed payload of the settings block, in legacy order.
pub open spec fn spec_settings_body(s: Settings, ico: Seq<u8>, v: GameVersion) -> Seq<u8> {
    spec_words(spec_scalar_words(s)) + spec_images(s) + spec_words(spec_mid_words(s))
        + spec_len_prefixed(ico) + spec_words(spec_tail_words(s, v)) + spec_placeholders()
}

/// Wire form of the whole settings section: the legacy marker word, then
/// one Compressed Block holding the settings payload.
pub open spec fn spec_settings(s: Settings, ico: Seq<u8>, v: GameVersion) -> Seq<u8> {
    spec_le32(GMK_SUBVERSION) + spec_block(spec_settings_body(s, ico, v))
}

/// The first six scalar words: the display flags and the scaling value.
pub open spec fn spec_scalar_words_a(s: Settings) -> Seq<u32> {
    seq![
        spec_bool_word(s.fullscreen),
        spec_bool_word(s.dont_draw_border),
        spec_bool_word(s.display_cursor),
        spec_bool_word(s.interpolate_pixels),
        s.scaling as u32,
        spec_bool_word(s.allow_resize),
    ]
}

fn write_settings_scalars_a(enc: &mut ZlibWriter, settings: &Settings)
    ensures
        final(enc)@ == old(enc)@ + spec_words(spec_scalar_words_a(*settings)),
{
    let ghost base: Seq<u8> = enc@;
    let ghost mut ws: Seq<u32> = Seq::empty();
    proof {
        assert(spec_words(ws) =~= Seq::<u8>::empty());
        assert(enc@ =~= base + spec_words(ws));
    }
    enc.write_u32_le(bool_word(settings.fullscreen));
    proof {
        lemma_words_push_base(base, ws, spec_bool_word(settings.fullscreen));
        ws = ws.push(spec_bool_word(settings.fullscreen));
    }
    enc.write_u32_le(bool_word(settings.dont_draw_border));
    proof {
        lemma_words_push_base(base, ws, spec_bool_word(settings.dont_draw_border));
        ws = ws.push(spec_bool_word(settings.dont_draw_border));
    }
    enc.write_u32_le(bool_word(settings.display_cursor));
    proof {
        lemma_words_push_base(base, ws, spec_bool_word(settings.display_cursor));
        ws = ws.push(spec_bool_word(settings.display_cursor));
    }
    enc.write_u32_le(bool_word(settings.interpolate_pixels));
    proof {
        lemma_words_push_base(base, ws, spec_bool_word(settings.interpolate_pixels));
        ws = ws.push(spec_bool_word(settings.interpolate_pixels));
    }
    enc.write_i32_le(settings.scaling);
    proof {
        lemma_words_push_base(base, ws, settings.scaling as u32);
        ws = ws.push(settings.scaling as u32);
    }
    enc.write_u32_le(bool_word(settings.allow_resize));
    proof {
        lemma_words_push_base(base, ws, spec_bool_word(settings.allow_resize));
        ws = ws.push(spec_bool_word(settings.allow_resize));
    }
    proof {
        assert(ws =~= spec_scalar_words_a(*settings));
    }
}

/// The next six scalar words: window behaviour and resolution values.
pub open spec fn spec_scalar_words_b(s: Settings) -> Seq<u32> {
    seq![
        spec_bool_word(s.window_on_top),
        s.clear_colour,
        spec_bool_word(s.set_resolution),
        s.colour_depth,
        s.resolution,
        s.frequency,
    ]
}

fn write_settings_scalars_b(enc: &mut ZlibWriter, settings: &Settings)
    ensures
        final(enc)@ == old(enc)@ + spec_words(spec_scalar_words_b(*settings)),
{
    let ghost base: Seq<u8> = enc@;
    let ghost mut ws: Seq<u32> = Seq::empty();
    proof {
        assert(spec_words(ws) =~= Seq::<u8>::empty());
        assert(enc@ =~= base + spec_words(ws));
    }
    enc.write_u32_le(bool_word(settings.window_on_top));
    proof {
        lemma_words_push_base(base, ws, spec_bool_word(settings.window_on_top));
        ws = ws.push(spec_bool_word(settings.window_on_top));
    }
    enc.write_u32_le(settings.clear_colour);
    proof {
        lemma_words_push_base(base, ws, settings.clear_colour);
        ws = ws.push(settings.clear_colour);
    }
    enc.write_u32_le(bool_word(settings.set_resolution));
    proof {
        lemma_words_push_base(base, ws, spec_bool_word(settings.set_resolution));
        ws = ws.push(spec_bool_word(settings.set_resolution));
    }
    enc.write_u32_le(settings.colour_depth);
    proof {
        lemma_words_push_base(base, ws, settings.colour_depth);
        ws = ws.push(settings.colour_depth);
    }
    enc.write_u32_le(settings.resolution);
    proof {
        lemma_words_push_base(base, ws, settings.resolution);
        ws = ws.push(settings.resolution);
    }
    enc.write_u32_le(settings.frequency);
    proof {
        lemma_words_push_base(base, ws, settings.frequency);
        ws = ws.push(settings.frequency);
    }
    proof {
        assert(ws =~= spec_scalar_words_b(*settings));
    }
}

/// The next six scalar words: the button and hot-key flags.
pub open spec fn spec_scalar_words_c(s: Settings) -> Seq<u32> {
    seq![
        spec_bool_word(s.dont_show_buttons),
        spec_bool_word(s.vsync),
        spec_bool_word(s.disable_screensaver),
        spec_bool_word(s.f4_fullscreen_toggle),
        spec_bool_word(s.f1_help_menu),
        spec_bool_word(s.esc_close_game),
    ]
}

fn write_settings_scalars_c(enc: &mut ZlibWriter, settings: &Settings)
    ensures
        final(enc)@ == old(enc)@ + spec_words(spec_scalar_words_c(*settings)),
{
    let ghost base: Seq<u8> = enc@;
    let ghost mut ws: Seq<u32> = Seq::empty();
    proof {
        assert(spec_words(ws) =~= Seq::<u8>::empty());
        assert(enc@ =~= base + spec_words(ws));
    }
    enc.write_u32_le(bool_word(settings.dont_show_buttons));
    proof {
        lemma_words_push_base(base, ws, spec_bool_word(settings.dont_show_buttons));
        ws = ws.push(spec_bool_word(settings.dont_show_buttons));
    }
    enc.write_u32_le(bool_word(settings.vsync));
    proof {
        lemma_words_push_base(base, ws, spec_bool_word(settings.vsync));
        ws = ws.push(spec_bool_word(settings.vsync));
    }
    enc.write_u32_le(bool_word(settings.disable_screensaver));
    proof {
        lemma_words_push_base(base, ws, spec_bool_word(settings.disable_screensaver));
        ws = ws.push(spec_bool_word(settings.disable_screensaver));
    }
    enc.write_u32_le(bool_word(settings.f4_fullscreen_toggle));
    proof {
        lemma_words_push_base(base, ws, spec_bool_word(settings.f4_fullscreen_toggle));
        ws = ws.push(spec_bool_word(settings.f4_fullscreen_toggle));
    }
    enc.write_u32_le(bool_word(settings.f1_help_menu));
    proof {
        lemma_words_push_base(base, ws, spec_bool_word(settings.f1_help_menu));
        ws = ws.push(spec_bool_word(settings.f1_help_menu));
    }
    enc.write_u32_le(bool_word(settings.esc_close_game));
    proof {
        lemma_words_push_base(base, ws, spec_bool_word(settings.esc_close_game));
        ws = ws.push(spec_bool_word(settings.esc_close_game));
    }
    proof {
        assert(ws =~= spec_scalar_words_c(*settings));
    }
}

/// The last six scalar words, the loading-bar style word last.
pub open spec fn spec_scalar_words_d(s: Settings) -> Seq<u32> {
    seq![
        spec_bool_word(s.f5_save_f6_load),
        spec_bool_word(s.f9_screenshot),
        spec_bool_word(s.treat_close_as_esc),
        s.priority,
        spec_bool_word(s.freeze_on_lose_focus),
        s.loading_bar,
    ]
}

fn write_settings_scalars_d(enc: &mut ZlibWriter, settings: &Settings)
    ensures
        final(enc)@ == old(enc)@ + spec_words(spec_scalar_words_d(*settings)),
{
    let ghost base: Seq<u8> = enc@;
    let ghost mut ws: Seq<u32> = Seq::empty();
    proof {
        assert(spec_words(ws) =~= Seq::<u8>::empty());
        assert(enc@ =~= base + spec_words(ws));
    }
    enc.write_u32_le(bool_word(settings.f5_save_f6_load));
    proof {
        lemma_words_push_base(base, ws, spec_bool_word(settings.f5_save_f6_load));
        ws = ws.push(spec_bool_word(settings.f5_save_f6_load));
    }
    enc.write_u32_le(bool_word(settings.f9_screenshot));
    proof {
        lemma_words_push_base(base, ws, spec_bool_word(settings.f9_screenshot));
        ws = ws.push(spec_bool_word(settings.f9_screenshot));
    }
    enc.write_u32_le(bool_word(settings.treat_close_as_esc));
    proof {
        lemma_words_push_base(base, ws, spec_bool_word(settings.treat_close_as_esc));
        ws = ws.push(spec_bool_word(settings.treat_close_as_esc));
    }
    enc.write_u32_le(settings.priority);
    proof {
        lemma_words_push_base(base, ws, settings.priority);
        ws = ws.push(settings.priority);
    }
    enc.write_u32_le(bool_word(settings.freeze_on_lose_focus));
    proof {
        lemma_words_push_base(base, ws, spec_bool_word(settings.freeze_on_lose_focus));
        ws = ws.push(spec_bool_word(settings.freeze_on_lose_focus));
    }
    enc.write_u32_le(settings.loading_bar);
    proof {
        lemma_words_push_base(base, ws, settings.loading_bar);
        ws = ws.push(settings.loading_bar);
    }
    proof {
        assert(ws =~= spec_scalar_words_d(*settings));
    }
}

#[verifier::rlimit(100)]
fn write_settings_scalars(enc: &mut ZlibWriter, settings: &Settings)
    ensures
        final(enc)@ == old(enc)@ + spec_words(spec_scalar_words(*settings)),
{
    write_settings_scalars_a(enc, settings);
    write_settings_scalars_b(enc, settings);
    write_settings_scalars_c(enc, settings);
    write_settings_scalars_d(enc, settings);
    proof {
        let qa = spec_scalar_words_a(*settings);
        let qb = spec_scalar_words_b(*settings);
        let qc = spec_scalar_words_c(*settings);
        let qd = spec_scalar_words_d(*settings);
        lemma_words_concat(qc, qd);
        lemma_words_concat(qb, qc + qd);
        lemma_words_concat(qa, qb + (qc + qd));
        assert(enc@ =~= old(enc)@ + spec_words(spec_scalar_words(*settings)));
    }
}

fn write_settings_images(enc: &mut ZlibWriter, settings: &Settings)
    ensures
        final(enc)@ == old(enc)@ + spec_images(*settings),
        settings.loading_bar == LOADING_BAR_CUSTOM ==> (settings.backdata matches Option::Some(d)
            ==> spec_deflate_inverts(d@)),
        settings.loading_bar == LOADING_BAR_CUSTOM ==> (settings.frontdata matches Option::Some(d)
            ==> spec_deflate_inverts(d@)),
        settings.custom_load_image matches Option::Some(d) ==> spec_deflate_inverts(d@),
{
    let ghost m1: Seq<u8> = enc@;
    if settings.loading_bar == LOADING_BAR_CUSTOM {
        match &settings.backdata {
            Option::Some(data) => {
                enc.write_u32_le(1);
                let mut backdata_enc = ZlibWriter::new();
                backdata_enc.write_all(data.as_slice());
                proof {
                    assert(backdata_enc@ =~= data@);
                }
                backdata_enc.finish(enc);
                proof {
                    assert(enc@ =~= m1 + spec_opt_image(settings.backdata));
                }
            },
            Option::None => {
                enc.write_u32_le(0);
                proof {
                    assert(enc@ =~= m1 + spec_opt_image(settings.backdata));
                }
            },
        }
        let ghost m1b: Seq<u8> = enc@;
        match &settings.frontdata {
            Option::Some(data) => {
                enc.write_u32_le(1);
                let mut frontdata_enc = ZlibWriter::new();
                frontdata_enc.write_all(data.as_slice());
                proof {
                    assert(frontdata_enc@ =~= data@);
                }
                frontdata_enc.finish(enc);
                proof {
                    assert(enc@ =~= m1b + spec_opt_image(settings.frontdata));
                }
            },
            Option::None => {
                enc.write_u32_le(0);
                proof {
                    assert(enc@ =~= m1b + spec_opt_image(settings.frontdata));
                }
            },
        }
    }
    let ghost m2: Seq<u8> = enc@;
    proof {
        assert(m2 =~= m1 + (if settings.loading_bar == LOADING_BAR_CUSTOM {
            spec_opt_image(settings.backdata) + spec_opt_image(settings.frontdata)
        } else {
            Seq::<u8>::empty()
        }));
    }
    match &settings.custom_load_image {
        Option::Some(data) => {
            enc.write_u32_le(1);
            enc.write_u32_le(1);
            let mut ci_enc = ZlibWriter::new();
            ci_enc.write_all(data.as_slice());
            proof {
                assert(ci_enc@ =~= data@);
            }
            ci_enc.finish(enc);
            proof {
                assert(enc@ =~= m2 + spec_splash_image(settings.custom_load_image));
            }
        },
        Option::None => {
            enc.write_u32_le(0);
            proof {
                assert(enc@ =~= m2 + spec_splash_image(settings.custom_load_image));
            }
        },
    }
    proof {
        assert(enc@ =~= m1 + spec_images(*settings));
    }
}

fn write_settings_tail(enc: &mut ZlibWriter, settings: &Settings, version: GameVersion)
    ensures
        final(enc)@ == old(enc)@ + spec_words(spec_tail_words(*settings, version)),
{
    let ghost base: Seq<u8> = enc@;
    let ghost mut wst: Seq<u32> = Seq::empty();
    proof {
        assert(spec_words(wst) =~= Seq::<u8>::empty());
        assert(enc@ =~= base + spec_words(wst));
    }
    enc.write_u32_le(bool_word(settings.show_error_messages));
    proof {
        lemma_words_push_base(base, wst, spec_bool_word(settings.show_error_messages));
        wst = wst.push(spec_bool_word(settings.show_error_messages));
    }
    enc.write_u32_le(bool_word(settings.log_errors));
    proof {
        lemma_words_push_base(base, wst, spec_bool_word(settings.log_errors));
        wst = wst.push(spec_bool_word(settings.log_errors));
    }
    enc.write_u32_le(bool_word(settings.always_abort));
    proof {
        lemma_words_push_base(base, wst, spec_bool_word(settings.always_abort));
        wst = wst.push(spec_bool_word(settings.always_abort));
    }
    match version {
        GameVersion::GameMaker8_0 => {
            enc.write_u32_le(bool_word(settings.zero_uninitalized_vars));
        },
        GameVersion::GameMaker8_1 => {
            enc.write_u32_le(
                (bool_word(settings.error_on_uninitalized_args) << 1u32) | bool_word(
                    settings.zero_uninitalized_vars,
                ),
            );
        },
    }
    proof {
        lemma_words_push_base(base, wst, spec_flags_word(*settings, version));
        wst = wst.push(spec_flags_word(*settings, version));
        assert(wst =~= spec_tail_words(*settings, version));
    }
}

fn write_settings_placeholders(enc: &mut ZlibWriter)
    ensures
        final(enc)@ == old(enc)@ + spec_placeholders(),
{
    let ghost base: Seq<u8> = enc@;
    proof {
        lemma_empty_pas_fits();
    }
    enc.write_pas_string(legacy_author());
    enc.write_pas_string("");
    write_timestamp(enc);
    enc.write_pas_string("");
    enc.write_u32_le(0);
    enc.write_u32_le(0);
    enc.write_u32_le(0);
    enc.write_u32_le(0);
    enc.write_pas_string("");
    enc.write_pas_string("");
    enc.write_pas_string("");
    enc.write_pas_string("");
    write_timestamp(enc);
    proof {
        assert(enc@ =~= base + spec_placeholders());
    }
}

/// Serializes the project's global configuration into one compressed block:
/// the scalar words, the conditionally present images, the icon blob, the
/// version-dependent flags word, and the fixed legacy placeholder suffix.
pub fn write_settings<W: WritePascalString>(
    writer: &mut W,
    settings: Settings,
    ico_file: Vec<u8>,
    version: GameVersion,
) -> (r: usize)
    requires
        ico_file@.len() <= u32::MAX,
    ensures
        final(writer)@ == old(writer)@ + spec_settings(settings, ico_file@, version),
        r == spec_settings(settings, ico_file@, version).len(),
        spec_deflate_inverts(spec_settings_body(settings, ico_file@, version)),
        settings.loading_bar == LOADING_BAR_CUSTOM ==> (settings.backdata matches Option::Some(d)
            ==> spec_deflate_inverts(d@)),
        settings.loading_bar == LOADING_BAR_CUSTOM ==> (settings.frontdata matches Option::Some(d)
            ==> spec_deflate_inverts(d@)),
        settings.custom_load_image matches Option::Some(d) ==> spec_deflate_inverts(d@),
        final(writer)@.len() <= usize::MAX,
{
    let result = writer.write_u32_le(GMK_SUBVERSION);
    let mut enc = ZlibWriter::new();
    write_settings_scalars(&mut enc, &settings);
    write_settings_images(&mut enc, &settings);
    let ghost m3: Seq<u8> = enc@;
    let ghost mut wsm: Seq<u32> = Seq::empty();
    proof {
        assert(spec_words(wsm) =~= Seq::<u8>::empty());
        assert(enc@ =~= m3 + spec_words(wsm));
    }
    enc.write_u32_le(bool_word(settings.transparent));
    proof {
        lemma_words_push_base(m3, wsm, spec_bool_word(settings.transparent));
        wsm = wsm.push(spec_bool_word(settings.transparent));
    }
    enc.write_u32_le(settings.translucency);
    proof {
        lemma_words_push_base(m3, wsm, settings.translucency);
        wsm = wsm.push(settings.translucency);
    }
    enc.write_u32_le(bool_word(settings.scale_progress_bar));
    proof {
        lemma_words_push_base(m3, wsm, spec_bool_word(settings.scale_progress_bar));
        wsm = wsm.push(spec_bool_word(settings.scale_progress_bar));
        assert(wsm =~= spec_mid_words(settings));
    }
    write_len_prefixed(&mut enc, ico_file.as_slice());
    write_settings_tail(&mut enc, &settings, version);
    write_settings_placeholders(&mut enc);
    proof {
        assert(enc@ =~= spec_settings_body(settings, ico_file@, version));
    }
    let block_len = enc.finish(writer);
    proof {
        assert(writer@ =~= old(writer)@ + spec_settings(settings, ico_file@, version));
    }
    result + block_len
}


/// The capability the asset-list driver needs of one asset kind: what one
/// record encodes to, and an encoder that writes exactly that.
pub trait GmkAsset: Sized {
    /// The asset's field bytes in the legacy layout, presence flag excluded.
    spec fn encoded(&self, version: GameVersion) -> Seq<u8>;

    /// Whether the record fits the format's machine limits (each string
    /// within the 4-byte Pascal length field).
    spec fn wf(&self) -> bool;

    /// Decides `wf` at run time, for callers outside the verified library.
    fn check_wf(&self) -> (r: bool)
        ensures
            r == self.wf(),
    ;

    /// Writes the asset's field bytes into the given block.
    fn write_asset(&self, enc: &mut ZlibWriter, version: GameVersion) -> (r: usize)
        requires
            self.wf(),
        ensures
            final(enc)@ == old(enc)@ + self.encoded(version),
            r == self.encoded(version).len(),
    ;
}

impl GmkAsset for Trigger {
    open spec fn encoded(&self, version: GameVersion) -> Seq<u8> {
        spec_trigger(*self)
    }

    open spec fn wf(&self) -> bool {
        &&& spec_pas_fits(self.name@)
        &&& spec_pas_fits(self.condition@)
        &&& spec_pas_fits(self.constant_name@)
    }

    fn check_wf(&self) -> (r: bool)
        ensures
            r == self.wf(),
    {
        self.name.as_str().as_bytes().len() <= u32::MAX as usize
            && self.condition.as_str().as_bytes().len() <= u32::MAX as usize
            && self.constant_name.as_str().as_bytes().len() <= u32::MAX as usize
    }

    fn write_asset(&self, enc: &mut ZlibWriter, version: GameVersion) -> (r: usize)
        ensures
            final(enc)@ == old(enc)@ + self.encoded(version),
            r == self.encoded(version).len(),
    {
        write_trigger(enc, self, version)
    }
}

/// Wire form of one asset slot: a plain zero word for an empty slot, or a
/// Compressed Block holding a one word and the asset's fields.
pub open spec fn spec_slot<T: GmkAsset>(slot: Option<Box<T>>, v: GameVersion) -> Seq<u8> {
    match slot {
        Option::None => spec_le32(0),
        Option::Some(a) => spec_block(spec_le32(1) + a.encoded(v)),
    }
}

/// Wire form of a whole slot sequence, in order.
pub open spec fn spec_slots<T: GmkAsset>(list: Seq<Option<Box<T>>>, v: GameVersion) -> Seq<u8>
    decreases list.len(),
{
    if list.len() == 0 {
        Seq::empty()
    } else {
        spec_slot(list[0], v) + spec_slots(list.skip(1), v)
    }
}

/// Wire form of one asset-category section: list-format version, count,
/// then the slots.
pub open spec fn spec_asset_list<T: GmkAsset>(
    list: Seq<Option<Box<T>>>,
    gmk_version: u32,
    v: GameVersion,
) -> Seq<u8> {
    spec_le32(gmk_version) + spec_le32(list.len() as u32) + spec_slots(list, v)
}

proof fn lemma_slots_push<T: GmkAsset>(list: Seq<Option<Box<T>>>, x: Option<Box<T>>, v: GameVersion)
    ensures
        spec_slots(list.push(x), v) == spec_slots(list, v) + spec_slot(x, v),
    decreases list.len(),
{
    reveal_with_fuel(spec_slots, 3);
    if list.len() == 0 {
        assert(list.push(x)[0] == x);
        assert(list.push(x).skip(1) =~= Seq::<Option<Box<T>>>::empty());
        assert(spec_slots(list.push(x), v) =~= spec_slots(list, v) + spec_slot(x, v));
    } else {
        assert(list.push(x)[0] == list[0]);
        assert(list.push(x).skip(1) =~= list.skip(1).push(x));
        lemma_slots_push(list.skip(1), x, v);
        assert(spec_slots(list.push(x), v) =~= spec_slots(list, v) + spec_slot(x, v));
    }
}

/// Writes one asset category: the list-format version, the slot count, then
/// one entry per slot, preserving order and emptiness exactly. An empty slot
/// costs a single zero word; a present one becomes its own Compressed Block
/// whose payload opens with a one word and continues with the asset's
/// fields.
pub fn write_asset_list<W: WritePascalString, T: GmkAsset>(
    writer: &mut W,
    list: &[Option<Box<T>>],
    gmk_version: u32,
    version: GameVersion,
) -> (r: usize)
    requires
        list@.len() <= u32::MAX,
        forall|j: int|
            0 <= j < list@.len() ==> ((#[trigger] list@[j]) matches Option::Some(a) ==> a.wf()),
    ensures
        final(writer)@ == old(writer)@ + spec_asset_list(list@, gmk_version, version),
        r == spec_asset_list(list@, gmk_version, version).len(),
        forall|j: int|
            0 <= j < list@.len() ==> ((#[trigger] list@[j]) matches Option::Some(a)
                ==> spec_deflate_inverts(spec_le32(1) + a.encoded(version))),
        final(writer)@.len() <= usize::MAX,
{
    let mut result = writer.write_u32_le(gmk_version);
    let n = list.len();
    result = result + writer.write_u32_le(n as u32);
    let ghost header: Seq<u8> = spec_le32(gmk_version) + spec_le32(list@.len() as u32);
    proof {
        assert(writer@ =~= old(writer)@ + header);
    }
    let mut i: usize = 0;
    while i < n
        invariant
            i <= n,
            n == list@.len(),
            forall|j: int|
                0 <= j < list@.len() ==> ((#[trigger] list@[j]) matches Option::Some(a)
                    ==> a.wf()),
            writer@ == old(writer)@ + header + spec_slots(list@.take(i as int), version),
            forall|j: int|
                0 <= j < i ==> ((#[trigger] list@[j]) matches Option::Some(a)
                    ==> spec_deflate_inverts(spec_le32(1) + a.encoded(version))),
            result == writer@.len() - old(writer)@.len(),
            writer@.len() <= usize::MAX,
        decreases n - i,
    {
        match vstd::slice::slice_index_get(list, i) {
            Option::Some(a) => {
                let mut enc = ZlibWriter::new();
                enc.write_u32_le(1);
                a.write_asset(&mut enc, version);
                proof {
                    assert(enc@ =~= spec_le32(1) + list@[i as int]->Some_0.encoded(version));
                }
                result = result + enc.finish(writer);
            },
            Option::None => {
                result = result + writer.write_u32_le(0);
            },
        }
        proof {
            lemma_slots_push(list@.take(i as int), list@[i as int], version);
            assert(list@.take((i + 1) as int) =~= list@.take(i as int).push(list@[i as int]));
            assert(writer@ =~= old(writer)@ + header + spec_slots(
                list@.take((i + 1) as int),
                version,
            ));
            assert forall|j: int|
                0 <= j < i + 1 implies ((#[trigger] list@[j]) matches Option::Some(a)
                ==> spec_deflate_inverts(spec_le32(1) + a.encoded(version))) by {}
        }
        i = i + 1;
    }
    proof {
        assert(list@.take(n as int) =~= list@);
        assert(writer@ =~= old(writer)@ + spec_asset_list(list@, gmk_version, version));
    }
    result
}

} // verus!
