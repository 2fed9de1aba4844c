use gmk::wire::WritePascalString;
use gmk::zlib::ZlibWriter;
use gmk::{
    write_asset_list, write_header, write_settings, write_timestamp, write_trigger, GameVersion,
    Settings, Trigger,
};
use std::io::Read;

fn ru32(b: &[u8], p: &mut usize) -> u32 {
    let v = u32::from_le_bytes([b[*p], b[*p + 1], b[*p + 2], b[*p + 3]]);
    *p += 4;
    v
}

fn ru64(b: &[u8], p: &mut usize) -> u64 {
    let v = u64::from_le_bytes([
        b[*p],
        b[*p + 1],
        b[*p + 2],
        b[*p + 3],
        b[*p + 4],
        b[*p + 5],
        b[*p + 6],
        b[*p + 7],
    ]);
    *p += 8;
    v
}

fn rpas<'a>(b: &'a [u8], p: &mut usize) -> &'a [u8] {
    let n = ru32(b, p) as usize;
    let s = &b[*p..*p + n];
    *p += n;
    s
}

fn inflate(b: &[u8]) -> Vec<u8> {
    let mut d = flate2::read::ZlibDecoder::new(b);
    let mut out = Vec::new();
    d.read_to_end(&mut out).expect("valid zlib stream");
    out
}

fn rblock(b: &[u8], p: &mut usize) -> Vec<u8> {
    let n = ru32(b, p) as usize;
    let z = &b[*p..*p + n];
    *p += n;
    inflate(z)
}

fn sample_settings() -> Settings {
    Settings {
        fullscreen: true,
        dont_draw_border: false,
        display_cursor: true,
        interpolate_pixels: false,
        scaling: -1,
        allow_resize: true,
        window_on_top: false,
        clear_colour: 0x00C0FFEE,
        set_resolution: true,
        colour_depth: 32,
        resolution: 5,
        frequency: 60,
        dont_show_buttons: true,
        vsync: false,
        disable_screensaver: true,
        f4_fullscreen_toggle: false,
        f1_help_menu: true,
        esc_close_game: false,
        f5_save_f6_load: true,
        f9_screenshot: false,
        treat_close_as_esc: true,
        priority: 7,
        freeze_on_lose_focus: false,
        loading_bar: 2,
        backdata: Some(vec![1, 2, 3]),
        frontdata: None,
        custom_load_image: Some(vec![9, 8, 7, 6]),
        transparent: true,
        translucency: 200,
        scale_progress_bar: false,
        show_error_messages: true,
        log_errors: false,
        always_abort: true,
        zero_uninitalized_vars: true,
        error_on_uninitalized_args: true,
    }
}

#[test]
fn header_bytes_exact() {
    let mut out: Vec<u8> = Vec::new();
    let n = write_header(
        &mut out,
        GameVersion::GameMaker8_1,
        77,
        [0xDEAD, 0xBEEF, 42, 0],
    );
    assert_eq!(n, 28);
    assert_eq!(out.len(), 28);
    let mut p = 0usize;
    assert_eq!(ru32(&out, &mut p), 1234321);
    assert_eq!(ru32(&out, &mut p), 810);
    assert_eq!(ru32(&out, &mut p), 77);
    assert_eq!(ru32(&out, &mut p), 0xDEAD);
    assert_eq!(ru32(&out, &mut p), 0xBEEF);
    assert_eq!(ru32(&out, &mut p), 42);
    assert_eq!(ru32(&out, &mut p), 0);
}

#[test]
fn header_version_code_old() {
    let mut out: Vec<u8> = Vec::new();
    write_header(&mut out, GameVersion::GameMaker8_0, 0, [0, 0, 0, 0]);
    let mut p = 4usize;
    assert_eq!(ru32(&out, &mut p), 800);
}

#[test]
fn timestamp_writes_epoch_zero() {
    let mut out: Vec<u8> = Vec::new();
    let n = write_timestamp(&mut out);
    assert_eq!(n, 8);
    assert_eq!(out, vec![0u8; 8]);
}

#[test]
fn pas_string_round_trip() {
    let mut out: Vec<u8> = Vec::new();
    let n = out.write_pas_string("hello");
    assert_eq!(n, 9);
    let mut p = 0usize;
    assert_eq!(rpas(&out, &mut p), b"hello");

    let mut empty: Vec<u8> = Vec::new();
    empty.write_pas_string("");
    let mut p = 0usize;
    assert_eq!(ru32(&empty, &mut p), 0);
    assert_eq!(empty.len(), 4);

    let mut nul: Vec<u8> = Vec::new();
    nul.write_pas_string("a\u{0}b");
    let mut p = 0usize;
    assert_eq!(rpas(&nul, &mut p), b"a\0b");
}

#[test]
fn compressed_block_round_trip() {
    let payload: Vec<u8> = (0..=255u8).cycle().take(2000).collect();
    let mut enc = ZlibWriter::new();
    enc.write_all(&payload);
    let mut out: Vec<u8> = Vec::new();
    let n = enc.finish(&mut out);
    assert_eq!(n, out.len());
    let mut p = 0usize;
    let stored_len = ru32(&out, &mut p) as usize;
    assert_eq!(stored_len, out.len() - 4);
    assert_eq!(inflate(&out[4..]), payload);
}

#[test]
fn settings_block_decodes_to_fields() {
    let icon = vec![0xAA, 0xBB, 0xCC, 0xDD];
    let mut out: Vec<u8> = Vec::new();
    write_settings(
        &mut out,
        sample_settings(),
        icon.clone(),
        GameVersion::GameMaker8_1,
    );
    let mut p = 0usize;
    assert_eq!(ru32(&out, &mut p), 800);
    let body = rblock(&out, &mut p);
    assert_eq!(p, out.len());

    let mut q = 0usize;
    let expected_words: [u32; 24] = [
        1, 0, 1, 0, 0xFFFFFFFF, 1, 0, 0x00C0FFEE, 1, 32, 5, 60, 1, 0, 1, 0, 1, 0, 1, 0, 1, 7, 0, 2,
    ];
    for w in expected_words {
        assert_eq!(ru32(&body, &mut q), w);
    }
    assert_eq!(ru32(&body, &mut q), 1);
    assert_eq!(rblock(&body, &mut q), vec![1, 2, 3]);
    assert_eq!(ru32(&body, &mut q), 0);
    assert_eq!(ru32(&body, &mut q), 1);
    assert_eq!(ru32(&body, &mut q), 1);
    assert_eq!(rblock(&body, &mut q), vec![9, 8, 7, 6]);
    assert_eq!(ru32(&body, &mut q), 1);
    assert_eq!(ru32(&body, &mut q), 200);
    assert_eq!(ru32(&body, &mut q), 0);
    assert_eq!(rpas(&body, &mut q), icon.as_slice());
    assert_eq!(ru32(&body, &mut q), 1);
    assert_eq!(ru32(&body, &mut q), 0);
    assert_eq!(ru32(&body, &mut q), 1);
    assert_eq!(ru32(&body, &mut q), 3);
    assert_eq!(
        rpas(&body, &mut q),
        b"decompiler clan :police_car: :police_car: :police_car:".as_slice()
    );
    assert_eq!(rpas(&body, &mut q), b"");
    assert_eq!(ru64(&body, &mut q), 0);
    assert_eq!(rpas(&body, &mut q), b"");
    assert_eq!(ru32(&body, &mut q), 0);
    assert_eq!(ru32(&body, &mut q), 0);
    assert_eq!(ru32(&body, &mut q), 0);
    assert_eq!(ru32(&body, &mut q), 0);
    assert_eq!(rpas(&body, &mut q), b"");
    assert_eq!(rpas(&body, &mut q), b"");
    assert_eq!(rpas(&body, &mut q), b"");
    assert_eq!(rpas(&body, &mut q), b"");
    assert_eq!(ru64(&body, &mut q), 0);
    assert_eq!(q, body.len());
}

#[test]
fn settings_flags_word_old_version() {
    let mut s = sample_settings();
    s.loading_bar = 0;
    s.backdata = None;
    s.frontdata = None;
    s.custom_load_image = None;
    let mut out: Vec<u8> = Vec::new();
    write_settings(&mut out, s, Vec::new(), GameVersion::GameMaker8_0);
    let mut p = 4usize;
    let body = rblock(&out, &mut p);
    let mut q = 24 * 4;
    assert_eq!(ru32(&body, &mut q), 0);
    q += 3 * 4;
    assert_eq!(ru32(&body, &mut q), 0);
    q += 3 * 4;
    assert_eq!(ru32(&body, &mut q), 1);
}

#[test]
fn loading_bar_images_are_gated() {
    let mut with_images = sample_settings();
    with_images.loading_bar = 1;
    let mut without = sample_settings();
    without.loading_bar = 1;
    without.backdata = None;
    without.frontdata = None;
    let mut out_a: Vec<u8> = Vec::new();
    let mut out_b: Vec<u8> = Vec::new();
    write_settings(&mut out_a, with_images, vec![5], GameVersion::GameMaker8_0);
    write_settings(&mut out_b, without, vec![5], GameVersion::GameMaker8_0);
    assert_eq!(out_a, out_b);
    let mut p = 4usize;
    let body = rblock(&out_a, &mut p);
    let mut q = 24 * 4;
    assert_eq!(ru32(&body, &mut q), 1);
    assert_eq!(ru32(&body, &mut q), 1);
    let splash = rblock(&body, &mut q);
    assert_eq!(splash, vec![9, 8, 7, 6]);
}

#[test]
fn trigger_bytes_exact() {
    let trigger = Trigger {
        name: String::from("T1"),
        condition: String::from("x>0"),
        moment: 0,
        constant_name: String::from("C"),
    };
    let mut out: Vec<u8> = Vec::new();
    write_trigger(&mut out, &trigger, GameVersion::GameMaker8_0);
    let mut p = 0usize;
    assert_eq!(ru32(&out, &mut p), 800);
    assert_eq!(rpas(&out, &mut p), b"T1");
    assert_eq!(rpas(&out, &mut p), b"x>0");
    assert_eq!(ru32(&out, &mut p), 0);
    assert_eq!(rpas(&out, &mut p), b"C");
    assert_eq!(p, out.len());
}

#[test]
fn asset_list_preserves_slots() {
    let trigger = Trigger {
        name: String::from("T1"),
        condition: String::from("x>0"),
        moment: 0,
        constant_name: String::from("C"),
    };
    let list: Vec<Option<Box<Trigger>>> = vec![None, Some(Box::new(trigger)), None];
    let mut out: Vec<u8> = Vec::new();
    write_asset_list(&mut out, &list, 800, GameVersion::GameMaker8_1);
    let mut p = 0usize;
    assert_eq!(ru32(&out, &mut p), 800);
    assert_eq!(ru32(&out, &mut p), 3);
    assert_eq!(ru32(&out, &mut p), 0);
    let payload = rblock(&out, &mut p);
    let mut q = 0usize;
    assert_eq!(ru32(&payload, &mut q), 1);
    assert_eq!(ru32(&payload, &mut q), 800);
    assert_eq!(rpas(&payload, &mut q), b"T1");
    assert_eq!(rpas(&payload, &mut q), b"x>0");
    assert_eq!(ru32(&payload, &mut q), 0);
    assert_eq!(rpas(&payload, &mut q), b"C");
    assert_eq!(q, payload.len());
    assert_eq!(ru32(&out, &mut p), 0);
    assert_eq!(p, out.len());
}

#[test]
fn all_empty_asset_list() {
    let list: Vec<Option<Box<Trigger>>> = vec![None, None];
    let mut out: Vec<u8> = Vec::new();
    let n = write_asset_list(&mut out, &list, 440, GameVersion::GameMaker8_0);
    assert_eq!(n, 16);
    let mut p = 0usize;
    assert_eq!(ru32(&out, &mut p), 440);
    assert_eq!(ru32(&out, &mut p), 2);
    assert_eq!(ru32(&out, &mut p), 0);
    assert_eq!(ru32(&out, &mut p), 0);
    assert_eq!(p, out.len());
}
