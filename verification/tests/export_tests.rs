use hangul_syllable::cli::{export_scope, format_mode, parse_hex_color, ExportMode, ExportTarget};
use hangul_syllable::engine::LayoutEngine;
use hangul_syllable::export::{
    sheet_fits,
    build_sheet_image, char_png_bytes, get_char_list, render_single_char, sheet_png_bytes,
    CharScope, ExportConfig, FileNameFormat,
};
use hangul_syllable::generator::RuleGenerator;
use hangul_syllable::glyph::GlyphStore;
use hangul_syllable::render::RenderContext;

#[test]
fn format_char_ga() {
    assert_eq!(FileNameFormat::Char.format('가'), "가.png");
}

#[test]
fn format_hex_ga() {
    assert_eq!(FileNameFormat::Hex.format('가'), "AC00.png");
}

#[test]
fn format_uhex_ga() {
    assert_eq!(FileNameFormat::UHex.format('가'), "UAC00.png");
}

#[test]
fn format_uplushex_ga() {
    assert_eq!(FileNameFormat::UPlusHex.format('가'), "U+AC00.png");
}

#[test]
fn format_hex_hih() {
    assert_eq!(FileNameFormat::Hex.format('힣'), "D7A3.png");
}

#[test]
fn format_hex_ascii_a_zero_padded() {
    assert_eq!(FileNameFormat::Hex.format('A'), "0041.png");
}

#[test]
fn format_char_ascii() {
    assert_eq!(FileNameFormat::Char.format('A'), "A.png");
}

#[test]
fn format_hex_beyond_four_digits() {
    assert_eq!(FileNameFormat::Hex.format('\u{1F600}'), "1F600.png");
}

#[test]
fn get_char_list_all_hangul() {
    let list = get_char_list(&CharScope::All, "");
    assert_eq!(list.len(), 11172);
    assert_eq!(list[0], '가');
    assert_eq!(*list.last().unwrap(), '힣');
}

#[test]
fn get_char_list_custom_dedup_and_order() {
    let list = get_char_list(&CharScope::Custom, "가나가다나");
    assert_eq!(list, vec!['가', '나', '다']);
}

#[test]
fn get_char_list_custom_ignores_non_hangul() {
    let list = get_char_list(&CharScope::Custom, "Hello가World나");
    assert_eq!(list, vec!['가', '나']);
}

fn config(w: u32, h: u32, columns: u32) -> ExportConfig {
    ExportConfig {
        canvas_w: w,
        canvas_h: h,
        color_text: [255, 255, 255, 255],
        color_bg: [0, 0, 0, 0],
        columns,
        name_format: FileNameFormat::Hex,
    }
}

#[test]
fn render_single_char_draws_glyph_pixels() {
    let mut store = GlyphStore::default();
    let rules = RuleGenerator::generate_default(&mut store);
    for (_, g) in store.glyphs.iter_mut() {
        g.set(0, 0);
    }
    let engine = LayoutEngine { rules };
    let ctx = RenderContext { store: &store, engine: &engine, canvas_w: 4, canvas_h: 4 };
    let cfg = config(4, 4, 2);
    let bytes = char_png_bytes(&ctx, '가', &cfg);
    assert!(bytes.starts_with(&[0x89, b'P', b'N', b'G']));
    let img = render_single_char(&ctx, '가', &cfg);
    let _ = img;
}

#[test]
fn sheet_of_no_chars_is_one_pixel() {
    let store = GlyphStore::default();
    let engine = LayoutEngine::default();
    let ctx = RenderContext { store: &store, engine: &engine, canvas_w: 4, canvas_h: 4 };
    let cfg = config(4, 4, 2);
    let bytes = sheet_png_bytes(&ctx, &[], &cfg);
    assert!(bytes.starts_with(&[0x89, b'P', b'N', b'G']));
    let _ = build_sheet_image(&ctx, &[], &cfg);
}

#[test]
fn sheet_png_differs_with_glyphs() {
    let mut store = GlyphStore::default();
    let rules = RuleGenerator::generate_default(&mut store);
    let engine = LayoutEngine { rules };
    let cfg = config(4, 4, 2);
    let plain = {
        let ctx = RenderContext { store: &store, engine: &engine, canvas_w: 4, canvas_h: 4 };
        sheet_png_bytes(&ctx, &['가', '나', '다'], &cfg)
    };
    for (_, g) in store.glyphs.iter_mut() {
        g.set(1, 1);
    }
    let ctx = RenderContext { store: &store, engine: &engine, canvas_w: 4, canvas_h: 4 };
    let drawn = sheet_png_bytes(&ctx, &['가', '나', '다'], &cfg);
    assert_ne!(plain, drawn);
}

#[test]
fn parse_hex_white() {
    assert_eq!(parse_hex_color("ffffff"), [255, 255, 255, 255]);
}

#[test]
fn parse_hex_black() {
    assert_eq!(parse_hex_color("000000"), [0, 0, 0, 255]);
}

#[test]
fn parse_hex_with_hash_prefix() {
    assert_eq!(parse_hex_color("#ff0000"), [255, 0, 0, 255]);
}

#[test]
fn parse_hex_uppercase() {
    assert_eq!(parse_hex_color("FF8800"), [255, 136, 0, 255]);
}

#[test]
fn parse_hex_invalid_falls_back_to_white() {
    assert_eq!(parse_hex_color("xyz"), [255, 255, 255, 255]);
}

#[test]
fn parse_hex_alpha_always_255() {
    let c = parse_hex_color("aabbcc");
    assert_eq!(c[3], 255);
}

#[test]
fn parse_hex_overflowing_u32_falls_back_to_white() {
    assert_eq!(parse_hex_color("1ffffffff"), [255, 255, 255, 255]);
}

#[test]
fn format_mode_names() {
    assert_eq!(format_mode(ExportMode::Sheet), "시트");
    assert_eq!(format_mode(ExportMode::Individual), "개별");
}

#[test]
fn export_scope_prefers_given_chars() {
    let (scope, text) = export_scope(ExportTarget::All, Some("가나".to_string())).unwrap();
    assert_eq!(scope, CharScope::Custom);
    assert_eq!(text, "가나");
    assert!(export_scope(ExportTarget::Custom, None).is_none());
    let (scope, text) = export_scope(ExportTarget::All, None).unwrap();
    assert_eq!(scope, CharScope::All);
    assert_eq!(text, "");
}

#[test]
fn sheet_fits_checks_sizes() {
    assert!(sheet_fits(5, &config(8, 8, 2)));
    assert!(sheet_fits(11172, &config(16, 16, 0)));
    assert!(sheet_fits(11172, &config(16, 16, 100)));
    assert!(!sheet_fits(3, &config(u32::MAX, 2, 2)));
    assert!(!sheet_fits(usize::MAX, &config(1, 1, 1)));
}
