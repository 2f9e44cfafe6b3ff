use hangul_syllable::engine::{LayoutEngine, LayoutResult, PartPlacement, PlacedPart};
use hangul_syllable::generator::RuleGenerator;
use hangul_syllable::glyph::{GlyphKey, GlyphStore};
use hangul_syllable::hangul::{all_hangul_syllables, decompose_hangul, get_jamo_char};
use hangul_syllable::render::compose_pixels;
use hangul_syllable::rule_system::RuleSystem;
use hangul_syllable::types::HangulComponent;

fn make_layout(
    cho: (HangulComponent, char, &str),
    jung: (HangulComponent, char, &str),
    jong: Option<(HangulComponent, char, &str)>,
) -> LayoutResult {
    LayoutResult {
        template_id: "tpl".to_string(),
        template_name: "tpl".to_string(),
        selector_name: "sel".to_string(),
        matched_variants: vec![],
        cho: PlacedPart {
            placement: PartPlacement { kind: cho.0, jamo: cho.1 },
            group_id: cho.2.to_string(),
        },
        jung: PlacedPart {
            placement: PartPlacement {
                kind: jung.0,
                jamo: jung.1,
            },
            group_id: jung.2.to_string(),
        },
        jong: jong.map(|(k, j, g)| PlacedPart {
            placement: PartPlacement { kind: k, jamo: j },
            group_id: g.to_string(),
        }),
        fallbacks: vec![],
    }
}

fn store_with_pixel(kind: HangulComponent, jamo: char, gid: &str, x: i32, y: i32) -> GlyphStore {
    let mut store = GlyphStore::default();
    let key = GlyphKey::new(kind, jamo, gid);
    store.ensure_glyph(key.clone());
    store.get_mut(&key).unwrap().set(x, y);
    store
}

#[test]
fn compose_empty_store_returns_empty() {
    let store = GlyphStore::default();
    let layout = make_layout((HangulComponent::Cho, 'ㄱ', "g"), (HangulComponent::Jung, 'ㅏ', "g"), None);
    assert!(compose_pixels(&store, &layout, 16, 16).is_empty());
}

#[test]
fn compose_cho_and_jung_both_appear() {
    let mut store = GlyphStore::default();
    store.ensure_glyph(GlyphKey::new(HangulComponent::Cho, 'ㄱ', "g"));
    store.ensure_glyph(GlyphKey::new(HangulComponent::Jung, 'ㅏ', "g"));
    store.get_mut(&GlyphKey::new(HangulComponent::Cho, 'ㄱ', "g")).unwrap().set(0, 0);
    store.get_mut(&GlyphKey::new(HangulComponent::Jung, 'ㅏ', "g")).unwrap().set(1, 1);

    let layout = make_layout((HangulComponent::Cho, 'ㄱ', "g"), (HangulComponent::Jung, 'ㅏ', "g"), None);
    let out = compose_pixels(&store, &layout, 16, 16);
    assert_eq!(out.len(), 2);
    assert!(out.iter().any(|p| p.x == 0 && p.y == 0));
    assert!(out.iter().any(|p| p.x == 1 && p.y == 1));
}

#[test]
fn compose_jong_included_when_in_layout() {
    let mut store = GlyphStore::default();
    store.ensure_glyph(GlyphKey::new(HangulComponent::Cho, 'ㄱ', "g"));
    store.ensure_glyph(GlyphKey::new(HangulComponent::Jung, 'ㅏ', "g"));
    store.ensure_glyph(GlyphKey::new(HangulComponent::Jong, 'ㄴ', "g"));
    store.get_mut(&GlyphKey::new(HangulComponent::Cho, 'ㄱ', "g")).unwrap().set(0, 0);
    store.get_mut(&GlyphKey::new(HangulComponent::Jung, 'ㅏ', "g")).unwrap().set(1, 1);
    store.get_mut(&GlyphKey::new(HangulComponent::Jong, 'ㄴ', "g")).unwrap().set(2, 2);

    let layout = make_layout(
        (HangulComponent::Cho, 'ㄱ', "g"),
        (HangulComponent::Jung, 'ㅏ', "g"),
        Some((HangulComponent::Jong, 'ㄴ', "g")),
    );
    assert_eq!(compose_pixels(&store, &layout, 16, 16).len(), 3);
}

#[test]
fn compose_clips_negative_x() {
    let store = store_with_pixel(HangulComponent::Cho, 'ㄱ', "g", -1, 0);
    let layout = make_layout((HangulComponent::Cho, 'ㄱ', "g"), (HangulComponent::Jung, 'ㅏ', "g"), None);
    assert!(compose_pixels(&store, &layout, 16, 16).is_empty());
}

#[test]
fn compose_clips_negative_y() {
    let store = store_with_pixel(HangulComponent::Cho, 'ㄱ', "g", 0, -1);
    let layout = make_layout((HangulComponent::Cho, 'ㄱ', "g"), (HangulComponent::Jung, 'ㅏ', "g"), None);
    assert!(compose_pixels(&store, &layout, 16, 16).is_empty());
}

#[test]
fn compose_clips_x_equal_canvas_w() {
    let store = store_with_pixel(HangulComponent::Cho, 'ㄱ', "g", 16, 0);
    let layout = make_layout((HangulComponent::Cho, 'ㄱ', "g"), (HangulComponent::Jung, 'ㅏ', "g"), None);
    assert!(compose_pixels(&store, &layout, 16, 16).is_empty());
}

#[test]
fn compose_clips_y_equal_canvas_h() {
    let store = store_with_pixel(HangulComponent::Cho, 'ㄱ', "g", 0, 16);
    let layout = make_layout((HangulComponent::Cho, 'ㄱ', "g"), (HangulComponent::Jung, 'ㅏ', "g"), None);
    assert!(compose_pixels(&store, &layout, 16, 16).is_empty());
}

#[test]
fn compose_includes_last_valid_pixel() {
    let store = store_with_pixel(HangulComponent::Cho, 'ㄱ', "g", 15, 15);
    let layout = make_layout((HangulComponent::Cho, 'ㄱ', "g"), (HangulComponent::Jung, 'ㅏ', "g"), None);
    let out = compose_pixels(&store, &layout, 16, 16);
    assert_eq!(out.len(), 1);
    assert_eq!(out[0].x, 15);
    assert_eq!(out[0].y, 15);
}

#[test]
fn compose_jong_absent_in_layout_not_rendered() {
    let mut store = GlyphStore::default();
    store.ensure_glyph(GlyphKey::new(HangulComponent::Cho, 'ㄱ', "g"));
    store.ensure_glyph(GlyphKey::new(HangulComponent::Jung, 'ㅏ', "g"));
    store.ensure_glyph(GlyphKey::new(HangulComponent::Jong, 'ㄴ', "g"));
    store.get_mut(&GlyphKey::new(HangulComponent::Jong, 'ㄴ', "g")).unwrap().set(5, 5);

    let layout = make_layout((HangulComponent::Cho, 'ㄱ', "g"), (HangulComponent::Jung, 'ㅏ', "g"), None);
    let out = compose_pixels(&store, &layout, 16, 16);
    assert!(!out.iter().any(|p| p.x == 5 && p.y == 5));
}

fn can_layout(rules: RuleSystem, store: &GlyphStore, ch: char) -> bool {
    let eng = LayoutEngine { rules };
    eng.layout_char(store, ch, decompose_hangul, get_jamo_char).is_some()
}

#[test]
fn generate_default_layouts_all_syllables() {
    let mut store = GlyphStore::default();
    let rules = RuleGenerator::generate_default(&mut store);
    let eng = LayoutEngine { rules };
    let failed: Vec<char> = all_hangul_syllables()
        .into_iter()
        .filter(|&ch| eng.layout_char(&store, ch, decompose_hangul, get_jamo_char).is_none())
        .collect();
    assert!(failed.is_empty(), "레이아웃 실패: {:?}", &failed[..failed.len().min(10)]);
}

#[test]
fn generate_10x6x4_layouts_ga() {
    let mut store = GlyphStore::default();
    let rules = RuleGenerator::generate_10x6x4(&mut store);
    assert!(can_layout(rules, &store, '가'));
}

#[test]
fn generate_zik_layouts_ga() {
    let mut store = GlyphStore::default();
    let rules = RuleGenerator::generate_zik(&mut store);
    assert!(can_layout(rules, &store, '가'));
}

#[test]
fn generate_dkb_layouts_ga() {
    let mut store = GlyphStore::default();
    let rules = RuleGenerator::generate_dkb(&mut store);
    assert!(can_layout(rules, &store, '가'));
}

#[test]
fn generate_hanterm_layouts_ga() {
    let mut store = GlyphStore::default();
    let rules = RuleGenerator::generate_hanterm(&mut store);
    assert!(can_layout(rules, &store, '가'));
}

#[test]
fn generate_default_counts() {
    let mut store = GlyphStore::default();
    let rules = RuleGenerator::generate_default(&mut store);
    assert_eq!(rules.groups.len(), 13);
    assert_eq!(rules.templates.len(), 6);
    assert_eq!(rules.selectors.len(), 6);
}

#[test]
fn generate_keeps_existing_glyphs() {
    let mut store = GlyphStore::default();
    let key = GlyphKey::new(HangulComponent::Cho, 'ㄱ', "custom");
    store.ensure_glyph(key.clone());
    store.get_mut(&key).unwrap().set(3, 3);
    let _ = RuleGenerator::generate_zik(&mut store);
    assert!(store.get(&key).unwrap().has(3, 3));
}

#[test]
fn dkb_preset_bases_glyphs_and_layout() {
    let mut store = GlyphStore::default();
    let rules = RuleGenerator::generate_dkb(&mut store);
    assert_eq!(rules.groups.len(), 16);
    assert_eq!(rules.templates.len(), 15);
    assert_eq!(rules.selectors.len(), 15);
    assert_eq!(rules.base_cho_group_id, "grp_000001");
    assert_eq!(rules.base_jung_group_id, "grp_000010");
    assert_eq!(rules.base_jong_group_id, "grp_000013");
    assert_eq!(store.glyphs.len(), 344);
    let eng = LayoutEngine { rules };
    let r = eng.layout_char(&store, '길', decompose_hangul, get_jamo_char).unwrap();
    assert_eq!(r.template_name, "받침O/ㅓㅕㅣ");
    assert_eq!(r.cho.group_id, "grp_000006");
    assert_eq!(r.jung.group_id, "grp_000011");
    assert_eq!(r.jong.as_ref().unwrap().group_id, "grp_000014");
    assert!(r.fallbacks.is_empty());
}

#[test]
fn default_preset_glyphs_and_templates() {
    let mut store = GlyphStore::default();
    let rules = RuleGenerator::generate_default(&mut store);
    assert_eq!(store.glyphs.len(), 183);
    let eng = LayoutEngine { rules };
    for ch in all_hangul_syllables() {
        let r = eng.layout_char(&store, ch, decompose_hangul, get_jamo_char).unwrap();
        assert!(r.fallbacks.is_empty());
    }
    let ga = eng.layout_char(&store, '가', decompose_hangul, get_jamo_char).unwrap();
    let gal = eng.layout_char(&store, '갈', decompose_hangul, get_jamo_char).unwrap();
    assert_ne!(ga.template_id, gal.template_id);
}
