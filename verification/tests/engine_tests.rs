use hangul_syllable::charset::char_set_from;
use hangul_syllable::engine::{LayoutEngine, LayoutResult};
use hangul_syllable::generator::RuleGenerator;
use hangul_syllable::glyph::GlyphStore;
use hangul_syllable::hangul::{decompose_hangul, get_jamo_char};
use hangul_syllable::rule_system::RuleSystem;
use hangul_syllable::rules::{CharSetCond, SelectorRule, Template, VariantRule};
use hangul_syllable::types::HangulComponent;

fn default_engine() -> (LayoutEngine, GlyphStore) {
    let mut store = GlyphStore::default();
    let rules = RuleGenerator::generate_default(&mut store);
    (LayoutEngine { rules }, store)
}

fn layout(engine: &LayoutEngine, store: &GlyphStore, ch: char) -> Option<LayoutResult> {
    engine.layout_char(store, ch, decompose_hangul, get_jamo_char)
}

#[test]
fn layout_ascii_returns_none() {
    let (eng, store) = default_engine();
    assert!(layout(&eng, &store, 'A').is_none());
}

#[test]
fn layout_no_templates_returns_none() {
    let eng = LayoutEngine::default();
    let store = GlyphStore::default();
    assert!(layout(&eng, &store, '가').is_none());
}

#[test]
fn layout_ga_has_no_jong() {
    let (eng, store) = default_engine();
    let res = layout(&eng, &store, '가').unwrap();
    assert!(res.jong.is_none());
}

#[test]
fn layout_gal_has_jong() {
    let (eng, store) = default_engine();
    let res = layout(&eng, &store, '갈').unwrap();
    let jong = res.jong.unwrap();
    assert_eq!(jong.placement.jamo, 'ㄹ');
}

#[test]
fn layout_ga_cho_is_giyeok() {
    let (eng, store) = default_engine();
    let res = layout(&eng, &store, '가').unwrap();
    assert_eq!(res.cho.placement.jamo, 'ㄱ');
}

#[test]
fn layout_ga_jung_is_a() {
    let (eng, store) = default_engine();
    let res = layout(&eng, &store, '가').unwrap();
    assert_eq!(res.jung.placement.jamo, 'ㅏ');
}

#[test]
fn layout_ga_vs_gal_different_templates() {
    let (eng, store) = default_engine();
    let no_jong = layout(&eng, &store, '가').unwrap();
    let with_jong = layout(&eng, &store, '갈').unwrap();
    assert_ne!(no_jong.template_id, with_jong.template_id);
}

#[test]
fn layout_empty_store_produces_fallbacks() {
    let mut store = GlyphStore::default();
    let rules = RuleGenerator::generate_default(&mut store);
    let eng = LayoutEngine { rules };
    let empty_store = GlyphStore::default();
    let res = layout(&eng, &empty_store, '가').unwrap();
    assert!(!res.fallbacks.is_empty());
}

#[test]
fn layout_no_fallbacks_when_glyphs_present() {
    let (eng, store) = default_engine();
    let res = layout(&eng, &store, '가').unwrap();
    assert!(res.fallbacks.is_empty());
}

#[test]
fn layout_variant_applied_changes_group_id() {
    let mut store = GlyphStore::default();
    let mut rules = RuleGenerator::generate_default(&mut store);

    let variant_gid = "variant_cho".to_string();
    let variant_id = rules.new_variant_id();
    let vr = VariantRule {
        id: variant_id,
        name: "giyeok_variant".to_string(),
        priority: 1,
        cho_set: CharSetCond::Include(char_set_from(&vec!['ㄱ'])),
        jung_set: CharSetCond::Any,
        jong_set: CharSetCond::Any,
        set_cho_group_id: Some(variant_gid.clone()),
        set_jung_group_id: None,
        set_jong_group_id: None,
    };
    if let Some(tpl) = rules.templates.first_mut() {
        tpl.variant_rules.push(vr);
    }

    let eng = LayoutEngine { rules };
    let res = layout(&eng, &store, '가').unwrap();
    assert!(res.matched_variants.contains(&"giyeok_variant".to_string()));
}

#[test]
fn layout_single_selector_engine() {
    let mut rules = RuleSystem::default();
    let tpl_id = rules.new_template_id();
    let sel_id = rules.new_selector_id();

    let mut store = GlyphStore::default();
    let cho_gid = rules.add_group(&mut store, "cho", HangulComponent::Cho, vec!['ㄱ']);
    let jung_gid = rules.add_group(&mut store, "jung", HangulComponent::Jung, vec!['ㅏ']);
    rules.base_cho_group_id = cho_gid.clone();
    rules.base_jung_group_id = jung_gid.clone();

    rules.add_template(Template {
        id: tpl_id.clone(),
        name: "test".to_string(),
        default_cho_group_id: cho_gid,
        default_jung_group_id: jung_gid,
        default_jong_group_id: None,
        variant_rules: vec![],
    });
    rules.add_selector(SelectorRule {
        id: sel_id,
        name: "any".to_string(),
        priority: 0,
        cho_set: CharSetCond::Any,
        jung_set: CharSetCond::Any,
        jong_set: CharSetCond::Any,
        template_id: tpl_id,
    });

    let eng = LayoutEngine { rules };
    assert!(layout(&eng, &store, '가').is_some());
}

#[test]
fn layout_jamo_matches_layout_char() {
    let (eng, store) = default_engine();
    let a = layout(&eng, &store, '갈').unwrap();
    let b = eng.layout_jamo(&store, 'ㄱ', 'ㅏ', Some('ㄹ')).unwrap();
    assert_eq!(a.template_id, b.template_id);
    assert_eq!(a.cho.group_id, b.cho.group_id);
    assert_eq!(a.jung.group_id, b.jung.group_id);
    assert_eq!(a.jong.unwrap().group_id, b.jong.unwrap().group_id);
}

#[test]
fn variants_apply_in_priority_order() {
    let mut store = GlyphStore::default();
    let mut rules = RuleGenerator::generate_default(&mut store);
    let low = VariantRule {
        id: "vr_low".to_string(),
        name: "low".to_string(),
        priority: 1,
        cho_set: CharSetCond::Any,
        jung_set: CharSetCond::Any,
        jong_set: CharSetCond::Any,
        set_cho_group_id: Some("grp_low".to_string()),
        set_jung_group_id: None,
        set_jong_group_id: None,
    };
    let high = VariantRule {
        id: "vr_high".to_string(),
        name: "high".to_string(),
        priority: 5,
        cho_set: CharSetCond::Any,
        jung_set: CharSetCond::Any,
        jong_set: CharSetCond::Any,
        set_cho_group_id: Some("grp_high".to_string()),
        set_jung_group_id: None,
        set_jong_group_id: None,
    };
    for t in rules.templates.iter_mut() {
        t.variant_rules.push(low.clone());
        t.variant_rules.push(high.clone());
    }
    let eng = LayoutEngine { rules };
    let res = layout(&eng, &store, '가').unwrap();
    assert_eq!(res.matched_variants, vec!["low".to_string(), "high".to_string()]);
}
