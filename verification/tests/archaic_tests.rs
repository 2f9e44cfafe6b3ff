use hangul_syllable::archaic::{
    archaic_triplets_for_component_in_group, archaic_triplets_for_group, used_triplets_by_template_id,
    used_triplets_by_variant_rule,
};
use hangul_syllable::engine::LayoutEngine;
use hangul_syllable::generator::RuleGenerator;
use hangul_syllable::glyph::GlyphStore;
use hangul_syllable::rules::{CharSetCond, VariantRule};
use hangul_syllable::types::HangulComponent;

fn default_engine() -> (LayoutEngine, GlyphStore) {
    let mut store = GlyphStore::default();
    let rules = RuleGenerator::generate_default(&mut store);
    (LayoutEngine { rules }, store)
}

#[test]
fn old_hangul_off_lists_nothing() {
    let (eng, store) = default_engine();
    let tid = eng.rules.templates[0].id.clone();
    assert!(used_triplets_by_template_id(&eng, &store, false, &tid).is_empty());
    assert!(used_triplets_by_variant_rule(&eng, &store, false, &tid, "vr_x").is_empty());
}

#[test]
fn old_hangul_candidates_split_over_templates() {
    let (eng, store) = default_engine();
    let mut total = 0;
    for t in &eng.rules.templates {
        let ts = used_triplets_by_template_id(&eng, &store, true, &t.id);
        total += ts.len();
    }
    assert_eq!(total, 105 * 42 + 73 * 38 + 110);
}

#[test]
fn archaic_members_of_base_group() {
    let (mut eng, store) = default_engine();
    let base = eng.rules.base_cho_group_id.clone();
    let g = eng.rules.groups.iter_mut().find(|g| g.id == base).unwrap();
    g.members.insert(0, '\u{1113}');
    let ts = archaic_triplets_for_group(&eng, &store, &base);
    assert!(!ts.is_empty());
    assert!(ts.iter().all(|t| t.0 == '\u{1113}'));
    assert!(archaic_triplets_for_group(&eng, &store, "grp_missing").is_empty());
}

#[test]
fn component_triplets_only_for_archaic_jamo() {
    let (eng, store) = default_engine();
    let base = eng.rules.base_cho_group_id.clone();
    assert!(archaic_triplets_for_component_in_group(&eng, &store, HangulComponent::Cho, 'ㄱ', &base).is_empty());
    let ts = archaic_triplets_for_component_in_group(&eng, &store, HangulComponent::Cho, '\u{1113}', &base);
    assert!(ts.len() <= 42);
    assert!(ts.iter().all(|t| t.0 == '\u{1113}'));
    let jong_base = eng.rules.base_jong_group_id.clone();
    let ks = archaic_triplets_for_component_in_group(&eng, &store, HangulComponent::Jong, '\u{11C3}', &jong_base);
    assert!(ks.iter().all(|t| t.1 == 'ㅏ' && t.2 == Some('\u{11C3}')));
}

#[test]
fn variant_rule_on_archaic_initial() {
    let (mut eng, store) = default_engine();
    let tid = eng.rules.templates[0].id.clone();
    eng.rules.templates[0].variant_rules.push(VariantRule {
        id: "vr_any".to_string(),
        name: "any".to_string(),
        priority: 0,
        cho_set: CharSetCond::Any,
        jung_set: CharSetCond::Any,
        jong_set: CharSetCond::Any,
        set_cho_group_id: Some("grp_other".to_string()),
        set_jung_group_id: None,
        set_jong_group_id: None,
    });
    let ts = used_triplets_by_variant_rule(&eng, &store, true, &tid, "vr_any");
    assert_eq!(ts.len(), 105 * 42 + 73 * 38 + 110);
    assert!(used_triplets_by_variant_rule(&eng, &store, true, &tid, "vr_missing").is_empty());
}
