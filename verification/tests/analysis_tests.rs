use hangul_syllable::analysis::{
    build_filtered_hangul_list, selector_char_split, used_chars_by_template_id, used_chars_by_variant_rule,
    used_chars_using_component, used_chars_using_group, variant_rule_auto_name, JongGroupFilter,
};
use hangul_syllable::charset::char_set_from;
use hangul_syllable::engine::{sim_variant_rules, LayoutEngine};
use hangul_syllable::generator::RuleGenerator;
use hangul_syllable::glyph::GlyphStore;
use hangul_syllable::hangul::{decompose_hangul, get_jamo_char};
use hangul_syllable::rules::{CharSetCond, SelectorRule, VariantRule};
use hangul_syllable::types::HangulComponent;

fn default_engine() -> (LayoutEngine, GlyphStore) {
    let mut store = GlyphStore::default();
    let rules = RuleGenerator::generate_default(&mut store);
    (LayoutEngine { rules }, store)
}

fn rule(name: &str, priority: i32, cho: CharSetCond, set_cho: Option<&str>) -> VariantRule {
    VariantRule {
        id: format!("vr_{name}"),
        name: name.to_string(),
        priority,
        cho_set: cho,
        jung_set: CharSetCond::Any,
        jong_set: CharSetCond::Any,
        set_cho_group_id: set_cho.map(|s| s.to_string()),
        set_jung_group_id: None,
        set_jong_group_id: None,
    }
}

#[test]
fn template_usage_partitions_syllables() {
    let (eng, store) = default_engine();
    let mut total = 0;
    for t in &eng.rules.templates {
        let chars = used_chars_by_template_id(&eng, &store, &t.id);
        for &c in &chars {
            let l = eng.layout_char(&store, c, decompose_hangul, get_jamo_char).unwrap();
            assert_eq!(l.template_id, t.id);
        }
        total += chars.len();
    }
    assert_eq!(total, 11172);
    assert!(used_chars_by_template_id(&eng, &store, "no_such_template").is_empty());
}

#[test]
fn group_usage_lists_syllables_drawn_with_group() {
    let (eng, store) = default_engine();
    let gid = eng.rules.base_cho_group_id.clone();
    let chars = used_chars_using_group(&eng, &store, &gid);
    assert!(!chars.is_empty());
    assert!(chars.windows(2).all(|w| w[0] < w[1]));
    for &c in &chars {
        let l = eng.layout_char(&store, c, decompose_hangul, get_jamo_char).unwrap();
        assert!(
            l.cho.group_id == gid || l.jung.group_id == gid || l.jong.map(|j| j.group_id == gid).unwrap_or(false)
        );
    }
}

#[test]
fn component_usage_matches_jamo_and_group() {
    let (eng, store) = default_engine();
    let l = eng.layout_char(&store, '가', decompose_hangul, get_jamo_char).unwrap();
    let chars = used_chars_using_component(&eng, &store, HangulComponent::Cho, 'ㄱ', &l.cho.group_id);
    assert!(chars.contains(&'가'));
    assert!(!chars.contains(&'나'));
    for &c in &chars {
        let (cho, _, _) = decompose_hangul(c).unwrap();
        assert_eq!(cho, 0);
    }
}

#[test]
fn sim_variant_rules_applies_in_priority_order() {
    let rules = vec![
        rule("high", 5, CharSetCond::Any, Some("g_high")),
        rule("low", 1, CharSetCond::Any, Some("g_low")),
        rule("other", 3, CharSetCond::Include(char_set_from(&vec!['ㄴ'])), Some("g_other")),
    ];
    let all = sim_variant_rules(&rules, None, 'ㄱ', 'ㅏ', None, "c", "j", "k");
    assert_eq!(all, ("g_high".to_string(), "j".to_string(), "k".to_string()));
    let without_high = sim_variant_rules(&rules, Some(0), 'ㄱ', 'ㅏ', None, "c", "j", "k");
    assert_eq!(without_high.0, "g_low");
}

#[test]
fn variant_rule_usage_only_lists_changed_syllables() {
    let (mut eng, store) = default_engine();
    let tid = eng.rules.templates[0].id.clone();
    eng.rules.templates[0].variant_rules.push(rule(
        "giyeok",
        1,
        CharSetCond::Include(char_set_from(&vec!['ㄱ'])),
        Some("g_giyeok"),
    ));
    let chars = used_chars_by_variant_rule(&eng, &store, &tid, "vr_giyeok");
    assert!(!chars.is_empty());
    for &c in &chars {
        let (cho, _, _) = decompose_hangul(c).unwrap();
        assert_eq!(cho, 0);
    }
    assert!(used_chars_by_variant_rule(&eng, &store, &tid, "vr_missing").is_empty());
    assert!(used_chars_by_variant_rule(&eng, &store, "tpl_missing", "vr_giyeok").is_empty());
}

#[test]
fn auto_names_of_rules() {
    let any = rule("a", 0, CharSetCond::Any, None);
    assert_eq!(variant_rule_auto_name(&any, "초", "중", "종"), "*");
    let mut r = rule("b", 0, CharSetCond::Include(char_set_from(&vec!['ㄴ', 'ㄱ'])), None);
    r.jong_set = CharSetCond::Exclude(char_set_from(&vec!['\0']));
    assert_eq!(variant_rule_auto_name(&r, "초", "중", "종"), "초[ㄱㄴ]+종[^-]");
}

#[test]
fn selector_split_effective_and_overridden() {
    let (mut eng, _store) = default_engine();
    let sid = eng.rules.selectors[0].id.clone();
    let (eff0, over0) = selector_char_split(&eng.rules, &sid);
    eng.rules.selectors.push(SelectorRule {
        id: "sel_top".to_string(),
        name: "top".to_string(),
        priority: i32::MAX,
        cho_set: CharSetCond::Any,
        jung_set: CharSetCond::Any,
        jong_set: CharSetCond::Any,
        template_id: eng.rules.templates[0].id.clone(),
    });
    let (eff, over) = selector_char_split(&eng.rules, &sid);
    assert!(eff.is_empty());
    assert_eq!(over.len(), eff0.len() + over0.len());
    let (top_eff, top_over) = selector_char_split(&eng.rules, "sel_top");
    assert_eq!(top_eff.len(), 11172);
    assert!(top_over.is_empty());
    let (e, o) = selector_char_split(&eng.rules, "sel_missing");
    assert!(e.is_empty() && o.is_empty());
}

#[test]
fn browser_filters() {
    let (eng, store) = default_engine();
    let no_jong = build_filtered_hangul_list(&eng, &store, &None, &None, &None, &JongGroupFilter::NoJong);
    assert_eq!(no_jong.len(), 399);
    assert_eq!(no_jong[0], '가');
    let all = build_filtered_hangul_list(&eng, &store, &None, &None, &None, &JongGroupFilter::Any);
    assert_eq!(all.len(), 11172);
    let tid = eng.rules.templates[0].id.clone();
    let by_template =
        build_filtered_hangul_list(&eng, &store, &Some(tid.clone()), &None, &None, &JongGroupFilter::Any);
    assert_eq!(by_template, used_chars_by_template_id(&eng, &store, &tid));
    let empty_engine = LayoutEngine::default();
    let fast = build_filtered_hangul_list(&empty_engine, &store, &None, &None, &None, &JongGroupFilter::NoJong);
    assert_eq!(fast.len(), 399);
}
