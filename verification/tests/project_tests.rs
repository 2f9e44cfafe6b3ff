use hangul_syllable::compact::compact_ids;
use hangul_syllable::generator::RuleGenerator;
use hangul_syllable::glyph::{GlyphKey, GlyphStore};
use hangul_syllable::groups::ComponentGroup;
use hangul_syllable::project::{file_fits, project_from_file, project_to_file, sanitize_rules_and_store, ProjectData};
use hangul_syllable::rule_system::RuleSystem;
use hangul_syllable::rules::{CharSetCond, SelectorRule, Template, VariantRule};
use hangul_syllable::types::HangulComponent;

fn roundtrip(mut data: ProjectData) -> ProjectData {
    let file = project_to_file(&mut data);
    assert!(file_fits(&file));
    project_from_file(file)
}

fn empty_project() -> ProjectData {
    ProjectData {
        version: "1.0.0".to_string(),
        canvas_w: 16,
        canvas_h: 16,
        store: GlyphStore::default(),
        rules: RuleSystem::default(),
        old_hangul_enabled: false,
        archaic_jamo_map: Vec::new(),
    }
}

fn default_project() -> ProjectData {
    let mut store = GlyphStore::default();
    let rules = RuleGenerator::generate_default(&mut store);
    ProjectData {
        version: "1.0.0".to_string(),
        canvas_w: 16,
        canvas_h: 16,
        store,
        rules,
        old_hangul_enabled: false,
        archaic_jamo_map: Vec::new(),
    }
}

#[test]
fn roundtrip_empty_project_ok() {
    roundtrip(empty_project());
}

#[test]
fn roundtrip_preserves_canvas_size() {
    let mut data = empty_project();
    data.canvas_w = 24;
    data.canvas_h = 32;
    let back = roundtrip(data);
    assert_eq!(back.canvas_w, 24);
    assert_eq!(back.canvas_h, 32);
}

#[test]
fn roundtrip_default_rules_preserves_group_count() {
    let data = default_project();
    let group_count = data.rules.groups.len();
    let back = roundtrip(data);
    assert_eq!(back.rules.groups.len(), group_count);
}

#[test]
fn roundtrip_default_rules_preserves_template_count() {
    let data = default_project();
    let tpl_count = data.rules.templates.len();
    let back = roundtrip(data);
    assert_eq!(back.rules.templates.len(), tpl_count);
}

#[test]
fn roundtrip_preserves_pixels() {
    let mut data = default_project();
    let key = GlyphKey::new(HangulComponent::Cho, 'ㄱ', &data.rules.groups[0].id);
    data.store.ensure_glyph(key.clone());
    data.store.get_mut(&key).unwrap().set(3, 5);
    let back = roundtrip(data);
    let compact_key = GlyphKey::new(HangulComponent::Cho, 'ㄱ', &back.rules.groups[0].id);
    assert!(back.store.get(&compact_key).unwrap().pixels.contains(&(3, 5)));
}

#[test]
fn hex_roundtrip_non_multiple_of_4_canvas_w() {
    let mut data = default_project();
    data.canvas_w = 13;
    data.canvas_h = 16;
    let key = GlyphKey::new(HangulComponent::Cho, 'ㄱ', &data.rules.groups[0].id);
    data.store.ensure_glyph(key.clone());
    data.store.get_mut(&key).unwrap().set(0, 0);
    data.store.get_mut(&key).unwrap().set(12, 3);
    let back = roundtrip(data);
    let compact_key = GlyphKey::new(HangulComponent::Cho, 'ㄱ', &back.rules.groups[0].id);
    let pixels = &back.store.get(&compact_key).unwrap().pixels;
    assert!(pixels.contains(&(0, 0)), "x=0 픽셀이 복원되어야 함, 실제: {pixels:?}");
    assert!(pixels.contains(&(12, 3)), "x=12 픽셀이 복원되어야 함, 실제: {pixels:?}");
    assert!(!pixels.contains(&(3, 0)), "shift된 좌표 x=3이 없어야 함");
}

#[test]
fn hex_roundtrip_canvas_w_10() {
    let mut data = default_project();
    data.canvas_w = 10;
    data.canvas_h = 10;
    let key = GlyphKey::new(HangulComponent::Cho, 'ㄱ', &data.rules.groups[0].id);
    data.store.ensure_glyph(key.clone());
    data.store.get_mut(&key).unwrap().set(0, 0);
    data.store.get_mut(&key).unwrap().set(9, 0);
    let back = roundtrip(data);
    let compact_key = GlyphKey::new(HangulComponent::Cho, 'ㄱ', &back.rules.groups[0].id);
    let pixels = &back.store.get(&compact_key).unwrap().pixels;
    assert!(pixels.contains(&(0, 0)), "x=0 픽셀이 복원되어야 함");
    assert!(pixels.contains(&(9, 0)), "x=9 픽셀이 복원되어야 함");
}

#[test]
fn roundtrip_drops_pixels_off_canvas() {
    let mut data = default_project();
    data.canvas_w = 8;
    data.canvas_h = 8;
    let key = GlyphKey::new(HangulComponent::Cho, 'ㄱ', &data.rules.groups[0].id);
    data.store.ensure_glyph(key.clone());
    data.store.get_mut(&key).unwrap().set(2, 2);
    data.store.get_mut(&key).unwrap().set(8, 2);
    data.store.get_mut(&key).unwrap().set(2, -1);
    let back = roundtrip(data);
    let compact_key = GlyphKey::new(HangulComponent::Cho, 'ㄱ', &back.rules.groups[0].id);
    let pixels = &back.store.get(&compact_key).unwrap().pixels;
    assert_eq!(pixels.len(), 1);
    assert!(pixels.contains(&(2, 2)));
}

#[test]
fn roundtrip_sanitize_removes_orphan_glyphs() {
    let mut data = empty_project();
    let orphan_key = GlyphKey::new(HangulComponent::Cho, 'ㄱ', "nonexistent_group");
    data.store.ensure_glyph(orphan_key.clone());
    data.store.get_mut(&orphan_key).unwrap().set(1, 1);
    let back = roundtrip(data);
    assert!(!back.store.has(&orphan_key));
}

#[test]
fn file_entries_use_key_text_and_hex_rows() {
    let mut data = empty_project();
    data.canvas_w = 8;
    data.canvas_h = 2;
    let cho = make_group("g", HangulComponent::Cho);
    data.rules.groups = vec![cho];
    data.rules.groups[0].members = vec!['ㄱ'];
    data.rules.base_cho_group_id = "g".to_string();
    let key = GlyphKey::new(HangulComponent::Cho, 'ㄱ', "g");
    data.store.ensure_glyph(key.clone());
    data.store.get_mut(&key).unwrap().set(0, 0);
    data.store.get_mut(&key).unwrap().set(7, 1);
    let file = project_to_file(&mut data);
    assert_eq!(file.glyphs, vec![("0/ㄱ/grp_000000".to_string(), "80 01".to_string())]);
}

fn make_group(id: &str, target: HangulComponent) -> ComponentGroup {
    ComponentGroup {
        id: id.into(),
        name: id.into(),
        target,
        members: Default::default(),
    }
}

fn make_template(id: &str, cho: &str, jung: &str, jong: Option<&str>) -> Template {
    Template {
        id: id.into(),
        name: id.into(),
        default_cho_group_id: cho.into(),
        default_jung_group_id: jung.into(),
        default_jong_group_id: jong.map(Into::into),
        variant_rules: vec![],
    }
}

fn make_selector(id: &str, tpl: &str) -> SelectorRule {
    SelectorRule {
        id: id.into(),
        name: id.into(),
        priority: 0,
        cho_set: CharSetCond::Any,
        jung_set: CharSetCond::Any,
        jong_set: CharSetCond::Any,
        template_id: tpl.into(),
    }
}

fn make_variant(id: &str, cho: Option<&str>, jung: Option<&str>, jong: Option<&str>) -> VariantRule {
    VariantRule {
        id: id.into(),
        name: id.into(),
        priority: 0,
        cho_set: CharSetCond::Any,
        jung_set: CharSetCond::Any,
        jong_set: CharSetCond::Any,
        set_cho_group_id: cho.map(Into::into),
        set_jung_group_id: jung.map(Into::into),
        set_jong_group_id: jong.map(Into::into),
    }
}

fn project_with_gaps() -> ProjectData {
    let cho = make_group("grp_000005", HangulComponent::Cho);
    let jung = make_group("grp_000010", HangulComponent::Jung);
    let jong = make_group("grp_000099", HangulComponent::Jong);

    let mut tpl = make_template("tpl_000003", "grp_000005", "grp_000010", Some("grp_000099"));
    tpl.variant_rules.push(make_variant("vr_000007", Some("grp_000005"), Some("grp_000010"), None));

    let sel = make_selector("sel_000020", "tpl_000003");

    let mut rules = RuleSystem::default();
    rules.groups = vec![cho, jung, jong];
    rules.templates = vec![tpl];
    rules.selectors = vec![sel];
    rules.base_cho_group_id = "grp_000005".into();
    rules.base_jung_group_id = "grp_000010".into();
    rules.base_jong_group_id = "grp_000099".into();
    rules.reset_seqs(100, 50, 30, 20);
    let mut data = ProjectData {
        version: "1.0.0".into(),
        canvas_w: 12,
        canvas_h: 12,
        store: GlyphStore::default(),
        rules,
        old_hangul_enabled: false,
        archaic_jamo_map: Vec::new(),
    };

    let key = GlyphKey::new(HangulComponent::Cho, 'ㄱ', "grp_000005");
    data.store.ensure_glyph(key.clone());
    data.store.get_mut(&key).unwrap().set(3, 7);

    data
}

#[test]
fn compact_groups_renamed_sequentially() {
    let mut data = project_with_gaps();
    compact_ids(&mut data);
    let ids: Vec<&str> = data.rules.groups.iter().map(|g| g.id.as_str()).collect();
    assert_eq!(ids, ["grp_000000", "grp_000001", "grp_000002"]);
}

#[test]
fn compact_templates_renamed_sequentially() {
    let mut data = project_with_gaps();
    compact_ids(&mut data);
    assert_eq!(data.rules.templates[0].id, "tpl_000000");
}

#[test]
fn compact_selectors_renamed_sequentially() {
    let mut data = project_with_gaps();
    compact_ids(&mut data);
    assert_eq!(data.rules.selectors[0].id, "sel_000000");
}

#[test]
fn compact_variant_rules_renamed_sequentially() {
    let mut data = project_with_gaps();
    compact_ids(&mut data);
    assert_eq!(data.rules.templates[0].variant_rules[0].id, "vr_000000");
}

#[test]
fn compact_base_group_ids_updated() {
    let mut data = project_with_gaps();
    compact_ids(&mut data);
    assert_eq!(data.rules.base_cho_group_id, "grp_000000");
    assert_eq!(data.rules.base_jung_group_id, "grp_000001");
    assert_eq!(data.rules.base_jong_group_id, "grp_000002");
}

#[test]
fn compact_template_default_group_ids_updated() {
    let mut data = project_with_gaps();
    compact_ids(&mut data);
    let t = &data.rules.templates[0];
    assert_eq!(t.default_cho_group_id, "grp_000000");
    assert_eq!(t.default_jung_group_id, "grp_000001");
    assert_eq!(t.default_jong_group_id.as_deref(), Some("grp_000002"));
}

#[test]
fn compact_variant_rule_group_ids_updated() {
    let mut data = project_with_gaps();
    compact_ids(&mut data);
    let vr = &data.rules.templates[0].variant_rules[0];
    assert_eq!(vr.set_cho_group_id.as_deref(), Some("grp_000000"));
    assert_eq!(vr.set_jung_group_id.as_deref(), Some("grp_000001"));
    assert_eq!(vr.set_jong_group_id, None);
}

#[test]
fn compact_selector_template_id_updated() {
    let mut data = project_with_gaps();
    compact_ids(&mut data);
    assert_eq!(data.rules.selectors[0].template_id, "tpl_000000");
}

#[test]
fn compact_glyph_store_keys_remapped() {
    let mut data = project_with_gaps();
    compact_ids(&mut data);
    let new_key = GlyphKey::new(HangulComponent::Cho, 'ㄱ', "grp_000000");
    let old_key = GlyphKey::new(HangulComponent::Cho, 'ㄱ', "grp_000005");
    assert!(data.store.has(&new_key), "새 키로 접근 가능해야 함");
    assert!(!data.store.has(&old_key), "옛 키는 사라져야 함");
}

#[test]
fn compact_pixel_data_preserved() {
    let mut data = project_with_gaps();
    compact_ids(&mut data);
    let new_key = GlyphKey::new(HangulComponent::Cho, 'ㄱ', "grp_000000");
    assert!(data.store.get(&new_key).unwrap().pixels.contains(&(3, 7)));
}

#[test]
fn compact_seq_counters_reset_to_entity_count() {
    let mut data = project_with_gaps();
    compact_ids(&mut data);
    assert_eq!(data.rules.new_group_id(), "grp_000003");
    assert_eq!(data.rules.new_template_id(), "tpl_000001");
    assert_eq!(data.rules.new_selector_id(), "sel_000001");
    assert_eq!(data.rules.new_variant_id(), "vr_000001");
}

#[test]
fn compact_new_ids_after_load_dont_collide() {
    let mut data = project_with_gaps();
    compact_ids(&mut data);
    let next_grp = data.rules.new_group_id();
    let all_ids: Vec<&str> = data.rules.groups.iter().map(|g| g.id.as_str()).collect();
    assert!(!all_ids.contains(&next_grp.as_str()));
}

#[test]
fn compact_idempotent() {
    let mut data = project_with_gaps();
    compact_ids(&mut data);
    let ids_after_first: Vec<String> = data.rules.groups.iter().map(|g| g.id.clone()).collect();
    compact_ids(&mut data);
    let ids_after_second: Vec<String> = data.rules.groups.iter().map(|g| g.id.clone()).collect();
    assert_eq!(ids_after_first, ids_after_second);
}

#[test]
fn compact_empty_project_does_not_panic() {
    let mut data = empty_project();
    compact_ids(&mut data);
    assert!(data.rules.groups.is_empty());
    assert_eq!(data.rules.new_group_id(), "grp_000000");
}

#[test]
fn compact_multiple_templates_variant_seq_global() {
    let cho = make_group("grp_0", HangulComponent::Cho);
    let jung = make_group("grp_1", HangulComponent::Jung);
    let jong = make_group("grp_2", HangulComponent::Jong);
    let mut tpl_a = make_template("tpl_A", "grp_0", "grp_1", None);
    tpl_a.variant_rules.push(make_variant("vr_X", None, None, None));
    tpl_a.variant_rules.push(make_variant("vr_Y", None, None, None));
    let mut tpl_b = make_template("tpl_B", "grp_0", "grp_1", None);
    tpl_b.variant_rules.push(make_variant("vr_Z", None, None, None));
    tpl_b.variant_rules.push(make_variant("vr_W", None, None, None));
    let mut rules = RuleSystem::default();
    rules.groups = vec![cho, jung, jong];
    rules.templates = vec![tpl_a, tpl_b];
    rules.base_cho_group_id = "grp_0".into();
    rules.base_jung_group_id = "grp_1".into();
    rules.base_jong_group_id = "grp_2".into();
    let mut data = ProjectData {
        version: "1.0.0".into(),
        canvas_w: 12,
        canvas_h: 12,
        store: GlyphStore::default(),
        rules,
        old_hangul_enabled: false,
        archaic_jamo_map: Vec::new(),
    };
    compact_ids(&mut data);
    assert_eq!(data.rules.templates[0].variant_rules[0].id, "vr_000000");
    assert_eq!(data.rules.templates[0].variant_rules[1].id, "vr_000001");
    assert_eq!(data.rules.templates[1].variant_rules[0].id, "vr_000002");
    assert_eq!(data.rules.templates[1].variant_rules[1].id, "vr_000003");
    assert_eq!(data.rules.new_variant_id(), "vr_000004");
}

#[test]
fn compact_roundtrip_ids_remain_sequential() {
    let data = project_with_gaps();
    let loaded = roundtrip(data);
    assert_eq!(loaded.rules.groups[0].id, "grp_000000");
    assert_eq!(loaded.rules.groups[1].id, "grp_000001");
    assert_eq!(loaded.rules.templates[0].id, "tpl_000000");
    assert_eq!(loaded.rules.selectors[0].id, "sel_000000");
}

#[test]
fn compact_roundtrip_pixel_data_intact() {
    let data = project_with_gaps();
    let loaded = roundtrip(data);
    let key = GlyphKey::new(HangulComponent::Cho, 'ㄱ', "grp_000000");
    assert!(loaded.store.get(&key).unwrap().pixels.contains(&(3, 7)));
}

#[test]
fn sanitizing_twice_changes_nothing() {
    let mut data = default_project();
    let orphan = GlyphKey::new(HangulComponent::Cho, 'ㄱ', "no_such_group");
    data.store.ensure_glyph(orphan.clone());
    let gid = data.rules.groups[0].id.clone();
    let foreign = GlyphKey::new(HangulComponent::Jung, 'ㅏ', &gid);
    data.store.ensure_glyph(foreign.clone());
    data.rules.base_cho_group_id = "missing".to_string();
    sanitize_rules_and_store(&mut data.rules, &mut data.store, false);
    assert!(!data.store.has(&orphan));
    assert!(!data.store.has(&foreign));
    let rules_once = format!("{:?}", data.rules);
    let store_once = format!("{:?}", data.store);
    sanitize_rules_and_store(&mut data.rules, &mut data.store, false);
    assert_eq!(format!("{:?}", data.rules), rules_once);
    assert_eq!(format!("{:?}", data.store), store_once);
}

#[test]
fn save_then_load_gives_saved_rules() {
    let mut data = default_project();
    data.canvas_w = 8;
    data.canvas_h = 8;
    let gid = data.rules.groups[0].id.clone();
    let key = GlyphKey::new(HangulComponent::Cho, 'ㄱ', &gid);
    data.store.ensure_glyph(key.clone());
    data.store.get_mut(&key).unwrap().set(1, 2);
    data.store.get_mut(&key).unwrap().set(9, 2);
    let file = project_to_file(&mut data);
    assert!(file_fits(&file));
    let back = project_from_file(file);
    assert_eq!(format!("{:?}", back.rules), format!("{:?}", data.rules));
    assert_eq!(back.canvas_w, 8);
    assert_eq!(back.store.glyphs.len(), data.store.glyphs.len());
    let saved_key = GlyphKey::new(HangulComponent::Cho, 'ㄱ', &data.rules.groups[0].id);
    let pixels = &back.store.get(&saved_key).unwrap().pixels;
    assert_eq!(pixels.len(), 1);
    assert!(pixels.contains(&(1, 2)));
}
