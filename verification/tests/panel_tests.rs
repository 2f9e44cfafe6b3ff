use hangul_syllable::editor_state::{ComponentsState, TemplateEditorState};
use hangul_syllable::glyph::{GlyphKey, GlyphStore};
use hangul_syllable::group_panel::{
    add_group_from_panel, copy_group, delete_group, move_group, select_group, set_all_members, sort_groups,
    toggle_member,
};
use hangul_syllable::groups::ComponentGroup;
use hangul_syllable::list_edit::Reorder;
use hangul_syllable::rule_system::RuleSystem;
use hangul_syllable::rules::{CharSetCond, SelectorRule, Template, VariantRule};
use hangul_syllable::selector_panel::{
    add_selector_from_panel, delete_selected_selector, delete_selector_at, duplicate_selected_selector,
    duplicate_selector_at, move_selector, select_selector, sort_selectors,
};
use hangul_syllable::template_panel::{
    add_template_from_panel, add_variant_rule, auto_name_variant_rule, click_variant_rule, copy_template_after,
    copy_template_to_end, copy_variant_rule, delete_selected_template, delete_template_at, delete_variant_rule,
    move_template, move_variant_rule, select_template, sort_templates,
};
use hangul_syllable::types::HangulComponent;

fn group(id: &str, name: &str, target: HangulComponent, members: Vec<char>) -> ComponentGroup {
    ComponentGroup { id: id.to_string(), name: name.to_string(), target, members }
}

fn template(id: &str, name: &str) -> Template {
    Template {
        id: id.to_string(),
        name: name.to_string(),
        default_cho_group_id: "c".to_string(),
        default_jung_group_id: "j".to_string(),
        default_jong_group_id: None,
        variant_rules: vec![],
    }
}

fn selector(id: &str, name: &str, tpl: &str) -> SelectorRule {
    SelectorRule {
        id: id.to_string(),
        name: name.to_string(),
        priority: 0,
        cho_set: CharSetCond::Any,
        jung_set: CharSetCond::Any,
        jong_set: CharSetCond::Any,
        template_id: tpl.to_string(),
    }
}

fn rule(id: &str, name: &str) -> VariantRule {
    VariantRule {
        id: id.to_string(),
        name: name.to_string(),
        priority: 0,
        cho_set: CharSetCond::Include(vec!['ㄱ']),
        jung_set: CharSetCond::Any,
        jong_set: CharSetCond::Any,
        set_cho_group_id: None,
        set_jung_group_id: None,
        set_jong_group_id: None,
    }
}

fn ids_of_groups(r: &RuleSystem) -> Vec<String> {
    r.groups.iter().map(|g| g.id.clone()).collect()
}

fn three_groups() -> RuleSystem {
    let mut r = RuleSystem::default();
    r.groups = vec![
        group("a", "zeta", HangulComponent::Jong, vec![]),
        group("b", "alpha", HangulComponent::Cho, vec!['ㄱ']),
        group("c", "alpha", HangulComponent::Jung, vec![]),
    ];
    r
}

#[test]
fn sort_groups_by_name_is_stable_and_keeps_selection() {
    let mut r = three_groups();
    let mut st = ComponentsState::default();
    st.selected_group = 0;
    sort_groups(&mut r, &mut st, false);
    assert_eq!(ids_of_groups(&r), vec!["b", "c", "a"]);
    assert_eq!(st.selected_group, 2);
}

#[test]
fn sort_groups_by_component_then_name() {
    let mut r = three_groups();
    let mut st = ComponentsState::default();
    st.selected_group = 7;
    sort_groups(&mut r, &mut st, true);
    assert_eq!(ids_of_groups(&r), vec!["b", "c", "a"]);
    assert_eq!(st.selected_group, 7);
}

#[test]
fn move_group_follows_selection() {
    let mut r = three_groups();
    let mut st = ComponentsState::default();
    st.selected_group = 1;
    assert!(move_group(&mut r, &mut st, 2, Reorder::Top));
    assert_eq!(ids_of_groups(&r), vec!["c", "a", "b"]);
    assert_eq!(st.selected_group, 2);
    assert!(!move_group(&mut r, &mut st, 0, Reorder::Up));
    assert!(move_group(&mut r, &mut st, 0, Reorder::Bottom));
    assert_eq!(ids_of_groups(&r), vec!["a", "b", "c"]);
    assert_eq!(st.selected_group, 1);
}

#[test]
fn select_group_by_id() {
    let r = three_groups();
    let mut st = ComponentsState::default();
    st.selected_member_index = Some('ㄱ');
    select_group(&r, &mut st, "c");
    assert_eq!(st.selected_group, 2);
    assert_eq!(st.selected_member_index, None);
    select_group(&r, &mut st, "missing");
    assert_eq!(st.selected_group, 2);
}

#[test]
fn delete_group_moves_base_to_next_group_of_component() {
    let mut r = three_groups();
    r.groups.push(group("d", "beta", HangulComponent::Cho, vec![]));
    r.base_cho_group_id = "b".to_string();
    let mut store = GlyphStore::default();
    store.ensure_glyph(GlyphKey::new(HangulComponent::Cho, 'ㄱ', "b"));
    store.ensure_glyph(GlyphKey::new(HangulComponent::Cho, 'ㄱ', "d"));
    let mut st = ComponentsState::default();
    st.selected_group = 1;
    delete_group(&mut r, &mut store, &mut st, "b");
    assert_eq!(ids_of_groups(&r), vec!["a", "c", "d"]);
    assert_eq!(r.base_cho_group_id, "d");
    assert!(!store.has(&GlyphKey::new(HangulComponent::Cho, 'ㄱ', "b")));
    assert!(store.has(&GlyphKey::new(HangulComponent::Cho, 'ㄱ', "d")));
    assert_eq!(st.selected_group, 1);
    assert_eq!(st.selected_member_index, None);
}

#[test]
fn delete_last_group_of_component_empties_base() {
    let mut r = three_groups();
    r.base_jong_group_id = "a".to_string();
    let mut store = GlyphStore::default();
    let mut st = ComponentsState::default();
    delete_group(&mut r, &mut store, &mut st, "a");
    assert_eq!(r.base_jong_group_id, "");
    assert_eq!(st.selected_group, 0);
}

#[test]
fn copy_group_copies_glyphs_and_selects_copy() {
    let mut r = three_groups();
    r.next_group_seq = 5;
    let mut store = GlyphStore::default();
    store.ensure_glyph(GlyphKey::new(HangulComponent::Cho, 'ㄱ', "b"));
    store.get_mut(&GlyphKey::new(HangulComponent::Cho, 'ㄱ', "b")).unwrap().set(1, 1);
    let mut st = ComponentsState::default();
    copy_group(&mut r, &mut store, &mut st, "b");
    assert_eq!(r.groups.len(), 4);
    assert_eq!(r.groups[3].id, "grp_000005");
    assert_eq!(r.groups[3].name, "alpha (copy)");
    assert_eq!(r.groups[3].members, vec!['ㄱ']);
    let copied = store.get(&GlyphKey::new(HangulComponent::Cho, 'ㄱ', "grp_000005")).unwrap();
    assert!(copied.pixels.contains(&(1, 1)));
    assert_eq!(st.selected_group, 3);
}

#[test]
fn add_group_holds_allowed_jamo_and_is_selected() {
    let mut r = RuleSystem::default();
    let mut store = GlyphStore::default();
    let mut st = ComponentsState::default();
    let id = add_group_from_panel(&mut r, &mut store, &mut st, "new", HangulComponent::Jung, false);
    let g = r.groups.last().unwrap();
    assert_eq!(g.id, id);
    assert_eq!(g.members.len(), 21);
    assert_eq!(st.selected_group, r.groups.len() - 1);
    assert!(store.has(&GlyphKey::new(HangulComponent::Jung, 'ㅏ', &id)));
}

#[test]
fn toggle_and_set_members() {
    let mut r = three_groups();
    toggle_member(&mut r, 1, 'ㄴ');
    assert_eq!(r.groups[1].members, vec!['ㄱ', 'ㄴ']);
    toggle_member(&mut r, 1, 'ㄱ');
    assert_eq!(r.groups[1].members, vec!['ㄴ']);
    set_all_members(&mut r, 1, true, false);
    assert_eq!(r.groups[1].members.len(), 19);
    set_all_members(&mut r, 1, false, false);
    assert!(r.groups[1].members.is_empty());
}

fn two_templates() -> RuleSystem {
    let mut r = RuleSystem::default();
    r.templates = vec![template("t1", "zz"), template("t2", "")];
    r.next_template_seq = 3;
    r.next_variant_seq = 9;
    r
}

#[test]
fn template_list_edits() {
    let mut r = two_templates();
    let mut st = TemplateEditorState::default();
    select_template(&r, &mut st, "t2");
    assert_eq!(st.selected_template, 1);
    sort_templates(&mut r, &mut st);
    assert_eq!(r.templates[0].id, "t2");
    assert_eq!(st.selected_template, 0);
    assert!(copy_template_after(&mut r, &mut st, 0, " copy"));
    assert_eq!(r.templates[1].id, "tpl_000003");
    assert_eq!(r.templates[1].name, "t2 copy");
    assert_eq!(st.selected_template, 1);
    assert!(copy_template_to_end(&mut r, &mut st, 2, "-2"));
    assert_eq!(r.templates[3].name, "zz-2");
    assert_eq!(st.selected_template, 3);
    assert!(move_template(&mut r, &mut st, 3, Reorder::Top));
    assert_eq!(r.templates[0].name, "zz-2");
    assert_eq!(st.selected_template, 0);
}

#[test]
fn template_add_and_delete() {
    let mut r = two_templates();
    r.base_cho_group_id = "bc".to_string();
    let mut st = TemplateEditorState::default();
    add_template_from_panel(&mut r, &mut st, "fresh");
    assert_eq!(r.templates[2].default_cho_group_id, "bc");
    assert_eq!(r.templates[2].name, "fresh");
    assert_eq!(st.selected_template, 2);
    r.selectors = vec![selector("s", "", "t1")];
    assert!(!delete_template_at(&mut r, &mut st, 0));
    assert!(delete_template_at(&mut r, &mut st, 2));
    assert_eq!(st.selected_template, 1);
    delete_selected_template(&mut r, &mut st);
    assert_eq!(r.templates.len(), 1);
    assert_eq!(st.selected_template, 0);
}

#[test]
fn variant_rule_edits() {
    let mut r = two_templates();
    r.templates[0].variant_rules = vec![rule("v1", ""), rule("v2", "second")];
    let mut st = TemplateEditorState::default();
    add_variant_rule(&mut r, 0);
    assert_eq!(r.templates[0].variant_rules[2].id, "vr_000009");
    assert_eq!(r.templates[0].variant_rules[2].priority, 100);
    move_variant_rule(&mut r, 0, 2, Reorder::Top);
    assert_eq!(r.templates[0].variant_rules[0].id, "vr_000009");
    move_variant_rule(&mut r, 0, 5, Reorder::Up);
    assert_eq!(r.templates[0].variant_rules.len(), 3);
    auto_name_variant_rule(&mut r, 0, 1, "초", "중", "종");
    assert_eq!(r.templates[0].variant_rules[1].name, "초[ㄱ]");
    copy_variant_rule(&mut r, &mut st, 0, 2, " copy");
    assert_eq!(r.templates[0].variant_rules[3].name, "second copy");
    assert_eq!(r.templates[0].variant_rules[3].id, "vr_000010");
    assert_eq!(st.selected_variant_rule.as_deref(), Some("vr_000010"));
    delete_variant_rule(&mut r, 0, 0);
    assert_eq!(r.templates[0].variant_rules.len(), 3);
    click_variant_rule(&mut st, "vr_000010");
    assert_eq!(st.selected_variant_rule, None);
    click_variant_rule(&mut st, "v1");
    assert_eq!(st.selected_variant_rule.as_deref(), Some("v1"));
}

#[test]
fn selector_list_edits() {
    let mut r = two_templates();
    r.selectors = vec![selector("s1", "b", "t1"), selector("s2", "a", "t2")];
    r.next_selector_seq = 4;
    let mut sel: usize = 0;
    sort_selectors(&mut r, &mut sel);
    assert_eq!(r.selectors[0].id, "s2");
    assert_eq!(sel, 1);
    duplicate_selected_selector(&mut r, &mut sel, "+");
    assert_eq!(r.selectors[2].name, "b+");
    assert_eq!(r.selectors[2].id, "sel_000004");
    assert_eq!(sel, 2);
    assert!(move_selector(&mut r, &mut sel, 2, Reorder::Top));
    assert_eq!(r.selectors[0].id, "sel_000004");
    assert_eq!(sel, 0);
    duplicate_selector_at(&mut r, &mut sel, 9, "+");
    assert_eq!(r.selectors.len(), 3);
    add_selector_from_panel(&mut r, &mut sel);
    assert_eq!(r.selectors[3].template_id, "t1");
    assert_eq!(r.selectors[3].priority, 100);
    assert_eq!(sel, 3);
    select_selector(&r, &mut sel, "s2");
    assert_eq!(sel, 1);
    delete_selector_at(&mut r, &mut sel, 0);
    assert_eq!(r.selectors.len(), 3);
    assert_eq!(sel, 1);
    delete_selected_selector(&mut r, &mut sel);
    assert_eq!(r.selectors.len(), 2);
    assert_eq!(sel, 0);
}

#[test]
fn new_selector_without_templates_points_at_none() {
    let mut r = RuleSystem::default();
    let mut sel: usize = 0;
    add_selector_from_panel(&mut r, &mut sel);
    assert_eq!(r.selectors[0].template_id, "None");
}
