use hangul_syllable::charset::char_set_from;
use hangul_syllable::groups::{group_display_name, ComponentGroup};
use hangul_syllable::rule_system::RuleSystem;
use hangul_syllable::rules::CharSetCond;
use hangul_syllable::types::HangulComponent;

fn included(chars: &[char]) -> CharSetCond {
    CharSetCond::Include(char_set_from(&chars.to_vec()))
}

fn excluded(chars: &[char]) -> CharSetCond {
    CharSetCond::Exclude(char_set_from(&chars.to_vec()))
}

#[test]
fn any_matches_any_char() {
    assert!(CharSetCond::Any.matches('a'));
    assert!(CharSetCond::Any.matches('\0'));
}

#[test]
fn include_matches_member() {
    assert!(included(&['ㄱ', 'ㄴ']).matches('ㄱ'));
}

#[test]
fn include_no_match_non_member() {
    assert!(!included(&['ㄱ', 'ㄴ']).matches('ㄷ'));
}

#[test]
fn include_empty_never_matches() {
    assert!(!included(&[]).matches('ㄱ'));
}

#[test]
fn exclude_matches_non_member() {
    assert!(excluded(&['ㄱ']).matches('ㄴ'));
}

#[test]
fn exclude_no_match_member() {
    assert!(!excluded(&['ㄱ']).matches('ㄱ'));
}

#[test]
fn exclude_empty_matches_everything() {
    assert!(excluded(&[]).matches('ㄱ'));
}

#[test]
fn any_has_no_constraint() {
    assert!(!CharSetCond::Any.implies_some_constraint());
}

#[test]
fn include_nonempty_has_constraint() {
    assert!(included(&['ㄱ']).implies_some_constraint());
}

#[test]
fn exclude_nonempty_has_constraint() {
    assert!(excluded(&['ㄱ']).implies_some_constraint());
}

#[test]
fn include_empty_still_has_constraint() {
    assert!(included(&[]).implies_some_constraint());
}

#[test]
fn toggle_any_becomes_include_single() {
    let mut cond = CharSetCond::Any;
    cond.toggle('ㄱ');
    assert_eq!(cond, included(&['ㄱ']));
}

#[test]
fn toggle_include_adds_new() {
    let mut cond = included(&['ㄱ']);
    cond.toggle('ㄴ');
    assert!(matches!(&cond, CharSetCond::Include(s) if s.contains(&'ㄱ') && s.contains(&'ㄴ')));
}

#[test]
fn toggle_include_removes_existing() {
    let mut cond = included(&['ㄱ', 'ㄴ']);
    cond.toggle('ㄱ');
    assert!(matches!(&cond, CharSetCond::Include(s) if !s.contains(&'ㄱ') && s.contains(&'ㄴ')));
}

#[test]
fn clear_include_resets_to_any() {
    let mut cond = included(&['ㄱ', 'ㄴ']);
    cond.clear();
    assert_eq!(cond, CharSetCond::Any);
    assert!(cond.matches('ㄱ'), "clear 후 Any이므로 모든 자모 매칭되어야 함");
}

#[test]
fn clear_exclude_resets_to_any() {
    let mut cond = excluded(&['ㄱ']);
    cond.clear();
    assert_eq!(cond, CharSetCond::Any);
}

#[test]
fn clear_any_stays_any() {
    let mut cond = CharSetCond::Any;
    cond.clear();
    assert_eq!(cond, CharSetCond::Any);
}

#[test]
fn toggle_exclude_adds_new() {
    let mut cond = excluded(&['ㄱ']);
    cond.toggle('ㄴ');
    assert!(matches!(&cond, CharSetCond::Exclude(s) if s.contains(&'ㄴ')));
}

#[test]
fn toggle_twice_restores_set() {
    let mut cond = included(&['ㄱ', 'ㄷ']);
    cond.toggle('ㄴ');
    cond.toggle('ㄴ');
    assert_eq!(cond, included(&['ㄱ', 'ㄷ']));
}

#[test]
fn new_group_id_increments() {
    let mut rs = RuleSystem::default();
    let a = rs.new_group_id();
    let b = rs.new_group_id();
    assert_eq!(a, "grp_000000");
    assert_eq!(b, "grp_000001");
}

#[test]
fn new_variant_id_format() {
    let mut rs = RuleSystem::default();
    assert_eq!(rs.new_variant_id(), "vr_000000");
}

#[test]
fn id_counters_are_independent() {
    let mut rs = RuleSystem::default();
    rs.new_group_id();
    rs.new_group_id();
    rs.new_template_id();
    assert_eq!(rs.new_group_id(), "grp_000002");
    assert_eq!(rs.new_template_id(), "tpl_000001");
    assert_eq!(rs.new_selector_id(), "sel_000000");
}

#[test]
fn seq_ids_widen_past_six_digits() {
    let mut rs = RuleSystem::default();
    rs.next_group_seq = 1_234_567;
    assert_eq!(rs.new_group_id(), "grp_1234567");
}

#[test]
fn group_display_name_found() {
    let groups = vec![ComponentGroup {
        id: "g1".to_string(),
        name: "테스트".to_string(),
        target: HangulComponent::Cho,
        members: Default::default(),
    }];
    assert_eq!(group_display_name(&groups, "g1"), "테스트");
}

#[test]
fn group_display_name_missing() {
    let groups: Vec<ComponentGroup> = vec![];
    assert_eq!(group_display_name(&groups, "g1"), "(missing) g1");
}
