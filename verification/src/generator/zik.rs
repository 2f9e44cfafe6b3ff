use vstd::prelude::*;

use crate::glyph::{GlyphStore, KeyView};
use crate::rule_system::{has_template, refs_resolved, RuleSystem, RulesView};
use crate::types::HangulComponent;

use crate::charset::clone_chars;
use crate::text::string_from;
use crate::groups::GroupView;
use crate::rules::{SelectorView, TemplateView};
use crate::types::HangulComponent::{Cho, Jong, Jung};

use super::{
    all_cho, all_jong, all_jung, case_selector, case_template, glyphs_added, group_views, grp, jamo, jamo_set, preset_group,
    add_preset_group, all_jamo_sets, build_selector, build_template, building,
    lemma_building_ids_distinct, new_rule_system, no_jong_set, preset_result,
};

verus! {

/// The vertical medials.
pub open spec fn zik_vertical() -> Seq<char> {
    jamo(seq!['ㅏ', 'ㅐ', 'ㅑ', 'ㅒ', 'ㅓ', 'ㅔ', 'ㅕ', 'ㅖ', 'ㅣ'])
}

/// The horizontal medials, compound ones included.
pub open spec fn zik_horizontal() -> Seq<char> {
    jamo(seq!['ㅗ', 'ㅘ', 'ㅙ', 'ㅚ', 'ㅛ', 'ㅜ', 'ㅝ', 'ㅞ', 'ㅟ', 'ㅠ', 'ㅡ', 'ㅢ'])
}

/// The preset's groups: initials by vowel shape and final, medials by final, finals by
/// vowel shape.
pub open spec fn zik_groups() -> Seq<GroupView> {
    seq![
        preset_group(1, "받침X_초성_세로"@, Cho, all_cho()),
        preset_group(2, "받침X_초성_가로"@, Cho, all_cho()),
        preset_group(3, "받침O_초성_세로"@, Cho, all_cho()),
        preset_group(4, "받침O_초성_가로"@, Cho, all_cho()),
        preset_group(5, "받침X_중성"@, Jung, all_jung()),
        preset_group(6, "받침O_중성"@, Jung, all_jung()),
        preset_group(7, "종성_세로"@, Jong, all_jong()),
        preset_group(8, "종성_가로"@, Jong, all_jong()),
    ]
}

/// The preset's templates.
pub open spec fn zik_templates() -> Seq<TemplateView> {
    seq![
        case_template(1, "받침X/세로"@, grp(1), grp(5), None, seq![]),
        case_template(2, "받침X/가로"@, grp(2), grp(5), None, seq![]),
        case_template(3, "받침O/세로"@, grp(3), grp(6), Some(grp(7)), seq![]),
        case_template(4, "받침O/가로"@, grp(4), grp(6), Some(grp(8)), seq![]),
    ]
}

/// The preset's selectors.
pub open spec fn zik_selectors() -> Seq<SelectorView> {
    seq![
        case_selector(1, 1, "받침X/세로"@, zik_vertical(), seq!['\0']),
        case_selector(2, 2, "받침X/가로"@, zik_horizontal(), seq!['\0']),
        case_selector(3, 3, "받침O/세로"@, zik_vertical(), all_jong()),
        case_selector(4, 4, "받침O/가로"@, zik_horizontal(), all_jong()),
    ]
}

/// The preset as a whole, with its base groups and next id numbers.
pub open spec fn zik_preset() -> RulesView {
    RulesView {
        groups: zik_groups(),
        templates: zik_templates(),
        selectors: zik_selectors(),
        base_cho: grp(1),
        base_jung: grp(5),
        base_jong: grp(7),
        seqs: (9, 5, 5, 1),
    }
}

/// The preset after ZIK's GMS composition: vertical or horizontal vowels, with or without
/// a final, four templates; the two final groups follow the vowel shape.
pub fn generate(store: &mut GlyphStore) -> (r: RuleSystem)
    requires
        old(store).wf(),
    ensures
        preset_result(r, *old(store), *final(store)),
        r@ == zik_preset(),
        final(store)@ == glyphs_added(old(store)@, r@.groups),
        r.groups@.len() == 8,
        r.templates@.len() == 4,
        r.selectors@.len() == 4,
{
    let mut sys = new_rule_system();
    let (cho_all, jung_all, jong_all) = all_jamo_sets();
    let v_jung = jamo_set(vec!['ㅏ', 'ㅐ', 'ㅑ', 'ㅒ', 'ㅓ', 'ㅔ', 'ㅕ', 'ㅖ', 'ㅣ']);
    let h_jung = jamo_set(vec!['ㅗ', 'ㅘ', 'ㅙ', 'ㅚ', 'ㅛ', 'ㅜ', 'ㅝ', 'ㅞ', 'ㅟ', 'ㅠ', 'ㅡ', 'ㅢ']);
    let no_jong = no_jong_set();
    let ghost store0 = *store;
    assert(group_views(sys.groups@) =~= Seq::<GroupView>::empty());

    let gc_v_no = add_preset_group(&mut sys, store, "받침X_초성_세로", HangulComponent::Cho, &cho_all, Ghost(store0@));
    let gc_h_no = add_preset_group(&mut sys, store, "받침X_초성_가로", HangulComponent::Cho, &cho_all, Ghost(store0@));
    let gc_v_with = add_preset_group(&mut sys, store, "받침O_초성_세로", HangulComponent::Cho, &cho_all, Ghost(store0@));
    let gc_h_with = add_preset_group(&mut sys, store, "받침O_초성_가로", HangulComponent::Cho, &cho_all, Ghost(store0@));
    let gj_no = add_preset_group(&mut sys, store, "받침X_중성", HangulComponent::Jung, &jung_all, Ghost(store0@));
    let gj_with = add_preset_group(&mut sys, store, "받침O_중성", HangulComponent::Jung, &jung_all, Ghost(store0@));
    let gjong_v = add_preset_group(&mut sys, store, "종성_세로", HangulComponent::Jong, &jong_all, Ghost(store0@));
    let gjong_h = add_preset_group(&mut sys, store, "종성_가로", HangulComponent::Jong, &jong_all, Ghost(store0@));

    sys.base_cho_group_id = string_from(gc_v_no.as_str());
    sys.base_jung_group_id = string_from(gj_no.as_str());
    sys.base_jong_group_id = string_from(gjong_v.as_str());

    let t0 = sys.new_template_id();
    let t1 = sys.new_template_id();
    let t2 = sys.new_template_id();
    let t3 = sys.new_template_id();
    let s0 = sys.new_selector_id();
    let s1 = sys.new_selector_id();
    let s2 = sys.new_selector_id();
    let s3 = sys.new_selector_id();

    sys.templates = vec![
        build_template(string_from(t0.as_str()), "받침X/세로", gc_v_no, string_from(gj_no.as_str()), None, Vec::new()),
        build_template(string_from(t1.as_str()), "받침X/가로", gc_h_no, gj_no, None, Vec::new()),
        build_template(string_from(t2.as_str()), "받침O/세로", gc_v_with, string_from(gj_with.as_str()), Some(gjong_v), Vec::new()),
        build_template(string_from(t3.as_str()), "받침O/가로", gc_h_with, gj_with, Some(gjong_h), Vec::new()),
    ];
    sys.selectors = vec![
        build_selector(s0, "받침X/세로", clone_chars(&v_jung), false, t0, &jong_all, &no_jong),
        build_selector(s1, "받침X/가로", clone_chars(&h_jung), false, t1, &jong_all, &no_jong),
        build_selector(s2, "받침O/세로", v_jung, true, t2, &jong_all, &no_jong),
        build_selector(s3, "받침O/가로", h_jung, true, t3, &jong_all, &no_jong),
    ];
    proof {
        lemma_building_ids_distinct(sys, *store);
        let ts = sys.templates@;
        assert forall|i: int| 0 <= i < sys.selectors@.len() implies has_template(
            ts,
            #[trigger] sys.selectors@[i].template_id@,
        ) by {
            assert(ts[i].id@ == sys.selectors@[i].template_id@);
        }
        assert(refs_resolved(sys));
        assert(sys@.groups =~= group_views(sys.groups@));
        assert(sys@.groups =~= zik_groups());
        assert forall|i: int| 0 <= i < sys.templates@.len() implies (#[trigger] sys.templates@[i])@.variant_rules
            =~= Seq::<crate::rules::VariantView>::empty() by {}
        assert(sys@.templates =~= zik_templates());
        assert(sys@.selectors =~= zik_selectors());
        assert forall|k: KeyView| #[trigger] store0@.contains_key(k) implies store@.contains_key(k)
            && store@[k] == store0@[k] by {}
    }
    sys
}

} // verus!
