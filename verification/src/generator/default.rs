use vstd::prelude::*;

use crate::glyph::{GlyphStore, KeyView};
use crate::rule_system::{has_template, refs_resolved, RuleSystem, RulesView};
use crate::types::HangulComponent;

use crate::charset::clone_chars;
use crate::text::string_from;
use crate::groups::GroupView;
use crate::rules::{SelectorView, TemplateView};
use crate::types::HangulComponent::{Cho, Jong, Jung};

use super::{
    add_preset_group, all_cho, all_jamo_sets, all_jong, build_selector, build_template, building, case_selector,
    case_template, glyphs_added, group_views, grp, jamo, jamo_set, lemma_building_ids_distinct, new_rule_system,
    no_jong_set, preset_group, preset_result,
};

verus! {

/// The vertical medials.
pub open spec fn vertical_jung() -> Seq<char> {
    jamo(seq!['ㅏ', 'ㅐ', 'ㅑ', 'ㅒ', 'ㅓ', 'ㅔ', 'ㅕ', 'ㅖ', 'ㅣ'])
}

/// The horizontal medials.
pub open spec fn horizontal_jung() -> Seq<char> {
    jamo(seq!['ㅗ', 'ㅛ', 'ㅜ', 'ㅠ', 'ㅡ'])
}

/// The compound medials.
pub open spec fn compound_jung() -> Seq<char> {
    jamo(seq!['ㅘ', 'ㅙ', 'ㅚ', 'ㅝ', 'ㅞ', 'ㅟ', 'ㅢ'])
}

/// The basic preset's groups: six initial groups (vertical, horizontal, compound vowel,
/// without and with a final), six medial groups likewise, and one final group.
pub open spec fn default_groups() -> Seq<GroupView> {
    seq![
        preset_group(1, "받침X_초성_세로"@, Cho, all_cho()),
        preset_group(2, "받침X_초성_가로"@, Cho, all_cho()),
        preset_group(3, "받침X_초성_이중"@, Cho, all_cho()),
        preset_group(4, "받침O_초성_세로"@, Cho, all_cho()),
        preset_group(5, "받침O_초성_가로"@, Cho, all_cho()),
        preset_group(6, "받침O_초성_이중"@, Cho, all_cho()),
        preset_group(7, "받침X_중성_세로"@, Jung, vertical_jung()),
        preset_group(8, "받침X_중성_가로"@, Jung, horizontal_jung()),
        preset_group(9, "받침X_중성_이중"@, Jung, compound_jung()),
        preset_group(10, "받침O_중성_세로"@, Jung, vertical_jung()),
        preset_group(11, "받침O_중성_가로"@, Jung, horizontal_jung()),
        preset_group(12, "받침O_중성_이중"@, Jung, compound_jung()),
        preset_group(13, "종성_기본"@, Jong, all_jong()),
    ]
}

/// The basic preset's templates, one per vowel shape without and with a final.
pub open spec fn default_templates() -> Seq<TemplateView> {
    seq![
        case_template(1, "받침X/세로"@, grp(1), grp(7), None, seq![]),
        case_template(2, "받침X/가로"@, grp(2), grp(8), None, seq![]),
        case_template(3, "받침X/이중"@, grp(3), grp(9), None, seq![]),
        case_template(4, "받침O/세로"@, grp(4), grp(10), Some(grp(13)), seq![]),
        case_template(5, "받침O/가로"@, grp(5), grp(11), Some(grp(13)), seq![]),
        case_template(6, "받침O/이중"@, grp(6), grp(12), Some(grp(13)), seq![]),
    ]
}

/// The basic preset's selectors: each vowel shape without a final and with any final.
pub open spec fn default_selectors() -> Seq<SelectorView> {
    seq![
        case_selector(1, 1, "받침X/세로"@, vertical_jung(), seq!['\0']),
        case_selector(2, 2, "받침X/가로"@, horizontal_jung(), seq!['\0']),
        case_selector(3, 3, "받침X/이중"@, compound_jung(), seq!['\0']),
        case_selector(4, 4, "받침O/세로"@, vertical_jung(), all_jong()),
        case_selector(5, 5, "받침O/가로"@, horizontal_jung(), all_jong()),
        case_selector(6, 6, "받침O/이중"@, compound_jung(), all_jong()),
    ]
}

/// The basic preset as a whole, with its base groups and next id numbers.
pub open spec fn default_preset() -> RulesView {
    RulesView {
        groups: default_groups(),
        templates: default_templates(),
        selectors: default_selectors(),
        base_cho: grp(1),
        base_jung: grp(7),
        base_jong: grp(13),
        seqs: (14, 7, 7, 1),
    }
}

/// The basic preset: by vowel shape (vertical, horizontal, compound) and by whether
/// there is a final, six templates with their own initial and medial groups.
pub fn generate(store: &mut GlyphStore) -> (r: RuleSystem)
    requires
        old(store).wf(),
    ensures
        preset_result(r, *old(store), *final(store)),
        r@ == default_preset(),
        final(store)@ == glyphs_added(old(store)@, r@.groups),
        r.groups@.len() == 13,
        r.templates@.len() == 6,
        r.selectors@.len() == 6,
{
    let mut sys = new_rule_system();
    let v_jung = jamo_set(vec!['ㅏ', 'ㅐ', 'ㅑ', 'ㅒ', 'ㅓ', 'ㅔ', 'ㅕ', 'ㅖ', 'ㅣ']);
    let h_jung = jamo_set(vec!['ㅗ', 'ㅛ', 'ㅜ', 'ㅠ', 'ㅡ']);
    let c_jung = jamo_set(vec!['ㅘ', 'ㅙ', 'ㅚ', 'ㅝ', 'ㅞ', 'ㅟ', 'ㅢ']);
    let (cho_m, _jung_m, jong_m) = all_jamo_sets();
    let ghost store0 = *store;
    assert(group_views(sys.groups@) =~= Seq::<GroupView>::empty());
    let g_cho_v_no = add_preset_group(&mut sys, store, "받침X_초성_세로", HangulComponent::Cho, &cho_m, Ghost(store0@));
    let g_cho_h_no = add_preset_group(&mut sys, store, "받침X_초성_가로", HangulComponent::Cho, &cho_m, Ghost(store0@));
    let g_cho_c_no = add_preset_group(&mut sys, store, "받침X_초성_이중", HangulComponent::Cho, &cho_m, Ghost(store0@));
    let g_cho_v_with = add_preset_group(&mut sys, store, "받침O_초성_세로", HangulComponent::Cho, &cho_m, Ghost(store0@));
    let g_cho_h_with = add_preset_group(&mut sys, store, "받침O_초성_가로", HangulComponent::Cho, &cho_m, Ghost(store0@));
    let g_cho_c_with = add_preset_group(&mut sys, store, "받침O_초성_이중", HangulComponent::Cho, &cho_m, Ghost(store0@));
    let g_jung_v_no = add_preset_group(&mut sys, store, "받침X_중성_세로", HangulComponent::Jung, &v_jung, Ghost(store0@));
    let g_jung_h_no = add_preset_group(&mut sys, store, "받침X_중성_가로", HangulComponent::Jung, &h_jung, Ghost(store0@));
    let g_jung_c_no = add_preset_group(&mut sys, store, "받침X_중성_이중", HangulComponent::Jung, &c_jung, Ghost(store0@));
    let g_jung_v_with = add_preset_group(&mut sys, store, "받침O_중성_세로", HangulComponent::Jung, &v_jung, Ghost(store0@));
    let g_jung_h_with = add_preset_group(&mut sys, store, "받침O_중성_가로", HangulComponent::Jung, &h_jung, Ghost(store0@));
    let g_jung_c_with = add_preset_group(&mut sys, store, "받침O_중성_이중", HangulComponent::Jung, &c_jung, Ghost(store0@));
    let g_jong_base = add_preset_group(&mut sys, store, "종성_기본", HangulComponent::Jong, &jong_m, Ghost(store0@));

    sys.base_cho_group_id = string_from(g_cho_v_no.as_str());
    sys.base_jung_group_id = string_from(g_jung_v_no.as_str());
    sys.base_jong_group_id = string_from(g_jong_base.as_str());

    let no_jong = no_jong_set();

    let tpl_cv_no = sys.new_template_id();
    let tpl_ch_no = sys.new_template_id();
    let tpl_cx_no = sys.new_template_id();
    let tpl_cv_with = sys.new_template_id();
    let tpl_ch_with = sys.new_template_id();
    let tpl_cx_with = sys.new_template_id();

    sys.templates = vec![
        build_template(string_from(tpl_cv_no.as_str()), "받침X/세로", g_cho_v_no, g_jung_v_no, None, Vec::new()),
        build_template(string_from(tpl_ch_no.as_str()), "받침X/가로", g_cho_h_no, g_jung_h_no, None, Vec::new()),
        build_template(string_from(tpl_cx_no.as_str()), "받침X/이중", g_cho_c_no, g_jung_c_no, None, Vec::new()),
        build_template(
            string_from(tpl_cv_with.as_str()),
            "받침O/세로",
            g_cho_v_with,
            g_jung_v_with,
            Some(string_from(g_jong_base.as_str())),
            Vec::new(),
        ),
        build_template(
            string_from(tpl_ch_with.as_str()),
            "받침O/가로",
            g_cho_h_with,
            g_jung_h_with,
            Some(string_from(g_jong_base.as_str())),
            Vec::new(),
        ),
        build_template(
            string_from(tpl_cx_with.as_str()),
            "받침O/이중",
            g_cho_c_with,
            g_jung_c_with,
            Some(string_from(g_jong_base.as_str())),
            Vec::new(),
        ),
    ];

    let s1 = sys.new_selector_id();
    let s2 = sys.new_selector_id();
    let s3 = sys.new_selector_id();
    let s4 = sys.new_selector_id();
    let s5 = sys.new_selector_id();
    let s6 = sys.new_selector_id();

    sys.selectors = vec![
        build_selector(s1, "받침X/세로", clone_chars(&v_jung), false, tpl_cv_no, &jong_m, &no_jong),
        build_selector(s2, "받침X/가로", clone_chars(&h_jung), false, tpl_ch_no, &jong_m, &no_jong),
        build_selector(s3, "받침X/이중", clone_chars(&c_jung), false, tpl_cx_no, &jong_m, &no_jong),
        build_selector(s4, "받침O/세로", v_jung, true, tpl_cv_with, &jong_m, &no_jong),
        build_selector(s5, "받침O/가로", h_jung, true, tpl_ch_with, &jong_m, &no_jong),
        build_selector(s6, "받침O/이중", c_jung, true, tpl_cx_with, &jong_m, &no_jong),
    ];
    proof {
        lemma_building_ids_distinct(sys, *store);
        let ts = sys.templates@;
        assert forall|i: int| 0 <= i < sys.selectors@.len() implies has_template(
            ts,
            #[trigger] sys.selectors@[i].template_id@,
        ) by {
            assert(ts[i].id@ == sys.selectors@[i].template_id@);
        }
        assert(refs_resolved(sys));
        assert(sys@.groups =~= group_views(sys.groups@));
        assert(sys@.groups =~= default_groups());
        assert forall|i: int| 0 <= i < sys.templates@.len() implies (#[trigger] sys.templates@[i])@.variant_rules
            =~= Seq::<crate::rules::VariantView>::empty() by {}
        assert(sys@.templates =~= default_templates());
        assert(sys@.selectors =~= default_selectors());
        assert forall|k: KeyView| #[trigger] store0@.contains_key(k) implies store@.contains_key(k)
            && store@[k] == store0@[k] by {}
    }
    sys
}

} // verus!
