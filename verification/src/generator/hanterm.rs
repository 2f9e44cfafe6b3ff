use vstd::prelude::*;

use crate::glyph::{GlyphStore, KeyView};
use crate::groups::{ComponentGroup, GroupView};
use crate::rule_system::{has_group, refs_resolved, rule_refs_ok, seq_id, RuleSystem, RulesView};
use crate::rules::{rules_view, CondView, SelectorRule, SelectorView, Template, TemplateView, VariantRule, VariantView};
use crate::types::HangulComponent;

use crate::text::string_from;

use super::{
    group_named, lemma_jamo_literals,
    no_rules,
    one_jamo,
    case_selector, case_template, grp, jamo, jamo_set, preset_rule, selector_views, template_views,
    all_cho, all_jong, all_jung, glyphs_added, group_views, preset_group,
    add_preset_case, add_preset_group, all_jamo_sets, build_variant_rule, building, cases_ok,
    lemma_building_ids_distinct, lemma_numbered_groups, new_rule_system, no_jong_set, preset_result,
};

verus! {

/// The medial rule for vertical vowels over the final ㄴ: medial group 12.
pub open spec fn hanterm_jong_n_rules() -> Seq<VariantView> {
    seq![preset_rule("종성[ㄴ] → 중성그룹2"@, 100, None, None, Some(jamo(seq!['ㄴ'])), None, Some(grp(12)), None)]
}

/// The medial rule for horizontal vowels after ㄱㅋ: medial group 14 without a final, 16
/// with one.
pub open spec fn hanterm_gk_rules(has_jong: bool) -> Seq<VariantView> {
    if !has_jong {
        seq![preset_rule("초성[ㄱㅋ] → 중성그룹4"@, 100, Some(jamo(seq!['ㄱ', 'ㅋ'])), None, None, None, Some(grp(14)), None)]
    } else {
        seq![preset_rule("초성[ㄱㅋ] → 중성그룹6"@, 100, Some(jamo(seq!['ㄱ', 'ㅋ'])), None, None, None, Some(grp(16)), None)]
    }
}

/// The medial rule for vertical vowels over the final ㄴ.
fn variant_jong_n(jong_n_set: &Vec<char>, gj1: &str) -> (r: Vec<VariantRule>)
    requires
        jong_n_set@ == jamo(seq!['ㄴ']),
        gj1@ == grp(12),
    ensures
        rules_view(r@) == hanterm_jong_n_rules(),
        r@.len() == 1,
        forall|g: Seq<ComponentGroup>|
            has_group(g, gj1@) ==> forall|j: int| 0 <= j < r@.len() ==> rule_refs_ok(g, #[trigger] r@[j]),
{
    let r = vec![build_variant_rule("종성[ㄴ] → 중성그룹2", None, None, Some(jong_n_set), 100, None, Some(gj1), None)];
    assert(rules_view(r@) =~= seq![r@[0]@]);
    r
}

/// The medial rule for horizontal vowels after the initials ㄱㅋ.
fn variant_h_gk(has_jong: bool, cho_gk: &Vec<char>, gj3: &str, gj5: &str) -> (r: Vec<VariantRule>)
    requires
        cho_gk@ == jamo(seq!['ㄱ', 'ㅋ']),
        gj3@ == grp(14),
        gj5@ == grp(16),
    ensures
        rules_view(r@) == hanterm_gk_rules(has_jong),
        r@.len() == 1,
        forall|g: Seq<ComponentGroup>|
            has_group(g, gj3@) && has_group(g, gj5@) ==> forall|j: int|
                0 <= j < r@.len() ==> rule_refs_ok(g, #[trigger] r@[j]),
{
    let r = if !has_jong {
        vec![build_variant_rule("초성[ㄱㅋ] → 중성그룹4", Some(cho_gk), None, None, 100, None, Some(gj3), None)]
    } else {
        vec![build_variant_rule("초성[ㄱㅋ] → 중성그룹6", Some(cho_gk), None, None, 100, None, Some(gj5), None)]
    };
    assert(rules_view(r@) =~= seq![r@[0]@]);
    r
}

/// The preset's groups, in order.
pub open spec fn hanterm_groups() -> Seq<GroupView> {
    seq![
        preset_group(1, "받침X_초성_ㅏ계열"@, HangulComponent::Cho, all_cho()),
        preset_group(2, "받침X_초성_ㅗㅛㅡ"@, HangulComponent::Cho, all_cho()),
        preset_group(3, "받침X_초성_ㅜㅠ"@, HangulComponent::Cho, all_cho()),
        preset_group(4, "받침X_초성_ㅘㅙㅚㅢ"@, HangulComponent::Cho, all_cho()),
        preset_group(5, "받침X_초성_ㅝㅞㅟ"@, HangulComponent::Cho, all_cho()),
        preset_group(6, "받침O_초성_ㅏ계열"@, HangulComponent::Cho, all_cho()),
        preset_group(7, "받침O_초성_ㅗㅛㅡ"@, HangulComponent::Cho, all_cho()),
        preset_group(8, "받침O_초성_ㅜㅠ"@, HangulComponent::Cho, all_cho()),
        preset_group(9, "받침O_초성_ㅘㅙㅚㅢ"@, HangulComponent::Cho, all_cho()),
        preset_group(10, "받침O_초성_ㅝㅞㅟ"@, HangulComponent::Cho, all_cho()),
        preset_group(11, "받침X_중성_세로"@, HangulComponent::Jung, all_jung()),
        preset_group(12, "받침ㄴ_중성_세로"@, HangulComponent::Jung, all_jung()),
        preset_group(13, "받침기타_중성_세로"@, HangulComponent::Jung, all_jung()),
        preset_group(14, "받침X_중성_가로_초성ㄱㅋ"@, HangulComponent::Jung, all_jung()),
        preset_group(15, "받침X_중성_가로_초성기타"@, HangulComponent::Jung, all_jung()),
        preset_group(16, "받침O_중성_가로_초성ㄱㅋ"@, HangulComponent::Jung, all_jung()),
        preset_group(17, "받침O_중성_가로_초성기타"@, HangulComponent::Jung, all_jung()),
        preset_group(18, "종성_ㅏㅑㅘㅣ"@, HangulComponent::Jong, all_jong()),
        preset_group(19, "종성_ㅓㅕㅚㅝㅟㅢ"@, HangulComponent::Jong, all_jong()),
        preset_group(20, "종성_ㅐㅒㅔㅖㅙㅞ"@, HangulComponent::Jong, all_jong()),
        preset_group(21, "종성_ㅗㅛㅜㅠㅡ"@, HangulComponent::Jong, all_jong()),
    ]
}

/// Adds the preset's 21 groups in order and returns their ids.
fn add_groups(sys: &mut RuleSystem, store: &mut GlyphStore, Ghost(base): Ghost<Map<KeyView, Set<(i32, i32)>>>) -> (ids: Vec<String>)
    requires
        building(*old(sys), *old(store)),
        old(sys).groups@.len() == 0,
        old(store)@ == base,
    ensures
        group_views(final(sys).groups@) == hanterm_groups(),
        final(store)@ == glyphs_added(base, group_views(final(sys).groups@)),
        building(*final(sys), *final(store)),
        *final(sys) == (RuleSystem {
            groups: final(sys).groups,
            next_group_seq: final(sys).next_group_seq,
            ..*old(sys)
        }),
        final(sys).groups@.len() == 21,
        ids@.len() == 21,
        forall|i: int| 0 <= i < 21 ==> (#[trigger] ids@[i])@ == seq_id("grp_"@, (i + 1) as u64),
        forall|q: KeyView|
            #[trigger] old(store)@.contains_key(q) ==> final(store)@.contains_key(q) && final(store)@[q]
                == old(store)@[q],
{
    let (cho_all, jung_all, jong_all) = all_jamo_sets();
    let mut ids: Vec<String> = Vec::new();
    assert(group_views(sys.groups@) =~= Seq::<GroupView>::empty());
    ids.push(add_preset_group(sys, store, "받침X_초성_ㅏ계열", HangulComponent::Cho, &cho_all, Ghost(base)));
    ids.push(add_preset_group(sys, store, "받침X_초성_ㅗㅛㅡ", HangulComponent::Cho, &cho_all, Ghost(base)));
    ids.push(add_preset_group(sys, store, "받침X_초성_ㅜㅠ", HangulComponent::Cho, &cho_all, Ghost(base)));
    ids.push(add_preset_group(sys, store, "받침X_초성_ㅘㅙㅚㅢ", HangulComponent::Cho, &cho_all, Ghost(base)));
    ids.push(add_preset_group(sys, store, "받침X_초성_ㅝㅞㅟ", HangulComponent::Cho, &cho_all, Ghost(base)));
    ids.push(add_preset_group(sys, store, "받침O_초성_ㅏ계열", HangulComponent::Cho, &cho_all, Ghost(base)));
    ids.push(add_preset_group(sys, store, "받침O_초성_ㅗㅛㅡ", HangulComponent::Cho, &cho_all, Ghost(base)));
    ids.push(add_preset_group(sys, store, "받침O_초성_ㅜㅠ", HangulComponent::Cho, &cho_all, Ghost(base)));
    ids.push(add_preset_group(sys, store, "받침O_초성_ㅘㅙㅚㅢ", HangulComponent::Cho, &cho_all, Ghost(base)));
    ids.push(add_preset_group(sys, store, "받침O_초성_ㅝㅞㅟ", HangulComponent::Cho, &cho_all, Ghost(base)));
    ids.push(add_preset_group(sys, store, "받침X_중성_세로", HangulComponent::Jung, &jung_all, Ghost(base)));
    ids.push(add_preset_group(sys, store, "받침ㄴ_중성_세로", HangulComponent::Jung, &jung_all, Ghost(base)));
    ids.push(add_preset_group(sys, store, "받침기타_중성_세로", HangulComponent::Jung, &jung_all, Ghost(base)));
    ids.push(add_preset_group(sys, store, "받침X_중성_가로_초성ㄱㅋ", HangulComponent::Jung, &jung_all, Ghost(base)));
    ids.push(add_preset_group(sys, store, "받침X_중성_가로_초성기타", HangulComponent::Jung, &jung_all, Ghost(base)));
    ids.push(add_preset_group(sys, store, "받침O_중성_가로_초성ㄱㅋ", HangulComponent::Jung, &jung_all, Ghost(base)));
    ids.push(add_preset_group(sys, store, "받침O_중성_가로_초성기타", HangulComponent::Jung, &jung_all, Ghost(base)));
    ids.push(add_preset_group(sys, store, "종성_ㅏㅑㅘㅣ", HangulComponent::Jong, &jong_all, Ghost(base)));
    ids.push(add_preset_group(sys, store, "종성_ㅓㅕㅚㅝㅟㅢ", HangulComponent::Jong, &jong_all, Ghost(base)));
    ids.push(add_preset_group(sys, store, "종성_ㅐㅒㅔㅖㅙㅞ", HangulComponent::Jong, &jong_all, Ghost(base)));
    ids.push(add_preset_group(sys, store, "종성_ㅗㅛㅜㅠㅡ", HangulComponent::Jong, &jong_all, Ghost(base)));
    ids
}

/// Adds the vertical cases without a final.
#[verifier::spinoff_prover]
#[verifier::rlimit(40)]
fn add_vertical_open_cases(
    sys: &mut RuleSystem,
    templates: &mut Vec<Template>,
    selectors: &mut Vec<SelectorRule>,
    ids: &Vec<String>,
    jong_all: &Vec<char>,
    no_jong: &Vec<char>,
    cho_gk: &Vec<char>,
    jong_n_set: &Vec<char>,
)
    requires
        forall|i: int| 0 <= i < 21 ==> (#[trigger] ids@[i])@ == grp((i + 1) as u64),
        jong_all@ == all_jong(),
        no_jong@ == seq!['\0'],
        cho_gk@ == jamo(seq!['ㄱ', 'ㅋ']),
        jong_n_set@ == jamo(seq!['ㄴ']),
        old(sys).next_template_seq == 1,
        old(sys).next_selector_seq == 1,
        ids@.len() == 21,
        forall|i: int| 0 <= i < 21 ==> has_group(old(sys).groups@, (#[trigger] ids@[i])@),
        cases_ok(old(sys).groups@, old(templates)@, old(selectors)@),
        old(sys).next_template_seq < 1000,
        old(sys).next_selector_seq < 1000,
    ensures
        template_views(final(templates)@) == template_views(old(templates)@) + hanterm_templates_vertical_open(),
        selector_views(final(selectors)@) == selector_views(old(selectors)@) + hanterm_selectors_vertical_open(),
        *final(sys) == (RuleSystem {
            next_template_seq: (old(sys).next_template_seq + 3) as u64,
            next_selector_seq: (old(sys).next_selector_seq + 3) as u64,
            ..*old(sys)
        }),
        cases_ok(final(sys).groups@, final(templates)@, final(selectors)@),
        final(templates)@.len() == old(templates)@.len() + 3,
        final(selectors)@.len() == old(selectors)@.len() + 3,
{
    let ghost tv0 = template_views(templates@);
    let ghost sv0 = selector_views(selectors@);
    add_preset_case(
        sys,
        templates,
        selectors,
        "받침X/세로/ㅏ계열",
        jamo_set(vec!['ㅏ', 'ㅐ', 'ㅑ', 'ㅒ', 'ㅓ', 'ㅔ', 'ㅕ', 'ㅖ', 'ㅣ']),
        false,
        ids[0].as_str(),
        ids[10].as_str(),
        None,
        no_rules(),
        jong_all,
        no_jong,
    );
    add_preset_case(
        sys,
        templates,
        selectors,
        "받침X/세로/ㅜㅠ",
        jamo_set(vec!['ㅜ', 'ㅠ']),
        false,
        ids[2].as_str(),
        ids[10].as_str(),
        None,
        no_rules(),
        jong_all,
        no_jong,
    );
    add_preset_case(
        sys,
        templates,
        selectors,
        "받침X/세로/ㅝㅞㅟ",
        jamo_set(vec!['ㅝ', 'ㅞ', 'ㅟ']),
        false,
        ids[4].as_str(),
        ids[10].as_str(),
        None,
        no_rules(),
        jong_all,
        no_jong,
    );
    assert(template_views(templates@) =~= tv0 + hanterm_templates_vertical_open());
    assert(selector_views(selectors@) =~= sv0 + hanterm_selectors_vertical_open());
}

/// Adds the vertical cases with a final.
#[verifier::spinoff_prover]
#[verifier::rlimit(40)]
fn add_vertical_closed_cases(
    sys: &mut RuleSystem,
    templates: &mut Vec<Template>,
    selectors: &mut Vec<SelectorRule>,
    ids: &Vec<String>,
    jong_all: &Vec<char>,
    no_jong: &Vec<char>,
    cho_gk: &Vec<char>,
    jong_n_set: &Vec<char>,
)
    requires
        forall|i: int| 0 <= i < 21 ==> (#[trigger] ids@[i])@ == grp((i + 1) as u64),
        jong_all@ == all_jong(),
        no_jong@ == seq!['\0'],
        cho_gk@ == jamo(seq!['ㄱ', 'ㅋ']),
        jong_n_set@ == jamo(seq!['ㄴ']),
        old(sys).next_template_seq == 4,
        old(sys).next_selector_seq == 4,
        ids@.len() == 21,
        forall|i: int| 0 <= i < 21 ==> has_group(old(sys).groups@, (#[trigger] ids@[i])@),
        cases_ok(old(sys).groups@, old(templates)@, old(selectors)@),
        old(sys).next_template_seq < 1000,
        old(sys).next_selector_seq < 1000,
    ensures
        template_views(final(templates)@) == template_views(old(templates)@) + hanterm_templates_vertical_closed(),
        selector_views(final(selectors)@) == selector_views(old(selectors)@) + hanterm_selectors_vertical_closed(),
        *final(sys) == (RuleSystem {
            next_template_seq: (old(sys).next_template_seq + 6) as u64,
            next_selector_seq: (old(sys).next_selector_seq + 6) as u64,
            ..*old(sys)
        }),
        cases_ok(final(sys).groups@, final(templates)@, final(selectors)@),
        final(templates)@.len() == old(templates)@.len() + 6,
        final(selectors)@.len() == old(selectors)@.len() + 6,
{
    let ghost tv0 = template_views(templates@);
    let ghost sv0 = selector_views(selectors@);
    add_preset_case(
        sys,
        templates,
        selectors,
        "받침O/세로/ㅏㅑㅣ",
        jamo_set(vec!['ㅏ', 'ㅑ', 'ㅣ']),
        true,
        ids[5].as_str(),
        ids[12].as_str(),
        Some(ids[17].as_str()),
        variant_jong_n(jong_n_set, ids[11].as_str()),
        jong_all,
        no_jong,
    );
    add_preset_case(
        sys,
        templates,
        selectors,
        "받침O/세로/ㅓㅕ",
        jamo_set(vec!['ㅓ', 'ㅕ']),
        true,
        ids[5].as_str(),
        ids[12].as_str(),
        Some(ids[18].as_str()),
        variant_jong_n(jong_n_set, ids[11].as_str()),
        jong_all,
        no_jong,
    );
    add_preset_case(
        sys,
        templates,
        selectors,
        "받침O/세로/ㅐㅒㅔㅖ",
        jamo_set(vec!['ㅐ', 'ㅒ', 'ㅔ', 'ㅖ']),
        true,
        ids[5].as_str(),
        ids[12].as_str(),
        Some(ids[19].as_str()),
        variant_jong_n(jong_n_set, ids[11].as_str()),
        jong_all,
        no_jong,
    );
    add_preset_case(
        sys,
        templates,
        selectors,
        "받침O/세로/ㅜㅠ",
        jamo_set(vec!['ㅜ', 'ㅠ']),
        true,
        ids[7].as_str(),
        ids[12].as_str(),
        Some(ids[20].as_str()),
        variant_jong_n(jong_n_set, ids[11].as_str()),
        jong_all,
        no_jong,
    );
    add_preset_case(
        sys,
        templates,
        selectors,
        "받침O/세로/ㅝㅟ",
        jamo_set(vec!['ㅝ', 'ㅟ']),
        true,
        ids[9].as_str(),
        ids[12].as_str(),
        Some(ids[18].as_str()),
        variant_jong_n(jong_n_set, ids[11].as_str()),
        jong_all,
        no_jong,
    );
    add_preset_case(
        sys,
        templates,
        selectors,
        "받침O/세로/ㅞ",
        one_jamo('ㅞ'),
        true,
        ids[9].as_str(),
        ids[12].as_str(),
        Some(ids[19].as_str()),
        variant_jong_n(jong_n_set, ids[11].as_str()),
        jong_all,
        no_jong,
    );
    assert(template_views(templates@) =~= tv0 + hanterm_templates_vertical_closed());
    assert(selector_views(selectors@) =~= sv0 + hanterm_selectors_vertical_closed());
}

/// Adds the horizontal cases.
#[verifier::spinoff_prover]
#[verifier::rlimit(40)]
fn add_horizontal_cases(
    sys: &mut RuleSystem,
    templates: &mut Vec<Template>,
    selectors: &mut Vec<SelectorRule>,
    ids: &Vec<String>,
    jong_all: &Vec<char>,
    no_jong: &Vec<char>,
    cho_gk: &Vec<char>,
    jong_n_set: &Vec<char>,
)
    requires
        forall|i: int| 0 <= i < 21 ==> (#[trigger] ids@[i])@ == grp((i + 1) as u64),
        jong_all@ == all_jong(),
        no_jong@ == seq!['\0'],
        cho_gk@ == jamo(seq!['ㄱ', 'ㅋ']),
        jong_n_set@ == jamo(seq!['ㄴ']),
        old(sys).next_template_seq == 10,
        old(sys).next_selector_seq == 10,
        ids@.len() == 21,
        forall|i: int| 0 <= i < 21 ==> has_group(old(sys).groups@, (#[trigger] ids@[i])@),
        cases_ok(old(sys).groups@, old(templates)@, old(selectors)@),
        old(sys).next_template_seq < 1000,
        old(sys).next_selector_seq < 1000,
    ensures
        template_views(final(templates)@) == template_views(old(templates)@) + hanterm_templates_horizontal(),
        selector_views(final(selectors)@) == selector_views(old(selectors)@) + hanterm_selectors_horizontal(),
        *final(sys) == (RuleSystem {
            next_template_seq: (old(sys).next_template_seq + 6) as u64,
            next_selector_seq: (old(sys).next_selector_seq + 6) as u64,
            ..*old(sys)
        }),
        cases_ok(final(sys).groups@, final(templates)@, final(selectors)@),
        final(templates)@.len() == old(templates)@.len() + 6,
        final(selectors)@.len() == old(selectors)@.len() + 6,
{
    let ghost tv0 = template_views(templates@);
    let ghost sv0 = selector_views(selectors@);
    add_preset_case(
        sys,
        templates,
        selectors,
        "받침X/가로/ㅗㅛㅡ",
        jamo_set(vec!['ㅗ', 'ㅛ', 'ㅡ']),
        false,
        ids[1].as_str(),
        ids[14].as_str(),
        None,
        variant_h_gk(false, cho_gk, ids[13].as_str(), ids[15].as_str()),
        jong_all,
        no_jong,
    );
    add_preset_case(
        sys,
        templates,
        selectors,
        "받침X/가로/ㅘㅙㅚㅢ",
        jamo_set(vec!['ㅘ', 'ㅙ', 'ㅚ', 'ㅢ']),
        false,
        ids[3].as_str(),
        ids[14].as_str(),
        None,
        variant_h_gk(false, cho_gk, ids[13].as_str(), ids[15].as_str()),
        jong_all,
        no_jong,
    );
    add_preset_case(
        sys,
        templates,
        selectors,
        "받침O/가로/ㅗㅛㅡ",
        jamo_set(vec!['ㅗ', 'ㅛ', 'ㅡ']),
        true,
        ids[6].as_str(),
        ids[16].as_str(),
        Some(ids[20].as_str()),
        variant_h_gk(true, cho_gk, ids[13].as_str(), ids[15].as_str()),
        jong_all,
        no_jong,
    );
    add_preset_case(
        sys,
        templates,
        selectors,
        "받침O/가로/ㅘ",
        one_jamo('ㅘ'),
        true,
        ids[8].as_str(),
        ids[16].as_str(),
        Some(ids[17].as_str()),
        variant_h_gk(true, cho_gk, ids[13].as_str(), ids[15].as_str()),
        jong_all,
        no_jong,
    );
    add_preset_case(
        sys,
        templates,
        selectors,
        "받침O/가로/ㅚㅢ",
        jamo_set(vec!['ㅚ', 'ㅢ']),
        true,
        ids[8].as_str(),
        ids[16].as_str(),
        Some(ids[18].as_str()),
        variant_h_gk(true, cho_gk, ids[13].as_str(), ids[15].as_str()),
        jong_all,
        no_jong,
    );
    add_preset_case(
        sys,
        templates,
        selectors,
        "받침O/가로/ㅙ",
        one_jamo('ㅙ'),
        true,
        ids[8].as_str(),
        ids[16].as_str(),
        Some(ids[19].as_str()),
        variant_h_gk(true, cho_gk, ids[13].as_str(), ids[15].as_str()),
        jong_all,
        no_jong,
    );
    assert(template_views(templates@) =~= tv0 + hanterm_templates_horizontal());
    assert(selector_views(selectors@) =~= sv0 + hanterm_selectors_horizontal());
}

/// The templates added by `add_vertical_open_cases`.
pub open spec fn hanterm_templates_vertical_open() -> Seq<TemplateView> {
    seq![
        case_template(1, "받침X/세로/ㅏ계열"@, grp(1), grp(11), None, seq![]),
        case_template(2, "받침X/세로/ㅜㅠ"@, grp(3), grp(11), None, seq![]),
        case_template(3, "받침X/세로/ㅝㅞㅟ"@, grp(5), grp(11), None, seq![]),
    ]
}

/// The selectors added by `add_vertical_open_cases`.
pub open spec fn hanterm_selectors_vertical_open() -> Seq<SelectorView> {
    seq![
        case_selector(1, 1, "받침X/세로/ㅏ계열"@, jamo(seq!['ㅏ', 'ㅐ', 'ㅑ', 'ㅒ', 'ㅓ', 'ㅔ', 'ㅕ', 'ㅖ', 'ㅣ']), seq!['\0']),
        case_selector(2, 2, "받침X/세로/ㅜㅠ"@, jamo(seq!['ㅜ', 'ㅠ']), seq!['\0']),
        case_selector(3, 3, "받침X/세로/ㅝㅞㅟ"@, jamo(seq!['ㅝ', 'ㅞ', 'ㅟ']), seq!['\0']),
    ]
}

/// The templates added by `add_vertical_closed_cases`.
pub open spec fn hanterm_templates_vertical_closed() -> Seq<TemplateView> {
    seq![
        case_template(4, "받침O/세로/ㅏㅑㅣ"@, grp(6), grp(13), Some(grp(18)), hanterm_jong_n_rules()),
        case_template(5, "받침O/세로/ㅓㅕ"@, grp(6), grp(13), Some(grp(19)), hanterm_jong_n_rules()),
        case_template(6, "받침O/세로/ㅐㅒㅔㅖ"@, grp(6), grp(13), Some(grp(20)), hanterm_jong_n_rules()),
        case_template(7, "받침O/세로/ㅜㅠ"@, grp(8), grp(13), Some(grp(21)), hanterm_jong_n_rules()),
        case_template(8, "받침O/세로/ㅝㅟ"@, grp(10), grp(13), Some(grp(19)), hanterm_jong_n_rules()),
        case_template(9, "받침O/세로/ㅞ"@, grp(10), grp(13), Some(grp(20)), hanterm_jong_n_rules()),
    ]
}

/// The selectors added by `add_vertical_closed_cases`.
pub open spec fn hanterm_selectors_vertical_closed() -> Seq<SelectorView> {
    seq![
        case_selector(4, 4, "받침O/세로/ㅏㅑㅣ"@, jamo(seq!['ㅏ', 'ㅑ', 'ㅣ']), all_jong()),
        case_selector(5, 5, "받침O/세로/ㅓㅕ"@, jamo(seq!['ㅓ', 'ㅕ']), all_jong()),
        case_selector(6, 6, "받침O/세로/ㅐㅒㅔㅖ"@, jamo(seq!['ㅐ', 'ㅒ', 'ㅔ', 'ㅖ']), all_jong()),
        case_selector(7, 7, "받침O/세로/ㅜㅠ"@, jamo(seq!['ㅜ', 'ㅠ']), all_jong()),
        case_selector(8, 8, "받침O/세로/ㅝㅟ"@, jamo(seq!['ㅝ', 'ㅟ']), all_jong()),
        case_selector(9, 9, "받침O/세로/ㅞ"@, jamo(seq!['ㅞ']), all_jong()),
    ]
}

/// The templates added by `add_horizontal_cases`.
pub open spec fn hanterm_templates_horizontal() -> Seq<TemplateView> {
    seq![
        case_template(10, "받침X/가로/ㅗㅛㅡ"@, grp(2), grp(15), None, hanterm_gk_rules(false)),
        case_template(11, "받침X/가로/ㅘㅙㅚㅢ"@, grp(4), grp(15), None, hanterm_gk_rules(false)),
        case_template(12, "받침O/가로/ㅗㅛㅡ"@, grp(7), grp(17), Some(grp(21)), hanterm_gk_rules(true)),
        case_template(13, "받침O/가로/ㅘ"@, grp(9), grp(17), Some(grp(18)), hanterm_gk_rules(true)),
        case_template(14, "받침O/가로/ㅚㅢ"@, grp(9), grp(17), Some(grp(19)), hanterm_gk_rules(true)),
        case_template(15, "받침O/가로/ㅙ"@, grp(9), grp(17), Some(grp(20)), hanterm_gk_rules(true)),
    ]
}

/// The selectors added by `add_horizontal_cases`.
pub open spec fn hanterm_selectors_horizontal() -> Seq<SelectorView> {
    seq![
        case_selector(10, 10, "받침X/가로/ㅗㅛㅡ"@, jamo(seq!['ㅗ', 'ㅛ', 'ㅡ']), seq!['\0']),
        case_selector(11, 11, "받침X/가로/ㅘㅙㅚㅢ"@, jamo(seq!['ㅘ', 'ㅙ', 'ㅚ', 'ㅢ']), seq!['\0']),
        case_selector(12, 12, "받침O/가로/ㅗㅛㅡ"@, jamo(seq!['ㅗ', 'ㅛ', 'ㅡ']), all_jong()),
        case_selector(13, 13, "받침O/가로/ㅘ"@, jamo(seq!['ㅘ']), all_jong()),
        case_selector(14, 14, "받침O/가로/ㅚㅢ"@, jamo(seq!['ㅚ', 'ㅢ']), all_jong()),
        case_selector(15, 15, "받침O/가로/ㅙ"@, jamo(seq!['ㅙ']), all_jong()),
    ]
}

/// The preset's templates, in order.
pub open spec fn hanterm_templates() -> Seq<TemplateView> {
    hanterm_templates_vertical_open() + hanterm_templates_vertical_closed() + hanterm_templates_horizontal()
}

/// The preset's selectors, in order.
pub open spec fn hanterm_selectors() -> Seq<SelectorView> {
    hanterm_selectors_vertical_open() + hanterm_selectors_vertical_closed() + hanterm_selectors_horizontal()
}

/// The preset as a whole, with its base groups and next id numbers.
pub open spec fn hanterm_preset() -> RulesView {
    RulesView {
        groups: hanterm_groups(),
        templates: hanterm_templates(),
        selectors: hanterm_selectors(),
        base_cho: grp(1),
        base_jung: grp(11),
        base_jong: grp(18),
        seqs: (22, 16, 16, 1),
    }
}

/// The UnBitFonts hanterm preset: vertical vowels split by their final (none, ㄴ, other)
/// and horizontal vowels by their initial (ㄱㅋ or other), fifteen cases in all.
pub fn generate(store: &mut GlyphStore) -> (r: RuleSystem)
    requires
        old(store).wf(),
    ensures
        preset_result(r, *old(store), *final(store)),
        r@ == hanterm_preset(),
        final(store)@ == glyphs_added(old(store)@, r@.groups),
        r.groups@.len() == 21,
        r.templates@.len() == 15,
        r.selectors@.len() == 15,
{
    let mut sys = new_rule_system();
    let cho_gk = jamo_set(vec!['ㄱ', 'ㅋ']);
    let jong_n_set = one_jamo('ㄴ');
    let (_cho_all, _jung_all, jong_all) = all_jamo_sets();
    let ghost store0 = *store;

    let ids = add_groups(&mut sys, store, Ghost(store0@));
    sys.base_cho_group_id = string_from(ids[0].as_str());
    sys.base_jung_group_id = string_from(ids[10].as_str());
    sys.base_jong_group_id = string_from(ids[17].as_str());

    let no_jong = no_jong_set();
    let mut templates: Vec<Template> = Vec::new();
    let mut selectors: Vec<SelectorRule> = Vec::new();
    assert(template_views(templates@) =~= Seq::<TemplateView>::empty());
    assert(selector_views(selectors@) =~= Seq::<SelectorView>::empty());
    proof {
        lemma_numbered_groups(sys, *store);
        assert forall|i: int| 0 <= i < 21 implies has_group(sys.groups@, (#[trigger] ids@[i])@) by {
            assert(ids@[i]@ == seq_id("grp_"@, (i + 1) as u64));
        }
    }
    add_vertical_open_cases(&mut sys, &mut templates, &mut selectors, &ids, &jong_all, &no_jong, &cho_gk, &jong_n_set);
    add_vertical_closed_cases(&mut sys, &mut templates, &mut selectors, &ids, &jong_all, &no_jong, &cho_gk, &jong_n_set);
    add_horizontal_cases(&mut sys, &mut templates, &mut selectors, &ids, &jong_all, &no_jong, &cho_gk, &jong_n_set);

    sys.templates = templates;
    sys.selectors = selectors;
    proof {
        lemma_building_ids_distinct(sys, *store);
        assert(refs_resolved(sys));
        assert(sys@.groups =~= group_views(sys.groups@));
        assert(sys@.templates =~= template_views(sys.templates@));
        assert(sys@.selectors =~= selector_views(sys.selectors@));
        assert(sys@.templates =~= hanterm_templates());
        assert(sys@.selectors =~= hanterm_selectors());
        assert forall|q: KeyView| #[trigger] store0@.contains_key(q) implies store@.contains_key(q)
            && store@[q] == store0@[q] by {}
    }
    sys
}

/// A hanterm rule's medial change follows its condition: a rule that lists initial ㄱ or ㅋ
/// sends the medial to the horizontal ㄱㅋ group of the case (with or without a final), and a
/// rule that lists the final ㄴ to the vertical group kept for that final.
pub open spec fn hanterm_medial_follows_condition(groups: Seq<GroupView>, has_jong: bool, r: VariantView) -> bool {
    &&& (r.cho_set matches CondView::Include(s) && (s.contains('ㄱ') || s.contains('ㅋ'))) ==> (r.set_jung matches Some(
        g,
    ) && group_named(
        groups,
        g,
        if has_jong {
            "받침O_중성_가로_초성ㄱㅋ"@
        } else {
            "받침X_중성_가로_초성ㄱㅋ"@
        },
    ))
    &&& (r.jong_set matches CondView::Include(s) && s.contains('ㄴ')) ==> (r.set_jung matches Some(g)
        && group_named(groups, g, "받침ㄴ_중성_세로"@))
}

/// In the hanterm preset the medial group follows the rule's condition: in every template,
/// a variant rule on initials ㄱㅋ sends the medial to 받침X_중성_가로_초성ㄱㅋ (template
/// without a final) or 받침O_중성_가로_초성ㄱㅋ (with one), and a rule on the final ㄴ to
/// 받침ㄴ_중성_세로.
pub proof fn lemma_hanterm_medial_group_follows_condition()
    ensures
        forall|i: int, j: int|
            0 <= i < hanterm_preset().templates.len() && 0 <= j < hanterm_preset().templates[i].variant_rules.len()
                ==> hanterm_medial_follows_condition(
                hanterm_preset().groups,
                hanterm_preset().templates[i].default_jong is Some,
                #[trigger] hanterm_preset().templates[i].variant_rules[j],
            ),
{
    lemma_jamo_literals();
    let gs = hanterm_groups();
    assert(gs[11].id == grp(12) && gs[11].name == "받침ㄴ_중성_세로"@);
    assert(gs[13].id == grp(14) && gs[13].name == "받침X_중성_가로_초성ㄱㅋ"@);
    assert(gs[15].id == grp(16) && gs[15].name == "받침O_중성_가로_초성ㄱㅋ"@);
    let ts = hanterm_templates();
    let a = hanterm_templates_vertical_open();
    let b = hanterm_templates_vertical_closed();
    let c = hanterm_templates_horizontal();
    assert(ts == a + b + c);
    assert forall|i: int, j: int|
        0 <= i < ts.len() && 0 <= j < ts[i].variant_rules.len() implies hanterm_medial_follows_condition(
        gs,
        ts[i].default_jong is Some,
        #[trigger] ts[i].variant_rules[j],
    ) by {
        if i < 3 {
            assert(ts[i] == a[i]);
        } else if i < 9 {
            assert(ts[i] == b[i - 3]);
            assert(ts[i].variant_rules == hanterm_jong_n_rules());
        } else {
            assert(ts[i] == c[i - 9]);
            assert(ts[i].variant_rules == hanterm_gk_rules(ts[i].default_jong is Some));
        }
    }
}

} // verus!
