use vstd::prelude::*;

use crate::glyph::{GlyphStore, KeyView};
use crate::groups::{ComponentGroup, GroupView};
use crate::rule_system::{has_group, refs_resolved, rule_refs_ok, seq_id, RuleSystem, RulesView};
use crate::rules::{rules_view, SelectorRule, SelectorView, Template, TemplateView, VariantRule, VariantView};
use crate::types::HangulComponent;

use crate::text::string_from;

use super::{
    lemma_jamo_literals, medial_follows_initial,
    one_jamo,
    case_selector, case_template, grp, jamo, jamo_set, preset_rule, selector_views, template_views,
    all_cho, all_jong, all_jung, glyphs_added, group_views, preset_group,
    add_preset_case, add_preset_group, all_jamo_sets, build_variant_rule, building, cases_ok,
    lemma_building_ids_distinct, lemma_numbered_groups, new_rule_system, no_jong_set, preset_result,
};

verus! {

/// The medial rules of a case: after ㄱㅋ medial group 11 (without a final) or 14 (with
/// one), after ㅎ medial group 12 or 15, at a lower priority.
pub open spec fn minzkn_jung_rules(has_jong: bool) -> Seq<VariantView> {
    if !has_jong {
        seq![
            preset_rule("초성[ㄱㅋ] → 중성그룹1"@, 100, Some(jamo(seq!['ㄱ', 'ㅋ'])), None, None, None, Some(grp(11)), None),
            preset_rule("초성[ㅎ] → 중성그룹2"@, 99, Some(jamo(seq!['ㅎ'])), None, None, None, Some(grp(12)), None),
        ]
    } else {
        seq![
            preset_rule("초성[ㄱㅋ] → 중성그룹4"@, 100, Some(jamo(seq!['ㄱ', 'ㅋ'])), None, None, None, Some(grp(14)), None),
            preset_rule("초성[ㅎ] → 중성그룹5"@, 99, Some(jamo(seq!['ㅎ'])), None, None, None, Some(grp(15)), None),
        ]
    }
}

/// The medial rules of a case: initials ㄱㅋ take one medial group, ㅎ another.
fn jung_variants(
    has_jong: bool,
    cho_gk: &Vec<char>,
    cho_h: &Vec<char>,
    gj1: &str,
    gj2: &str,
    gj4: &str,
    gj5: &str,
) -> (r: Vec<VariantRule>)
    requires
        cho_gk@ == jamo(seq!['ㄱ', 'ㅋ']),
        cho_h@ == jamo(seq!['ㅎ']),
        gj1@ == grp(11),
        gj2@ == grp(12),
        gj4@ == grp(14),
        gj5@ == grp(15),
    ensures
        rules_view(r@) == minzkn_jung_rules(has_jong),
        r@.len() == 2,
        forall|g: Seq<ComponentGroup>|
            has_group(g, gj1@) && has_group(g, gj2@) && has_group(g, gj4@) && has_group(g, gj5@)
                ==> forall|j: int| 0 <= j < r@.len() ==> rule_refs_ok(g, #[trigger] r@[j]),
{
    let r = if !has_jong {
        vec![
            build_variant_rule("초성[ㄱㅋ] → 중성그룹1", Some(cho_gk), None, None, 100, None, Some(gj1), None),
            build_variant_rule("초성[ㅎ] → 중성그룹2", Some(cho_h), None, None, 99, None, Some(gj2), None),
        ]
    } else {
        vec![
            build_variant_rule("초성[ㄱㅋ] → 중성그룹4", Some(cho_gk), None, None, 100, None, Some(gj4), None),
            build_variant_rule("초성[ㅎ] → 중성그룹5", Some(cho_h), None, None, 99, None, Some(gj5), None),
        ]
    };
    assert(rules_view(r@) =~= seq![r@[0]@, r@[1]@]);
    r
}

/// The preset's groups, in order.
pub open spec fn minzkn_groups() -> Seq<GroupView> {
    seq![
        preset_group(1, "받침X_초성_ㅏ계열"@, HangulComponent::Cho, all_cho()),
        preset_group(2, "받침X_초성_ㅗㅛㅡ"@, HangulComponent::Cho, all_cho()),
        preset_group(3, "받침X_초성_ㅜㅠ"@, HangulComponent::Cho, all_cho()),
        preset_group(4, "받침X_초성_ㅘㅙㅚㅢ"@, HangulComponent::Cho, all_cho()),
        preset_group(5, "받침X_초성_ㅝㅞㅟ"@, HangulComponent::Cho, all_cho()),
        preset_group(6, "받침O_초성_ㅏ계열"@, HangulComponent::Cho, all_cho()),
        preset_group(7, "받침O_초성_ㅗㅛㅡ"@, HangulComponent::Cho, all_cho()),
        preset_group(8, "받침O_초성_ㅜㅠ"@, HangulComponent::Cho, all_cho()),
        preset_group(9, "받침O_초성_ㅘㅙㅚㅢ"@, HangulComponent::Cho, all_cho()),
        preset_group(10, "받침O_초성_ㅝㅞㅟ"@, HangulComponent::Cho, all_cho()),
        preset_group(11, "받침X_중성_초성ㄱㅋ"@, HangulComponent::Jung, all_jung()),
        preset_group(12, "받침X_중성_초성ㅎ"@, HangulComponent::Jung, all_jung()),
        preset_group(13, "받침X_중성_초성기타"@, HangulComponent::Jung, all_jung()),
        preset_group(14, "받침O_중성_초성ㄱㅋ"@, HangulComponent::Jung, all_jung()),
        preset_group(15, "받침O_중성_초성ㅎ"@, HangulComponent::Jung, all_jung()),
        preset_group(16, "받침O_중성_초성기타"@, HangulComponent::Jung, all_jung()),
        preset_group(17, "종성_ㅏㅑㅘㅣ"@, HangulComponent::Jong, all_jong()),
        preset_group(18, "종성_ㅓㅕㅚㅝㅟㅢ"@, HangulComponent::Jong, all_jong()),
        preset_group(19, "종성_ㅐㅒㅔㅖㅙㅞ"@, HangulComponent::Jong, all_jong()),
        preset_group(20, "종성_ㅗㅛㅜㅠㅡ"@, HangulComponent::Jong, all_jong()),
    ]
}

/// Adds the preset's twenty groups (initials by vowel shape and final, medials by initial,
/// finals by vowel) and makes sure each has its glyphs; returns their ids in order.
fn add_groups(sys: &mut RuleSystem, store: &mut GlyphStore, Ghost(base): Ghost<Map<KeyView, Set<(i32, i32)>>>) -> (ids: Vec<String>)
    requires
        building(*old(sys), *old(store)),
        old(sys).groups@.len() == 0,
        old(store)@ == base,
    ensures
        group_views(final(sys).groups@) == minzkn_groups(),
        final(store)@ == glyphs_added(base, group_views(final(sys).groups@)),
        building(*final(sys), *final(store)),
        *final(sys) == (RuleSystem {
            groups: final(sys).groups,
            next_group_seq: final(sys).next_group_seq,
            ..*old(sys)
        }),
        final(sys).groups@.len() == 20,
        ids@.len() == 20,
        forall|i: int| 0 <= i < 20 ==> (#[trigger] ids@[i])@ == seq_id("grp_"@, (i + 1) as u64),
        forall|q: KeyView|
            #[trigger] old(store)@.contains_key(q) ==> final(store)@.contains_key(q) && final(store)@[q]
                == old(store)@[q],
{
    let (cho_all, jung_all, jong_all) = all_jamo_sets();
    let mut ids: Vec<String> = Vec::new();
    assert(group_views(sys.groups@) =~= Seq::<GroupView>::empty());
    ids.push(add_preset_group(sys, store, "받침X_초성_ㅏ계열", HangulComponent::Cho, &cho_all, Ghost(base)));
    ids.push(add_preset_group(sys, store, "받침X_초성_ㅗㅛㅡ", HangulComponent::Cho, &cho_all, Ghost(base)));
    ids.push(add_preset_group(sys, store, "받침X_초성_ㅜㅠ", HangulComponent::Cho, &cho_all, Ghost(base)));
    ids.push(add_preset_group(sys, store, "받침X_초성_ㅘㅙㅚㅢ", HangulComponent::Cho, &cho_all, Ghost(base)));
    ids.push(add_preset_group(sys, store, "받침X_초성_ㅝㅞㅟ", HangulComponent::Cho, &cho_all, Ghost(base)));
    ids.push(add_preset_group(sys, store, "받침O_초성_ㅏ계열", HangulComponent::Cho, &cho_all, Ghost(base)));
    ids.push(add_preset_group(sys, store, "받침O_초성_ㅗㅛㅡ", HangulComponent::Cho, &cho_all, Ghost(base)));
    ids.push(add_preset_group(sys, store, "받침O_초성_ㅜㅠ", HangulComponent::Cho, &cho_all, Ghost(base)));
    ids.push(add_preset_group(sys, store, "받침O_초성_ㅘㅙㅚㅢ", HangulComponent::Cho, &cho_all, Ghost(base)));
    ids.push(add_preset_group(sys, store, "받침O_초성_ㅝㅞㅟ", HangulComponent::Cho, &cho_all, Ghost(base)));
    ids.push(add_preset_group(sys, store, "받침X_중성_초성ㄱㅋ", HangulComponent::Jung, &jung_all, Ghost(base)));
    ids.push(add_preset_group(sys, store, "받침X_중성_초성ㅎ", HangulComponent::Jung, &jung_all, Ghost(base)));
    ids.push(add_preset_group(sys, store, "받침X_중성_초성기타", HangulComponent::Jung, &jung_all, Ghost(base)));
    ids.push(add_preset_group(sys, store, "받침O_중성_초성ㄱㅋ", HangulComponent::Jung, &jung_all, Ghost(base)));
    ids.push(add_preset_group(sys, store, "받침O_중성_초성ㅎ", HangulComponent::Jung, &jung_all, Ghost(base)));
    ids.push(add_preset_group(sys, store, "받침O_중성_초성기타", HangulComponent::Jung, &jung_all, Ghost(base)));
    ids.push(add_preset_group(sys, store, "종성_ㅏㅑㅘㅣ", HangulComponent::Jong, &jong_all, Ghost(base)));
    ids.push(add_preset_group(sys, store, "종성_ㅓㅕㅚㅝㅟㅢ", HangulComponent::Jong, &jong_all, Ghost(base)));
    ids.push(add_preset_group(sys, store, "종성_ㅐㅒㅔㅖㅙㅞ", HangulComponent::Jong, &jong_all, Ghost(base)));
    ids.push(add_preset_group(sys, store, "종성_ㅗㅛㅜㅠㅡ", HangulComponent::Jong, &jong_all, Ghost(base)));
    let ghost store1 = *store;
    let mut k: usize = 0;
    while k < sys.groups.len()
        invariant
            building(*sys, *store),
            sys.groups@.len() == 20,
            store@ == store1@,
            forall|q: KeyView|
                #[trigger] store1@.contains_key(q) ==> store@.contains_key(q) && store@[q] == store1@[q],
        decreases sys.groups@.len() - k,
    {
        let gid = sys.groups[k].id.clone();
        let ghost before = *store;
        sys.ensure_group_glyphs(store, gid.as_str());
        proof {
            let gs = sys.groups@;
            crate::seqs::lemma_first_index_props(gs, crate::idlist::has_id::<ComponentGroup>(gid@));
            assert forall|q: KeyView| #[trigger] before@.contains_key(q) implies store@.contains_key(q)
                && store@[q] == before@[q] by {}
            assert(store@ =~= before@);
        }
        k = k + 1;
    }
    ids
}

/// Adds the five cases without a final, one per vowel shape.
#[verifier::spinoff_prover]
#[verifier::rlimit(40)]
fn add_open_cases(
    sys: &mut RuleSystem,
    templates: &mut Vec<Template>,
    selectors: &mut Vec<SelectorRule>,
    ids: &Vec<String>,
    jong_all: &Vec<char>,
    no_jong: &Vec<char>,
    cho_gk: &Vec<char>,
    cho_h: &Vec<char>,
)
    requires
        forall|i: int| 0 <= i < 20 ==> (#[trigger] ids@[i])@ == grp((i + 1) as u64),
        jong_all@ == all_jong(),
        no_jong@ == seq!['\0'],
        cho_gk@ == jamo(seq!['ㄱ', 'ㅋ']),
        cho_h@ == jamo(seq!['ㅎ']),
        old(sys).next_template_seq == 1,
        old(sys).next_selector_seq == 1,
        ids@.len() == 20,
        forall|i: int| 0 <= i < 20 ==> has_group(old(sys).groups@, (#[trigger] ids@[i])@),
        cases_ok(old(sys).groups@, old(templates)@, old(selectors)@),
        old(sys).next_template_seq < 1000,
        old(sys).next_selector_seq < 1000,
    ensures
        template_views(final(templates)@) == template_views(old(templates)@) + minzkn_templates_open(),
        selector_views(final(selectors)@) == selector_views(old(selectors)@) + minzkn_selectors_open(),
        *final(sys) == (RuleSystem {
            next_template_seq: (old(sys).next_template_seq + 5) as u64,
            next_selector_seq: (old(sys).next_selector_seq + 5) as u64,
            ..*old(sys)
        }),
        cases_ok(final(sys).groups@, final(templates)@, final(selectors)@),
        final(templates)@.len() == old(templates)@.len() + 5,
        final(selectors)@.len() == old(selectors)@.len() + 5,
{
    let ghost tv0 = template_views(templates@);
    let ghost sv0 = selector_views(selectors@);
    add_preset_case(
        sys,
        templates,
        selectors,
        "받침X/ㅏ계열",
        jamo_set(vec!['ㅏ', 'ㅐ', 'ㅑ', 'ㅒ', 'ㅓ', 'ㅔ', 'ㅕ', 'ㅖ', 'ㅣ']),
        false,
        ids[0].as_str(),
        ids[12].as_str(),
        None,
        jung_variants(false, cho_gk, cho_h, ids[10].as_str(), ids[11].as_str(), ids[13].as_str(), ids[14].as_str()),
        jong_all,
        no_jong,
    );
    add_preset_case(
        sys,
        templates,
        selectors,
        "받침X/ㅗㅛㅡ",
        jamo_set(vec!['ㅗ', 'ㅛ', 'ㅡ']),
        false,
        ids[1].as_str(),
        ids[12].as_str(),
        None,
        jung_variants(false, cho_gk, cho_h, ids[10].as_str(), ids[11].as_str(), ids[13].as_str(), ids[14].as_str()),
        jong_all,
        no_jong,
    );
    add_preset_case(
        sys,
        templates,
        selectors,
        "받침X/ㅜㅠ",
        jamo_set(vec!['ㅜ', 'ㅠ']),
        false,
        ids[2].as_str(),
        ids[12].as_str(),
        None,
        jung_variants(false, cho_gk, cho_h, ids[10].as_str(), ids[11].as_str(), ids[13].as_str(), ids[14].as_str()),
        jong_all,
        no_jong,
    );
    add_preset_case(
        sys,
        templates,
        selectors,
        "받침X/ㅘㅙㅚㅢ",
        jamo_set(vec!['ㅘ', 'ㅙ', 'ㅚ', 'ㅢ']),
        false,
        ids[3].as_str(),
        ids[12].as_str(),
        None,
        jung_variants(false, cho_gk, cho_h, ids[10].as_str(), ids[11].as_str(), ids[13].as_str(), ids[14].as_str()),
        jong_all,
        no_jong,
    );
    add_preset_case(
        sys,
        templates,
        selectors,
        "받침X/ㅝㅞㅟ",
        jamo_set(vec!['ㅝ', 'ㅞ', 'ㅟ']),
        false,
        ids[4].as_str(),
        ids[12].as_str(),
        None,
        jung_variants(false, cho_gk, cho_h, ids[10].as_str(), ids[11].as_str(), ids[13].as_str(), ids[14].as_str()),
        jong_all,
        no_jong,
    );
    assert(template_views(templates@) =~= tv0 + minzkn_templates_open());
    assert(selector_views(selectors@) =~= sv0 + minzkn_selectors_open());
}

/// Adds the cases with a final for the simple vowels.
#[verifier::spinoff_prover]
#[verifier::rlimit(40)]
fn add_closed_simple_cases(
    sys: &mut RuleSystem,
    templates: &mut Vec<Template>,
    selectors: &mut Vec<SelectorRule>,
    ids: &Vec<String>,
    jong_all: &Vec<char>,
    no_jong: &Vec<char>,
    cho_gk: &Vec<char>,
    cho_h: &Vec<char>,
)
    requires
        forall|i: int| 0 <= i < 20 ==> (#[trigger] ids@[i])@ == grp((i + 1) as u64),
        jong_all@ == all_jong(),
        no_jong@ == seq!['\0'],
        cho_gk@ == jamo(seq!['ㄱ', 'ㅋ']),
        cho_h@ == jamo(seq!['ㅎ']),
        old(sys).next_template_seq == 6,
        old(sys).next_selector_seq == 6,
        ids@.len() == 20,
        forall|i: int| 0 <= i < 20 ==> has_group(old(sys).groups@, (#[trigger] ids@[i])@),
        cases_ok(old(sys).groups@, old(templates)@, old(selectors)@),
        old(sys).next_template_seq < 1000,
        old(sys).next_selector_seq < 1000,
    ensures
        template_views(final(templates)@) == template_views(old(templates)@) + minzkn_templates_closed_simple(),
        selector_views(final(selectors)@) == selector_views(old(selectors)@) + minzkn_selectors_closed_simple(),
        *final(sys) == (RuleSystem {
            next_template_seq: (old(sys).next_template_seq + 5) as u64,
            next_selector_seq: (old(sys).next_selector_seq + 5) as u64,
            ..*old(sys)
        }),
        cases_ok(final(sys).groups@, final(templates)@, final(selectors)@),
        final(templates)@.len() == old(templates)@.len() + 5,
        final(selectors)@.len() == old(selectors)@.len() + 5,
{
    let ghost tv0 = template_views(templates@);
    let ghost sv0 = selector_views(selectors@);
    add_preset_case(
        sys,
        templates,
        selectors,
        "받침O/ㅏㅑㅣ",
        jamo_set(vec!['ㅏ', 'ㅑ', 'ㅣ']),
        true,
        ids[5].as_str(),
        ids[15].as_str(),
        Some(ids[16].as_str()),
        jung_variants(true, cho_gk, cho_h, ids[10].as_str(), ids[11].as_str(), ids[13].as_str(), ids[14].as_str()),
        jong_all,
        no_jong,
    );
    add_preset_case(
        sys,
        templates,
        selectors,
        "받침O/ㅓㅕ",
        jamo_set(vec!['ㅓ', 'ㅕ']),
        true,
        ids[5].as_str(),
        ids[15].as_str(),
        Some(ids[17].as_str()),
        jung_variants(true, cho_gk, cho_h, ids[10].as_str(), ids[11].as_str(), ids[13].as_str(), ids[14].as_str()),
        jong_all,
        no_jong,
    );
    add_preset_case(
        sys,
        templates,
        selectors,
        "받침O/ㅐㅒㅔㅖ",
        jamo_set(vec!['ㅐ', 'ㅒ', 'ㅔ', 'ㅖ']),
        true,
        ids[5].as_str(),
        ids[15].as_str(),
        Some(ids[18].as_str()),
        jung_variants(true, cho_gk, cho_h, ids[10].as_str(), ids[11].as_str(), ids[13].as_str(), ids[14].as_str()),
        jong_all,
        no_jong,
    );
    add_preset_case(
        sys,
        templates,
        selectors,
        "받침O/ㅗㅛㅡ",
        jamo_set(vec!['ㅗ', 'ㅛ', 'ㅡ']),
        true,
        ids[6].as_str(),
        ids[15].as_str(),
        Some(ids[19].as_str()),
        jung_variants(true, cho_gk, cho_h, ids[10].as_str(), ids[11].as_str(), ids[13].as_str(), ids[14].as_str()),
        jong_all,
        no_jong,
    );
    add_preset_case(
        sys,
        templates,
        selectors,
        "받침O/ㅜㅠ",
        jamo_set(vec!['ㅜ', 'ㅠ']),
        true,
        ids[7].as_str(),
        ids[15].as_str(),
        Some(ids[19].as_str()),
        jung_variants(true, cho_gk, cho_h, ids[10].as_str(), ids[11].as_str(), ids[13].as_str(), ids[14].as_str()),
        jong_all,
        no_jong,
    );
    assert(template_views(templates@) =~= tv0 + minzkn_templates_closed_simple());
    assert(selector_views(selectors@) =~= sv0 + minzkn_selectors_closed_simple());
}

/// Adds the cases with a final for the compound vowels.
#[verifier::spinoff_prover]
#[verifier::rlimit(40)]
fn add_closed_compound_cases(
    sys: &mut RuleSystem,
    templates: &mut Vec<Template>,
    selectors: &mut Vec<SelectorRule>,
    ids: &Vec<String>,
    jong_all: &Vec<char>,
    no_jong: &Vec<char>,
    cho_gk: &Vec<char>,
    cho_h: &Vec<char>,
)
    requires
        forall|i: int| 0 <= i < 20 ==> (#[trigger] ids@[i])@ == grp((i + 1) as u64),
        jong_all@ == all_jong(),
        no_jong@ == seq!['\0'],
        cho_gk@ == jamo(seq!['ㄱ', 'ㅋ']),
        cho_h@ == jamo(seq!['ㅎ']),
        old(sys).next_template_seq == 11,
        old(sys).next_selector_seq == 11,
        ids@.len() == 20,
        forall|i: int| 0 <= i < 20 ==> has_group(old(sys).groups@, (#[trigger] ids@[i])@),
        cases_ok(old(sys).groups@, old(templates)@, old(selectors)@),
        old(sys).next_template_seq < 1000,
        old(sys).next_selector_seq < 1000,
    ensures
        template_views(final(templates)@) == template_views(old(templates)@) + minzkn_templates_closed_compound(),
        selector_views(final(selectors)@) == selector_views(old(selectors)@) + minzkn_selectors_closed_compound(),
        *final(sys) == (RuleSystem {
            next_template_seq: (old(sys).next_template_seq + 5) as u64,
            next_selector_seq: (old(sys).next_selector_seq + 5) as u64,
            ..*old(sys)
        }),
        cases_ok(final(sys).groups@, final(templates)@, final(selectors)@),
        final(templates)@.len() == old(templates)@.len() + 5,
        final(selectors)@.len() == old(selectors)@.len() + 5,
{
    let ghost tv0 = template_views(templates@);
    let ghost sv0 = selector_views(selectors@);
    add_preset_case(
        sys,
        templates,
        selectors,
        "받침O/ㅘ",
        one_jamo('ㅘ'),
        true,
        ids[8].as_str(),
        ids[15].as_str(),
        Some(ids[16].as_str()),
        jung_variants(true, cho_gk, cho_h, ids[10].as_str(), ids[11].as_str(), ids[13].as_str(), ids[14].as_str()),
        jong_all,
        no_jong,
    );
    add_preset_case(
        sys,
        templates,
        selectors,
        "받침O/ㅚㅢ",
        jamo_set(vec!['ㅚ', 'ㅢ']),
        true,
        ids[8].as_str(),
        ids[15].as_str(),
        Some(ids[17].as_str()),
        jung_variants(true, cho_gk, cho_h, ids[10].as_str(), ids[11].as_str(), ids[13].as_str(), ids[14].as_str()),
        jong_all,
        no_jong,
    );
    add_preset_case(
        sys,
        templates,
        selectors,
        "받침O/ㅙ",
        one_jamo('ㅙ'),
        true,
        ids[8].as_str(),
        ids[15].as_str(),
        Some(ids[18].as_str()),
        jung_variants(true, cho_gk, cho_h, ids[10].as_str(), ids[11].as_str(), ids[13].as_str(), ids[14].as_str()),
        jong_all,
        no_jong,
    );
    add_preset_case(
        sys,
        templates,
        selectors,
        "받침O/ㅝㅟ",
        jamo_set(vec!['ㅝ', 'ㅟ']),
        true,
        ids[9].as_str(),
        ids[15].as_str(),
        Some(ids[17].as_str()),
        jung_variants(true, cho_gk, cho_h, ids[10].as_str(), ids[11].as_str(), ids[13].as_str(), ids[14].as_str()),
        jong_all,
        no_jong,
    );
    add_preset_case(
        sys,
        templates,
        selectors,
        "받침O/ㅞ",
        one_jamo('ㅞ'),
        true,
        ids[9].as_str(),
        ids[15].as_str(),
        Some(ids[18].as_str()),
        jung_variants(true, cho_gk, cho_h, ids[10].as_str(), ids[11].as_str(), ids[13].as_str(), ids[14].as_str()),
        jong_all,
        no_jong,
    );
    assert(template_views(templates@) =~= tv0 + minzkn_templates_closed_compound());
    assert(selector_views(selectors@) =~= sv0 + minzkn_selectors_closed_compound());
}

/// The templates added by `add_open_cases`.
pub open spec fn minzkn_templates_open() -> Seq<TemplateView> {
    seq![
        case_template(1, "받침X/ㅏ계열"@, grp(1), grp(13), None, minzkn_jung_rules(false)),
        case_template(2, "받침X/ㅗㅛㅡ"@, grp(2), grp(13), None, minzkn_jung_rules(false)),
        case_template(3, "받침X/ㅜㅠ"@, grp(3), grp(13), None, minzkn_jung_rules(false)),
        case_template(4, "받침X/ㅘㅙㅚㅢ"@, grp(4), grp(13), None, minzkn_jung_rules(false)),
        case_template(5, "받침X/ㅝㅞㅟ"@, grp(5), grp(13), None, minzkn_jung_rules(false)),
    ]
}

/// The selectors added by `add_open_cases`.
pub open spec fn minzkn_selectors_open() -> Seq<SelectorView> {
    seq![
        case_selector(1, 1, "받침X/ㅏ계열"@, jamo(seq!['ㅏ', 'ㅐ', 'ㅑ', 'ㅒ', 'ㅓ', 'ㅔ', 'ㅕ', 'ㅖ', 'ㅣ']), seq!['\0']),
        case_selector(2, 2, "받침X/ㅗㅛㅡ"@, jamo(seq!['ㅗ', 'ㅛ', 'ㅡ']), seq!['\0']),
        case_selector(3, 3, "받침X/ㅜㅠ"@, jamo(seq!['ㅜ', 'ㅠ']), seq!['\0']),
        case_selector(4, 4, "받침X/ㅘㅙㅚㅢ"@, jamo(seq!['ㅘ', 'ㅙ', 'ㅚ', 'ㅢ']), seq!['\0']),
        case_selector(5, 5, "받침X/ㅝㅞㅟ"@, jamo(seq!['ㅝ', 'ㅞ', 'ㅟ']), seq!['\0']),
    ]
}

/// The templates added by `add_closed_simple_cases`.
pub open spec fn minzkn_templates_closed_simple() -> Seq<TemplateView> {
    seq![
        case_template(6, "받침O/ㅏㅑㅣ"@, grp(6), grp(16), Some(grp(17)), minzkn_jung_rules(true)),
        case_template(7, "받침O/ㅓㅕ"@, grp(6), grp(16), Some(grp(18)), minzkn_jung_rules(true)),
        case_template(8, "받침O/ㅐㅒㅔㅖ"@, grp(6), grp(16), Some(grp(19)), minzkn_jung_rules(true)),
        case_template(9, "받침O/ㅗㅛㅡ"@, grp(7), grp(16), Some(grp(20)), minzkn_jung_rules(true)),
        case_template(10, "받침O/ㅜㅠ"@, grp(8), grp(16), Some(grp(20)), minzkn_jung_rules(true)),
    ]
}

/// The selectors added by `add_closed_simple_cases`.
pub open spec fn minzkn_selectors_closed_simple() -> Seq<SelectorView> {
    seq![
        case_selector(6, 6, "받침O/ㅏㅑㅣ"@, jamo(seq!['ㅏ', 'ㅑ', 'ㅣ']), all_jong()),
        case_selector(7, 7, "받침O/ㅓㅕ"@, jamo(seq!['ㅓ', 'ㅕ']), all_jong()),
        case_selector(8, 8, "받침O/ㅐㅒㅔㅖ"@, jamo(seq!['ㅐ', 'ㅒ', 'ㅔ', 'ㅖ']), all_jong()),
        case_selector(9, 9, "받침O/ㅗㅛㅡ"@, jamo(seq!['ㅗ', 'ㅛ', 'ㅡ']), all_jong()),
        case_selector(10, 10, "받침O/ㅜㅠ"@, jamo(seq!['ㅜ', 'ㅠ']), all_jong()),
    ]
}

/// The templates added by `add_closed_compound_cases`.
pub open spec fn minzkn_templates_closed_compound() -> Seq<TemplateView> {
    seq![
        case_template(11, "받침O/ㅘ"@, grp(9), grp(16), Some(grp(17)), minzkn_jung_rules(true)),
        case_template(12, "받침O/ㅚㅢ"@, grp(9), grp(16), Some(grp(18)), minzkn_jung_rules(true)),
        case_template(13, "받침O/ㅙ"@, grp(9), grp(16), Some(grp(19)), minzkn_jung_rules(true)),
        case_template(14, "받침O/ㅝㅟ"@, grp(10), grp(16), Some(grp(18)), minzkn_jung_rules(true)),
        case_template(15, "받침O/ㅞ"@, grp(10), grp(16), Some(grp(19)), minzkn_jung_rules(true)),
    ]
}

/// The selectors added by `add_closed_compound_cases`.
pub open spec fn minzkn_selectors_closed_compound() -> Seq<SelectorView> {
    seq![
        case_selector(11, 11, "받침O/ㅘ"@, jamo(seq!['ㅘ']), all_jong()),
        case_selector(12, 12, "받침O/ㅚㅢ"@, jamo(seq!['ㅚ', 'ㅢ']), all_jong()),
        case_selector(13, 13, "받침O/ㅙ"@, jamo(seq!['ㅙ']), all_jong()),
        case_selector(14, 14, "받침O/ㅝㅟ"@, jamo(seq!['ㅝ', 'ㅟ']), all_jong()),
        case_selector(15, 15, "받침O/ㅞ"@, jamo(seq!['ㅞ']), all_jong()),
    ]
}

/// The preset's templates, in order.
pub open spec fn minzkn_templates() -> Seq<TemplateView> {
    minzkn_templates_open() + minzkn_templates_closed_simple() + minzkn_templates_closed_compound()
}

/// The preset's selectors, in order.
pub open spec fn minzkn_selectors() -> Seq<SelectorView> {
    minzkn_selectors_open() + minzkn_selectors_closed_simple() + minzkn_selectors_closed_compound()
}

/// The preset as a whole, with its base groups and next id numbers.
pub open spec fn minzkn_preset() -> RulesView {
    RulesView {
        groups: minzkn_groups(),
        templates: minzkn_templates(),
        selectors: minzkn_selectors(),
        base_cho: grp(1),
        base_jung: grp(13),
        base_jong: grp(17),
        seqs: (21, 16, 16, 1),
    }
}

/// The UnBitFonts preset by minzkn: five vowel shapes without a final and ten with one,
/// medial groups chosen by the initial (ㄱㅋ, ㅎ, others) and final groups by the vowel.
pub fn generate(store: &mut GlyphStore) -> (r: RuleSystem)
    requires
        old(store).wf(),
    ensures
        preset_result(r, *old(store), *final(store)),
        r@ == minzkn_preset(),
        final(store)@ == glyphs_added(old(store)@, r@.groups),
        r.groups@.len() == 20,
        r.templates@.len() == 15,
        r.selectors@.len() == 15,
{
    let mut sys = new_rule_system();
    let cho_gk = jamo_set(vec!['ㄱ', 'ㅋ']);
    let cho_h = one_jamo('ㅎ');
    let (_cho_all, _jung_all, jong_all) = all_jamo_sets();
    let ghost store0 = *store;

    let ids = add_groups(&mut sys, store, Ghost(store0@));
    sys.base_cho_group_id = string_from(ids[0].as_str());
    sys.base_jung_group_id = string_from(ids[12].as_str());
    sys.base_jong_group_id = string_from(ids[16].as_str());

    let no_jong = no_jong_set();
    let mut templates: Vec<Template> = Vec::new();
    let mut selectors: Vec<SelectorRule> = Vec::new();
    assert(template_views(templates@) =~= Seq::<TemplateView>::empty());
    assert(selector_views(selectors@) =~= Seq::<SelectorView>::empty());
    proof {
        lemma_numbered_groups(sys, *store);
        assert forall|i: int| 0 <= i < 20 implies has_group(sys.groups@, (#[trigger] ids@[i])@) by {
            assert(ids@[i]@ == seq_id("grp_"@, (i + 1) as u64));
        }
    }
    add_open_cases(&mut sys, &mut templates, &mut selectors, &ids, &jong_all, &no_jong, &cho_gk, &cho_h);
    add_closed_simple_cases(&mut sys, &mut templates, &mut selectors, &ids, &jong_all, &no_jong, &cho_gk, &cho_h);
    add_closed_compound_cases(&mut sys, &mut templates, &mut selectors, &ids, &jong_all, &no_jong, &cho_gk, &cho_h);

    sys.templates = templates;
    sys.selectors = selectors;
    proof {
        lemma_building_ids_distinct(sys, *store);
        assert(refs_resolved(sys));
        assert(sys@.groups =~= group_views(sys.groups@));
        assert(sys@.templates =~= template_views(sys.templates@));
        assert(sys@.selectors =~= selector_views(sys.selectors@));
        assert(sys@.templates =~= minzkn_templates());
        assert(sys@.selectors =~= minzkn_selectors());
        assert forall|q: KeyView| #[trigger] store0@.contains_key(q) implies store@.contains_key(q)
            && store@[q] == store0@[q] by {}
    }
    sys
}

proof fn lemma_minzkn_jung_rules_follow_initial(has_jong: bool)
    ensures
        forall|j: int|
            0 <= j < minzkn_jung_rules(has_jong).len() ==> medial_follows_initial(
                minzkn_groups(),
                has_jong,
                #[trigger] minzkn_jung_rules(has_jong)[j],
            ),
{
    lemma_jamo_literals();
    let gs = minzkn_groups();
    assert(gs[10].id == grp(11) && gs[10].name == "받침X_중성_초성ㄱㅋ"@);
    assert(gs[11].id == grp(12) && gs[11].name == "받침X_중성_초성ㅎ"@);
    assert(gs[13].id == grp(14) && gs[13].name == "받침O_중성_초성ㄱㅋ"@);
    assert(gs[14].id == grp(15) && gs[14].name == "받침O_중성_초성ㅎ"@);
}

/// In the minzkn preset the medial group follows the initial: in every template, a variant
/// rule that applies to initial ㅎ sends the medial to the group named 받침X_중성_초성ㅎ
/// (template without a final) or 받침O_중성_초성ㅎ (with one), and a rule that applies to
/// initial ㄱ or ㅋ to 받침X_중성_초성ㄱㅋ or 받침O_중성_초성ㄱㅋ.
pub proof fn lemma_minzkn_medial_group_follows_initial()
    ensures
        forall|i: int, j: int|
            0 <= i < minzkn_preset().templates.len() && 0 <= j < minzkn_preset().templates[i].variant_rules.len()
                ==> medial_follows_initial(
                minzkn_preset().groups,
                minzkn_preset().templates[i].default_jong is Some,
                #[trigger] minzkn_preset().templates[i].variant_rules[j],
            ),
{
    lemma_minzkn_jung_rules_follow_initial(false);
    lemma_minzkn_jung_rules_follow_initial(true);
    let ts = minzkn_templates();
    assert forall|i: int| 0 <= i < ts.len() implies (#[trigger] ts[i]).variant_rules == minzkn_jung_rules(
        ts[i].default_jong is Some,
    ) by {
        let a = minzkn_templates_open();
        let b = minzkn_templates_closed_simple();
        let c = minzkn_templates_closed_compound();
        assert(ts == a + b + c);
        if i < 5 {
            assert(ts[i] == a[i]);
        } else if i < 10 {
            assert(ts[i] == b[i - 5]);
        } else {
            assert(ts[i] == c[i - 10]);
        }
    }
}

} // verus!
