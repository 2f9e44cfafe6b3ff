use vstd::prelude::*;

use crate::engine::{
    apply_variants, order_without, priority_order, sets_match, sim_variant_rules, LayoutEngine, LayoutView,
};
use crate::glyph::{GlyphStore, KeyView};
use crate::hangul::{all_hangul_syllables, decompose_hangul, get_jamo_char};
use crate::idlist::id_position;
use crate::project::{lemma_syllable_result, syllable_layout};
use crate::rule_system::RuleSystem;
use crate::rules::{opt_view, CharSetCond, CondView, SelectorRule, Template, VariantRule};
use crate::seqs::{first_index, lemma_first_index_is, lemma_first_index_none};
use crate::text::{str_eq, string_push, string_push_str};
use crate::types::HangulComponent;

verus! {

/// The character's code.
pub open spec fn code_of(c: char) -> int {
    c as u32 as int
}

/// The 11,172 modern syllables in code order.
pub open spec fn syllable_list() -> Seq<char> {
    Seq::new(11172, |i: int| choose|c: char| #[trigger] code_of(c) == 0xAC00 + i)
}

proof fn lemma_syllable_list(s: Seq<char>)
    requires
        s.len() == 11172,
        forall|i: int| 0 <= i < s.len() ==> (#[trigger] s[i]) as u32 == 0xAC00 + i,
    ensures
        s == syllable_list(),
{
    assert forall|i: int| 0 <= i < 11172 implies s[i] == syllable_list()[i] by {
        assert(code_of(s[i]) == 0xAC00 + i);
        let c = choose|c: char| #[trigger] code_of(c) == 0xAC00 + i;
        crate::charset::lemma_code_injective(c, s[i]);
    }
    assert(s =~= syllable_list());
}

fn syllables() -> (r: Vec<char>)
    ensures
        r@ == syllable_list(),
        forall|i: int| 0 <= i < r@.len() ==> #[trigger] code_of(r@[i]) == 0xAC00 + i,
{
    let s = all_hangul_syllables();
    proof {
        lemma_syllable_list(s@);
    }
    s
}

proof fn lemma_filter_step(s: Seq<char>, i: int, p: spec_fn(char) -> bool)
    requires
        0 <= i < s.len(),
    ensures
        s.take(i + 1).filter(p) == if p(s[i]) {
            s.take(i).filter(p).push(s[i])
        } else {
            s.take(i).filter(p)
        },
{
    reveal_with_fuel(Seq::<_>::filter, 1);
    assert(s.take(i + 1).drop_last() =~= s.take(i));
}

/// The syllable's layout uses the template.
pub open spec fn uses_template(rules: RuleSystem, store: Map<KeyView, Set<(i32, i32)>>, tid: Seq<char>) -> spec_fn(
    char,
) -> bool {
    |c: char| syllable_layout(rules, store, c) matches Some(l) && l.template_id == tid
}

/// The syllable's layout draws some part with the group.
pub open spec fn uses_group(rules: RuleSystem, store: Map<KeyView, Set<(i32, i32)>>, gid: Seq<char>) -> spec_fn(
    char,
) -> bool {
    |c: char|
        syllable_layout(rules, store, c) matches Some(l) && (l.cho.2 == gid || l.jung.2 == gid || (
        l.jong matches Some(j) && j.2 == gid))
}

/// The part of a layout in the given position.
pub open spec fn part_of(l: LayoutView, target: HangulComponent) -> Option<KeyView> {
    match target {
        HangulComponent::Cho => Some(l.cho),
        HangulComponent::Jung => Some(l.jung),
        HangulComponent::Jong => l.jong,
    }
}

/// The syllable's layout draws the jamo in the given position with the group.
pub open spec fn uses_component(
    rules: RuleSystem,
    store: Map<KeyView, Set<(i32, i32)>>,
    target: HangulComponent,
    jamo: char,
    gid: Seq<char>,
) -> spec_fn(char) -> bool {
    |c: char|
        syllable_layout(rules, store, c) matches Some(l) && part_of(l, target) matches Some(p) && p.1 == jamo
            && p.2 == gid
}

/// The syllables whose layout uses the template, in code order.
pub fn used_chars_by_template_id(engine: &LayoutEngine, store: &GlyphStore, template_id: &str) -> (r: Vec<char>)
    ensures
        r@ == syllable_list().filter(uses_template(engine.rules, store@, template_id@)),
{
    let syll = syllables();
    let ghost p = uses_template(engine.rules, store@, template_id@);
    let mut out: Vec<char> = Vec::new();
    let mut i: usize = 0;
    while i < syll.len()
        invariant
            syll@ == syllable_list(),
            p == uses_template(engine.rules, store@, template_id@),
            i <= syll@.len(),
            out@ == syll@.take(i as int).filter(p),
        decreases syll@.len() - i,
    {
        let ch = syll[i];
        let res = engine.layout_char(store, ch, decompose_hangul, get_jamo_char);
        proof {
            lemma_syllable_result(engine.rules, store@, ch, res);
            lemma_filter_step(syll@, i as int, p);
        }
        if let Some(l) = &res {
            if str_eq(l.template_id.as_str(), template_id) {
                out.push(ch);
            }
        }
        i = i + 1;
    }
    proof {
        assert(syll@.take(syll@.len() as int) =~= syll@);
    }
    out
}

/// The syllables whose layout draws some part with the group, in code order.
pub fn used_chars_using_group(engine: &LayoutEngine, store: &GlyphStore, group_id: &str) -> (r: Vec<char>)
    ensures
        r@ == syllable_list().filter(uses_group(engine.rules, store@, group_id@)),
{
    let syll = syllables();
    let ghost p = uses_group(engine.rules, store@, group_id@);
    let mut out: Vec<char> = Vec::new();
    let mut i: usize = 0;
    while i < syll.len()
        invariant
            syll@ == syllable_list(),
            p == uses_group(engine.rules, store@, group_id@),
            i <= syll@.len(),
            out@ == syll@.take(i as int).filter(p),
        decreases syll@.len() - i,
    {
        let ch = syll[i];
        let res = engine.layout_char(store, ch, decompose_hangul, get_jamo_char);
        proof {
            lemma_syllable_result(engine.rules, store@, ch, res);
            lemma_filter_step(syll@, i as int, p);
        }
        if let Some(l) = &res {
            let used = str_eq(l.cho.group_id.as_str(), group_id) || str_eq(l.jung.group_id.as_str(), group_id)
                || match &l.jong {
                Some(j) => str_eq(j.group_id.as_str(), group_id),
                None => false,
            };
            if used {
                out.push(ch);
            }
        }
        i = i + 1;
    }
    proof {
        assert(syll@.take(syll@.len() as int) =~= syll@);
    }
    out
}

/// The syllables whose layout draws the jamo in the given position with the group, in
/// code order.
pub fn used_chars_using_component(
    engine: &LayoutEngine,
    store: &GlyphStore,
    target: HangulComponent,
    jamo: char,
    group_id: &str,
) -> (r: Vec<char>)
    ensures
        r@ == syllable_list().filter(uses_component(engine.rules, store@, target, jamo, group_id@)),
{
    let syll = syllables();
    let ghost p = uses_component(engine.rules, store@, target, jamo, group_id@);
    let mut out: Vec<char> = Vec::new();
    let mut i: usize = 0;
    while i < syll.len()
        invariant
            syll@ == syllable_list(),
            p == uses_component(engine.rules, store@, target, jamo, group_id@),
            i <= syll@.len(),
            out@ == syll@.take(i as int).filter(p),
        decreases syll@.len() - i,
    {
        let ch = syll[i];
        let res = engine.layout_char(store, ch, decompose_hangul, get_jamo_char);
        proof {
            lemma_syllable_result(engine.rules, store@, ch, res);
            lemma_filter_step(syll@, i as int, p);
        }
        if let Some(l) = &res {
            let used = match target {
                HangulComponent::Cho => l.cho.placement.jamo == jamo && str_eq(l.cho.group_id.as_str(), group_id),
                HangulComponent::Jung => l.jung.placement.jamo == jamo && str_eq(
                    l.jung.group_id.as_str(),
                    group_id,
                ),
                HangulComponent::Jong => match &l.jong {
                    Some(j) => j.placement.jamo == jamo && str_eq(j.group_id.as_str(), group_id),
                    None => false,
                },
            };
            if used {
                out.push(ch);
            }
        }
        i = i + 1;
    }
    proof {
        assert(syll@.take(syll@.len() as int) =~= syll@);
    }
    out
}

} // verus!

verus! {

/// The jamo of a layout's final, if it has one.
pub open spec fn jong_jamo(l: LayoutView) -> Option<char> {
    match l.jong {
        Some(j) => Some(j.1),
        None => None,
    }
}

/// Rule `idx` of the rules changes the groups the layout's jamo get from the template's
/// defaults: the groups differ with and without it.
pub open spec fn rule_changes(rs: Seq<VariantRule>, idx: usize, l: LayoutView, defaults: (Seq<char>, Seq<char>, Seq<char>)) -> bool {
    let order = priority_order(rs, rs.len());
    apply_variants(rs, order, l.cho.1, l.jung.1, jong_jamo(l), defaults).0 != apply_variants(
        rs,
        order_without(order, Some(idx)),
        l.cho.1,
        l.jung.1,
        jong_jamo(l),
        defaults,
    ).0
}

/// The syllables whose layout uses template `t` (by id `tid`) and whose groups rule `idx`
/// of `t` changes.
pub open spec fn affected_by_rule(
    rules: RuleSystem,
    store: Map<KeyView, Set<(i32, i32)>>,
    tid: Seq<char>,
    t: Template,
    idx: usize,
) -> spec_fn(char) -> bool {
    |c: char|
        syllable_layout(rules, store, c) matches Some(l) && l.template_id == tid && rule_changes(
            t.variant_rules@,
            idx,
            l,
            crate::engine::template_ids(t),
        )
}

/// The position of the first rule with the id.
pub open spec fn rule_position(rs: Seq<VariantRule>, rid: Seq<char>) -> Option<int> {
    first_index(rs, |r: VariantRule| r.id@ == rid)
}

pub(crate) fn find_rule(rs: &Vec<VariantRule>, rid: &str) -> (r: Option<usize>)
    ensures
        match rule_position(rs@, rid@) {
            Some(i) => r == Some(i as usize),
            None => r is None,
        },
{
    let ghost f = |r: VariantRule| r.id@ == rid@;
    let mut i: usize = 0;
    while i < rs.len()
        invariant
            i <= rs@.len(),
            f == (|r: VariantRule| r.id@ == rid@),
            forall|k: int| 0 <= k < i ==> !f(#[trigger] rs@[k]),
        decreases rs@.len() - i,
    {
        if str_eq(rs[i].id.as_str(), rid) {
            proof {
                lemma_first_index_is(rs@, f, i as int);
            }
            return Some(i);
        }
        i = i + 1;
    }
    proof {
        lemma_first_index_none(rs@, f);
    }
    None
}

pub(crate) fn same_groups(a: &(String, String, String), b: &(String, String, String)) -> (r: bool)
    ensures
        r == ((a.0@, a.1@, a.2@) == (b.0@, b.1@, b.2@)),
{
    str_eq(a.0.as_str(), b.0.as_str()) && str_eq(a.1.as_str(), b.1.as_str()) && str_eq(a.2.as_str(), b.2.as_str())
}

/// The syllables whose layout uses the template and whose groups the template's variant
/// rule (the first with the id) changes, in code order; none when either is missing.
pub fn used_chars_by_variant_rule(
    engine: &LayoutEngine,
    store: &GlyphStore,
    template_id: &str,
    rule_id: &str,
) -> (r: Vec<char>)
    ensures
        match id_position(engine.rules.templates@, template_id@) {
            None => r@.len() == 0,
            Some(t) => match rule_position(engine.rules.templates@[t].variant_rules@, rule_id@) {
                None => r@.len() == 0,
                Some(k) => r@ == syllable_list().filter(
                    affected_by_rule(engine.rules, store@, template_id@, engine.rules.templates@[t], k as usize),
                ),
            },
        },
{
    let tpl = match engine.rules.find_template(template_id) {
        Some(t) => t,
        None => {
            return Vec::new();
        },
    };
    let idx = match find_rule(&tpl.variant_rules, rule_id) {
        Some(i) => i,
        None => {
            return Vec::new();
        },
    };
    let default_jong: &str = match &tpl.default_jong_group_id {
        Some(g) => g.as_str(),
        None => "",
    };
    proof {
        reveal_strlit("");
    }
    let syll = syllables();
    let ghost p = affected_by_rule(engine.rules, store@, template_id@, *tpl, idx);
    let mut out: Vec<char> = Vec::new();
    let mut i: usize = 0;
    while i < syll.len()
        invariant
            syll@ == syllable_list(),
            p == affected_by_rule(engine.rules, store@, template_id@, *tpl, idx),
            crate::engine::template_ids(*tpl) == (tpl.default_cho_group_id@, tpl.default_jung_group_id@, default_jong@),
            i <= syll@.len(),
            out@ == syll@.take(i as int).filter(p),
        decreases syll@.len() - i,
    {
        let ch = syll[i];
        let res = engine.layout_char(store, ch, decompose_hangul, get_jamo_char);
        proof {
            lemma_syllable_result(engine.rules, store@, ch, res);
            lemma_filter_step(syll@, i as int, p);
        }
        if let Some(l) = &res {
            if str_eq(l.template_id.as_str(), template_id) {
                let jong = match &l.jong {
                    Some(j) => Some(j.placement.jamo),
                    None => None,
                };
                let with_rule = sim_variant_rules(
                    &tpl.variant_rules,
                    None,
                    l.cho.placement.jamo,
                    l.jung.placement.jamo,
                    jong,
                    tpl.default_cho_group_id.as_str(),
                    tpl.default_jung_group_id.as_str(),
                    default_jong,
                );
                let without_rule = sim_variant_rules(
                    &tpl.variant_rules,
                    Some(idx),
                    l.cho.placement.jamo,
                    l.jung.placement.jamo,
                    jong,
                    tpl.default_cho_group_id.as_str(),
                    tpl.default_jung_group_id.as_str(),
                    default_jong,
                );
                if !same_groups(&with_rule, &without_rule) {
                    out.push(ch);
                }
            }
        }
        i = i + 1;
    }
    proof {
        assert(syll@.take(syll@.len() as int) =~= syll@);
    }
    out
}

} // verus!

verus! {

/// The selector accepts the jamo.
pub open spec fn sel_accepts(s: SelectorRule, cho: char, jung: char, jong: Option<char>) -> bool {
    sets_match(s.cho_set@, s.jung_set@, s.jong_set@, cho, jung, jong)
}

/// Among the first `k` selectors, the first of those with the highest priority that
/// accept the jamo.
pub open spec fn winner_upto(sels: Seq<SelectorRule>, k: int, cho: char, jung: char, jong: Option<char>) -> Option<
    int,
>
    decreases k,
{
    if k <= 0 {
        None
    } else {
        let prev = winner_upto(sels, k - 1, cho, jung, jong);
        let s = sels[k - 1];
        if sel_accepts(s, cho, jung, jong) && (prev matches Some(b) ==> s.priority > sels[b].priority) {
            Some(k - 1)
        } else {
            prev
        }
    }
}

/// The jamo a syllable decomposes into (its final `None` when it has none).
pub open spec fn jamo_of(c: char) -> (char, char, Option<char>) {
    let ix = crate::hangul::spec_decompose(c)->0;
    (
        crate::hangul::spec_jamo_char(HangulComponent::Cho, ix.0 as int),
        crate::hangul::spec_jamo_char(HangulComponent::Jung, ix.1 as int),
        if ix.2 == 0 {
            None
        } else {
            Some(crate::hangul::spec_jamo_char(HangulComponent::Jong, ix.2 as int))
        },
    )
}

/// The selector accepts the syllable, and whether a selector with id `sid` wins it is
/// `wins`.
pub open spec fn split_side(sels: Seq<SelectorRule>, sel: SelectorRule, sid: Seq<char>, wins: bool) -> spec_fn(
    char,
) -> bool {
    |c: char|
        {
            let j = jamo_of(c);
            &&& sel_accepts(sel, j.0, j.1, j.2)
            &&& (winner_upto(sels, sels.len() as int, j.0, j.1, j.2) matches Some(b) && sels[b].id@ == sid) == wins
        }
}

fn winning_selector(sels: &Vec<SelectorRule>, cho: char, jung: char, jong: Option<char>) -> (r: Option<usize>)
    ensures
        match winner_upto(sels@, sels@.len() as int, cho, jung, jong) {
            Some(b) => r matches Some(x) && x as int == b && 0 <= b < sels@.len(),
            None => r is None,
        },
{
    let mut best: Option<usize> = None;
    let mut i: usize = 0;
    while i < sels.len()
        invariant
            i <= sels@.len(),
            match winner_upto(sels@, i as int, cho, jung, jong) {
                Some(b) => best matches Some(x) && x as int == b && 0 <= b < i,
                None => best is None,
            },
        decreases sels@.len() - i,
    {
        let s = &sels[i];
        if crate::engine::jamo_sets_match(&s.cho_set, &s.jung_set, &s.jong_set, cho, jung, jong) {
            let better = match best {
                Some(b) => s.priority > sels[b].priority,
                None => true,
            };
            if better {
                best = Some(i);
            }
        }
        i = i + 1;
    }
    best
}

/// The syllables the selector (the first with the id) accepts, split into those it
/// decides (a selector with its id is the first of the highest-priority selectors that
/// accept them) and those another selector overrides, each in code order; both empty
/// when no selector has the id.
pub fn selector_char_split(rules: &RuleSystem, sel_id: &str) -> (r: (Vec<char>, Vec<char>))
    ensures
        match id_position(rules.selectors@, sel_id@) {
            None => r.0@.len() == 0 && r.1@.len() == 0,
            Some(k) => r.0@ == syllable_list().filter(split_side(rules.selectors@, rules.selectors@[k], sel_id@, true))
                && r.1@ == syllable_list().filter(
                split_side(rules.selectors@, rules.selectors@[k], sel_id@, false),
            ),
        },
{
    let sel = match rules.find_selector(sel_id) {
        Some(s) => s,
        None => {
            return (Vec::new(), Vec::new());
        },
    };
    let syll = syllables();
    let ghost pe = split_side(rules.selectors@, *sel, sel_id@, true);
    let ghost po = split_side(rules.selectors@, *sel, sel_id@, false);
    let mut effective: Vec<char> = Vec::new();
    let mut overridden: Vec<char> = Vec::new();
    let mut i: usize = 0;
    while i < syll.len()
        invariant
            syll@ == syllable_list(),
            forall|k: int| 0 <= k < syll@.len() ==> #[trigger] code_of(syll@[k]) == 0xAC00 + k,
            pe == split_side(rules.selectors@, *sel, sel_id@, true),
            po == split_side(rules.selectors@, *sel, sel_id@, false),
            i <= syll@.len(),
            effective@ == syll@.take(i as int).filter(pe),
            overridden@ == syll@.take(i as int).filter(po),
        decreases syll@.len() - i,
    {
        let ch = syll[i];
        proof {
            lemma_filter_step(syll@, i as int, pe);
            lemma_filter_step(syll@, i as int, po);
            assert(code_of(syll@[i as int]) == 0xAC00 + i);
        }
        if let Some((ci, ji, ki)) = decompose_hangul(ch) {
            let cho_ch = get_jamo_char(HangulComponent::Cho, ci);
            let jung_ch = get_jamo_char(HangulComponent::Jung, ji);
            let jong_ch = if ki != 0 {
                Some(get_jamo_char(HangulComponent::Jong, ki))
            } else {
                None
            };
            assert(jamo_of(ch) == (cho_ch, jung_ch, jong_ch));
            if crate::engine::jamo_sets_match(&sel.cho_set, &sel.jung_set, &sel.jong_set, cho_ch, jung_ch, jong_ch) {
                let ghost w = winner_upto(rules.selectors@, rules.selectors@.len() as int, cho_ch, jung_ch, jong_ch);
                let wr = winning_selector(&rules.selectors, cho_ch, jung_ch, jong_ch);
                let wins = match wr {
                    Some(b) => {
                        assert(w == Some(b as int));
                        str_eq(rules.selectors[b].id.as_str(), sel_id)
                    },
                    None => {
                        assert(w is None);
                        false
                    },
                };
                assert(sel_accepts(*sel, cho_ch, jung_ch, jong_ch));
                assert(wins == (w matches Some(b) && rules.selectors@[b].id@ == sel_id@));
                assert(pe(ch) == wins);
                assert(po(ch) == !wins);
                if wins {
                    effective.push(ch);
                } else {
                    overridden.push(ch);
                }
            } else {
                assert(!pe(ch) && !po(ch));
            }
        } else {
            assert(false);
        }
        i = i + 1;
    }
    proof {
        assert(syll@.take(syll@.len() as int) =~= syll@);
    }
    (effective, overridden)
}

} // verus!

verus! {

/// A condition's characters as a rule name shows them: "no final" as `-`.
pub open spec fn shown_chars(s: Seq<char>) -> Seq<char> {
    s.map_values(|c: char| if c == '\0' { '-' } else { c })
}

/// The name part of one condition: none for `Any`, `label[chars]` for a set of jamo,
/// `label[^chars]` for the jamo outside a set.
pub open spec fn cond_part(label: Seq<char>, c: CondView) -> Seq<Seq<char>> {
    match c {
        CondView::Any => Seq::empty(),
        CondView::Include(s) => seq![label + seq!['['] + shown_chars(s) + seq![']']],
        CondView::Exclude(s) => seq![label + seq!['[', '^'] + shown_chars(s) + seq![']']],
    }
}

/// The parts joined with `+`.
pub open spec fn joined(parts: Seq<Seq<char>>) -> Seq<char>
    decreases parts.len(),
{
    if parts.len() == 0 {
        Seq::empty()
    } else if parts.len() == 1 {
        parts[0]
    } else {
        joined(parts.drop_last()) + seq!['+'] + parts.last()
    }
}

/// A rule's automatic name: its condition parts joined with `+`, or `*` when it accepts
/// everything.
pub open spec fn auto_name(
    cho: CondView,
    jung: CondView,
    jong: CondView,
    cho_label: Seq<char>,
    jung_label: Seq<char>,
    jong_label: Seq<char>,
) -> Seq<char> {
    let parts = cond_part(cho_label, cho) + cond_part(jung_label, jung) + cond_part(jong_label, jong);
    if parts.len() == 0 {
        seq!['*']
    } else {
        joined(parts)
    }
}

fn push_part(parts: &mut Vec<String>, label: &str, cond: &CharSetCond)
    ensures
        final(parts)@.map_values(|s: String| s@) == old(parts)@.map_values(|s: String| s@) + cond_part(label@, cond@),
{
    let ghost before = parts@.map_values(|s: String| s@);
    let (set, negated) = match cond {
        CharSetCond::Any => {
            assert(parts@.map_values(|s: String| s@) =~= before + cond_part(label@, cond@));
            return;
        },
        CharSetCond::Include(s) => (s, false),
        CharSetCond::Exclude(s) => (s, true),
    };
    let mut out = String::new();
    string_push_str(&mut out, label);
    string_push(&mut out, '[');
    if negated {
        string_push(&mut out, '^');
    }
    let ghost head = out@;
    let mut i: usize = 0;
    while i < set.len()
        invariant
            i <= set@.len(),
            out@ == head + shown_chars(set@.take(i as int)),
        decreases set@.len() - i,
    {
        let c = set[i];
        string_push(&mut out, if c == '\0' { '-' } else { c });
        assert(shown_chars(set@.take(i + 1)) =~= shown_chars(set@.take(i as int)).push(
            if c == '\0' { '-' } else { c },
        ));
        i = i + 1;
    }
    string_push(&mut out, ']');
    assert(set@.take(set@.len() as int) =~= set@);
    let ghost part = out@;
    parts.push(out);
    assert(parts@.map_values(|s: String| s@) =~= before.push(part));
    assert(part =~= cond_part(label@, cond@)[0]);
    assert(parts@.map_values(|s: String| s@) =~= before + cond_part(label@, cond@));
}

/// The automatic name of a variant rule from its conditions, with a label for each
/// position: `label[chars]` for a set of jamo, `label[^chars]` for the jamo outside one
/// ("no final" shown as `-`), joined with `+`; `*` when the rule accepts everything.
pub fn variant_rule_auto_name(rule: &VariantRule, cho_label: &str, jung_label: &str, jong_label: &str) -> (r: String)
    ensures
        r@ == auto_name(rule.cho_set@, rule.jung_set@, rule.jong_set@, cho_label@, jung_label@, jong_label@),
{
    let mut parts: Vec<String> = Vec::new();
    assert(parts@.map_values(|s: String| s@) =~= Seq::<Seq<char>>::empty());
    push_part(&mut parts, cho_label, &rule.cho_set);
    push_part(&mut parts, jung_label, &rule.jung_set);
    push_part(&mut parts, jong_label, &rule.jong_set);
    let ghost ps = parts@.map_values(|s: String| s@);
    assert(ps =~= cond_part(cho_label@, rule.cho_set@) + cond_part(jung_label@, rule.jung_set@) + cond_part(
        jong_label@,
        rule.jong_set@,
    ));
    let mut out = String::new();
    if parts.len() == 0 {
        string_push(&mut out, '*');
        assert(out@ =~= seq!['*']);
        return out;
    }
    let mut i: usize = 0;
    while i < parts.len()
        invariant
            ps == parts@.map_values(|s: String| s@),
            0 < parts@.len(),
            i <= parts@.len(),
            out@ == joined(ps.take(i as int)),
        decreases parts@.len() - i,
    {
        if i > 0 {
            string_push(&mut out, '+');
        }
        string_push_str(&mut out, parts[i].as_str());
        proof {
            assert(ps.take(i + 1).drop_last() =~= ps.take(i as int));
            assert(ps[i as int] == parts@[i as int]@);
            if i == 0 {
                assert(ps.take(0) =~= Seq::<Seq<char>>::empty());
                assert(out@ =~= ps.take(1)[0]);
            }
        }
        i = i + 1;
    }
    assert(ps.take(ps.len() as int) =~= ps);
    out
}

} // verus!

verus! {

/// How the syllable browser filters by final.
#[derive(Clone, Debug, PartialEq, Eq)]
pub enum JongGroupFilter {
    /// Any final or none.
    Any,
    /// Only syllables without a final.
    NoJong,
    /// Only syllables whose final is drawn with the group.
    Group(String),
}

impl Default for JongGroupFilter {
    fn default() -> (r: Self)
        ensures
            r is Any,
    {
        JongGroupFilter::Any
    }
}

/// The syllable has no final.
pub open spec fn without_final(c: char) -> bool {
    (code_of(c) - 0xAC00) % 28 == 0
}

/// The optional id is absent or equals `id`.
pub open spec fn id_ok(want: Option<String>, id: Seq<char>) -> bool {
    match want {
        Some(w) => w@ == id,
        None => true,
    }
}

/// The syllable's layout passes the browser's filters: template, initial group, medial
/// group and final filter.
pub open spec fn browser_pass(
    rules: RuleSystem,
    store: Map<KeyView, Set<(i32, i32)>>,
    template_id: Option<String>,
    cho_group_id: Option<String>,
    jung_group_id: Option<String>,
    jong: JongGroupFilter,
) -> spec_fn(char) -> bool {
    |c: char|
        syllable_layout(rules, store, c) matches Some(l) && id_ok(template_id, l.template_id) && id_ok(
            cho_group_id,
            l.cho.2,
        ) && id_ok(jung_group_id, l.jung.2) && match jong {
            JongGroupFilter::Any => true,
            JongGroupFilter::NoJong => without_final(c),
            JongGroupFilter::Group(g) => l.jong matches Some(j) && j.2 == g@,
        }
}

/// A filtered list holds a character exactly when the list does and the character passes.
proof fn lemma_filter_has(s: Seq<char>, p: spec_fn(char) -> bool, c: char)
    ensures
        s.filter(p).contains(c) <==> s.contains(c) && p(c),
{
    if s.filter(p).contains(c) {
        s.lemma_filter_contains_rev(p, c);
        let k = choose|k: int| 0 <= k < s.filter(p).len() && s.filter(p)[k] == c;
        s.lemma_filter_pred(p, k);
    }
    if s.contains(c) && p(c) {
        let i = choose|i: int| 0 <= i < s.len() && s[i] == c;
        s.lemma_filter_contains(p, i);
    }
}

/// The initial-group filter: setting it to a group keeps, of the syllables listed without
/// it (the other filters alike), exactly those whose layout draws the initial with that
/// group; with no other filter set, those are all syllables whose initial it draws.
pub proof fn lemma_initial_group_filter(
    rules: RuleSystem,
    store: Map<KeyView, Set<(i32, i32)>>,
    template_id: Option<String>,
    g: String,
    jung_group_id: Option<String>,
    jong: JongGroupFilter,
    c: char,
)
    ensures
        syllable_list().filter(browser_pass(rules, store, template_id, Some(g), jung_group_id, jong)).contains(c)
            <==> (syllable_list().filter(browser_pass(rules, store, template_id, None, jung_group_id, jong)).contains(
            c,
        ) && (syllable_layout(rules, store, c) matches Some(l) && l.cho.2 == g@)),
        syllable_list().filter(browser_pass(rules, store, None, Some(g), None, JongGroupFilter::Any)).contains(c)
            <==> (syllable_list().contains(c) && (syllable_layout(rules, store, c) matches Some(l) && l.cho.2
            == g@)),
{
    let s = syllable_list();
    lemma_filter_has(s, browser_pass(rules, store, template_id, Some(g), jung_group_id, jong), c);
    lemma_filter_has(s, browser_pass(rules, store, template_id, None, jung_group_id, jong), c);
    lemma_filter_has(s, browser_pass(rules, store, None, Some(g), None, JongGroupFilter::Any), c);
}

/// The medial-group filter: setting it to a group keeps, of the syllables listed without
/// it (the other filters alike), exactly those whose layout draws the medial with that group.
pub proof fn lemma_medial_group_filter(
    rules: RuleSystem,
    store: Map<KeyView, Set<(i32, i32)>>,
    template_id: Option<String>,
    cho_group_id: Option<String>,
    g: String,
    jong: JongGroupFilter,
    c: char,
)
    ensures
        syllable_list().filter(browser_pass(rules, store, template_id, cho_group_id, Some(g), jong)).contains(c)
            <==> (syllable_list().filter(browser_pass(rules, store, template_id, cho_group_id, None, jong)).contains(
            c,
        ) && (syllable_layout(rules, store, c) matches Some(l) && l.jung.2 == g@)),
{
    let s = syllable_list();
    lemma_filter_has(s, browser_pass(rules, store, template_id, cho_group_id, Some(g), jong), c);
    lemma_filter_has(s, browser_pass(rules, store, template_id, cho_group_id, None, jong), c);
}

/// The template filter: setting it to a template keeps, of the syllables listed without it
/// (the other filters alike), exactly those laid out with that template.
pub proof fn lemma_template_filter(
    rules: RuleSystem,
    store: Map<KeyView, Set<(i32, i32)>>,
    t: String,
    cho_group_id: Option<String>,
    jung_group_id: Option<String>,
    jong: JongGroupFilter,
    c: char,
)
    ensures
        syllable_list().filter(browser_pass(rules, store, Some(t), cho_group_id, jung_group_id, jong)).contains(c)
            <==> (syllable_list().filter(browser_pass(rules, store, None, cho_group_id, jung_group_id, jong)).contains(
            c,
        ) && (syllable_layout(rules, store, c) matches Some(l) && l.template_id == t@)),
{
    let s = syllable_list();
    lemma_filter_has(s, browser_pass(rules, store, Some(t), cho_group_id, jung_group_id, jong), c);
    lemma_filter_has(s, browser_pass(rules, store, None, cho_group_id, jung_group_id, jong), c);
}

/// The final filters: "no final" keeps, of the syllables listed with any final, exactly
/// those without a final; a final group keeps exactly those whose layout draws a final
/// with that group.
pub proof fn lemma_final_filters(
    rules: RuleSystem,
    store: Map<KeyView, Set<(i32, i32)>>,
    template_id: Option<String>,
    cho_group_id: Option<String>,
    jung_group_id: Option<String>,
    g: String,
    c: char,
)
    ensures
        syllable_list().filter(
            browser_pass(rules, store, template_id, cho_group_id, jung_group_id, JongGroupFilter::NoJong),
        ).contains(c) <==> (syllable_list().filter(
            browser_pass(rules, store, template_id, cho_group_id, jung_group_id, JongGroupFilter::Any),
        ).contains(c) && without_final(c)),
        syllable_list().filter(
            browser_pass(rules, store, template_id, cho_group_id, jung_group_id, JongGroupFilter::Group(g)),
        ).contains(c) <==> (syllable_list().filter(
            browser_pass(rules, store, template_id, cho_group_id, jung_group_id, JongGroupFilter::Any),
        ).contains(c) && (syllable_layout(rules, store, c) matches Some(l) && l.jong matches Some(p) && p.2
            == g@)),
{
    let s = syllable_list();
    lemma_filter_has(s, browser_pass(rules, store, template_id, cho_group_id, jung_group_id, JongGroupFilter::NoJong), c);
    lemma_filter_has(s, browser_pass(rules, store, template_id, cho_group_id, jung_group_id, JongGroupFilter::Group(g)), c);
    lemma_filter_has(s, browser_pass(rules, store, template_id, cho_group_id, jung_group_id, JongGroupFilter::Any), c);
}

fn opt_id_ok(want: &Option<String>, id: &String) -> (r: bool)
    ensures
        r == id_ok(*want, id@),
{
    match want {
        Some(w) => str_eq(w.as_str(), id.as_str()),
        None => true,
    }
}

/// The syllables the browser lists, in code order: with only the "no final" filter set,
/// every syllable without a final; otherwise the syllables whose layout passes every
/// filter that is set.
pub fn build_filtered_hangul_list(
    engine: &LayoutEngine,
    store: &GlyphStore,
    template_id: &Option<String>,
    cho_group_id: &Option<String>,
    jung_group_id: &Option<String>,
    jong_group_id: &JongGroupFilter,
) -> (r: Vec<char>)
    ensures
        r@ == if template_id is None && cho_group_id is None && jung_group_id is None && *jong_group_id
            is NoJong {
            syllable_list().filter(|c: char| without_final(c))
        } else {
            syllable_list().filter(
                browser_pass(engine.rules, store@, *template_id, *cho_group_id, *jung_group_id, *jong_group_id),
            )
        },
        cho_group_id matches Some(g) ==> forall|k: int|
            0 <= k < r@.len() ==> (syllable_layout(engine.rules, store@, #[trigger] r@[k]) matches Some(l)
                && l.cho.2 == g@),
{
    let syll = syllables();
    let fast = template_id.is_none() && cho_group_id.is_none() && jung_group_id.is_none() && match jong_group_id {
        JongGroupFilter::NoJong => true,
        _ => false,
    };
    let ghost p = if fast {
        |c: char| without_final(c)
    } else {
        browser_pass(engine.rules, store@, *template_id, *cho_group_id, *jung_group_id, *jong_group_id)
    };
    let mut out: Vec<char> = Vec::new();
    let mut i: usize = 0;
    while i < syll.len()
        invariant
            syll@ == syllable_list(),
            forall|k: int| 0 <= k < syll@.len() ==> #[trigger] code_of(syll@[k]) == 0xAC00 + k,
            p == if fast {
                |c: char| without_final(c)
            } else {
                browser_pass(engine.rules, store@, *template_id, *cho_group_id, *jung_group_id, *jong_group_id)
            },
            i <= syll@.len(),
            out@ == syll@.take(i as int).filter(p),
        decreases syll@.len() - i,
    {
        let ch = syll[i];
        proof {
            lemma_filter_step(syll@, i as int, p);
            assert(code_of(syll@[i as int]) == 0xAC00 + i);
        }
        let no_final = ((ch as u32) - 0xAC00) % 28 == 0;
        assert(no_final == without_final(ch));
        if fast {
            if no_final {
                out.push(ch);
            }
        } else {
            let res = engine.layout_char(store, ch, decompose_hangul, get_jamo_char);
            proof {
                lemma_syllable_result(engine.rules, store@, ch, res);
            }
            if let Some(l) = &res {
                let keep = opt_id_ok(template_id, &l.template_id) && opt_id_ok(cho_group_id, &l.cho.group_id)
                    && opt_id_ok(jung_group_id, &l.jung.group_id) && match jong_group_id {
                    JongGroupFilter::Any => true,
                    JongGroupFilter::NoJong => no_final,
                    JongGroupFilter::Group(g) => match &l.jong {
                        Some(j) => str_eq(j.group_id.as_str(), g.as_str()),
                        None => false,
                    },
                };
                if keep {
                    out.push(ch);
                }
            }
        }
        i = i + 1;
    }
    proof {
        assert(syll@.take(syll@.len() as int) =~= syll@);
        if let Some(g) = cho_group_id {
            assert forall|k: int| 0 <= k < out@.len() implies (syllable_layout(
                engine.rules,
                store@,
                #[trigger] out@[k],
            ) matches Some(l) && l.cho.2 == g@) by {
                syll@.lemma_filter_pred(p, k);
            }
        }
    }
    out
}

} // verus!
