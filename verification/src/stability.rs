use vstd::prelude::*;

use crate::charset::sorted_chars;
use crate::compact::{
    compact_rule, compact_template, compacted, group_ids, remap_id, remap_key, rule_ids, selector_ids, template_ids,
};
use crate::glyph::{GlyphStore, KeyView};
use crate::groups::ComponentGroup;
use crate::project::{
    added_members, allowed_chars, bases_sanitized, first_of_target, fix_rule, fix_template,
    glyphs_sanitized, ids_has, ids_of, in_allowed, keep_glyph, last_group, member_missing, members_sanitized,
    sanitize_result, selectors_sanitized, templates_sanitized, used_keys,
};
use crate::project::{
    from_file_result, load_result, on_canvas, save_result, ProjectData, ProjectFile,
};
use crate::rule_system::{group_ids_distinct, has_group, has_template, seq_id, RuleSystem};
use crate::rules::{TemplateView, VariantView};
use crate::seqs::{
    first_index, last_index, lemma_first_index_none, lemma_first_index_props, lemma_last_index_is,
    lemma_last_index_props,
};
use crate::types::HangulComponent;

verus! {

/// A group reference names a group or is the base group it would be sent to.
pub open spec fn ref_settled(x: Seq<char>, gs: Seq<ComponentGroup>, base: Seq<char>) -> bool {
    has_group(gs, x) || x == base
}

/// An optional group reference is absent or settled.
pub open spec fn opt_settled(o: Option<Seq<char>>, gs: Seq<ComponentGroup>, base: Seq<char>) -> bool {
    match o {
        Some(x) => ref_settled(x, gs, base),
        None => true,
    }
}

/// Every group reference of the variant rule is settled.
pub open spec fn rule_settled(r: VariantView, gs: Seq<ComponentGroup>, b: (Seq<char>, Seq<char>, Seq<char>)) -> bool {
    opt_settled(r.set_cho, gs, b.0) && opt_settled(r.set_jung, gs, b.1) && opt_settled(r.set_jong, gs, b.2)
}

/// Every group reference of the template and of its variant rules is settled.
pub open spec fn template_settled(t: TemplateView, gs: Seq<ComponentGroup>, b: (Seq<char>, Seq<char>, Seq<char>)) -> bool {
    &&& ref_settled(t.default_cho, gs, b.0)
    &&& ref_settled(t.default_jung, gs, b.1)
    &&& opt_settled(t.default_jong, gs, b.2)
    &&& forall|j: int| 0 <= j < t.variant_rules.len() ==> rule_settled(#[trigger] t.variant_rules[j], gs, b)
}

/// A base group id names a group, or no group of its component exists to replace it.
pub open spec fn base_settled(b: Seq<char>, gs: Seq<ComponentGroup>, t: HangulComponent) -> bool {
    has_group(gs, b) || first_of_target(gs, t) is None
}

/// A glyph's group exists (the last with its id), is of the glyph's component, may hold
/// the glyph's jamo and holds it.
pub open spec fn glyph_settled(gs: Seq<ComponentGroup>, ext: bool, k: KeyView) -> bool {
    match last_group(gs, k.2) {
        Some(i) => k.0 == gs[i].target && allowed_chars(gs[i].target, ext).contains(k.1)
            && gs[i].members@.contains(k.1),
        None => false,
    }
}

/// Rules that checking leaves as they are: distinct group ids, members in increasing order
/// and allowed, settled base ids and references, and selectors naming templates (when there
/// are any).
pub open spec fn rules_settled(r: RuleSystem, ext: bool) -> bool {
    let gs = r.groups@;
    let b = (r.base_cho_group_id@, r.base_jung_group_id@, r.base_jong_group_id@);
    &&& group_ids_distinct(gs)
    &&& forall|i: int| 0 <= i < gs.len() ==> sorted_chars(#[trigger] gs[i].members@)
    &&& forall|i: int, c: char|
        #![trigger gs[i].members@.contains(c)]
        0 <= i < gs.len() && gs[i].members@.contains(c) ==> allowed_chars(gs[i].target, ext).contains(c)
    &&& base_settled(b.0, gs, HangulComponent::Cho)
    &&& base_settled(b.1, gs, HangulComponent::Jung)
    &&& base_settled(b.2, gs, HangulComponent::Jong)
    &&& forall|i: int| 0 <= i < r.templates@.len() ==> template_settled(#[trigger] r.templates@[i]@, gs, b)
    &&& r.templates@.len() == 0 || forall|i: int|
        0 <= i < r.selectors@.len() ==> has_template(r.templates@, #[trigger] r.selectors@[i].template_id@)
}

/// Rules and glyphs that checking leaves as they are: settled rules, and every glyph
/// settled in its group.
pub open spec fn settled(r: RuleSystem, store: Map<KeyView, Set<(i32, i32)>>, ext: bool) -> bool {
    &&& rules_settled(r, ext)
    &&& forall|k: KeyView| #[trigger] store.contains_key(k) ==> glyph_settled(r.groups@, ext, k)
}

/// Filtering a sequence by a predicate that all its elements meet keeps it whole.
proof fn lemma_filter_all(s: Seq<char>, f: spec_fn(char) -> bool)
    requires
        forall|i: int| 0 <= i < s.len() ==> f(#[trigger] s[i]),
    ensures
        s.filter(f) == s,
    decreases s.len(),
{
    reveal_with_fuel(Seq::<_>::filter, 1);
    if s.len() > 0 {
        lemma_filter_all(s.drop_last(), f);
        assert(s.drop_last().push(s.last()) =~= s);
    }
}

/// With distinct ids, the last group with an id is the one position holding it.
proof fn lemma_last_group_at(gs: Seq<ComponentGroup>, i: int)
    requires
        group_ids_distinct(gs),
        0 <= i < gs.len(),
    ensures
        last_group(gs, gs[i].id@) == Some(i),
{
    let p = crate::idlist::has_id::<ComponentGroup>(gs[i].id@);
    assert forall|j: int| i < j < gs.len() implies !p(gs[j]) by {
        assert(gs[i].id@ != gs[j].id@);
    }
    lemma_last_index_is(gs, p, i);
}

/// Groups that agree position by position on their ids agree on the last group with an
/// id.
proof fn lemma_last_group_same(a: Seq<ComponentGroup>, b: Seq<ComponentGroup>, gid: Seq<char>)
    requires
        a.len() == b.len(),
        forall|i: int| 0 <= i < a.len() ==> (#[trigger] a[i]).id@ == b[i].id@,
    ensures
        last_group(a, gid) == last_group(b, gid),
{
    let p = crate::idlist::has_id::<ComponentGroup>(gid);
    lemma_last_index_props(a, p);
    lemma_last_index_props(b, p);
    match last_group(a, gid) {
        Some(i) => {
            assert forall|j: int| i < j < b.len() implies !p(b[j]) by {
                assert(!p(a[j]));
            }
            assert(p(b[i]));
            lemma_last_index_is(b, p, i);
        },
        None => {
            match last_group(b, gid) {
                Some(j) => {
                    assert(p(a[j]));
                },
                None => {},
            }
        },
    }
}

/// Groups that agree position by position on their components agree on the first group of
/// a component.
proof fn lemma_first_target_same(a: Seq<ComponentGroup>, b: Seq<ComponentGroup>, t: HangulComponent)
    requires
        a.len() == b.len(),
        forall|i: int| 0 <= i < a.len() ==> (#[trigger] a[i]).target == b[i].target,
    ensures
        first_of_target(a, t) == first_of_target(b, t),
{
    let p = |g: ComponentGroup| g.target == t;
    lemma_first_index_props(a, p);
    lemma_first_index_props(b, p);
    match first_of_target(a, t) {
        Some(i) => {
            assert forall|j: int| 0 <= j < i implies !p(b[j]) by {
                assert(!p(a[j]));
            }
            assert(p(b[i]));
            crate::seqs::lemma_first_index_is(b, p, i);
        },
        None => {
            match first_of_target(b, t) {
                Some(j) => {
                    assert(p(a[j]));
                },
                None => {},
            }
        },
    }
}

/// Groups that agree position by position on their ids agree on which ids name a group.
proof fn lemma_has_group_same(a: Seq<ComponentGroup>, b: Seq<ComponentGroup>)
    requires
        a.len() == b.len(),
        forall|i: int| 0 <= i < a.len() ==> (#[trigger] a[i]).id@ == b[i].id@,
    ensures
        forall|x: Seq<char>| has_group(a, x) == has_group(b, x),
{
    assert forall|x: Seq<char>| has_group(a, x) == has_group(b, x) by {
        if has_group(a, x) {
            let i = choose|i: int| 0 <= i < a.len() && #[trigger] a[i].id@ == x;
            assert(b[i].id@ == x);
        }
        if has_group(b, x) {
            let i = choose|i: int| 0 <= i < b.len() && #[trigger] b[i].id@ == x;
            assert(a[i].id@ == x);
        }
    }
}

/// The id list of the groups tells the same as the groups which ids name a group.
proof fn lemma_ids_has(ids: Seq<String>, gs: Seq<ComponentGroup>)
    requires
        ids_of(ids, gs),
    ensures
        forall|x: Seq<char>| ids_has(ids, x) == has_group(gs, x),
{
    assert forall|x: Seq<char>| ids_has(ids, x) == has_group(gs, x) by {
        if ids_has(ids, x) {
            let i = choose|i: int| 0 <= i < ids.len() && #[trigger] ids[i]@ == x;
            assert(gs[i].id@ == x);
        }
        if has_group(gs, x) {
            let i = choose|i: int| 0 <= i < gs.len() && #[trigger] gs[i].id@ == x;
            assert(ids[i]@ == x);
        }
    }
}

/// Checking the members of settled rules changes nothing.
proof fn lemma_members_stable(a: RuleSystem, b: RuleSystem, st: Map<KeyView, Set<(i32, i32)>>, ext: bool)
    requires
        settled(a, st, ext),
        members_sanitized(a, b, ext),
    ensures
        b@ == a@,
{
    let gs = a.groups@;
    assert forall|i: int| 0 <= i < gs.len() implies #[trigger] b.groups@[i]@ == gs[i]@ by {
        let m = gs[i].members@;
        let f = in_allowed(gs[i].target, ext);
        assert forall|k: int| 0 <= k < m.len() implies f(#[trigger] m[k]) by {
            assert(gs[i].members@.contains(m[k]));
        }
        lemma_filter_all(m, f);
    }
    assert(b@.groups =~= a@.groups);
}

/// Checking the base group ids of settled rules changes nothing.
proof fn lemma_bases_stable(
    a: RuleSystem,
    b: RuleSystem,
    ids: Seq<String>,
    st: Map<KeyView, Set<(i32, i32)>>,
    ext: bool,
)
    requires
        settled(a, st, ext),
        ids_of(ids, a.groups@),
        bases_sanitized(a, b, ids),
    ensures
        b@ == a@,
{
    lemma_ids_has(ids, a.groups@);
}

/// Checking the template references of settled rules changes nothing.
proof fn lemma_templates_stable(
    a: RuleSystem,
    b: RuleSystem,
    ids: Seq<String>,
    st: Map<KeyView, Set<(i32, i32)>>,
    ext: bool,
)
    requires
        settled(a, st, ext),
        ids_of(ids, a.groups@),
        templates_sanitized(a, b, ids),
    ensures
        b@ == a@,
{
    let gs = a.groups@;
    let bs = (a.base_cho_group_id@, a.base_jung_group_id@, a.base_jong_group_id@);
    lemma_ids_has(ids, gs);
    assert forall|i: int| 0 <= i < a.templates@.len() implies #[trigger] b.templates@[i]@ == a.templates@[i]@ by {
        let t = a.templates@[i]@;
        assert(template_settled(t, gs, bs));
        let f = fix_template(t, ids, bs);
        assert forall|j: int| 0 <= j < t.variant_rules.len() implies #[trigger] f.variant_rules[j]
            == t.variant_rules[j] by {
            assert(rule_settled(t.variant_rules[j], gs, bs));
        }
        assert(f.variant_rules =~= t.variant_rules);
    }
    assert(b@.templates =~= a@.templates);
}

/// Checking the selector references of settled rules changes nothing.
proof fn lemma_selectors_stable(a: RuleSystem, b: RuleSystem, st: Map<KeyView, Set<(i32, i32)>>, ext: bool)
    requires
        settled(a, st, ext),
        selectors_sanitized(a, b),
    ensures
        b@ == a@,
{
    assert forall|i: int| 0 <= i < a.selectors@.len() implies #[trigger] b.selectors@[i]@ == a.selectors@[i]@ by {
        if a.templates@.len() > 0 {
            assert(has_template(a.templates@, a.selectors@[i].template_id@));
        }
    }
    assert(b@.selectors =~= a@.selectors);
}

/// Checking the glyphs of settled rules and store changes neither.
proof fn lemma_glyphs_stable(a: RuleSystem, s: GlyphStore, b: RuleSystem, t: GlyphStore, ext: bool)
    requires
        settled(a, s@, ext),
        glyphs_sanitized(s, a, t, b, ext),
    ensures
        b@ == a@,
        t@ == s@,
{
    let gs = a.groups@;
    let used = used_keys(a, s@, 11172);
    assert forall|k: KeyView| #[trigger] s@.contains_key(k) implies keep_glyph(gs, used, ext, k) && !member_missing(
        gs,
        used,
        ext,
        k,
    ) by {
        assert(glyph_settled(gs, ext, k));
    }
    assert(t@ =~= s@);
    assert forall|i: int| 0 <= i < gs.len() implies #[trigger] b.groups@[i]@ == gs[i]@ by {
        let add = added_members(gs, s@.dom(), used, ext, i);
        assert(add =~= Set::empty()) by {
            assert forall|c: char| !add.contains(c) by {
                if add.contains(c) {
                    let k = choose|k: KeyView|
                        #[trigger] s@.dom().contains(k) && member_missing(gs, used, ext, k) && k.1 == c
                            && crate::idlist::id_position(gs, k.2) == Some(i);
                    assert(s@.contains_key(k));
                }
            }
        }
        assert(b.groups@[i].members@.to_set() =~= gs[i].members@.to_set());
        crate::charset::lemma_sorted_same_set(b.groups@[i].members@, gs[i].members@);
    }
    assert(b@.groups =~= a@.groups);
}

/// Rules with one view have groups, templates and selectors of the same views.
proof fn lemma_same_view_parts(a: RuleSystem, b: RuleSystem)
    requires
        a@ == b@,
    ensures
        a.groups@.len() == b.groups@.len(),
        forall|i: int| 0 <= i < a.groups@.len() ==> (#[trigger] a.groups@[i])@ == b.groups@[i]@,
        a.templates@.len() == b.templates@.len(),
        forall|i: int| 0 <= i < a.templates@.len() ==> (#[trigger] a.templates@[i])@ == b.templates@[i]@,
        a.selectors@.len() == b.selectors@.len(),
        forall|i: int| 0 <= i < a.selectors@.len() ==> (#[trigger] a.selectors@[i])@ == b.selectors@[i]@,
        a.base_cho_group_id@ == b.base_cho_group_id@,
        a.base_jung_group_id@ == b.base_jung_group_id@,
        a.base_jong_group_id@ == b.base_jong_group_id@,
{
    assert(a.groups@.len() == a@.groups.len());
    assert(b.groups@.len() == b@.groups.len());
    assert forall|i: int| 0 <= i < a.groups@.len() implies (#[trigger] a.groups@[i])@ == b.groups@[i]@ by {
        assert(a@.groups[i] == a.groups@[i]@);
        assert(b@.groups[i] == b.groups@[i]@);
    }
    assert(a.templates@.len() == a@.templates.len());
    assert(b.templates@.len() == b@.templates.len());
    assert forall|i: int| 0 <= i < a.templates@.len() implies (#[trigger] a.templates@[i])@ == b.templates@[i]@ by {
        assert(a@.templates[i] == a.templates@[i]@);
        assert(b@.templates[i] == b.templates@[i]@);
    }
    assert(a.selectors@.len() == a@.selectors.len());
    assert(b.selectors@.len() == b@.selectors.len());
    assert forall|i: int| 0 <= i < a.selectors@.len() implies (#[trigger] a.selectors@[i])@ == b.selectors@[i]@ by {
        assert(a@.selectors[i] == a.selectors@[i]@);
        assert(b@.selectors[i] == b.selectors@[i]@);
    }
}

/// Groups of one view per position agree on ids, components and members.
proof fn lemma_same_group_views(ga: Seq<ComponentGroup>, gb: Seq<ComponentGroup>)
    requires
        ga.len() == gb.len(),
        forall|i: int| 0 <= i < ga.len() ==> (#[trigger] ga[i])@ == gb[i]@,
    ensures
        forall|i: int| 0 <= i < ga.len() ==> (#[trigger] ga[i]).id@ == gb[i].id@,
        forall|i: int| 0 <= i < ga.len() ==> (#[trigger] ga[i]).target == gb[i].target,
        forall|i: int| 0 <= i < ga.len() ==> (#[trigger] gb[i]).members@ == ga[i].members@,
{
    assert forall|i: int| 0 <= i < ga.len() implies (#[trigger] gb[i]).members@ == ga[i].members@ by {
        assert(ga[i]@ == gb[i]@);
    }
}

/// Settledness of the groups alone carries over to groups of the same views.
proof fn lemma_groups_settled_view(ga: Seq<ComponentGroup>, gb: Seq<ComponentGroup>, ext: bool)
    requires
        ga.len() == gb.len(),
        forall|i: int| 0 <= i < ga.len() ==> (#[trigger] ga[i])@ == gb[i]@,
        group_ids_distinct(ga),
        forall|i: int| 0 <= i < ga.len() ==> sorted_chars(#[trigger] ga[i].members@),
        forall|i: int, c: char|
            #![trigger ga[i].members@.contains(c)]
            0 <= i < ga.len() && ga[i].members@.contains(c) ==> allowed_chars(ga[i].target, ext).contains(c),
    ensures
        group_ids_distinct(gb),
        forall|i: int| 0 <= i < gb.len() ==> sorted_chars(#[trigger] gb[i].members@),
        forall|i: int, c: char|
            #![trigger gb[i].members@.contains(c)]
            0 <= i < gb.len() && gb[i].members@.contains(c) ==> allowed_chars(gb[i].target, ext).contains(c),
{
    lemma_same_group_views(ga, gb);
    assert forall|i: int, j: int| 0 <= i < gb.len() && 0 <= j < gb.len() && i != j implies #[trigger] gb[i].id@
        != #[trigger] gb[j].id@ by {
        assert(ga[i].id@ != ga[j].id@);
    }
    assert forall|i: int| 0 <= i < gb.len() implies sorted_chars(#[trigger] gb[i].members@) by {
        assert(sorted_chars(ga[i].members@));
    }
    assert forall|i: int, c: char| 0 <= i < gb.len() && #[trigger] gb[i].members@.contains(c) implies allowed_chars(
        gb[i].target,
        ext,
    ).contains(c) by {
        assert(ga[i].members@.contains(c));
    }
}

/// Settledness is a property of the rules' view.
#[verifier::spinoff_prover]
#[verifier::rlimit(40)]
proof fn lemma_settled_view(a: RuleSystem, b: RuleSystem, st: Map<KeyView, Set<(i32, i32)>>, ext: bool)
    requires
        settled(a, st, ext),
        a@ == b@,
    ensures
        settled(b, st, ext),
{
    lemma_same_view_parts(a, b);
    let ga = a.groups@;
    let gb = b.groups@;
    let ta = a.templates@;
    let tb = b.templates@;
    let ba = (a.base_cho_group_id@, a.base_jung_group_id@, a.base_jong_group_id@);
    lemma_groups_settled_view(ga, gb, ext);
    lemma_same_group_views(ga, gb);
    lemma_has_group_same(ga, gb);
    lemma_first_target_same(ga, gb, HangulComponent::Cho);
    lemma_first_target_same(ga, gb, HangulComponent::Jung);
    lemma_first_target_same(ga, gb, HangulComponent::Jong);
    assert forall|x: Seq<char>| has_template(ta, x) == has_template(tb, x) by {
        if has_template(ta, x) {
            let i = choose|i: int| 0 <= i < ta.len() && #[trigger] ta[i].id@ == x;
            assert(tb[i]@ == ta[i]@);
        }
        if has_template(tb, x) {
            let i = choose|i: int| 0 <= i < tb.len() && #[trigger] tb[i].id@ == x;
            assert(tb[i]@ == ta[i]@);
        }
    }
    assert forall|i: int| 0 <= i < b.selectors@.len() implies has_template(
        tb,
        #[trigger] b.selectors@[i].template_id@,
    ) || tb.len() == 0 by {
        assert(a.selectors@[i]@ == b.selectors@[i]@);
        if ta.len() > 0 {
            assert(has_template(ta, a.selectors@[i].template_id@));
        }
    }
    assert forall|k: KeyView| #[trigger] st.contains_key(k) implies glyph_settled(gb, ext, k) by {
        assert(glyph_settled(ga, ext, k));
        lemma_last_group_same(ga, gb, k.2);
    }
    assert forall|i: int| 0 <= i < tb.len() implies template_settled(#[trigger] tb[i]@, gb, ba) by {
        assert(ta[i]@ == tb[i]@);
        assert(template_settled(ta[i]@, ga, ba));
    }
}

/// Sanitizing leaves rules and glyphs that are already settled as they are.
pub proof fn lemma_sanitize_keeps_settled(
    r: RuleSystem,
    s: GlyphStore,
    ext: bool,
    rb: RuleSystem,
    sb: GlyphStore,
)
    requires
        settled(r, s@, ext),
        sanitize_result(r, s, ext, rb, sb),
    ensures
        rb@ == r@,
        sb@ == s@,
{
    let (r1, ids, r2, r3, r4) = choose|r1: RuleSystem, ids: Seq<String>, r2: RuleSystem, r3: RuleSystem, r4: RuleSystem|
        #![trigger members_sanitized(r, r1, ext), bases_sanitized(r1, r2, ids), templates_sanitized(r2, r3, ids), selectors_sanitized(r3, r4)]
        members_sanitized(r, r1, ext) && ids_of(ids, r1.groups@) && bases_sanitized(r1, r2, ids)
            && templates_sanitized(r2, r3, ids) && selectors_sanitized(r3, r4) && glyphs_sanitized(s, r4, sb, rb, ext);
    lemma_members_stable(r, r1, s@, ext);
    lemma_settled_view(r, r1, s@, ext);
    lemma_bases_stable(r1, r2, ids, s@, ext);
    lemma_settled_view(r1, r2, s@, ext);
    assert(r2.groups == r1.groups);
    lemma_templates_stable(r2, r3, ids, s@, ext);
    lemma_settled_view(r2, r3, s@, ext);
    lemma_selectors_stable(r3, r4, s@, ext);
    lemma_settled_view(r3, r4, s@, ext);
    lemma_glyphs_stable(r4, s, rb, sb, ext);
}

/// With distinct ids, the first group with an id is the one position holding it.
proof fn lemma_first_group_at(gs: Seq<ComponentGroup>, i: int)
    requires
        group_ids_distinct(gs),
        0 <= i < gs.len(),
    ensures
        crate::idlist::id_position(gs, gs[i].id@) == Some(i),
{
    let p = crate::idlist::has_id::<ComponentGroup>(gs[i].id@);
    assert forall|j: int| 0 <= j < i implies !p(gs[j]) by {
        assert(gs[i].id@ != gs[j].id@);
    }
    crate::seqs::lemma_first_index_is(gs, p, i);
}

/// Checking the members leaves distinct ids distinct, and every group's members in
/// increasing order and allowed.
proof fn lemma_members_settle(a: RuleSystem, b: RuleSystem, ext: bool)
    requires
        group_ids_distinct(a.groups@),
        forall|i: int| 0 <= i < a.groups@.len() ==> sorted_chars(#[trigger] a.groups@[i].members@),
        members_sanitized(a, b, ext),
    ensures
        group_ids_distinct(b.groups@),
        forall|i: int| 0 <= i < b.groups@.len() ==> sorted_chars(#[trigger] b.groups@[i].members@),
        forall|i: int, c: char|
            #![trigger b.groups@[i].members@.contains(c)]
            0 <= i < b.groups@.len() && b.groups@[i].members@.contains(c) ==> allowed_chars(
                b.groups@[i].target,
                ext,
            ).contains(c),
        forall|i: int| 0 <= i < b.groups@.len() ==> (#[trigger] b.groups@[i]).id == a.groups@[i].id
            && b.groups@[i].target == a.groups@[i].target,
{
    let ga = a.groups@;
    let gb = b.groups@;
    assert forall|i: int| 0 <= i < gb.len() implies (#[trigger] gb[i]).id == ga[i].id && gb[i].target
        == ga[i].target by {
        assert(gb[i] == (ComponentGroup { members: gb[i].members, ..ga[i] }));
    }
    assert forall|i: int, j: int| 0 <= i < gb.len() && 0 <= j < gb.len() && i != j implies #[trigger] gb[i].id@
        != #[trigger] gb[j].id@ by {
        assert(ga[i].id@ != ga[j].id@);
    }
    assert forall|i: int| 0 <= i < gb.len() implies sorted_chars(#[trigger] gb[i].members@) by {
        crate::charset::lemma_filter_sorted(ga[i].members@, in_allowed(ga[i].target, ext));
    }
    assert forall|i: int, c: char| 0 <= i < gb.len() && #[trigger] gb[i].members@.contains(c) implies allowed_chars(
        gb[i].target,
        ext,
    ).contains(c) by {
        let f = in_allowed(ga[i].target, ext);
        let k = choose|k: int| 0 <= k < gb[i].members@.len() && gb[i].members@[k] == c;
        ga[i].members@.lemma_filter_pred(f, k);
        assert(ga[i].members@.filter(f)[k] == c);
        assert(f(c));
    }
}

/// After the members, bases, template references and selector references are checked,
/// the rules are settled.
proof fn lemma_rules_settle(
    r: RuleSystem,
    r1: RuleSystem,
    ids: Seq<String>,
    r2: RuleSystem,
    r3: RuleSystem,
    r4: RuleSystem,
    ext: bool,
)
    requires
        group_ids_distinct(r.groups@),
        forall|i: int| 0 <= i < r.groups@.len() ==> sorted_chars(#[trigger] r.groups@[i].members@),
        members_sanitized(r, r1, ext),
        ids_of(ids, r1.groups@),
        bases_sanitized(r1, r2, ids),
        templates_sanitized(r2, r3, ids),
        selectors_sanitized(r3, r4),
    ensures
        rules_settled(r4, ext),
        forall|i: int| 0 <= i < r4.groups@.len() ==> (#[trigger] r4.groups@[i]).id == r.groups@[i].id
            && r4.groups@[i].target == r.groups@[i].target,
{
    lemma_members_settle(r, r1, ext);
    let gs = r1.groups@;
    assert(r4.groups == r1.groups);
    lemma_ids_has(ids, gs);
    let b = (r2.base_cho_group_id@, r2.base_jung_group_id@, r2.base_jong_group_id@);
    crate::seqs::lemma_first_index_props(gs, |g: ComponentGroup| g.target == HangulComponent::Cho);
    crate::seqs::lemma_first_index_props(gs, |g: ComponentGroup| g.target == HangulComponent::Jung);
    crate::seqs::lemma_first_index_props(gs, |g: ComponentGroup| g.target == HangulComponent::Jong);
    if let Some(i) = first_of_target(gs, HangulComponent::Cho) {
        assert(gs[i].id@ == gs[i].id@);
    }
    if let Some(i) = first_of_target(gs, HangulComponent::Jung) {
        assert(gs[i].id@ == gs[i].id@);
    }
    if let Some(i) = first_of_target(gs, HangulComponent::Jong) {
        assert(gs[i].id@ == gs[i].id@);
    }
    assert(base_settled(b.0, gs, HangulComponent::Cho));
    assert(base_settled(b.1, gs, HangulComponent::Jung));
    assert(base_settled(b.2, gs, HangulComponent::Jong));
    assert forall|i: int| 0 <= i < r4.templates@.len() implies template_settled(#[trigger] r4.templates@[i]@, gs, b) by {
        let t = r2.templates@[i]@;
        let f = fix_template(t, ids, b);
        assert(r4.templates@[i]@ == f);
        assert forall|j: int| 0 <= j < f.variant_rules.len() implies rule_settled(#[trigger] f.variant_rules[j], gs, b) by {
            assert(f.variant_rules[j] == fix_rule(t.variant_rules[j], ids, b));
        }
    }
    if r4.templates@.len() > 0 {
        assert forall|i: int| 0 <= i < r4.selectors@.len() implies has_template(
            r4.templates@,
            #[trigger] r4.selectors@[i].template_id@,
        ) by {
            if !has_template(r3.templates@, r3.selectors@[i].template_id@) {
                assert(r4.templates@[0].id@ == r3.templates@[0].id@);
            }
        }
    }
}

/// Checking the glyphs of settled rules leaves rules and glyphs settled.
proof fn lemma_glyphs_settle(a: RuleSystem, s: GlyphStore, b: RuleSystem, t: GlyphStore, ext: bool)
    requires
        rules_settled(a, ext),
        glyphs_sanitized(s, a, t, b, ext),
    ensures
        settled(b, t@, ext),
{
    let ga = a.groups@;
    let gb = b.groups@;
    let used = used_keys(a, s@, 11172);
    assert forall|i: int| 0 <= i < gb.len() implies (#[trigger] ga[i]).id@ == gb[i].id@ && ga[i].target
        == gb[i].target by {
        assert(gb[i] == (ComponentGroup { members: gb[i].members, ..ga[i] }));
    }
    lemma_has_group_same(ga, gb);
    lemma_first_target_same(ga, gb, HangulComponent::Cho);
    lemma_first_target_same(ga, gb, HangulComponent::Jung);
    lemma_first_target_same(ga, gb, HangulComponent::Jong);
    let bs = (a.base_cho_group_id@, a.base_jung_group_id@, a.base_jong_group_id@);
    assert forall|i: int| 0 <= i < b.templates@.len() implies template_settled(#[trigger] b.templates@[i]@, gb, bs) by {
        assert(template_settled(a.templates@[i]@, ga, bs));
    }
    assert forall|i: int, j: int| 0 <= i < gb.len() && 0 <= j < gb.len() && i != j implies #[trigger] gb[i].id@
        != #[trigger] gb[j].id@ by {
        assert(ga[i].id@ != ga[j].id@);
    }
    assert forall|i: int| 0 <= i < gb.len() implies sorted_chars(#[trigger] gb[i].members@) by {
        assert(sorted_chars(ga[i].members@));
    }
    assert forall|i: int, c: char| 0 <= i < gb.len() && #[trigger] gb[i].members@.contains(c) implies allowed_chars(
        gb[i].target,
        ext,
    ).contains(c) by {
        assert(gb[i].members@.to_set().contains(c));
        if ga[i].members@.contains(c) {
        } else {
            let add = added_members(ga, s@.dom(), used, ext, i);
            assert(add.contains(c));
            let k = choose|k: KeyView|
                #[trigger] s@.dom().contains(k) && member_missing(ga, used, ext, k) && k.1 == c
                    && crate::idlist::id_position(ga, k.2) == Some(i);
            let j = last_group(ga, k.2)->0;
            lemma_last_index_props(ga, crate::idlist::has_id::<ComponentGroup>(k.2));
            lemma_first_group_at(ga, j);
        }
    }
    assert forall|k: KeyView| #[trigger] t@.contains_key(k) implies glyph_settled(gb, ext, k) by {
        assert(keep_glyph(ga, used, ext, k));
        lemma_last_group_same(ga, gb, k.2);
        let j = last_group(ga, k.2)->0;
        assert(gb[j].members@.to_set() == ga[j].members@.to_set().union(added_members(ga, s@.dom(), used, ext, j)));
        if ga[j].members@.contains(k.1) {
            assert(ga[j].members@.to_set().contains(k.1));
        } else {
            lemma_last_index_props(ga, crate::idlist::has_id::<ComponentGroup>(k.2));
            lemma_first_group_at(ga, j);
            assert(s@.dom().contains(k));
            assert(added_members(ga, s@.dom(), used, ext, j).contains(k.1));
        }
        assert(gb[j].members@.to_set().contains(k.1));
    }
}

/// After sanitizing rules whose group ids are distinct and whose members are in increasing
/// order, rules and glyphs are settled.
pub proof fn lemma_sanitize_settles(r: RuleSystem, s: GlyphStore, ext: bool, rb: RuleSystem, sb: GlyphStore)
    requires
        group_ids_distinct(r.groups@),
        forall|i: int| 0 <= i < r.groups@.len() ==> sorted_chars(#[trigger] r.groups@[i].members@),
        sanitize_result(r, s, ext, rb, sb),
    ensures
        settled(rb, sb@, ext),
{
    let (r1, ids, r2, r3, r4) = choose|r1: RuleSystem, ids: Seq<String>, r2: RuleSystem, r3: RuleSystem, r4: RuleSystem|
        #![trigger members_sanitized(r, r1, ext), bases_sanitized(r1, r2, ids), templates_sanitized(r2, r3, ids), selectors_sanitized(r3, r4)]
        members_sanitized(r, r1, ext) && ids_of(ids, r1.groups@) && bases_sanitized(r1, r2, ids)
            && templates_sanitized(r2, r3, ids) && selectors_sanitized(r3, r4) && glyphs_sanitized(s, r4, sb, rb, ext);
    lemma_rules_settle(r, r1, ids, r2, r3, r4, ext);
    lemma_glyphs_settle(r4, s, rb, sb, ext);
}

/// Sanitizing twice gives what sanitizing once gives, for rules whose group ids are
/// distinct and whose members are in increasing order.
pub proof fn lemma_sanitize_idempotent(
    r: RuleSystem,
    s: GlyphStore,
    ext: bool,
    r1: RuleSystem,
    s1: GlyphStore,
    r2: RuleSystem,
    s2: GlyphStore,
)
    requires
        group_ids_distinct(r.groups@),
        forall|i: int| 0 <= i < r.groups@.len() ==> sorted_chars(#[trigger] r.groups@[i].members@),
        sanitize_result(r, s, ext, r1, s1),
        sanitize_result(r1, s1, ext, r2, s2),
    ensures
        r2@ == r1@,
        s2@ == s1@,
{
    lemma_sanitize_settles(r, s, ext, r1, s1);
    lemma_sanitize_keeps_settled(r1, s1, ext, r2, s2);
}

/// With distinct ids, renumbering a group's id gives its position.
proof fn lemma_remap_group(gs: Seq<ComponentGroup>, i: int)
    requires
        group_ids_distinct(gs),
        0 <= i < gs.len(),
    ensures
        remap_id(group_ids(gs), "grp_"@, gs[i].id@) == seq_id("grp_"@, i as u64),
{
    let ids = group_ids(gs);
    assert forall|a: int, b: int| 0 <= a < ids.len() && 0 <= b < ids.len() && a != b implies ids[a] != ids[b] by {
        assert(gs[a].id@ != gs[b].id@);
    }
    assert(ids[i] == gs[i].id@);
    crate::compact::lemma_compact_sequential(ids, "grp_"@, i);
}

/// An id that names no group is not renumbered.
proof fn lemma_remap_absent(gs: Seq<ComponentGroup>, x: Seq<char>)
    requires
        !has_group(gs, x),
    ensures
        remap_id(group_ids(gs), "grp_"@, x) == x,
{
    let ids = group_ids(gs);
    let f = |s: Seq<char>| s == x;
    lemma_last_index_props(ids, f);
    if let Some(j) = last_index(ids, f) {
        assert(ids[j] == gs[j].id@);
        assert(f(ids[j]));
    }
}

/// Renumbered groups: distinct ids, each its position's number, and the same
/// components and members.
proof fn lemma_renumbered_groups(ga: Seq<ComponentGroup>, gb: Seq<ComponentGroup>)
    requires
        group_ids_distinct(ga),
        ga.len() == gb.len(),
        ga.len() <= u64::MAX,
        forall|i: int|
            0 <= i < ga.len() ==> (#[trigger] gb[i])@ == (crate::groups::GroupView {
                id: remap_id(group_ids(ga), "grp_"@, ga[i].id@),
                ..ga[i]@
            }),
    ensures
        group_ids_distinct(gb),
        forall|i: int| 0 <= i < ga.len() ==> (#[trigger] gb[i]).id@ == seq_id("grp_"@, i as u64),
        forall|i: int| 0 <= i < ga.len() ==> (#[trigger] gb[i]).target == ga[i].target,
        forall|i: int| 0 <= i < ga.len() ==> (#[trigger] gb[i]).members@ == ga[i].members@,
        forall|x: Seq<char>| #[trigger] has_group(ga, x) ==> has_group(gb, remap_id(group_ids(ga), "grp_"@, x)),
        forall|x: Seq<char>| !has_group(ga, x) ==> #[trigger] remap_id(group_ids(ga), "grp_"@, x) == x,
{
    assert forall|i: int| 0 <= i < ga.len() implies (#[trigger] gb[i]).id@ == seq_id("grp_"@, i as u64) && gb[i].target
        == ga[i].target && gb[i].members@ == ga[i].members@ by {
        lemma_remap_group(ga, i);
        assert(gb[i]@.id == gb[i].id@);
    }
    assert forall|i: int, j: int| 0 <= i < gb.len() && 0 <= j < gb.len() && i != j implies #[trigger] gb[i].id@
        != #[trigger] gb[j].id@ by {
        crate::rule_system::lemma_seq_id_injective("grp_"@, i as u64, j as u64);
    }
    assert forall|x: Seq<char>| #[trigger] has_group(ga, x) implies has_group(gb, remap_id(group_ids(ga), "grp_"@, x)) by {
        let i = choose|i: int| 0 <= i < ga.len() && #[trigger] ga[i].id@ == x;
        lemma_remap_group(ga, i);
        assert(gb[i].id@ == seq_id("grp_"@, i as u64));
    }
    assert forall|x: Seq<char>| !has_group(ga, x) implies #[trigger] remap_id(group_ids(ga), "grp_"@, x) == x by {
        lemma_remap_absent(ga, x);
    }
}

/// A settled reference stays settled when group ids and the base are renumbered.
proof fn lemma_ref_renumbered(x: Seq<char>, ga: Seq<ComponentGroup>, gb: Seq<ComponentGroup>, base: Seq<char>)
    requires
        ref_settled(x, ga, base),
        forall|y: Seq<char>| #[trigger] has_group(ga, y) ==> has_group(gb, remap_id(group_ids(ga), "grp_"@, y)),
    ensures
        ref_settled(remap_id(group_ids(ga), "grp_"@, x), gb, remap_id(group_ids(ga), "grp_"@, base)),
{
    if has_group(ga, x) {
    }
}

/// Renumbering settled rules leaves the template references settled.
proof fn lemma_templates_renumbered(a: RuleSystem, b: RuleSystem, ext: bool)
    requires
        rules_settled(a, ext),
        forall|y: Seq<char>| #[trigger] has_group(a.groups@, y) ==> has_group(b.groups@, remap_id(group_ids(a.groups@), "grp_"@, y)),
        b.templates@.len() == a.templates@.len(),
        forall|i: int|
            0 <= i < a.templates@.len() ==> (#[trigger] b.templates@[i])@ == compact_template(
                a.templates@[i]@,
                group_ids(a.groups@),
                template_ids(a.templates@),
                rule_ids(a.templates@),
            ),
        b.base_cho_group_id@ == remap_id(group_ids(a.groups@), "grp_"@, a.base_cho_group_id@),
        b.base_jung_group_id@ == remap_id(group_ids(a.groups@), "grp_"@, a.base_jung_group_id@),
        b.base_jong_group_id@ == remap_id(group_ids(a.groups@), "grp_"@, a.base_jong_group_id@),
    ensures
        forall|i: int|
            0 <= i < b.templates@.len() ==> template_settled(
                #[trigger] b.templates@[i]@,
                b.groups@,
                (b.base_cho_group_id@, b.base_jung_group_id@, b.base_jong_group_id@),
            ),
{
    let ga = a.groups@;
    let gb = b.groups@;
    let gids = group_ids(ga);
    let ba = (a.base_cho_group_id@, a.base_jung_group_id@, a.base_jong_group_id@);
    let bb = (b.base_cho_group_id@, b.base_jung_group_id@, b.base_jong_group_id@);
    assert forall|i: int| 0 <= i < b.templates@.len() implies template_settled(#[trigger] b.templates@[i]@, gb, bb) by {
        let t = a.templates@[i]@;
        let n = b.templates@[i]@;
        assert(template_settled(t, ga, ba));
        lemma_ref_renumbered(t.default_cho, ga, gb, ba.0);
        lemma_ref_renumbered(t.default_jung, ga, gb, ba.1);
        if let Some(x) = t.default_jong {
            lemma_ref_renumbered(x, ga, gb, ba.2);
        }
        assert forall|j: int| 0 <= j < n.variant_rules.len() implies rule_settled(#[trigger] n.variant_rules[j], gb, bb) by {
            let r = t.variant_rules[j];
            assert(rule_settled(r, ga, ba));
            assert(n.variant_rules[j] == compact_rule(r, gids, rule_ids(a.templates@)));
            if let Some(x) = r.set_cho {
                lemma_ref_renumbered(x, ga, gb, ba.0);
            }
            if let Some(x) = r.set_jung {
                lemma_ref_renumbered(x, ga, gb, ba.1);
            }
            if let Some(x) = r.set_jong {
                lemma_ref_renumbered(x, ga, gb, ba.2);
            }
        }
    }
}

/// Renumbering the ids of settled rules leaves the groups and base ids settled.
#[verifier::spinoff_prover]
proof fn lemma_compact_groups(a: ProjectData, b: ProjectData)
    requires
        rules_settled(a.rules, a.old_hangul_enabled),
        compacted(a, b),
    ensures
        group_ids_distinct(b.rules.groups@),
        forall|i: int| 0 <= i < b.rules.groups@.len() ==> sorted_chars(#[trigger] b.rules.groups@[i].members@),
        forall|i: int, c: char|
            #![trigger b.rules.groups@[i].members@.contains(c)]
            0 <= i < b.rules.groups@.len() && b.rules.groups@[i].members@.contains(c) ==> allowed_chars(
                b.rules.groups@[i].target,
                b.old_hangul_enabled,
            ).contains(c),
        base_settled(b.rules.base_cho_group_id@, b.rules.groups@, HangulComponent::Cho),
        base_settled(b.rules.base_jung_group_id@, b.rules.groups@, HangulComponent::Jung),
        base_settled(b.rules.base_jong_group_id@, b.rules.groups@, HangulComponent::Jong),
        forall|y: Seq<char>| #[trigger] has_group(a.rules.groups@, y) ==> has_group(
            b.rules.groups@,
            remap_id(group_ids(a.rules.groups@), "grp_"@, y),
        ),
{
    let ext = a.old_hangul_enabled;
    let ga = a.rules.groups@;
    let gb = b.rules.groups@;
    let gids = group_ids(ga);
    assert(ga.len() == a.rules.groups.len());
    lemma_renumbered_groups(ga, gb);
    lemma_first_target_same(ga, gb, HangulComponent::Cho);
    lemma_first_target_same(ga, gb, HangulComponent::Jung);
    lemma_first_target_same(ga, gb, HangulComponent::Jong);
    assert forall|i: int| 0 <= i < gb.len() implies sorted_chars(#[trigger] gb[i].members@) by {
        assert(sorted_chars(ga[i].members@));
    }
    assert forall|i: int, c: char| 0 <= i < gb.len() && #[trigger] gb[i].members@.contains(c) implies allowed_chars(
        gb[i].target,
        ext,
    ).contains(c) by {
        assert(ga[i].members@.contains(c));
    }
    let ba = (a.rules.base_cho_group_id@, a.rules.base_jung_group_id@, a.rules.base_jong_group_id@);
    if !has_group(ga, ba.0) {
        assert(remap_id(gids, "grp_"@, ba.0) == ba.0);
    }
    if !has_group(ga, ba.1) {
        assert(remap_id(gids, "grp_"@, ba.1) == ba.1);
    }
    if !has_group(ga, ba.2) {
        assert(remap_id(gids, "grp_"@, ba.2) == ba.2);
    }
}

/// Renumbering the ids of settled rules leaves every selector naming a template.
#[verifier::spinoff_prover]
proof fn lemma_compact_selectors(a: ProjectData, b: ProjectData)
    requires
        rules_settled(a.rules, a.old_hangul_enabled),
        compacted(a, b),
    ensures
        b.rules.templates@.len() == 0 || forall|i: int|
            0 <= i < b.rules.selectors@.len() ==> has_template(
                b.rules.templates@,
                #[trigger] b.rules.selectors@[i].template_id@,
            ),
{
    let ra = a.rules;
    let rb = b.rules;
    let ta = ra.templates@;
    let tb = rb.templates@;
    let gids = group_ids(ra.groups@);
    if tb.len() > 0 {
        assert forall|i: int| 0 <= i < rb.selectors@.len() implies has_template(
            tb,
            #[trigger] rb.selectors@[i].template_id@,
        ) by {
            let x = ra.selectors@[i].template_id@;
            assert(has_template(ta, x));
            let j = choose|j: int| 0 <= j < ta.len() && #[trigger] ta[j].id@ == x;
            assert(tb[j]@ == compact_template(ta[j]@, gids, template_ids(ta), rule_ids(ta)));
            assert(rb.selectors@[i]@ == crate::compact::compact_selector(
                ra.selectors@[i]@,
                template_ids(ta),
                selector_ids(ra.selectors@),
            ));
            assert(tb[j].id@ == rb.selectors@[i].template_id@);
        }
    }
}

/// Renumbering the ids of a settled project leaves every glyph settled.
#[verifier::spinoff_prover]
proof fn lemma_compact_glyphs(a: ProjectData, b: ProjectData)
    requires
        settled(a.rules, a.store@, a.old_hangul_enabled),
        compacted(a, b),
    ensures
        forall|k: KeyView| #[trigger] b.store@.contains_key(k) ==> glyph_settled(b.rules.groups@, b.old_hangul_enabled, k),
{
    let ext = a.old_hangul_enabled;
    let ga = a.rules.groups@;
    let gb = b.rules.groups@;
    let gids = group_ids(ga);
    assert(ga.len() == a.rules.groups.len());
    lemma_renumbered_groups(ga, gb);
    assert forall|nk: KeyView| #[trigger] b.store@.contains_key(nk) implies glyph_settled(gb, ext, nk) by {
        let k = choose|k: KeyView| a.store@.contains_key(k) && #[trigger] remap_key(gids, k) == nk;
        assert(glyph_settled(ga, ext, k));
        let i = last_group(ga, k.2)->0;
        lemma_last_index_props(ga, crate::idlist::has_id::<ComponentGroup>(k.2));
        lemma_remap_group(ga, i);
        lemma_last_group_at(gb, i);
    }
}

/// Renumbering the ids of a settled project leaves it settled.
pub proof fn lemma_compact_settles(a: ProjectData, b: ProjectData)
    requires
        settled(a.rules, a.store@, a.old_hangul_enabled),
        compacted(a, b),
    ensures
        settled(b.rules, b.store@, b.old_hangul_enabled),
{
    lemma_compact_groups(a, b);
    lemma_compact_selectors(a, b);
    lemma_compact_glyphs(a, b);
    lemma_templates_renumbered(a.rules, b.rules, a.old_hangul_enabled);
}

/// Settledness asks of the store only which keys it holds.
proof fn lemma_settled_same_keys(
    r: RuleSystem,
    st: Map<KeyView, Set<(i32, i32)>>,
    st2: Map<KeyView, Set<(i32, i32)>>,
    ext: bool,
)
    requires
        settled(r, st, ext),
        st2.dom() == st.dom(),
    ensures
        settled(r, st2, ext),
{
    assert forall|k: KeyView| #[trigger] st2.contains_key(k) implies glyph_settled(r.groups@, ext, k) by {
        assert(st2.dom().contains(k));
        assert(st.contains_key(k));
    }
}

/// Saving a project and reading the file back gives the project as it was saved: the same
/// rules, the same settings, and every saved glyph under its key with its pixels cut to
/// the canvas. It is stated for projects whose group ids are distinct and whose group
/// members are in increasing order, and for a canvas width that is not negative.
pub proof fn lemma_save_then_load(d0: ProjectData, d1: ProjectData, file: ProjectFile, d2: ProjectData)
    requires
        group_ids_distinct(d0.rules.groups@),
        forall|i: int| 0 <= i < d0.rules.groups@.len() ==> sorted_chars(#[trigger] d0.rules.groups@[i].members@),
        0 <= d0.canvas_w,
        save_result(d0, d1, file),
        load_result(file, d2),
    ensures
        d2.rules@ == d1.rules@,
        d2.store@ == on_canvas(d1.store.glyphs@, d1.canvas_w, d1.canvas_h),
        d2.canvas_w == d1.canvas_w,
        d2.canvas_h == d1.canvas_h,
        d2.old_hangul_enabled == d1.old_hangul_enabled,
        d2.archaic_jamo_map@ == d1.archaic_jamo_map@,
{
    let ext = d0.old_hangul_enabled;
    let mid = choose|mid: ProjectData|
        #![trigger compacted(mid, d1)]
        crate::project::sanitize_result(d0.rules, d0.store, d0.old_hangul_enabled, mid.rules, mid.store) && mid == (
        ProjectData { rules: mid.rules, store: mid.store, ..d0 }) && compacted(mid, d1);
    lemma_sanitize_settles(d0.rules, d0.store, ext, mid.rules, mid.store);
    lemma_compact_settles(mid, d1);
    let dl = choose|dl: ProjectData|
        #![trigger from_file_result(file, dl)]
        from_file_result(file, dl) && crate::project::sanitize_result(
            dl.rules,
            dl.store,
            dl.old_hangul_enabled,
            d2.rules,
            d2.store,
        ) && d2 == (ProjectData { rules: d2.rules, store: d2.store, ..dl });
    lemma_settled_view(d1.rules, dl.rules, d1.store@, ext);
    assert(dl.store@.dom() =~= d1.store@.dom());
    lemma_settled_same_keys(dl.rules, d1.store@, dl.store@, ext);
    lemma_sanitize_keeps_settled(dl.rules, dl.store, ext, d2.rules, d2.store);
}

} // verus!
