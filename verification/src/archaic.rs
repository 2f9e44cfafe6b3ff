use vstd::prelude::*;

use crate::analysis::{part_of, rule_changes, rule_position};
use crate::engine::{sim_variant_rules, spec_layout, LayoutEngine};
use crate::glyph::{GlyphStore, KeyView};
use crate::hangul::{
    allowed_chars_for_target, allowed_ext_table, allowed_table, cho_allowed, cho_allowed_ext, cho_table,
    jong_allowed, jong_allowed_ext, jong_table, jung_allowed, jung_allowed_ext, jung_table,
};
use crate::idlist::id_position;
use crate::rules::opt_view;
use crate::text::str_eq;
use crate::types::HangulComponent;

verus! {

/// An (initial, medial, optional final) jamo combination, drawn with `layout_jamo`.
pub type JamoTriplet = (char, char, Option<char>);

/// The reference initial, medial and final that old-Hangul previews pair a jamo with.
pub open spec fn ref_cho() -> char {
    cho_table()[0]
}

pub open spec fn ref_jung() -> char {
    jung_table()[0]
}

pub open spec fn ref_jong() -> char {
    jong_table()[1]
}

/// The characters of `s` that are not in `modern`, in order.
pub open spec fn archaic_of(s: Seq<char>, modern: Seq<char>) -> Seq<char> {
    s.filter(|c: char| !modern.contains(c))
}

/// The combinations of `x` with the first `m` characters `y` of `ys`: `x` as initial
/// (`x_first`) or medial, each without a final and, when `two`, with the reference final.
pub open spec fn row(x: char, ys: Seq<char>, m: int, x_first: bool, two: bool) -> Seq<JamoTriplet>
    decreases m,
{
    if m <= 0 {
        Seq::empty()
    } else {
        let y = ys[m - 1];
        let (c, j) = if x_first {
            (x, y)
        } else {
            (y, x)
        };
        row(x, ys, m - 1, x_first, two) + if two {
            seq![(c, j, None), (c, j, Some(ref_jong()))]
        } else {
            seq![(c, j, None)]
        }
    }
}

/// The rows of the first `n` characters of `xs`, one after another.
pub open spec fn grid(xs: Seq<char>, ys: Seq<char>, n: int, x_first: bool, two: bool) -> Seq<JamoTriplet>
    decreases n,
{
    if n <= 0 {
        Seq::empty()
    } else {
        grid(xs, ys, n - 1, x_first, two) + row(xs[n - 1], ys, ys.len() as int, x_first, two)
    }
}

/// The combinations of each of the first `n` initials with a fixed medial and final.
pub open spec fn column(cs: Seq<char>, n: int, jung: char, jong: Option<char>) -> Seq<JamoTriplet>
    decreases n,
{
    if n <= 0 {
        Seq::empty()
    } else {
        column(cs, n - 1, jung, jong) + seq![(cs[n - 1], jung, jong)]
    }
}

/// The reference initial and medial with each of the first `n` finals.
pub open spec fn finals(ks: Seq<char>, n: int) -> Seq<JamoTriplet>
    decreases n,
{
    if n <= 0 {
        Seq::empty()
    } else {
        finals(ks, n - 1) + seq![(ref_cho(), ref_jung(), Some(ks[n - 1]))]
    }
}

fn char_in(v: &Vec<char>, c: char) -> (r: bool)
    ensures
        r == v@.contains(c),
{
    let mut i: usize = 0;
    while i < v.len()
        invariant
            i <= v@.len(),
            forall|k: int| 0 <= k < i ==> v@[k] != c,
        decreases v@.len() - i,
    {
        if v[i] == c {
            return true;
        }
        i = i + 1;
    }
    false
}

fn archaic_chars(s: &Vec<char>, modern: &Vec<char>) -> (r: Vec<char>)
    ensures
        r@ == archaic_of(s@, modern@),
{
    let ghost f = |c: char| !modern@.contains(c);
    let mut out: Vec<char> = Vec::new();
    let mut i: usize = 0;
    while i < s.len()
        invariant
            i <= s@.len(),
            f == (|c: char| !modern@.contains(c)),
            out@ == s@.take(i as int).filter(f),
        decreases s@.len() - i,
    {
        proof {
            reveal_with_fuel(Seq::<_>::filter, 1);
            assert(s@.take(i + 1).drop_last() =~= s@.take(i as int));
        }
        if !char_in(modern, s[i]) {
            out.push(s[i]);
        }
        i = i + 1;
    }
    assert(s@.take(s@.len() as int) =~= s@);
    out
}

fn push_row(out: &mut Vec<JamoTriplet>, x: char, ys: &Vec<char>, x_first: bool, two: bool, rj: char)
    requires
        rj == ref_jong(),
    ensures
        final(out)@ == old(out)@ + row(x, ys@, ys@.len() as int, x_first, two),
{
    let ghost start = out@;
    let mut m: usize = 0;
    while m < ys.len()
        invariant
            rj == ref_jong(),
            m <= ys@.len(),
            out@ == start + row(x, ys@, m as int, x_first, two),
        decreases ys@.len() - m,
    {
        let y = ys[m];
        let (c, j) = if x_first {
            (x, y)
        } else {
            (y, x)
        };
        let ghost before = out@;
        out.push((c, j, None));
        if two {
            out.push((c, j, Some(rj)));
            assert(out@ =~= before + seq![(c, j, None), (c, j, Some(ref_jong()))]);
        } else {
            assert(out@ =~= before + seq![(c, j, None)]);
        }
        m = m + 1;
    }
}

fn push_grid(out: &mut Vec<JamoTriplet>, xs: &Vec<char>, ys: &Vec<char>, x_first: bool, two: bool, rj: char)
    requires
        rj == ref_jong(),
    ensures
        final(out)@ == old(out)@ + grid(xs@, ys@, xs@.len() as int, x_first, two),
{
    let ghost start = out@;
    let mut n: usize = 0;
    while n < xs.len()
        invariant
            rj == ref_jong(),
            n <= xs@.len(),
            out@ == start + grid(xs@, ys@, n as int, x_first, two),
        decreases xs@.len() - n,
    {
        push_row(out, xs[n], ys, x_first, two, rj);
        n = n + 1;
    }
}

fn push_column(out: &mut Vec<JamoTriplet>, cs: &Vec<char>, jung: char, jong: Option<char>)
    ensures
        final(out)@ == old(out)@ + column(cs@, cs@.len() as int, jung, jong),
{
    let ghost start = out@;
    let mut n: usize = 0;
    while n < cs.len()
        invariant
            n <= cs@.len(),
            out@ == start + column(cs@, n as int, jung, jong),
        decreases cs@.len() - n,
    {
        out.push((cs[n], jung, jong));
        n = n + 1;
    }
}

fn push_finals(out: &mut Vec<JamoTriplet>, ks: &Vec<char>, rc: char, rju: char)
    requires
        rc == ref_cho(),
        rju == ref_jung(),
    ensures
        final(out)@ == old(out)@ + finals(ks@, ks@.len() as int),
{
    let ghost start = out@;
    let mut n: usize = 0;
    while n < ks.len()
        invariant
            rc == ref_cho(),
            rju == ref_jung(),
            n <= ks@.len(),
            out@ == start + finals(ks@, n as int),
        decreases ks@.len() - n,
    {
        out.push((rc, rju, Some(ks[n])));
        n = n + 1;
    }
}

/// The combination is laid out and the part in position `target` is drawn with the group.
pub open spec fn drawn_with(
    rules: crate::rule_system::RuleSystem,
    store: Map<KeyView, Set<(i32, i32)>>,
    target: HangulComponent,
    gid: Seq<char>,
) -> spec_fn(JamoTriplet) -> bool {
    |t: JamoTriplet|
        spec_layout(rules, store, t.0, t.1, t.2) matches Some(l) && part_of(l, target) matches Some(p) && p.2 == gid
}

fn keep_drawn_with(
    engine: &LayoutEngine,
    store: &GlyphStore,
    cands: &Vec<JamoTriplet>,
    target: HangulComponent,
    group_id: &str,
) -> (r: Vec<JamoTriplet>)
    ensures
        r@ == cands@.filter(drawn_with(engine.rules, store@, target, group_id@)),
{
    let ghost f = drawn_with(engine.rules, store@, target, group_id@);
    let mut out: Vec<JamoTriplet> = Vec::new();
    let mut i: usize = 0;
    while i < cands.len()
        invariant
            i <= cands@.len(),
            f == drawn_with(engine.rules, store@, target, group_id@),
            out@ == cands@.take(i as int).filter(f),
        decreases cands@.len() - i,
    {
        let t = cands[i];
        proof {
            reveal_with_fuel(Seq::<_>::filter, 1);
            assert(cands@.take(i + 1).drop_last() =~= cands@.take(i as int));
        }
        let keep = match engine.layout_jamo(store, t.0, t.1, t.2) {
            Some(l) => match target {
                HangulComponent::Cho => str_eq(l.cho.group_id.as_str(), group_id),
                HangulComponent::Jung => str_eq(l.jung.group_id.as_str(), group_id),
                HangulComponent::Jong => match &l.jong {
                    Some(j) => str_eq(j.group_id.as_str(), group_id),
                    None => false,
                },
            },
            None => false,
        };
        if keep {
            out.push(t);
        }
        i = i + 1;
    }
    assert(cands@.take(cands@.len() as int) =~= cands@);
    out
}

/// The candidates for a group's archaic jamo: an archaic initial or medial with every
/// modern medial or initial, without a final and with the reference final; an archaic
/// final under the reference initial and medial.
pub open spec fn group_candidates(target: HangulComponent, archaic: Seq<char>) -> Seq<JamoTriplet> {
    match target {
        HangulComponent::Cho => grid(archaic, jung_table(), archaic.len() as int, true, true),
        HangulComponent::Jung => grid(archaic, cho_table(), archaic.len() as int, false, true),
        HangulComponent::Jong => finals(archaic, archaic.len() as int),
    }
}

/// The old-Hangul combinations that show the group's archaic members: those of its
/// candidates (see `group_candidates`) whose layout draws the member's part with the
/// group (the first group with the id); none when no group has the id.
pub fn archaic_triplets_for_group(engine: &LayoutEngine, store: &GlyphStore, group_id: &str) -> (r: Vec<JamoTriplet>)
    ensures
        match id_position(engine.rules.groups@, group_id@) {
            None => r@.len() == 0,
            Some(g) => {
                let grp = engine.rules.groups@[g];
                r@ == group_candidates(grp.target, archaic_of(grp.members@, allowed_table(grp.target))).filter(
                    drawn_with(engine.rules, store@, grp.target, group_id@),
                )
            },
        },
{
    let group = match engine.rules.find_group(group_id) {
        Some(g) => g,
        None => {
            return Vec::new();
        },
    };
    let target = group.target;
    let modern = allowed_chars_for_target(target);
    let archaic = archaic_chars(&group.members, &modern);
    let cho = cho_allowed();
    let jung = jung_allowed();
    let jong = jong_allowed();
    proof {
        assert(jong@[0] == ref_jong());
    }
    let mut cands: Vec<JamoTriplet> = Vec::new();
    match target {
        HangulComponent::Cho => push_grid(&mut cands, &archaic, &jung, true, true, jong[0]),
        HangulComponent::Jung => push_grid(&mut cands, &archaic, &cho, false, true, jong[0]),
        HangulComponent::Jong => push_finals(&mut cands, &archaic, cho[0], jung[0]),
    }
    assert(cands@ =~= group_candidates(target, archaic@));
    keep_drawn_with(engine, store, &cands, target, group_id)
}

/// The candidates for one archaic jamo: as initial with every modern medial, without a
/// final and with the reference final; as medial under every modern initial, without a
/// final; as final under every modern initial and the reference medial.
pub open spec fn jamo_candidates(target: HangulComponent, jamo: char) -> Seq<JamoTriplet> {
    match target {
        HangulComponent::Cho => row(jamo, jung_table(), 21, true, true),
        HangulComponent::Jung => column(cho_table(), 19, jamo, None),
        HangulComponent::Jong => column(cho_table(), 19, ref_jung(), Some(jamo)),
    }
}

/// The old-Hangul combinations that show an archaic jamo as drawn by the group: those
/// of its candidates (see `jamo_candidates`) whose layout draws it with the group; none
/// for a modern jamo.
pub fn archaic_triplets_for_component_in_group(
    engine: &LayoutEngine,
    store: &GlyphStore,
    target: HangulComponent,
    jamo: char,
    group_id: &str,
) -> (r: Vec<JamoTriplet>)
    ensures
        allowed_table(target).contains(jamo) ==> r@.len() == 0,
        !allowed_table(target).contains(jamo) ==> r@ == jamo_candidates(target, jamo).filter(
            drawn_with(engine.rules, store@, target, group_id@),
        ),
{
    let modern = allowed_chars_for_target(target);
    if char_in(&modern, jamo) {
        return Vec::new();
    }
    let cho = cho_allowed();
    let jung = jung_allowed();
    let jong = jong_allowed();
    proof {
        assert(jong@[0] == ref_jong());
        assert(cho@.len() == 19 && jung@.len() == 21);
    }
    let mut cands: Vec<JamoTriplet> = Vec::new();
    match target {
        HangulComponent::Cho => push_row(&mut cands, jamo, &jung, true, true, jong[0]),
        HangulComponent::Jung => push_column(&mut cands, &cho, jamo, None),
        HangulComponent::Jong => push_column(&mut cands, &cho, jung[0], Some(jamo)),
    }
    assert(cands@ =~= jamo_candidates(target, jamo));
    keep_drawn_with(engine, store, &cands, target, group_id)
}

/// The candidates for old Hangul over the whole rule system: every archaic initial with
/// every modern medial, every archaic medial under every modern initial (each without a
/// final and with the reference final), then every archaic final under the reference
/// initial and medial.
pub open spec fn old_hangul_candidates() -> Seq<JamoTriplet> {
    let ac = archaic_of(allowed_ext_table(HangulComponent::Cho), cho_table());
    let aj = archaic_of(allowed_ext_table(HangulComponent::Jung), jung_table());
    let ak = archaic_of(allowed_ext_table(HangulComponent::Jong), jong_table().skip(1));
    grid(ac, jung_table(), ac.len() as int, true, true) + grid(aj, cho_table(), aj.len() as int, false, true)
        + finals(ak, ak.len() as int)
}

fn old_hangul_cands() -> (r: Vec<JamoTriplet>)
    ensures
        r@ == old_hangul_candidates(),
{
    let cho = cho_allowed();
    let jung = jung_allowed();
    let jong = jong_allowed();
    let ac = archaic_chars(&cho_allowed_ext(), &cho);
    let aj = archaic_chars(&jung_allowed_ext(), &jung);
    let ak = archaic_chars(&jong_allowed_ext(), &jong);
    proof {
        assert(jong@[0] == ref_jong());
    }
    let mut cands: Vec<JamoTriplet> = Vec::new();
    push_grid(&mut cands, &ac, &jung, true, true, jong[0]);
    push_grid(&mut cands, &aj, &cho, false, true, jong[0]);
    push_finals(&mut cands, &ak, cho[0], jung[0]);
    assert(cands@ =~= old_hangul_candidates());
    cands
}

/// The combination is laid out with the template.
pub open spec fn laid_out_with(rules: crate::rule_system::RuleSystem, store: Map<KeyView, Set<(i32, i32)>>, tid: Seq<char>) -> spec_fn(
    JamoTriplet,
) -> bool {
    |t: JamoTriplet| spec_layout(rules, store, t.0, t.1, t.2) matches Some(l) && l.template_id == tid
}

/// With old Hangul on, the old-Hangul candidates (see `old_hangul_candidates`) that the
/// template lays out; none with old Hangul off.
pub fn used_triplets_by_template_id(
    engine: &LayoutEngine,
    store: &GlyphStore,
    old_hangul_enabled: bool,
    template_id: &str,
) -> (r: Vec<JamoTriplet>)
    ensures
        !old_hangul_enabled ==> r@.len() == 0,
        old_hangul_enabled ==> r@ == old_hangul_candidates().filter(laid_out_with(engine.rules, store@, template_id@)),
{
    if !old_hangul_enabled {
        return Vec::new();
    }
    let cands = old_hangul_cands();
    let ghost f = laid_out_with(engine.rules, store@, template_id@);
    let mut out: Vec<JamoTriplet> = Vec::new();
    let mut i: usize = 0;
    while i < cands.len()
        invariant
            i <= cands@.len(),
            f == laid_out_with(engine.rules, store@, template_id@),
            out@ == cands@.take(i as int).filter(f),
        decreases cands@.len() - i,
    {
        let t = cands[i];
        proof {
            reveal_with_fuel(Seq::<_>::filter, 1);
            assert(cands@.take(i + 1).drop_last() =~= cands@.take(i as int));
        }
        let keep = match engine.layout_jamo(store, t.0, t.1, t.2) {
            Some(l) => str_eq(l.template_id.as_str(), template_id),
            None => false,
        };
        if keep {
            out.push(t);
        }
        i = i + 1;
    }
    assert(cands@.take(cands@.len() as int) =~= cands@);
    out
}

/// The combination is laid out, and rule `idx` of template `t` changes the groups the
/// template's defaults give it.
pub open spec fn changed_by_rule(
    rules: crate::rule_system::RuleSystem,
    store: Map<KeyView, Set<(i32, i32)>>,
    t: crate::rules::Template,
    idx: usize,
) -> spec_fn(JamoTriplet) -> bool {
    |x: JamoTriplet|
        spec_layout(rules, store, x.0, x.1, x.2) is Some && {
            let order = crate::engine::priority_order(t.variant_rules@, t.variant_rules@.len());
            let d = crate::engine::template_ids(t);
            crate::engine::apply_variants(t.variant_rules@, order, x.0, x.1, x.2, d).0
                != crate::engine::apply_variants(
                t.variant_rules@,
                crate::engine::order_without(order, Some(idx)),
                x.0,
                x.1,
                x.2,
                d,
            ).0
        }
}

/// With old Hangul on, the old-Hangul candidates (see `old_hangul_candidates`) that are
/// laid out and whose groups the template's variant rule (the first with the id) changes;
/// none with old Hangul off or when the template or the rule is missing.
pub fn used_triplets_by_variant_rule(
    engine: &LayoutEngine,
    store: &GlyphStore,
    old_hangul_enabled: bool,
    template_id: &str,
    rule_id: &str,
) -> (r: Vec<JamoTriplet>)
    ensures
        !old_hangul_enabled ==> r@.len() == 0,
        old_hangul_enabled ==> match id_position(engine.rules.templates@, template_id@) {
            None => r@.len() == 0,
            Some(ti) => match rule_position(engine.rules.templates@[ti].variant_rules@, rule_id@) {
                None => r@.len() == 0,
                Some(k) => r@ == old_hangul_candidates().filter(
                    changed_by_rule(engine.rules, store@, engine.rules.templates@[ti], k as usize),
                ),
            },
        },
{
    if !old_hangul_enabled {
        return Vec::new();
    }
    let tpl = match engine.rules.find_template(template_id) {
        Some(t) => t,
        None => {
            return Vec::new();
        },
    };
    let idx = match crate::analysis::find_rule(&tpl.variant_rules, rule_id) {
        Some(i) => i,
        None => {
            return Vec::new();
        },
    };
    let default_jong: &str = match &tpl.default_jong_group_id {
        Some(g) => g.as_str(),
        None => "",
    };
    proof {
        reveal_strlit("");
    }
    let cands = old_hangul_cands();
    let ghost f = changed_by_rule(engine.rules, store@, *tpl, idx);
    let mut out: Vec<JamoTriplet> = Vec::new();
    let mut i: usize = 0;
    while i < cands.len()
        invariant
            i <= cands@.len(),
            f == changed_by_rule(engine.rules, store@, *tpl, idx),
            crate::engine::template_ids(*tpl) == (tpl.default_cho_group_id@, tpl.default_jung_group_id@, default_jong@),
            out@ == cands@.take(i as int).filter(f),
        decreases cands@.len() - i,
    {
        let t = cands[i];
        proof {
            reveal_with_fuel(Seq::<_>::filter, 1);
            assert(cands@.take(i + 1).drop_last() =~= cands@.take(i as int));
        }
        let keep = match engine.layout_jamo(store, t.0, t.1, t.2) {
            Some(_) => {
                let with_rule = sim_variant_rules(
                    &tpl.variant_rules,
                    None,
                    t.0,
                    t.1,
                    t.2,
                    tpl.default_cho_group_id.as_str(),
                    tpl.default_jung_group_id.as_str(),
                    default_jong,
                );
                let without_rule = sim_variant_rules(
                    &tpl.variant_rules,
                    Some(idx),
                    t.0,
                    t.1,
                    t.2,
                    tpl.default_cho_group_id.as_str(),
                    tpl.default_jung_group_id.as_str(),
                    default_jong,
                );
                !crate::analysis::same_groups(&with_rule, &without_rule)
            },
            None => false,
        };
        if keep {
            out.push(t);
        }
        i = i + 1;
    }
    assert(cands@.take(cands@.len() as int) =~= cands@);
    out
}

} // verus!
