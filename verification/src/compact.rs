use vstd::prelude::*;
use vstd::std_specs::iter::IteratorSpec;

use crate::glyph::{
    has_key, keys_distinct, lemma_entry_in_view, GlyphEntry, GlyphKey, GlyphStore, KeyView, PixelGlyph,
};
use crate::groups::{ComponentGroup, GroupView};
use crate::project::ProjectData;
use crate::rule_system::RuleSystem;
use crate::rule_system::{make_seq_id, seq_id};
use crate::rules::{opt_view, SelectorRule, SelectorView, Template, TemplateView, VariantRule, VariantView};
use crate::seqs::{last_index, lemma_last_index_is, lemma_last_index_props};
use crate::text::{str_eq, string_from};
use crate::types::{spec_kind, HangulComponent};

verus! {

/// Strings compared character by character by code point, a proper prefix first (the
/// order of `String`).
pub open spec fn text_lt(a: Seq<char>, b: Seq<char>) -> bool
    decreases a.len(),
{
    if a.len() == 0 {
        b.len() > 0
    } else if b.len() == 0 {
        false
    } else if a[0] != b[0] {
        (a[0] as u32) < (b[0] as u32)
    } else {
        text_lt(a.skip(1), b.skip(1))
    }
}

/// The order of glyph keys: by component, then jamo, then group id.
pub open spec fn key_lt(a: KeyView, b: KeyView) -> bool {
    if a.0 != b.0 {
        spec_kind(a.0) < spec_kind(b.0)
    } else if a.1 != b.1 {
        (a.1 as u32) < (b.1 as u32)
    } else {
        text_lt(a.2, b.2)
    }
}

proof fn lemma_text_lt_irreflexive(a: Seq<char>)
    ensures
        !text_lt(a, a),
    decreases a.len(),
{
    if a.len() > 0 {
        lemma_text_lt_irreflexive(a.skip(1));
    }
}

proof fn lemma_text_lt_total(a: Seq<char>, b: Seq<char>)
    ensures
        a != b ==> (text_lt(a, b) || text_lt(b, a)),
        !(text_lt(a, b) && text_lt(b, a)),
    decreases a.len(),
{
    if a.len() > 0 && b.len() > 0 {
        crate::charset::lemma_code_injective(a[0], b[0]);
        lemma_text_lt_total(a.skip(1), b.skip(1));
        if a[0] == b[0] && a != b {
            assert(a =~= seq![a[0]] + a.skip(1));
            assert(b =~= seq![b[0]] + b.skip(1));
        }
    } else if a.len() == 0 && b.len() == 0 {
        assert(a =~= b);
    }
}

proof fn lemma_text_lt_transitive(a: Seq<char>, b: Seq<char>, c: Seq<char>)
    requires
        text_lt(a, b),
        text_lt(b, c),
    ensures
        text_lt(a, c),
    decreases a.len(),
{
    if a.len() > 0 {
        crate::charset::lemma_code_injective(a[0], b[0]);
        crate::charset::lemma_code_injective(b[0], c[0]);
        crate::charset::lemma_code_injective(a[0], c[0]);
        if a[0] == b[0] && b[0] == c[0] {
            lemma_text_lt_transitive(a.skip(1), b.skip(1), c.skip(1));
        }
    }
}

/// `text_lt` is a strict total order.
pub proof fn lemma_text_lt_order(a: Seq<char>, b: Seq<char>, c: Seq<char>)
    ensures
        !text_lt(a, a),
        a != b ==> (text_lt(a, b) || text_lt(b, a)),
        !(text_lt(a, b) && text_lt(b, a)),
        text_lt(a, b) && text_lt(b, c) ==> text_lt(a, c),
{
    lemma_text_lt_irreflexive(a);
    lemma_text_lt_total(a, b);
    if text_lt(a, b) && text_lt(b, c) {
        lemma_text_lt_transitive(a, b, c);
    }
}

/// `key_lt` is a strict total order.
pub proof fn lemma_key_lt_order(a: KeyView, b: KeyView, c: KeyView)
    ensures
        !key_lt(a, a),
        a != b ==> (key_lt(a, b) || key_lt(b, a)),
        !(key_lt(a, b) && key_lt(b, a)),
        key_lt(a, b) && key_lt(b, c) ==> key_lt(a, c),
{
    lemma_text_lt_order(a.2, b.2, c.2);
    lemma_text_lt_order(a.2, a.2, a.2);
    crate::charset::lemma_code_injective(a.1, b.1);
    crate::charset::lemma_code_injective(b.1, c.1);
    crate::charset::lemma_code_injective(a.1, c.1);
    if a.0 != b.0 {
        assert(spec_kind(a.0) != spec_kind(b.0));
    }
    if b.0 != c.0 {
        assert(spec_kind(b.0) != spec_kind(c.0));
    }
    if a.0 != c.0 {
        assert(spec_kind(a.0) != spec_kind(c.0));
    }
}

pub(crate) fn text_less(a: &str, b: &str) -> (r: bool)
    ensures
        r == text_lt(a@, b@),
{
    let mut ia = a.chars();
    let mut ib = b.chars();
    let ghost mut k: int = 0;
    loop
        invariant
            0 <= k <= a@.len(),
            k <= b@.len(),
            ia.remaining() == a@.skip(k),
            ib.remaining() == b@.skip(k),
            text_lt(a@, b@) == text_lt(a@.skip(k), b@.skip(k)),
        decreases a@.len() - k,
    {
        let x = ia.next();
        let y = ib.next();
        let ghost sa = a@.skip(k);
        let ghost sb = b@.skip(k);
        match (x, y) {
            (None, None) => {
                return false;
            },
            (None, Some(_)) => {
                return true;
            },
            (Some(_), None) => {
                return false;
            },
            (Some(cx), Some(cy)) => {
                if cx != cy {
                    assert(sa[0] == cx && sb[0] == cy);
                    return (cx as u32) < (cy as u32);
                }
                proof {
                    assert(sa.skip(1) =~= a@.skip(k + 1));
                    assert(sb.skip(1) =~= b@.skip(k + 1));
                    k = k + 1;
                }
            },
        }
    }
}

fn kind_code(k: HangulComponent) -> (r: u8)
    ensures
        r == spec_kind(k),
{
    k.kind()
}

/// Is glyph key `a` ordered before `b`?
pub fn key_less(a: &GlyphKey, b: &GlyphKey) -> (r: bool)
    ensures
        r == key_lt(a@, b@),
{
    if a.kind != b.kind {
        kind_code(a.kind) < kind_code(b.kind)
    } else if a.jamo != b.jamo {
        (a.jamo as u32) < (b.jamo as u32)
    } else {
        text_less(a.group_id.as_str(), b.group_id.as_str())
    }
}

} // verus!

verus! {

/// The texts of a list of strings.
pub open spec fn texts(v: Seq<String>) -> Seq<Seq<char>> {
    v.map_values(|s: String| s@)
}

/// The new id of `id`: the prefix numbered by the last position of `id` in `old_ids`, or
/// `id` itself when it is not among them.
pub open spec fn remap_id(old_ids: Seq<Seq<char>>, prefix: Seq<char>, id: Seq<char>) -> Seq<char> {
    match last_index(old_ids, |s: Seq<char>| s == id) {
        Some(i) => seq_id(prefix, i as u64),
        None => id,
    }
}

/// An optional id, remapped when present.
pub open spec fn opt_remap(old_ids: Seq<Seq<char>>, prefix: Seq<char>, o: Option<Seq<char>>) -> Option<Seq<char>> {
    match o {
        Some(id) => Some(remap_id(old_ids, prefix, id)),
        None => None,
    }
}

/// The ids of the groups, in order.
pub open spec fn group_ids(gs: Seq<ComponentGroup>) -> Seq<Seq<char>> {
    gs.map_values(|g: ComponentGroup| g.id@)
}

/// The ids of the templates, in order.
pub open spec fn template_ids(ts: Seq<Template>) -> Seq<Seq<char>> {
    ts.map_values(|t: Template| t.id@)
}

/// The ids of the selectors, in order.
pub open spec fn selector_ids(ss: Seq<SelectorRule>) -> Seq<Seq<char>> {
    ss.map_values(|x: SelectorRule| x.id@)
}

/// The ids of all variant rules, template after template.
pub open spec fn rule_ids(ts: Seq<Template>) -> Seq<Seq<char>>
    decreases ts.len(),
{
    if ts.len() == 0 {
        Seq::empty()
    } else {
        rule_ids(ts.drop_last()) + ts.last().variant_rules@.map_values(|r: VariantRule| r.id@)
    }
}

/// A variant rule with its own id and its group ids renumbered.
pub open spec fn compact_rule(r: VariantView, gids: Seq<Seq<char>>, vids: Seq<Seq<char>>) -> VariantView {
    VariantView {
        id: remap_id(vids, "vr_"@, r.id),
        set_cho: opt_remap(gids, "grp_"@, r.set_cho),
        set_jung: opt_remap(gids, "grp_"@, r.set_jung),
        set_jong: opt_remap(gids, "grp_"@, r.set_jong),
        ..r
    }
}

/// A template with its id, its group ids and its rules renumbered.
pub open spec fn compact_template(
    t: TemplateView,
    gids: Seq<Seq<char>>,
    tids: Seq<Seq<char>>,
    vids: Seq<Seq<char>>,
) -> TemplateView {
    TemplateView {
        id: remap_id(tids, "tpl_"@, t.id),
        default_cho: remap_id(gids, "grp_"@, t.default_cho),
        default_jung: remap_id(gids, "grp_"@, t.default_jung),
        default_jong: opt_remap(gids, "grp_"@, t.default_jong),
        variant_rules: t.variant_rules.map_values(|r: VariantView| compact_rule(r, gids, vids)),
        ..t
    }
}

/// A selector with its id and its template id renumbered.
pub open spec fn compact_selector(x: SelectorView, tids: Seq<Seq<char>>, sids: Seq<Seq<char>>) -> SelectorView {
    SelectorView { id: remap_id(sids, "sel_"@, x.id), template_id: remap_id(tids, "tpl_"@, x.template_id), ..x }
}

/// A glyph key with its group id renumbered.
pub open spec fn remap_key(gids: Seq<Seq<char>>, k: KeyView) -> KeyView {
    (k.0, k.1, remap_id(gids, "grp_"@, k.2))
}

/// `k` is the greatest key of `m` that is renumbered to the same key as `k`.
pub open spec fn max_preimage(m: Map<KeyView, Set<(i32, i32)>>, gids: Seq<Seq<char>>, k: KeyView) -> bool {
    &&& m.contains_key(k)
    &&& forall|k2: KeyView|
        #[trigger] m.contains_key(k2) && remap_key(gids, k2) == remap_key(gids, k) && k2 != k ==> key_lt(k2, k)
}

fn remap_lookup(old_ids: &Vec<String>, prefix: &str, id: &str) -> (r: String)
    ensures
        r@ == remap_id(texts(old_ids@), prefix@, id@),
{
    let ghost ts = texts(old_ids@);
    let ghost f = |s: Seq<char>| s == id@;
    let mut i: usize = old_ids.len();
    while i > 0
        invariant
            ts == texts(old_ids@),
            i <= old_ids@.len(),
            forall|k: int| i <= k < old_ids@.len() ==> old_ids@[k]@ != id@,
        decreases i,
    {
        if str_eq(old_ids[i - 1].as_str(), id) {
            proof {
                let f = |s: Seq<char>| s == id@;
                assert forall|j: int| i - 1 < j < ts.len() implies !f(ts[j]) by {}
                assert(f(ts[i - 1]));
                lemma_last_index_is(ts, f, i - 1);
            }
            return make_seq_id(prefix, (i - 1) as u64);
        }
        i = i - 1;
    }
    proof {
        let f = |s: Seq<char>| s == id@;
        lemma_last_index_props(ts, f);
        if last_index(ts, f) is Some {
            let j = last_index(ts, f)->0;
            assert(f(ts[j]));
        }
    }
    string_from(id)
}

fn opt_remap_lookup(old_ids: &Vec<String>, prefix: &str, o: &Option<String>) -> (r: Option<String>)
    ensures
        opt_view(r) == opt_remap(texts(old_ids@), prefix@, opt_view(*o)),
{
    match o {
        Some(id) => Some(remap_lookup(old_ids, prefix, id.as_str())),
        None => None,
    }
}

} // verus!

verus! {

fn template_id_list(ts: &Vec<Template>) -> (r: Vec<String>)
    ensures
        texts(r@) == template_ids(ts@),
{
    let mut out: Vec<String> = Vec::new();
    let mut i: usize = 0;
    while i < ts.len()
        invariant
            i <= ts@.len(),
            texts(out@) == template_ids(ts@.take(i as int)),
        decreases ts@.len() - i,
    {
        let ghost before = texts(out@);
        out.push(ts[i].id.clone());
        assert(texts(out@) =~= before.push(ts@[i as int].id@));
        assert(template_ids(ts@.take(i + 1)) =~= template_ids(ts@.take(i as int)).push(ts@[i as int].id@));
        i = i + 1;
    }
    assert(ts@.take(ts@.len() as int) =~= ts@);
    out
}

fn selector_id_list(ss: &Vec<SelectorRule>) -> (r: Vec<String>)
    ensures
        texts(r@) == selector_ids(ss@),
{
    let mut out: Vec<String> = Vec::new();
    let mut i: usize = 0;
    while i < ss.len()
        invariant
            i <= ss@.len(),
            texts(out@) == selector_ids(ss@.take(i as int)),
        decreases ss@.len() - i,
    {
        let ghost before = texts(out@);
        out.push(ss[i].id.clone());
        assert(texts(out@) =~= before.push(ss@[i as int].id@));
        assert(selector_ids(ss@.take(i + 1)) =~= selector_ids(ss@.take(i as int)).push(ss@[i as int].id@));
        i = i + 1;
    }
    assert(ss@.take(ss@.len() as int) =~= ss@);
    out
}

fn group_id_texts(gs: &Vec<ComponentGroup>) -> (r: Vec<String>)
    ensures
        texts(r@) == group_ids(gs@),
{
    let mut out: Vec<String> = Vec::new();
    let mut i: usize = 0;
    while i < gs.len()
        invariant
            i <= gs@.len(),
            texts(out@) == group_ids(gs@.take(i as int)),
        decreases gs@.len() - i,
    {
        let ghost before = texts(out@);
        out.push(gs[i].id.clone());
        assert(texts(out@) =~= before.push(gs@[i as int].id@));
        assert(group_ids(gs@.take(i + 1)) =~= group_ids(gs@.take(i as int)).push(gs@[i as int].id@));
        i = i + 1;
    }
    assert(gs@.take(gs@.len() as int) =~= gs@);
    out
}

fn rule_id_list(ts: &Vec<Template>) -> (r: Vec<String>)
    ensures
        texts(r@) == rule_ids(ts@),
{
    let mut out: Vec<String> = Vec::new();
    let mut i: usize = 0;
    while i < ts.len()
        invariant
            i <= ts@.len(),
            texts(out@) == rule_ids(ts@.take(i as int)),
        decreases ts@.len() - i,
    {
        let rs = &ts[i].variant_rules;
        let ghost base = texts(out@);
        let mut j: usize = 0;
        while j < rs.len()
            invariant
                j <= rs@.len(),
                texts(out@) == base + rs@.take(j as int).map_values(|r: VariantRule| r.id@),
            decreases rs@.len() - j,
        {
            let ghost before = texts(out@);
            out.push(rs[j].id.clone());
            assert(texts(out@) =~= before.push(rs@[j as int].id@));
            assert(rs@.take(j + 1).map_values(|r: VariantRule| r.id@) =~= rs@.take(j as int).map_values(
                |r: VariantRule| r.id@,
            ).push(rs@[j as int].id@));
            j = j + 1;
        }
        proof {
            assert(rs@.take(rs@.len() as int) =~= rs@);
            assert(ts@.take(i + 1).drop_last() =~= ts@.take(i as int));
        }
        i = i + 1;
    }
    assert(ts@.take(ts@.len() as int) =~= ts@);
    out
}

fn compacted_template(t: &Template, gids: &Vec<String>, tids: &Vec<String>, vids: &Vec<String>) -> (r: Template)
    ensures
        r@ == compact_template(t@, texts(gids@), texts(tids@), texts(vids@)),
{
    let mut rules: Vec<VariantRule> = Vec::new();
    let mut j: usize = 0;
    while j < t.variant_rules.len()
        invariant
            j <= t.variant_rules@.len(),
            rules@.len() == j,
            forall|k: int|
                0 <= k < j ==> (#[trigger] rules@[k])@ == compact_rule(t.variant_rules@[k]@, texts(gids@), texts(vids@)),
        decreases t.variant_rules@.len() - j,
    {
        let r = &t.variant_rules[j];
        rules.push(
            VariantRule {
                id: remap_lookup(vids, "vr_", r.id.as_str()),
                name: r.name.clone(),
                priority: r.priority,
                cho_set: r.cho_set.clone(),
                jung_set: r.jung_set.clone(),
                jong_set: r.jong_set.clone(),
                set_cho_group_id: opt_remap_lookup(gids, "grp_", &r.set_cho_group_id),
                set_jung_group_id: opt_remap_lookup(gids, "grp_", &r.set_jung_group_id),
                set_jong_group_id: opt_remap_lookup(gids, "grp_", &r.set_jong_group_id),
            },
        );
        j = j + 1;
    }
    let r = Template {
        id: remap_lookup(tids, "tpl_", t.id.as_str()),
        name: t.name.clone(),
        default_cho_group_id: remap_lookup(gids, "grp_", t.default_cho_group_id.as_str()),
        default_jung_group_id: remap_lookup(gids, "grp_", t.default_jung_group_id.as_str()),
        default_jong_group_id: opt_remap_lookup(gids, "grp_", &t.default_jong_group_id),
        variant_rules: rules,
    };
    assert(r@.variant_rules =~= compact_template(t@, texts(gids@), texts(tids@), texts(vids@)).variant_rules);
    r
}

} // verus!

verus! {

/// The position in `out` of the entry with key `k`.
fn find_entry(out: &Vec<(GlyphKey, PixelGlyph)>, k: &GlyphKey) -> (r: Option<usize>)
    ensures
        match r {
            Some(p) => p < out@.len() && out@[p as int].0@ == k@,
            None => forall|p: int| 0 <= p < out@.len() ==> out@[p].0@ != k@,
        },
{
    let mut p: usize = 0;
    while p < out.len()
        invariant
            p <= out@.len(),
            forall|q: int| 0 <= q < p ==> out@[q].0@ != k@,
        decreases out@.len() - p,
    {
        if out[p].0.same_as(k) {
            return Some(p);
        }
        p = p + 1;
    }
    None
}

/// Some entry of `out` has the renumbered key of `k`, with `k` itself or a greater key as
/// its origin.
pub open spec fn covered(g: Seq<Seq<char>>, k: KeyView, out: Seq<GlyphEntry>, origins: Seq<GlyphKey>) -> bool {
    exists|p: int|
        0 <= p < out.len() && #[trigger] out[p].0@ == remap_key(g, k) && (origins[p]@ == k || key_lt(
            k,
            origins[p]@,
        ))
}

/// The state of renumbering the store after its first `i` entries.
pub open spec fn compact_inv(
    g: Seq<Seq<char>>,
    s0: Seq<GlyphEntry>,
    i: int,
    out: Seq<GlyphEntry>,
    origins: Seq<GlyphKey>,
) -> bool {
    &&& keys_distinct(out)
    &&& out.len() == origins.len()
    &&& forall|p: int|
        0 <= p < out.len() ==> #[trigger] out[p].0@ == remap_key(g, origins[p]@) && exists|q: int|
            0 <= q < i && s0[q].0@ == origins[p]@ && out[p].1@ == s0[q].1@
    &&& forall|q: int| 0 <= q < i ==> covered(g, #[trigger] s0[q].0@, out, origins)
}

proof fn lemma_compact_push(
    g: Seq<Seq<char>>,
    s0: Seq<GlyphEntry>,
    i: int,
    out: Seq<GlyphEntry>,
    origins: Seq<GlyphKey>,
    e: GlyphEntry,
    o: GlyphKey,
)
    requires
        0 <= i < s0.len(),
        compact_inv(g, s0, i, out, origins),
        forall|p: int| 0 <= p < out.len() ==> out[p].0@ != e.0@,
        e.0@ == remap_key(g, s0[i].0@),
        e.1@ == s0[i].1@,
        o@ == s0[i].0@,
    ensures
        compact_inv(g, s0, i + 1, out.push(e), origins.push(o)),
{
    let out2 = out.push(e);
    let or2 = origins.push(o);
    assert forall|a: int, b: int| 0 <= a < out2.len() && 0 <= b < out2.len() && a != b implies out2[a].0@ != out2[b].0@ by {
        if a < out.len() && b < out.len() {
            assert(out2[a] == out[a] && out2[b] == out[b]);
        }
    }
    assert forall|p: int| 0 <= p < out2.len() implies #[trigger] out2[p].0@ == remap_key(g, or2[p]@) && exists|q: int|
        0 <= q < i + 1 && s0[q].0@ == or2[p]@ && out2[p].1@ == s0[q].1@ by {
        if p < out.len() {
            assert(out2[p] == out[p] && or2[p] == origins[p]);
            let q = choose|q: int| 0 <= q < i && s0[q].0@ == origins[p]@ && out[p].1@ == s0[q].1@;
        } else {
            assert(s0[i].0@ == or2[p]@);
        }
    }
    assert forall|q: int| 0 <= q < i + 1 implies covered(g, #[trigger] s0[q].0@, out2, or2) by {
        if q < i {
            let p = choose|p: int|
                0 <= p < out.len() && #[trigger] out[p].0@ == remap_key(g, s0[q].0@) && (origins[p]@ == s0[q].0@
                    || key_lt(s0[q].0@, origins[p]@));
            assert(out2[p] == out[p] && or2[p] == origins[p]);
        } else {
            assert(out2[out.len() as int].0@ == remap_key(g, s0[q].0@));
        }
    }
}

proof fn lemma_compact_replace(
    g: Seq<Seq<char>>,
    s0: Seq<GlyphEntry>,
    i: int,
    out: Seq<GlyphEntry>,
    origins: Seq<GlyphKey>,
    p: int,
    e: GlyphEntry,
    o: GlyphKey,
)
    requires
        0 <= i < s0.len(),
        keys_distinct(s0),
        compact_inv(g, s0, i, out, origins),
        0 <= p < out.len(),
        out[p].0@ == e.0@,
        e.0@ == remap_key(g, s0[i].0@),
        e.1@ == s0[i].1@,
        o@ == s0[i].0@,
        key_lt(origins[p]@, s0[i].0@),
    ensures
        compact_inv(g, s0, i + 1, out.update(p, e), origins.update(p, o)),
{
    let out2 = out.update(p, e);
    let or2 = origins.update(p, o);
    assert forall|a: int, b: int| 0 <= a < out2.len() && 0 <= b < out2.len() && a != b implies out2[a].0@ != out2[b].0@ by {
        assert(out2[a].0@ == out[a].0@ && out2[b].0@ == out[b].0@);
    }
    assert forall|x: int| 0 <= x < out2.len() implies #[trigger] out2[x].0@ == remap_key(g, or2[x]@) && exists|q: int|
        0 <= q < i + 1 && s0[q].0@ == or2[x]@ && out2[x].1@ == s0[q].1@ by {
        if x == p {
            assert(s0[i].0@ == or2[x]@);
        } else {
            assert(out2[x] == out[x] && or2[x] == origins[x]);
            let q = choose|q: int| 0 <= q < i && s0[q].0@ == origins[x]@ && out[x].1@ == s0[q].1@;
        }
    }
    assert forall|q: int| 0 <= q < i + 1 implies covered(g, #[trigger] s0[q].0@, out2, or2) by {
        if q < i {
            let x = choose|x: int|
                0 <= x < out.len() && #[trigger] out[x].0@ == remap_key(g, s0[q].0@) && (origins[x]@ == s0[q].0@
                    || key_lt(s0[q].0@, origins[x]@));
            if x == p {
                lemma_key_lt_order(s0[q].0@, origins[p]@, s0[i].0@);
                assert(out2[x].0@ == remap_key(g, s0[q].0@));
            } else {
                assert(out2[x] == out[x] && or2[x] == origins[x]);
            }
        } else {
            assert(out2[p].0@ == remap_key(g, s0[q].0@));
        }
    }
}

proof fn lemma_compact_keep(
    g: Seq<Seq<char>>,
    s0: Seq<GlyphEntry>,
    i: int,
    out: Seq<GlyphEntry>,
    origins: Seq<GlyphKey>,
    p: int,
)
    requires
        0 <= i < s0.len(),
        keys_distinct(s0),
        compact_inv(g, s0, i, out, origins),
        0 <= p < out.len(),
        out[p].0@ == remap_key(g, s0[i].0@),
        !key_lt(origins[p]@, s0[i].0@),
    ensures
        compact_inv(g, s0, i + 1, out, origins),
{
    let q = choose|q: int| 0 <= q < i && s0[q].0@ == origins[p]@ && out[p].1@ == s0[q].1@;
    assert(s0[q].0@ != s0[i].0@);
    lemma_key_lt_order(s0[i].0@, origins[p]@, s0[i].0@);
    assert(covered(g, s0[i].0@, out, origins));
    assert forall|x: int| 0 <= x < out.len() implies #[trigger] out[x].0@ == remap_key(g, origins[x]@) && exists|q: int|
        0 <= q < i + 1 && s0[q].0@ == origins[x]@ && out[x].1@ == s0[q].1@ by {
        let q = choose|q: int| 0 <= q < i && s0[q].0@ == origins[x]@ && out[x].1@ == s0[q].1@;
    }
    assert forall|q: int| 0 <= q < i + 1 implies covered(g, #[trigger] s0[q].0@, out, origins) by {}
}

/// The glyphs with their group ids renumbered; when several keys are renumbered to the
/// same key, the glyph of the greatest of them is kept.
fn compact_store(store: &GlyphStore, gids: &Vec<String>) -> (r: GlyphStore)
    requires
        store.wf(),
    ensures
        r.wf(),
        forall|nk: KeyView|
            #[trigger] r@.contains_key(nk) <==> exists|k: KeyView|
                store@.contains_key(k) && #[trigger] remap_key(texts(gids@), k) == nk,
        forall|k: KeyView|
            #[trigger] max_preimage(store@, texts(gids@), k) ==> r@.contains_key(remap_key(texts(gids@), k))
                && r@[remap_key(texts(gids@), k)] == store@[k],
{
    let ghost g = texts(gids@);
    let ghost s0 = store.glyphs@;
    let mut out: Vec<GlyphEntry> = Vec::new();
    let mut origins: Vec<GlyphKey> = Vec::new();
    let mut i: usize = 0;
    while i < store.glyphs.len()
        invariant
            g == texts(gids@),
            s0 == store.glyphs@,
            keys_distinct(s0),
            i <= s0.len(),
            compact_inv(g, s0, i as int, out@, origins@),
        decreases s0.len() - i,
    {
        let k = &store.glyphs[i].0;
        let v = &store.glyphs[i].1;
        let nk = GlyphKey { kind: k.kind, jamo: k.jamo, group_id: remap_lookup(gids, "grp_", k.group_id.as_str()) };
        let ghost o0 = out@;
        let ghost r0 = origins@;
        match find_entry(&out, &nk) {
            None => {
                let e = (nk, v.clone());
                let o = k.clone();
                proof {
                    lemma_compact_push(g, s0, i as int, o0, r0, e, o);
                }
                out.push(e);
                origins.push(o);
            },
            Some(p) => {
                if key_less(&origins[p], k) {
                    let e = (nk, v.clone());
                    let o = k.clone();
                    proof {
                        lemma_compact_replace(g, s0, i as int, o0, r0, p as int, e, o);
                    }
                    out.set(p, e);
                    origins.set(p, o);
                } else {
                    proof {
                        lemma_compact_keep(g, s0, i as int, o0, r0, p as int);
                    }
                }
            },
        }
        i = i + 1;
    }
    let r = GlyphStore { glyphs: out };
    proof {
        assert forall|nk: KeyView| #[trigger] r@.contains_key(nk) <==> exists|k: KeyView|
            store@.contains_key(k) && #[trigger] remap_key(g, k) == nk by {
            if r@.contains_key(nk) {
                let p = choose|p: int| 0 <= p < out@.len() && out@[p].0@ == nk;
                assert(out@[p].0@ == remap_key(g, origins@[p]@));
                let q = choose|q: int| 0 <= q < s0.len() && s0[q].0@ == origins@[p]@ && out@[p].1@ == s0[q].1@;
                assert(has_key(s0, s0[q].0@));
            }
            if exists|k: KeyView| store@.contains_key(k) && #[trigger] remap_key(g, k) == nk {
                let k = choose|k: KeyView| store@.contains_key(k) && #[trigger] remap_key(g, k) == nk;
                let q = choose|q: int| 0 <= q < s0.len() && s0[q].0@ == k;
                assert(covered(g, s0[q].0@, out@, origins@));
                let p = choose|p: int|
                    0 <= p < out@.len() && #[trigger] out@[p].0@ == remap_key(g, s0[q].0@) && (origins@[p]@ == s0[q].0@
                        || key_lt(s0[q].0@, origins@[p]@));
                assert(has_key(out@, nk));
            }
        }
        assert forall|k: KeyView| #[trigger] max_preimage(store@, g, k) implies r@.contains_key(remap_key(g, k))
            && r@[remap_key(g, k)] == store@[k] by {
            let q = choose|q: int| 0 <= q < s0.len() && s0[q].0@ == k;
            assert(covered(g, s0[q].0@, out@, origins@));
            let p = choose|p: int|
                0 <= p < out@.len() && #[trigger] out@[p].0@ == remap_key(g, s0[q].0@) && (origins@[p]@ == s0[q].0@
                    || key_lt(s0[q].0@, origins@[p]@));
            assert(out@[p].0@ == remap_key(g, origins@[p]@));
            let q2 = choose|q2: int| 0 <= q2 < s0.len() && s0[q2].0@ == origins@[p]@ && out@[p].1@ == s0[q2].1@;
            let o = origins@[p]@;
            assert(has_key(s0, o));
            assert(store@.contains_key(o));
            lemma_key_lt_order(k, o, k);
            if o != k {
                assert(key_lt(o, k));
            }
            assert(o == k);
            assert(has_key(out@, remap_key(g, k)));
            lemma_entry_in_view(out@, p);
            lemma_entry_in_view(s0, q2);
        }
    }
    r
}

} // verus!

verus! {

/// What `compact_ids` makes of project `a`: `b`.
pub open spec fn compacted(a: ProjectData, b: ProjectData) -> bool {
    let r0 = a.rules;
    let gids = group_ids(r0.groups@);
    let tids = template_ids(r0.templates@);
    let sids = selector_ids(r0.selectors@);
    let vids = rule_ids(r0.templates@);
    let r = b.rules;
    &&& b == (ProjectData { rules: r, store: b.store, ..a })
    &&& r.groups@.len() == r0.groups@.len()
    &&& forall|i: int|
        0 <= i < r0.groups@.len() ==> (#[trigger] r.groups@[i])@ == (GroupView {
            id: remap_id(gids, "grp_"@, r0.groups@[i].id@),
            ..r0.groups@[i]@
        })
    &&& r.base_cho_group_id@ == remap_id(gids, "grp_"@, r0.base_cho_group_id@)
    &&& r.base_jung_group_id@ == remap_id(gids, "grp_"@, r0.base_jung_group_id@)
    &&& r.base_jong_group_id@ == remap_id(gids, "grp_"@, r0.base_jong_group_id@)
    &&& r.templates@.len() == r0.templates@.len()
    &&& forall|i: int|
        0 <= i < r0.templates@.len() ==> (#[trigger] r.templates@[i])@ == compact_template(
            r0.templates@[i]@,
            gids,
            tids,
            vids,
        )
    &&& r.selectors@.len() == r0.selectors@.len()
    &&& forall|i: int|
        0 <= i < r0.selectors@.len() ==> (#[trigger] r.selectors@[i])@ == compact_selector(
            r0.selectors@[i]@,
            tids,
            sids,
        )
    &&& r.next_group_seq == r0.groups@.len()
    &&& r.next_template_seq == r0.templates@.len()
    &&& r.next_selector_seq == r0.selectors@.len()
    &&& r.next_variant_seq == vids.len()
    &&& b.store.wf()
    &&& forall|nk: KeyView|
        #[trigger] b.store@.contains_key(nk) <==> exists|k: KeyView|
            a.store@.contains_key(k) && #[trigger] remap_key(gids, k) == nk
    &&& forall|k: KeyView|
        #[trigger] max_preimage(a.store@, gids, k) ==> b.store@.contains_key(
            remap_key(gids, k),
        ) && b.store@[remap_key(gids, k)] == a.store@[k]
}

/// Renumbers every id of the project: the groups, templates and selectors by their
/// position (`grp_`, `tpl_`, `sel_` and six digits; an id that occurs more than once
/// takes its last position), the variant rules by their position over all templates
/// (`vr_`), every reference accordingly, and the glyph keys; the id counters then start
/// after the last numbers.
pub fn compact_ids(data: &mut ProjectData)
    requires
        old(data).store.wf(),
    ensures
        compacted(*old(data), *final(data)),
{
    let gids = group_id_texts(&data.rules.groups);
    let tids = template_id_list(&data.rules.templates);
    let sids = selector_id_list(&data.rules.selectors);
    let vids = rule_id_list(&data.rules.templates);
    let ghost r0 = data.rules;
    let ghost d0 = *data;

    let mut i: usize = 0;
    while i < data.rules.groups.len()
        invariant
            *data == (ProjectData { rules: data.rules, ..d0 }),
            data.rules == (RuleSystem { groups: data.rules.groups, ..r0 }),
            texts(gids@) == group_ids(r0.groups@),
            data.rules.groups@.len() == r0.groups@.len(),
            i <= r0.groups@.len(),
            forall|k: int|
                0 <= k < i ==> (#[trigger] data.rules.groups@[k])@ == (GroupView {
                    id: remap_id(group_ids(r0.groups@), "grp_"@, r0.groups@[k].id@),
                    ..r0.groups@[k]@
                }),
            forall|k: int| i <= k < r0.groups@.len() ==> #[trigger] data.rules.groups@[k] == r0.groups@[k],
        decreases r0.groups@.len() - i,
    {
        let nid = remap_lookup(&gids, "grp_", data.rules.groups[i].id.as_str());
        let g = &mut data.rules.groups[i];
        g.id = nid;
        i = i + 1;
    }
    let nb = remap_lookup(&gids, "grp_", data.rules.base_cho_group_id.as_str());
    data.rules.base_cho_group_id = nb;
    let nb = remap_lookup(&gids, "grp_", data.rules.base_jung_group_id.as_str());
    data.rules.base_jung_group_id = nb;
    let nb = remap_lookup(&gids, "grp_", data.rules.base_jong_group_id.as_str());
    data.rules.base_jong_group_id = nb;
    let ghost r1 = data.rules;

    let mut i: usize = 0;
    while i < data.rules.templates.len()
        invariant
            *data == (ProjectData { rules: data.rules, ..d0 }),
            data.rules == (RuleSystem { templates: data.rules.templates, ..r1 }),
            r1.templates == r0.templates,
            texts(gids@) == group_ids(r0.groups@),
            texts(tids@) == template_ids(r0.templates@),
            texts(vids@) == rule_ids(r0.templates@),
            data.rules.templates@.len() == r0.templates@.len(),
            i <= r0.templates@.len(),
            forall|k: int|
                0 <= k < i ==> (#[trigger] data.rules.templates@[k])@ == compact_template(
                    r0.templates@[k]@,
                    texts(gids@),
                    texts(tids@),
                    texts(vids@),
                ),
            forall|k: int| i <= k < r0.templates@.len() ==> #[trigger] data.rules.templates@[k] == r0.templates@[k],
        decreases r0.templates@.len() - i,
    {
        let nt = compacted_template(&data.rules.templates[i], &gids, &tids, &vids);
        data.rules.templates.set(i, nt);
        i = i + 1;
    }
    let ghost r2 = data.rules;

    let mut i: usize = 0;
    while i < data.rules.selectors.len()
        invariant
            *data == (ProjectData { rules: data.rules, ..d0 }),
            data.rules == (RuleSystem { selectors: data.rules.selectors, ..r2 }),
            r2.selectors == r0.selectors,
            texts(tids@) == template_ids(r0.templates@),
            texts(sids@) == selector_ids(r0.selectors@),
            data.rules.selectors@.len() == r0.selectors@.len(),
            i <= r0.selectors@.len(),
            forall|k: int|
                0 <= k < i ==> (#[trigger] data.rules.selectors@[k])@ == compact_selector(
                    r0.selectors@[k]@,
                    texts(tids@),
                    texts(sids@),
                ),
            forall|k: int| i <= k < r0.selectors@.len() ==> #[trigger] data.rules.selectors@[k] == r0.selectors@[k],
        decreases r0.selectors@.len() - i,
    {
        let x = &data.rules.selectors[i];
        let ns = SelectorRule {
            id: remap_lookup(&sids, "sel_", x.id.as_str()),
            name: x.name.clone(),
            priority: x.priority,
            cho_set: x.cho_set.clone(),
            jung_set: x.jung_set.clone(),
            jong_set: x.jong_set.clone(),
            template_id: remap_lookup(&tids, "tpl_", x.template_id.as_str()),
        };
        data.rules.selectors.set(i, ns);
        i = i + 1;
    }

    let new_store = compact_store(&data.store, &gids);
    data.store = new_store;

    let n_grp = data.rules.groups.len() as u64;
    let n_tpl = data.rules.templates.len() as u64;
    let n_sel = data.rules.selectors.len() as u64;
    let vr_seq = vids.len() as u64;
    data.rules.reset_seqs(n_grp, n_tpl, n_sel, vr_seq);
}

} // verus!

verus! {

/// Renumbering an id that occurs in the list gives the prefix with the id's last position.
proof fn lemma_remap_present(ids: Seq<Seq<char>>, prefix: Seq<char>, i: int)
    requires
        0 <= i < ids.len(),
    ensures
        exists|j: int|
            0 <= j < ids.len() && ids[j] == ids[i] && remap_id(ids, prefix, ids[i]) == seq_id(prefix, j as u64)
                && forall|m: int| j < m < ids.len() ==> ids[m] != ids[i],
{
    let f = |s: Seq<char>| s == ids[i];
    lemma_last_index_props(ids, f);
    if last_index(ids, f) is None {
        assert(!f(ids[i]));
    }
    let j = last_index(ids, f)->0;
    assert(f(ids[j]));
    assert forall|m: int| j < m < ids.len() implies ids[m] != ids[i] by {
        assert(!f(ids[m]));
    }
}

/// With distinct ids, renumbering gives each id its own position: `compact_ids` numbers
/// groups (and templates, selectors, rules) with distinct ids 0, 1, 2, ... in order.
pub proof fn lemma_compact_sequential(ids: Seq<Seq<char>>, prefix: Seq<char>, i: int)
    requires
        ids.no_duplicates(),
        0 <= i < ids.len(),
    ensures
        remap_id(ids, prefix, ids[i]) == seq_id(prefix, i as u64),
{
    let f = |s: Seq<char>| s == ids[i];
    assert forall|m: int| i < m < ids.len() implies !f(ids[m]) by {}
    lemma_last_index_is(ids, f, i);
}

/// Renumbering twice gives the same ids as renumbering once (ids below `u64::MAX` in
/// number), which makes `compact_ids` idempotent on ids.
pub proof fn lemma_compact_idempotent(ids: Seq<Seq<char>>, prefix: Seq<char>, i: int)
    requires
        0 <= i < ids.len(),
        ids.len() <= u64::MAX,
    ensures
        ({
            let nids = Seq::new(ids.len(), |j: int| remap_id(ids, prefix, ids[j]));
            remap_id(nids, prefix, nids[i]) == nids[i]
        }),
{
    let nids = Seq::new(ids.len(), |j: int| remap_id(ids, prefix, ids[j]));
    lemma_remap_present(ids, prefix, i);
    let li = choose|j: int|
        0 <= j < ids.len() && ids[j] == ids[i] && remap_id(ids, prefix, ids[i]) == seq_id(prefix, j as u64)
            && forall|m: int| j < m < ids.len() ==> ids[m] != ids[i];
    assert forall|m: int| 0 <= m < ids.len() implies (nids[m] == nids[i] <==> ids[m] == ids[i]) by {
        lemma_remap_present(ids, prefix, m);
        let lm = choose|j: int|
            0 <= j < ids.len() && ids[j] == ids[m] && remap_id(ids, prefix, ids[m]) == seq_id(prefix, j as u64)
                && forall|q: int| j < q < ids.len() ==> ids[q] != ids[m];
        crate::rule_system::lemma_seq_id_injective(prefix, lm as u64, li as u64);
        if ids[m] == ids[i] {
            if lm < li {
                assert(ids[li] == ids[m]);
            }
            if li < lm {
                assert(ids[lm] == ids[i]);
            }
        }
    }
    let f = |s: Seq<char>| s == nids[i];
    assert(nids[li] == nids[i]);
    assert forall|m: int| li < m < nids.len() implies !f(nids[m]) by {
        assert(ids[m] != ids[i]);
    }
    lemma_last_index_is(nids, f, li);
}

/// After renumbering, the next number is free: no renumbered id equals the prefix with
/// the list's length, so the first id made after `compact_ids` collides with none.
pub proof fn lemma_compact_next_free(ids: Seq<Seq<char>>, prefix: Seq<char>, i: int)
    requires
        0 <= i < ids.len(),
        ids.len() <= u64::MAX,
    ensures
        remap_id(ids, prefix, ids[i]) != seq_id(prefix, ids.len() as u64),
{
    lemma_remap_present(ids, prefix, i);
    let j = choose|j: int|
        0 <= j < ids.len() && ids[j] == ids[i] && remap_id(ids, prefix, ids[i]) == seq_id(prefix, j as u64)
            && forall|m: int| j < m < ids.len() ==> ids[m] != ids[i];
    crate::rule_system::lemma_seq_id_injective(prefix, j as u64, ids.len() as u64);
}

/// After renumbering, renumbering by the new ids changes no id at all: an id among them
/// keeps its number, and any other id is left as it is.
pub proof fn lemma_renumbered_fixed(ids: Seq<Seq<char>>, prefix: Seq<char>, y: Seq<char>)
    requires
        ids.len() <= u64::MAX,
    ensures
        ({
            let nids = Seq::new(ids.len(), |j: int| remap_id(ids, prefix, ids[j]));
            remap_id(nids, prefix, y) == y
        }),
{
    let nids = Seq::new(ids.len(), |j: int| remap_id(ids, prefix, ids[j]));
    let f = |s: Seq<char>| s == y;
    lemma_last_index_props(nids, f);
    if let Some(k) = last_index(nids, f) {
        assert(nids[k] == y);
        lemma_compact_idempotent(ids, prefix, k);
    }
}

/// Two lists of templates whose variant rules match one to one, the ids of the second
/// given by `f` from those of the first, have rule id lists that `f` relates.
proof fn lemma_rule_ids_map(ta: Seq<Template>, tb: Seq<Template>, f: spec_fn(Seq<char>) -> Seq<char>)
    requires
        ta.len() == tb.len(),
        forall|i: int|
            0 <= i < ta.len() ==> (#[trigger] tb[i]).variant_rules@.len() == ta[i].variant_rules@.len(),
        forall|i: int, j: int|
            0 <= i < ta.len() && 0 <= j < ta[i].variant_rules@.len() ==> (#[trigger] tb[i].variant_rules@[j]).id@
                == f(ta[i].variant_rules@[j].id@),
    ensures
        rule_ids(tb) == rule_ids(ta).map_values(f),
    decreases ta.len(),
{
    if ta.len() > 0 {
        let n = ta.len() - 1;
        assert forall|i: int| 0 <= i < n implies (#[trigger] tb.drop_last()[i]).variant_rules@.len()
            == ta.drop_last()[i].variant_rules@.len() by {
            assert(tb.drop_last()[i] == tb[i]);
            assert(ta.drop_last()[i] == ta[i]);
        }
        assert forall|i: int, j: int| 0 <= i < n && 0 <= j < ta.drop_last()[i].variant_rules@.len() implies (
        #[trigger] tb.drop_last()[i].variant_rules@[j]).id@ == f(ta.drop_last()[i].variant_rules@[j].id@) by {
            assert(tb.drop_last()[i] == tb[i]);
            assert(ta.drop_last()[i] == ta[i]);
        }
        lemma_rule_ids_map(ta.drop_last(), tb.drop_last(), f);
        let la = ta.last().variant_rules@.map_values(|r: VariantRule| r.id@);
        let lb = tb.last().variant_rules@.map_values(|r: VariantRule| r.id@);
        assert(lb =~= la.map_values(f)) by {
            assert forall|j: int| 0 <= j < lb.len() implies lb[j] == la.map_values(f)[j] by {
                assert(tb[n].variant_rules@[j].id@ == f(ta[n].variant_rules@[j].id@));
            }
        }
        assert(rule_ids(tb) =~= rule_ids(ta).map_values(f));
    }
}

/// Renumbering a project a second time changes nothing: the rules, with every id, every
/// reference and the id counters, and the glyphs stay as the first renumbering left them.
pub proof fn lemma_compact_twice(a: ProjectData, b: ProjectData, c: ProjectData)
    requires
        compacted(a, b),
        compacted(b, c),
    ensures
        c.rules@ == b.rules@,
        c.store@ == b.store@,
        c == (ProjectData { rules: c.rules, store: c.store, ..b }),
{
    let ra = a.rules;
    let rb = b.rules;
    let rc = c.rules;
    let ga = group_ids(ra.groups@);
    let ta = template_ids(ra.templates@);
    let sa = selector_ids(ra.selectors@);
    let va = rule_ids(ra.templates@);
    let gb = group_ids(rb.groups@);
    let tb = template_ids(rb.templates@);
    let sb = selector_ids(rb.selectors@);
    let vb = rule_ids(rb.templates@);
    // The new id lists are the renumbered old ones.
    assert(gb =~= Seq::new(ga.len(), |j: int| remap_id(ga, "grp_"@, ga[j]))) by {
        assert forall|j: int| 0 <= j < gb.len() implies gb[j] == remap_id(ga, "grp_"@, ga[j]) by {
            assert(rb.groups@[j]@.id == rb.groups@[j].id@);
        }
    }
    assert(tb =~= Seq::new(ta.len(), |j: int| remap_id(ta, "tpl_"@, ta[j]))) by {
        assert forall|j: int| 0 <= j < tb.len() implies tb[j] == remap_id(ta, "tpl_"@, ta[j]) by {
            assert(rb.templates@[j]@.id == rb.templates@[j].id@);
        }
    }
    assert(sb =~= Seq::new(sa.len(), |j: int| remap_id(sa, "sel_"@, sa[j]))) by {
        assert forall|j: int| 0 <= j < sb.len() implies sb[j] == remap_id(sa, "sel_"@, sa[j]) by {
            assert(rb.selectors@[j]@.id == rb.selectors@[j].id@);
        }
    }
    let fv = |x: Seq<char>| remap_id(va, "vr_"@, x);
    assert forall|i: int| 0 <= i < ra.templates@.len() implies (#[trigger] rb.templates@[i]).variant_rules@.len()
        == ra.templates@[i].variant_rules@.len() by {
        assert(rb.templates@[i]@.variant_rules.len() == rb.templates@[i].variant_rules@.len());
        assert(ra.templates@[i]@.variant_rules.len() == ra.templates@[i].variant_rules@.len());
    }
    assert forall|i: int, j: int|
        0 <= i < ra.templates@.len() && 0 <= j < ra.templates@[i].variant_rules@.len() implies (
        #[trigger] rb.templates@[i].variant_rules@[j]).id@ == fv(ra.templates@[i].variant_rules@[j].id@) by {
        assert(rb.templates@[i]@.variant_rules[j] == rb.templates@[i].variant_rules@[j]@);
        assert(ra.templates@[i]@.variant_rules[j] == ra.templates@[i].variant_rules@[j]@);
    }
    lemma_rule_ids_map(ra.templates@, rb.templates@, fv);
    assert(vb =~= Seq::new(va.len(), |j: int| remap_id(va, "vr_"@, va[j])));
    // Every id is a fixed point of the second renumbering.
    assert forall|y: Seq<char>| #[trigger] remap_id(gb, "grp_"@, y) == y by {
        lemma_renumbered_fixed(ga, "grp_"@, y);
    }
    assert forall|y: Seq<char>| #[trigger] remap_id(tb, "tpl_"@, y) == y by {
        lemma_renumbered_fixed(ta, "tpl_"@, y);
    }
    assert forall|y: Seq<char>| #[trigger] remap_id(sb, "sel_"@, y) == y by {
        lemma_renumbered_fixed(sa, "sel_"@, y);
    }
    assert forall|y: Seq<char>| #[trigger] remap_id(vb, "vr_"@, y) == y by {
        lemma_renumbered_fixed(va, "vr_"@, y);
    }
    // Rules.
    assert(rc@.groups =~= rb@.groups) by {
        assert forall|i: int| 0 <= i < rb.groups@.len() implies rc@.groups[i] == rb@.groups[i] by {
            assert(rc.groups@[i]@ == rc@.groups[i]);
            assert(rb.groups@[i]@ == rb@.groups[i]);
        }
    }
    assert(rc@.templates =~= rb@.templates) by {
        assert forall|i: int| 0 <= i < rb.templates@.len() implies rc@.templates[i] == rb@.templates[i] by {
            let t = rb.templates@[i]@;
            assert(rc.templates@[i]@ == rc@.templates[i]);
            assert(t == rb@.templates[i]);
            let n = compact_template(t, gb, tb, vb);
            assert(n.variant_rules =~= t.variant_rules) by {
                assert forall|j: int| 0 <= j < t.variant_rules.len() implies n.variant_rules[j] == t.variant_rules[j] by {
                    let r = t.variant_rules[j];
                    assert(remap_id(vb, "vr_"@, r.id) == r.id);
                    match r.set_cho {
                        Some(x) => assert(remap_id(gb, "grp_"@, x) == x),
                        None => {},
                    }
                    match r.set_jung {
                        Some(x) => assert(remap_id(gb, "grp_"@, x) == x),
                        None => {},
                    }
                    match r.set_jong {
                        Some(x) => assert(remap_id(gb, "grp_"@, x) == x),
                        None => {},
                    }
                }
            }
            assert(remap_id(tb, "tpl_"@, t.id) == t.id);
            assert(remap_id(gb, "grp_"@, t.default_cho) == t.default_cho);
            assert(remap_id(gb, "grp_"@, t.default_jung) == t.default_jung);
            match t.default_jong {
                Some(x) => assert(remap_id(gb, "grp_"@, x) == x),
                None => {},
            }
        }
    }
    assert(rc@.selectors =~= rb@.selectors) by {
        assert forall|i: int| 0 <= i < rb.selectors@.len() implies rc@.selectors[i] == rb@.selectors[i] by {
            let x = rb.selectors@[i]@;
            assert(rc.selectors@[i]@ == rc@.selectors[i]);
            assert(x == rb@.selectors[i]);
            assert(remap_id(sb, "sel_"@, x.id) == x.id);
            assert(remap_id(tb, "tpl_"@, x.template_id) == x.template_id);
        }
    }
    assert(remap_id(gb, "grp_"@, rb.base_cho_group_id@) == rb.base_cho_group_id@);
    assert(remap_id(gb, "grp_"@, rb.base_jung_group_id@) == rb.base_jung_group_id@);
    assert(remap_id(gb, "grp_"@, rb.base_jong_group_id@) == rb.base_jong_group_id@);
    // Glyphs.
    assert forall|k: KeyView| #[trigger] remap_key(gb, k) == k by {
        assert(remap_id(gb, "grp_"@, k.2) == k.2);
    }
    assert forall|k: KeyView| #[trigger] c.store@.contains_key(k) <==> b.store@.contains_key(k) by {
        if b.store@.contains_key(k) {
            assert(remap_key(gb, k) == k);
        }
    }
    assert forall|k: KeyView| #[trigger] b.store@.contains_key(k) implies c.store@[k] == b.store@[k] by {
        assert(remap_key(gb, k) == k);
        assert forall|k2: KeyView|
            #[trigger] b.store@.contains_key(k2) && remap_key(gb, k2) == remap_key(gb, k) && k2 != k implies key_lt(
            k2,
            k,
        ) by {
            assert(remap_key(gb, k2) == k2);
        }
        assert(max_preimage(b.store@, gb, k));
    }
    assert(c.store@ =~= b.store@);
}

} // verus!
