use vstd::prelude::*;

use crate::charset::contains_char;
use crate::compact::{compact_ids, compacted};
use crate::file_format::{
    key_from_str, key_parse, key_text, key_to_str, lemma_key_text_roundtrip, lemma_pixel_rows_roundtrip,
    pixels_to_str, rows_fit, rows_pixels,
    rows_text, rows_to_pixels, ws_tokens,
};
use crate::engine::{jong_arg, layout_opt_view, spec_layout, LayoutEngine, LayoutView, PlacedPart};
use crate::glyph::{
    has_key, keys_distinct, lemma_entry_in_view, lemma_masked_view, value_at, GlyphEntry, GlyphKey, GlyphStore,
    KeyView, PixelGlyph,
};
use crate::groups::{ComponentGroup, GroupView};
use crate::hangul::{
    all_hangul_syllables, allowed_chars_extended, allowed_chars_for_target, allowed_ext_table,
    allowed_table, decompose_hangul, get_jamo_char, spec_decompose, spec_jamo_char,
};
use crate::rule_system::{RuleSystem, RulesView};
use crate::rules::{opt_view, SelectorRule, SelectorView, Template, TemplateView, VariantRule, VariantView};
use crate::idlist::{has_id, id_position};
use crate::seqs::{last_index, lemma_last_index_is, lemma_last_index_props};
use crate::text::{clone_opt_string, str_eq, string_from};
use crate::types::HangulComponent;

verus! {

/// An open project: canvas size, glyphs, rules and old-Hangul settings.
pub struct ProjectData {
    pub version: String,
    pub canvas_w: i32,
    pub canvas_h: i32,
    pub store: GlyphStore,
    pub rules: RuleSystem,
    pub old_hangul_enabled: bool,
    pub archaic_jamo_map: Vec<(char, char)>,
}

/// A project as it is written to a file: each glyph under the text form of its key with
/// its pixels as row text, in store order.
pub struct ProjectFile {
    pub version: String,
    pub canvas_w: i32,
    pub canvas_h: i32,
    pub glyphs: Vec<(String, String)>,
    pub rules: RuleSystem,
    pub old_hangul_enabled: bool,
    pub archaic_jamo_map: Vec<(char, char)>,
}

pub fn clone_pairs(v: &Vec<(char, char)>) -> (r: Vec<(char, char)>)
    ensures
        r@ == v@,
{
    let mut out: Vec<(char, char)> = Vec::new();
    let mut i: usize = 0;
    while i < v.len()
        invariant
            i <= v@.len(),
            out@ == v@.take(i as int),
        decreases v@.len() - i,
    {
        out.push(v[i]);
        assert(v@.take(i + 1) =~= v@.take(i as int).push(v@[i as int]));
        i = i + 1;
    }
    assert(v@.take(v@.len() as int) =~= v@);
    out
}

impl ProjectData {
    /// A project holding copies of the editor's state, at file version 1.0.0.
    pub fn from_editor(
        canvas_w: i32,
        canvas_h: i32,
        store: &GlyphStore,
        rules: &RuleSystem,
        old_hangul_enabled: bool,
        archaic_jamo_map: Vec<(char, char)>,
    ) -> (r: Self)
        ensures
            r.version@ == "1.0.0"@,
            r.canvas_w == canvas_w,
            r.canvas_h == canvas_h,
            store.wf() ==> r.store.wf() && r.store@ == store@,
            r.rules@ == rules@,
            r.old_hangul_enabled == old_hangul_enabled,
            r.archaic_jamo_map == archaic_jamo_map,
    {
        ProjectData {
            version: string_from("1.0.0"),
            canvas_w,
            canvas_h,
            store: store.clone(),
            rules: rules.clone(),
            old_hangul_enabled,
            archaic_jamo_map,
        }
    }
}

/// The file entries of a store: each key's text with its pixels as row text.
pub open spec fn file_entries(
    glyphs: Seq<(GlyphKey, PixelGlyph)>,
    w: i32,
    h: i32,
) -> Seq<(Seq<char>, Seq<char>)> {
    glyphs.map_values(
        |e: (GlyphKey, PixelGlyph)|
            (key_text(e.0.kind, e.0.jamo, e.0.group_id@), rows_text(e.1@, w, h as int)),
    )
}

/// The texts of the file entries.
pub open spec fn entries_view(v: Seq<(String, String)>) -> Seq<(Seq<char>, Seq<char>)> {
    v.map_values(|e: (String, String)| (e.0@, e.1@))
}

/// The project in its file form.
pub fn to_file_format(data: &ProjectData) -> (r: ProjectFile)
    requires
        -6 <= data.canvas_w <= 64,
    ensures
        r.version@ == "1.0.0"@,
        r.canvas_w == data.canvas_w,
        r.canvas_h == data.canvas_h,
        entries_view(r.glyphs@) == file_entries(data.store.glyphs@, data.canvas_w, data.canvas_h),
        r.rules@ == data.rules@,
        r.old_hangul_enabled == data.old_hangul_enabled,
        r.archaic_jamo_map@ == data.archaic_jamo_map@,
{
    let mut glyphs: Vec<(String, String)> = Vec::new();
    let mut i: usize = 0;
    while i < data.store.glyphs.len()
        invariant
            -6 <= data.canvas_w <= 64,
            i <= data.store.glyphs@.len(),
            entries_view(glyphs@) == file_entries(data.store.glyphs@.take(i as int), data.canvas_w, data.canvas_h),
        decreases data.store.glyphs@.len() - i,
    {
        let e = &data.store.glyphs[i];
        let k = key_to_str(e.0.kind, e.0.jamo, e.0.group_id.as_str());
        let p = pixels_to_str(&e.1.pixels, data.canvas_w, data.canvas_h);
        let ghost before = glyphs@;
        glyphs.push((k, p));
        proof {
            assert(data.store.glyphs@.take(i + 1) =~= data.store.glyphs@.take(i as int).push(*e));
            assert(entries_view(glyphs@) =~= entries_view(before).push((k@, p@)));
        }
        i = i + 1;
    }
    proof {
        assert(data.store.glyphs@.take(data.store.glyphs@.len() as int) =~= data.store.glyphs@);
    }
    ProjectFile {
        version: string_from("1.0.0"),
        canvas_w: data.canvas_w,
        canvas_h: data.canvas_h,
        glyphs,
        rules: data.rules.clone(),
        old_hangul_enabled: data.old_hangul_enabled,
        archaic_jamo_map: clone_pairs(&data.archaic_jamo_map),
    }
}

/// The glyphs the file entries give, read in order: entries whose key does not read back
/// are skipped, and a later entry for the same key replaces an earlier one.
pub open spec fn entries_map(entries: Seq<(Seq<char>, Seq<char>)>) -> Map<KeyView, Set<(i32, i32)>>
    decreases entries.len(),
{
    if entries.len() == 0 {
        Map::empty()
    } else {
        let prev = entries_map(entries.drop_last());
        let e = entries.last();
        match key_parse(e.0) {
            Some(k) => prev.insert(k, rows_pixels(ws_tokens(e.1))),
            None => prev,
        }
    }
}

/// Every entry whose key reads back has row text that reads back without overflow.
pub open spec fn entries_fit(entries: Seq<(Seq<char>, Seq<char>)>) -> bool {
    forall|i: int|
        0 <= i < entries.len() && (#[trigger] key_parse(entries[i].0)) is Some ==> rows_fit(
            ws_tokens(entries[i].1),
        )
}

/// The project a file describes, before it is checked.
pub fn from_file_format(file: ProjectFile) -> (r: ProjectData)
    requires
        entries_fit(entries_view(file.glyphs@)),
    ensures
        r.version == file.version,
        r.canvas_w == file.canvas_w,
        r.canvas_h == file.canvas_h,
        r.store.wf(),
        r.store@ == entries_map(entries_view(file.glyphs@)),
        r.rules == file.rules,
        r.old_hangul_enabled == file.old_hangul_enabled,
        r.archaic_jamo_map == file.archaic_jamo_map,
{
    let ghost es = entries_view(file.glyphs@);
    let mut store = GlyphStore::default();
    let mut i: usize = 0;
    while i < file.glyphs.len()
        invariant
            es == entries_view(file.glyphs@),
            entries_fit(es),
            i <= file.glyphs@.len(),
            store.wf(),
            store@ == entries_map(es.take(i as int)),
        decreases file.glyphs@.len() - i,
    {
        let e = &file.glyphs[i];
        proof {
            assert(es.take(i + 1).drop_last() =~= es.take(i as int));
            assert(es.take(i + 1).last() == es[i as int]);
            assert(es[i as int] == (e.0@, e.1@));
        }
        match key_from_str(e.0.as_str()) {
            Some((kind, jamo, gid)) => {
                assert(key_parse(es[i as int].0) is Some);
                assert(rows_fit(ws_tokens(es[i as int].1)));
                let pixels = rows_to_pixels(e.1.as_str());
                store.insert_glyph(GlyphKey { kind, jamo, group_id: gid }, PixelGlyph { pixels });
            },
            None => {},
        }
        i = i + 1;
    }
    proof {
        assert(es.take(i as int) =~= es);
    }
    ProjectData {
        version: file.version,
        canvas_w: file.canvas_w,
        canvas_h: file.canvas_h,
        store,
        rules: file.rules,
        old_hangul_enabled: file.old_hangul_enabled,
        archaic_jamo_map: file.archaic_jamo_map,
    }
}

} // verus!

verus! {

/// The jamo a group of the component may hold: the modern ones, with the archaic ones
/// when old Hangul is on.
pub open spec fn allowed_chars(kind: HangulComponent, ext: bool) -> Seq<char> {
    if ext {
        allowed_ext_table(kind)
    } else {
        allowed_table(kind)
    }
}

/// The predicate "may stand in a group of the component".
pub open spec fn in_allowed(kind: HangulComponent, ext: bool) -> spec_fn(char) -> bool {
    |c: char| allowed_chars(kind, ext).contains(c)
}

pub(crate) fn build_allowed_set(kind: HangulComponent, old_hangul_enabled: bool) -> (r: Vec<char>)
    ensures
        r@ == allowed_chars(kind, old_hangul_enabled),
{
    if old_hangul_enabled {
        allowed_chars_extended(kind)
    } else {
        allowed_chars_for_target(kind)
    }
}

fn filter_allowed(members: &Vec<char>, allowed: &Vec<char>, kind: HangulComponent, ext: bool) -> (r: Vec<char>)
    requires
        allowed@ == allowed_chars(kind, ext),
    ensures
        r@ == members@.filter(in_allowed(kind, ext)),
{
    let mut out: Vec<char> = Vec::new();
    let mut j: usize = 0;
    while j < members.len()
        invariant
            allowed@ == allowed_chars(kind, ext),
            j <= members@.len(),
            out@ == members@.take(j as int).filter(in_allowed(kind, ext)),
        decreases members@.len() - j,
    {
        let c = members[j];
        proof {
            reveal_with_fuel(Seq::<_>::filter, 1);
            assert(members@.take(j + 1).drop_last() =~= members@.take(j as int));
            assert(members@.take(j + 1).last() == c);
        }
        if contains_char(allowed, c) {
            out.push(c);
        }
        j = j + 1;
    }
    proof {
        assert(members@.take(members@.len() as int) =~= members@);
    }
    out
}

/// `b` is `a` with every group's jamo that may not stand in it dropped.
pub open spec fn members_sanitized(a: RuleSystem, b: RuleSystem, ext: bool) -> bool {
    &&& b == (RuleSystem { groups: b.groups, ..a })
    &&& b.groups@.len() == a.groups@.len()
    &&& forall|i: int|
        0 <= i < a.groups@.len() ==> (#[trigger] b.groups@[i]) == (ComponentGroup {
            members: b.groups@[i].members,
            ..a.groups@[i]
        }) && b.groups@[i].members@ == a.groups@[i].members@.filter(in_allowed(a.groups@[i].target, ext))
}

/// Drops from every group the jamo that may not stand in it.
fn sanitize_group_members(rules: &mut RuleSystem, old_hangul_enabled: bool)
    ensures
        members_sanitized(*old(rules), *final(rules), old_hangul_enabled),
{
    let ghost g0 = rules.groups@;
    let mut i: usize = 0;
    while i < rules.groups.len()
        invariant
            *rules == (RuleSystem { groups: rules.groups, ..*old(rules) }),
            g0 == old(rules).groups@,
            rules.groups@.len() == g0.len(),
            i <= g0.len(),
            forall|k: int|
                0 <= k < i ==> (#[trigger] rules.groups@[k]) == (ComponentGroup {
                    members: rules.groups@[k].members,
                    ..g0[k]
                }) && rules.groups@[k].members@ == g0[k].members@.filter(
                    in_allowed(g0[k].target, old_hangul_enabled),
                ),
            forall|k: int| i <= k < g0.len() ==> #[trigger] rules.groups@[k] == g0[k],
        decreases g0.len() - i,
    {
        let target = rules.groups[i].target;
        let allowed = build_allowed_set(target, old_hangul_enabled);
        let kept = filter_allowed(&rules.groups[i].members, &allowed, target, old_hangul_enabled);
        let g = &mut rules.groups[i];
        g.members = kept;
        i = i + 1;
    }
}

/// Some string of `ids` reads `s`.
pub open spec fn ids_has(ids: Seq<String>, s: Seq<char>) -> bool {
    exists|i: int| 0 <= i < ids.len() && #[trigger] ids[i]@ == s
}

fn contains_string(ids: &Vec<String>, s: &str) -> (r: bool)
    ensures
        r == ids_has(ids@, s@),
{
    let mut i: usize = 0;
    while i < ids.len()
        invariant
            i <= ids@.len(),
            forall|k: int| 0 <= k < i ==> ids@[k]@ != s@,
        decreases ids@.len() - i,
    {
        if str_eq(ids[i].as_str(), s) {
            return true;
        }
        i = i + 1;
    }
    false
}

/// The position of the first group of the component.
pub open spec fn first_of_target(groups: Seq<ComponentGroup>, t: HangulComponent) -> Option<int> {
    crate::seqs::first_index(groups, |g: ComponentGroup| g.target == t)
}

/// A base group id that names no group gives way to the first group of its component,
/// when there is one.
pub open spec fn fixed_base(
    cur: Seq<char>,
    ids: Seq<String>,
    groups: Seq<ComponentGroup>,
    t: HangulComponent,
) -> Seq<char> {
    if ids_has(ids, cur) {
        cur
    } else {
        match first_of_target(groups, t) {
            Some(i) => groups[i].id@,
            None => cur,
        }
    }
}

fn first_group_id(groups: &Vec<ComponentGroup>, t: HangulComponent) -> (r: Option<String>)
    ensures
        match first_of_target(groups@, t) {
            Some(i) => r matches Some(s) && s@ == groups@[i].id@,
            None => r is None,
        },
{
    let ghost f = |g: ComponentGroup| g.target == t;
    let mut i: usize = 0;
    while i < groups.len()
        invariant
            i <= groups@.len(),
            forall|k: int| 0 <= k < i ==> groups@[k].target != t,
        decreases groups@.len() - i,
    {
        if groups[i].target == t {
            proof {
                let f = |g: ComponentGroup| g.target == t;
                assert forall|k: int| 0 <= k < i implies !f(groups@[k]) by {}
                crate::seqs::lemma_first_index_is(groups@, f, i as int);
            }
            return Some(groups[i].id.clone());
        }
        i = i + 1;
    }
    proof {
        let f = |g: ComponentGroup| g.target == t;
        assert forall|k: int| 0 <= k < groups@.len() implies !f(groups@[k]) by {}
        crate::seqs::lemma_first_index_none(groups@, f);
    }
    None
}

/// `b` is `a` with each base group id that `ids` lacks replaced by the first group of
/// its component (when there is one).
pub open spec fn bases_sanitized(a: RuleSystem, b: RuleSystem, ids: Seq<String>) -> bool {
    &&& b == (RuleSystem {
        base_cho_group_id: b.base_cho_group_id,
        base_jung_group_id: b.base_jung_group_id,
        base_jong_group_id: b.base_jong_group_id,
        ..a
    })
    &&& b.base_cho_group_id@ == fixed_base(a.base_cho_group_id@, ids, a.groups@, HangulComponent::Cho)
    &&& b.base_jung_group_id@ == fixed_base(a.base_jung_group_id@, ids, a.groups@, HangulComponent::Jung)
    &&& b.base_jong_group_id@ == fixed_base(a.base_jong_group_id@, ids, a.groups@, HangulComponent::Jong)
}

/// Base group ids that name no group are replaced by the first group of their component.
fn sanitize_base_groups(rules: &mut RuleSystem, group_ids: &Vec<String>)
    ensures
        bases_sanitized(*old(rules), *final(rules), group_ids@),
{
    if !contains_string(group_ids, rules.base_cho_group_id.as_str()) {
        if let Some(id) = first_group_id(&rules.groups, HangulComponent::Cho) {
            rules.base_cho_group_id = id;
        }
    }
    if !contains_string(group_ids, rules.base_jung_group_id.as_str()) {
        if let Some(id) = first_group_id(&rules.groups, HangulComponent::Jung) {
            rules.base_jung_group_id = id;
        }
    }
    if !contains_string(group_ids, rules.base_jong_group_id.as_str()) {
        if let Some(id) = first_group_id(&rules.groups, HangulComponent::Jong) {
            rules.base_jong_group_id = id;
        }
    }
}

} // verus!

verus! {

/// An id that names no group becomes the base id.
pub open spec fn fix_id(id: Seq<char>, ids: Seq<String>, base: Seq<char>) -> Seq<char> {
    if ids_has(ids, id) {
        id
    } else {
        base
    }
}

/// An optional group reference to no group becomes the base id.
pub open spec fn fix_opt(o: Option<Seq<char>>, ids: Seq<String>, base: Seq<char>) -> Option<Seq<char>> {
    match o {
        Some(g) => Some(fix_id(g, ids, base)),
        None => None,
    }
}

/// A variant rule with its group references to missing groups sent to the bases.
pub open spec fn fix_rule(r: VariantView, ids: Seq<String>, b: (Seq<char>, Seq<char>, Seq<char>)) -> VariantView {
    VariantView {
        set_cho: fix_opt(r.set_cho, ids, b.0),
        set_jung: fix_opt(r.set_jung, ids, b.1),
        set_jong: fix_opt(r.set_jong, ids, b.2),
        ..r
    }
}

/// A template with its group references to missing groups sent to the bases.
pub open spec fn fix_template(
    t: TemplateView,
    ids: Seq<String>,
    b: (Seq<char>, Seq<char>, Seq<char>),
) -> TemplateView {
    TemplateView {
        default_cho: fix_id(t.default_cho, ids, b.0),
        default_jung: fix_id(t.default_jung, ids, b.1),
        default_jong: fix_opt(t.default_jong, ids, b.2),
        variant_rules: t.variant_rules.map_values(|r: VariantView| fix_rule(r, ids, b)),
        ..t
    }
}

fn fixed_id(id: &String, ids: &Vec<String>, base: &String) -> (r: String)
    ensures
        r@ == fix_id(id@, ids@, base@),
{
    if contains_string(ids, id.as_str()) {
        id.clone()
    } else {
        base.clone()
    }
}

fn fixed_opt(o: &Option<String>, ids: &Vec<String>, base: &String) -> (r: Option<String>)
    ensures
        opt_view(r) == fix_opt(opt_view(*o), ids@, base@),
{
    match o {
        Some(g) => Some(fixed_id(g, ids, base)),
        None => None,
    }
}

fn fixed_template(t: &Template, ids: &Vec<String>, bc: &String, bj: &String, bk: &String) -> (r: Template)
    ensures
        r@ == fix_template(t@, ids@, (bc@, bj@, bk@)),
{
    let mut rules: Vec<VariantRule> = Vec::new();
    let mut j: usize = 0;
    while j < t.variant_rules.len()
        invariant
            j <= t.variant_rules@.len(),
            rules@.len() == j,
            forall|k: int|
                0 <= k < j ==> (#[trigger] rules@[k])@ == fix_rule(t.variant_rules@[k]@, ids@, (bc@, bj@, bk@)),
        decreases t.variant_rules@.len() - j,
    {
        let r = &t.variant_rules[j];
        rules.push(
            VariantRule {
                id: r.id.clone(),
                name: r.name.clone(),
                priority: r.priority,
                cho_set: r.cho_set.clone(),
                jung_set: r.jung_set.clone(),
                jong_set: r.jong_set.clone(),
                set_cho_group_id: fixed_opt(&r.set_cho_group_id, ids, bc),
                set_jung_group_id: fixed_opt(&r.set_jung_group_id, ids, bj),
                set_jong_group_id: fixed_opt(&r.set_jong_group_id, ids, bk),
            },
        );
        j = j + 1;
    }
    let r = Template {
        id: t.id.clone(),
        name: t.name.clone(),
        default_cho_group_id: fixed_id(&t.default_cho_group_id, ids, bc),
        default_jung_group_id: fixed_id(&t.default_jung_group_id, ids, bj),
        default_jong_group_id: fixed_opt(&t.default_jong_group_id, ids, bk),
        variant_rules: rules,
    };
    assert(r@.variant_rules =~= fix_template(t@, ids@, (bc@, bj@, bk@)).variant_rules);
    r
}

/// `b` is `a` with every template's group references that `ids` lacks sent to the base
/// group of their component.
pub open spec fn templates_sanitized(a: RuleSystem, b: RuleSystem, ids: Seq<String>) -> bool {
    &&& b == (RuleSystem { templates: b.templates, ..a })
    &&& b.templates@.len() == a.templates@.len()
    &&& forall|i: int|
        0 <= i < a.templates@.len() ==> (#[trigger] b.templates@[i])@ == fix_template(
            a.templates@[i]@,
            ids,
            (a.base_cho_group_id@, a.base_jung_group_id@, a.base_jong_group_id@),
        )
}

/// Group references in templates and variant rules that name no group are sent to the
/// base group of their component.
fn sanitize_template_references(rules: &mut RuleSystem, group_ids: &Vec<String>)
    ensures
        templates_sanitized(*old(rules), *final(rules), group_ids@),
{
    let base_cho = rules.base_cho_group_id.clone();
    let base_jung = rules.base_jung_group_id.clone();
    let base_jong = rules.base_jong_group_id.clone();
    let ghost t0 = rules.templates@;
    let mut i: usize = 0;
    while i < rules.templates.len()
        invariant
            *rules == (RuleSystem { templates: rules.templates, ..*old(rules) }),
            t0 == old(rules).templates@,
            base_cho@ == old(rules).base_cho_group_id@,
            base_jung@ == old(rules).base_jung_group_id@,
            base_jong@ == old(rules).base_jong_group_id@,
            rules.templates@.len() == t0.len(),
            i <= t0.len(),
            forall|k: int|
                0 <= k < i ==> (#[trigger] rules.templates@[k])@ == fix_template(
                    t0[k]@,
                    group_ids@,
                    (base_cho@, base_jung@, base_jong@),
                ),
            forall|k: int| i <= k < t0.len() ==> #[trigger] rules.templates@[k] == t0[k],
        decreases t0.len() - i,
    {
        let nt = fixed_template(&rules.templates[i], group_ids, &base_cho, &base_jung, &base_jong);
        rules.templates.set(i, nt);
        i = i + 1;
    }
}

/// `b` is `a` with every selector that names no template pointed at the first template
/// (when there is one).
pub open spec fn selectors_sanitized(a: RuleSystem, b: RuleSystem) -> bool {
    &&& b == (RuleSystem { selectors: b.selectors, ..a })
    &&& b.selectors@.len() == a.selectors@.len()
    &&& forall|i: int|
        0 <= i < a.selectors@.len() ==> (#[trigger] b.selectors@[i])@ == (if a.templates@.len() > 0
            && !crate::rule_system::has_template(a.templates@, a.selectors@[i].template_id@) {
            SelectorView { template_id: a.templates@[0].id@, ..a.selectors@[i]@ }
        } else {
            a.selectors@[i]@
        })
}

/// Selectors naming no template are pointed at the first template (when there is one).
fn sanitize_selector_references(rules: &mut RuleSystem)
    ensures
        selectors_sanitized(*old(rules), *final(rules)),
{
    if rules.templates.len() == 0 {
        return;
    }
    let first_tpl = rules.templates[0].id.clone();
    let ghost s0 = rules.selectors@;
    let mut i: usize = 0;
    while i < rules.selectors.len()
        invariant
            *rules == (RuleSystem { selectors: rules.selectors, ..*old(rules) }),
            s0 == old(rules).selectors@,
            rules.templates@.len() > 0,
            first_tpl@ == rules.templates@[0].id@,
            rules.selectors@.len() == s0.len(),
            i <= s0.len(),
            forall|k: int|
                0 <= k < i ==> (#[trigger] rules.selectors@[k])@ == (if !crate::rule_system::has_template(
                    rules.templates@,
                    s0[k].template_id@,
                ) {
                    SelectorView { template_id: first_tpl@, ..s0[k]@ }
                } else {
                    s0[k]@
                }),
            forall|k: int| i <= k < s0.len() ==> #[trigger] rules.selectors@[k] == s0[k],
        decreases s0.len() - i,
    {
        let found = template_exists(&rules.templates, rules.selectors[i].template_id.as_str());
        if !found {
            let s = &rules.selectors[i];
            let ns = SelectorRule {
                id: s.id.clone(),
                name: s.name.clone(),
                priority: s.priority,
                cho_set: s.cho_set.clone(),
                jung_set: s.jung_set.clone(),
                jong_set: s.jong_set.clone(),
                template_id: first_tpl.clone(),
            };
            rules.selectors.set(i, ns);
        }
        i = i + 1;
    }
}

fn template_exists(templates: &Vec<Template>, tid: &str) -> (r: bool)
    ensures
        r == crate::rule_system::has_template(templates@, tid@),
{
    let mut i: usize = 0;
    while i < templates.len()
        invariant
            i <= templates@.len(),
            forall|k: int| 0 <= k < i ==> templates@[k].id@ != tid@,
        decreases templates@.len() - i,
    {
        if str_eq(templates[i].id.as_str(), tid) {
            return true;
        }
        i = i + 1;
    }
    false
}

} // verus!

verus! {

/// The layout the rules give syllable `c` against the glyphs in `store` (`None` for a
/// character that is not a syllable or when there is no template).
pub open spec fn syllable_layout(rules: RuleSystem, store: Map<KeyView, Set<(i32, i32)>>, c: char) -> Option<
    LayoutView,
> {
    match spec_decompose(c) {
        None => None,
        Some(ix) => spec_layout(
            rules,
            store,
            spec_jamo_char(HangulComponent::Cho, ix.0 as int),
            spec_jamo_char(HangulComponent::Jung, ix.1 as int),
            if ix.2 == 0 {
                None
            } else {
                Some(spec_jamo_char(HangulComponent::Jong, ix.2 as int))
            },
        ),
    }
}

/// The glyph keys a layout draws with.
pub open spec fn layout_keys(v: LayoutView) -> Set<KeyView> {
    match v.jong {
        Some(p) => set![v.cho, v.jung, p],
        None => set![v.cho, v.jung],
    }
}

/// Does the layout of `c` draw with the glyph `k`?
pub open spec fn uses_key(rules: RuleSystem, store: Map<KeyView, Set<(i32, i32)>>, c: char, k: KeyView) -> bool {
    match syllable_layout(rules, store, c) {
        Some(v) => layout_keys(v).contains(k),
        None => false,
    }
}

/// The glyph keys the layouts of the first `n` syllables draw with.
pub open spec fn used_keys(rules: RuleSystem, store: Map<KeyView, Set<(i32, i32)>>, n: int) -> Set<KeyView> {
    Set::new(
        |k: KeyView|
            exists|c: char| 0xAC00 <= (c as u32) < 0xAC00 + n && #[trigger] uses_key(rules, store, c, k),
    )
}

/// The set of views of a list of keys.
pub open spec fn key_set(v: Seq<GlyphKey>) -> Set<KeyView> {
    v.map_values(|k: GlyphKey| k@).to_set()
}

fn push_key(v: &mut Vec<GlyphKey>, p: &PlacedPart)
    ensures
        key_set(final(v)@) == key_set(old(v)@).insert(p@),
{
    let ghost s0 = v@;
    v.push(GlyphKey::new(p.placement.kind, p.placement.jamo, p.group_id.as_str()));
    proof {
        assert(v@.map_values(|k: GlyphKey| k@) =~= s0.map_values(|k: GlyphKey| k@).push(p@));
        s0.map_values(|k: GlyphKey| k@).lemma_push_to_set_commute(p@);
    }
}

/// The glyph keys used by the layout of some syllable (the rules are lent to a layout
/// engine and given back unchanged).
fn scan_used_glyphs_by_layout(rules: &mut RuleSystem, store: &GlyphStore) -> (used: Vec<GlyphKey>)
    ensures
        *final(rules) == *old(rules),
        key_set(used@) == used_keys(*old(rules), store@, 11172),
{
    let mut taken = RuleSystem::default();
    std::mem::swap(&mut taken, rules);
    let engine = LayoutEngine { rules: taken };
    let ghost r0 = engine.rules;
    let mut used: Vec<GlyphKey> = Vec::new();
    let syll = all_hangul_syllables();
    let mut i: usize = 0;
    while i < syll.len()
        invariant
            engine.rules == r0,
            syll@.len() == 11172,
            forall|j: int| 0 <= j < syll@.len() ==> (#[trigger] syll@[j]) as u32 == 0xAC00 + j,
            i <= syll@.len(),
            key_set(used@) == used_keys(r0, store@, i as int),
        decreases syll@.len() - i,
    {
        let ch = syll[i];
        let res = engine.layout_char(store, ch, decompose_hangul, get_jamo_char);
        let ghost before = key_set(used@);
        proof {
            lemma_syllable_result(r0, store@, ch, res);
        }
        match &res {
            Some(r) => {
                push_key(&mut used, &r.cho);
                push_key(&mut used, &r.jung);
                if let Some(j) = &r.jong {
                    push_key(&mut used, j);
                }
                assert(key_set(used@) =~= before.union(layout_keys(r@)));
            },
            None => {},
        }
        proof {
            lemma_used_keys_step(r0, store@, i as int, ch, before, key_set(used@));
        }
        i = i + 1;
    }
    let LayoutEngine { rules: back } = engine;
    *rules = back;
    used
}

} // verus!

verus! {

/// What `layout_char` promises, with `decompose_hangul` and `get_jamo_char`, is the
/// layout of the syllable.
pub(crate) proof fn lemma_syllable_result(
    rules: RuleSystem,
    store: Map<KeyView, Set<(i32, i32)>>,
    ch: char,
    res: Option<crate::engine::LayoutResult>,
)
    requires
        exists|d: Option<(usize, usize, usize)>|
            #[trigger] call_ensures(decompose_hangul, (ch,), d) && match d {
                None => res is None,
                Some(ix) => exists|cc: char, jc: char, kc: Option<char>|
                    #[trigger] call_ensures(get_jamo_char, (HangulComponent::Cho, ix.0), cc)
                        && #[trigger] call_ensures(get_jamo_char, (HangulComponent::Jung, ix.1), jc)
                        && #[trigger] jong_arg(ix.2, kc) && (kc matches Some(k) ==> call_ensures(
                        get_jamo_char,
                        (HangulComponent::Jong, ix.2),
                        k,
                    )) && layout_opt_view(res) == spec_layout(rules, store, cc, jc, kc),
            },
    ensures
        layout_opt_view(res) == syllable_layout(rules, store, ch),
{
    let d = choose|d: Option<(usize, usize, usize)>|
        #[trigger] call_ensures(decompose_hangul, (ch,), d) && match d {
            None => res is None,
            Some(ix) => exists|cc: char, jc: char, kc: Option<char>|
                #[trigger] call_ensures(get_jamo_char, (HangulComponent::Cho, ix.0), cc)
                    && #[trigger] call_ensures(get_jamo_char, (HangulComponent::Jung, ix.1), jc)
                    && #[trigger] jong_arg(ix.2, kc) && (kc matches Some(k) ==> call_ensures(
                    get_jamo_char,
                    (HangulComponent::Jong, ix.2),
                    k,
                )) && layout_opt_view(res) == spec_layout(rules, store, cc, jc, kc),
        };
    assert(d == spec_decompose(ch));
    match d {
        None => {},
        Some(ix) => {
            let (cc, jc, kc) = choose|cc: char, jc: char, kc: Option<char>|
                #[trigger] call_ensures(get_jamo_char, (HangulComponent::Cho, ix.0), cc)
                    && #[trigger] call_ensures(get_jamo_char, (HangulComponent::Jung, ix.1), jc)
                    && #[trigger] jong_arg(ix.2, kc) && (kc matches Some(k) ==> call_ensures(
                    get_jamo_char,
                    (HangulComponent::Jong, ix.2),
                    k,
                )) && layout_opt_view(res) == spec_layout(rules, store, cc, jc, kc);
            assert(cc == spec_jamo_char(HangulComponent::Cho, ix.0 as int));
            assert(jc == spec_jamo_char(HangulComponent::Jung, ix.1 as int));
            if ix.2 != 0 {
                assert(kc == Some(spec_jamo_char(HangulComponent::Jong, ix.2 as int)));
            }
        },
    }
}

proof fn lemma_used_keys_step(
    rules: RuleSystem,
    store: Map<KeyView, Set<(i32, i32)>>,
    i: int,
    ch: char,
    before: Set<KeyView>,
    after: Set<KeyView>,
)
    requires
        0 <= i,
        ch as u32 == 0xAC00 + i,
        before == used_keys(rules, store, i),
        after == match syllable_layout(rules, store, ch) {
            Some(v) => before.union(layout_keys(v)),
            None => before,
        },
    ensures
        after == used_keys(rules, store, i + 1),
{
    let u = used_keys(rules, store, i + 1);
    assert forall|k: KeyView| after.contains(k) <==> u.contains(k) by {
        if u.contains(k) {
            let c = choose|c: char| 0xAC00 <= (c as u32) < 0xAC00 + i + 1 && #[trigger] uses_key(rules, store, c, k);
            if (c as u32) == 0xAC00 + i {
                crate::charset::lemma_code_injective(c, ch);
            }
        }
        if after.contains(k) && !before.contains(k) {
            assert(uses_key(rules, store, ch, k));
        }
    }
    assert(after =~= u);
}

} // verus!

verus! {

/// The position of the last group with id `gid` (the one an id lookup table built over
/// the groups in order ends up holding).
pub open spec fn last_group(groups: Seq<ComponentGroup>, gid: Seq<char>) -> Option<int> {
    last_index(groups, has_id::<ComponentGroup>(gid))
}

/// A glyph is kept when the last group with its id exists, has its component, may hold its
/// jamo, and holds it as a member or some syllable's layout uses the glyph.
pub open spec fn keep_glyph(groups: Seq<ComponentGroup>, used: Set<KeyView>, ext: bool, k: KeyView) -> bool {
    match last_group(groups, k.2) {
        None => false,
        Some(i) => k.0 == groups[i].target && allowed_chars(groups[i].target, ext).contains(k.1) && (
        groups[i].members@.contains(k.1) || used.contains(k)),
    }
}

/// A glyph kept only because a layout uses it: its jamo is missing from the group.
pub open spec fn member_missing(groups: Seq<ComponentGroup>, used: Set<KeyView>, ext: bool, k: KeyView) -> bool {
    keep_glyph(groups, used, ext, k) && !groups[last_group(groups, k.2)->0].members@.contains(k.1)
}

/// The jamo added to group `i`: those of glyphs kept only for a layout, whose id names
/// group `i` first.
pub open spec fn added_members(
    groups: Seq<ComponentGroup>,
    keys: Set<KeyView>,
    used: Set<KeyView>,
    ext: bool,
    i: int,
) -> Set<char> {
    Set::new(
        |c: char|
            exists|k: KeyView|
                #[trigger] keys.contains(k) && member_missing(groups, used, ext, k) && k.1 == c
                    && id_position(groups, k.2) == Some(i),
    )
}

fn last_group_index(groups: &Vec<ComponentGroup>, gid: &str) -> (r: Option<usize>)
    ensures
        match last_group(groups@, gid@) {
            Some(i) => 0 <= i < groups@.len() && groups@[i].id@ == gid@ && (r matches Some(j) && j as int == i),
            None => r is None,
        },
{
    let mut i: usize = groups.len();
    while i > 0
        invariant
            i <= groups@.len(),
            forall|k: int| i <= k < groups@.len() ==> groups@[k].id@ != gid@,
        decreases i,
    {
        if str_eq(groups[i - 1].id.as_str(), gid) {
            proof {
                let f = has_id::<ComponentGroup>(gid@);
                assert forall|j: int| i - 1 < j < groups@.len() implies !f(groups@[j]) by {}
                lemma_last_index_is(groups@, f, i - 1);
            }
            return Some(i - 1);
        }
        i = i - 1;
    }
    proof {
        let f = has_id::<ComponentGroup>(gid@);
        lemma_last_index_props(groups@, f);
        if last_index(groups@, f) is Some {
            let j = last_index(groups@, f)->0;
            assert(f(groups@[j]));
        }
    }
    None
}

fn key_in(used: &Vec<GlyphKey>, k: &GlyphKey) -> (r: bool)
    ensures
        r == key_set(used@).contains(k@),
{
    let mut i: usize = 0;
    while i < used.len()
        invariant
            i <= used@.len(),
            forall|j: int| 0 <= j < i ==> used@[j]@ != k@,
        decreases used@.len() - i,
    {
        if used[i].same_as(k) {
            proof {
                assert(used@.map_values(|x: GlyphKey| x@)[i as int] == k@);
            }
            return true;
        }
        i = i + 1;
    }
    proof {
        let ks = used@.map_values(|x: GlyphKey| x@);
        if key_set(used@).contains(k@) {
            assert(ks.contains(k@));
            let j = choose|j: int| 0 <= j < ks.len() && #[trigger] ks[j] == k@;
            assert(used@[j]@ == k@);
        }
    }
    false
}

fn keep_decision(
    groups: &Vec<ComponentGroup>,
    used: &Vec<GlyphKey>,
    key: &GlyphKey,
    old_hangul_enabled: bool,
) -> (r: (bool, bool))
    ensures
        r.0 == keep_glyph(groups@, key_set(used@), old_hangul_enabled, key@),
        r.1 == member_missing(groups@, key_set(used@), old_hangul_enabled, key@),
{
    let gid = key.group_id.as_str();
    assert(gid@ == key@.2);
    let found = last_group_index(groups, gid);
    match found {
        None => (false, false),
        Some(gi) => {
            let g = &groups[gi];
            if key.kind != g.target {
                return (false, false);
            }
            let allowed = build_allowed_set(g.target, old_hangul_enabled);
            if !contains_char(&allowed, key.jamo) {
                return (false, false);
            }
            if contains_char(&g.members, key.jamo) {
                return (true, false);
            }
            let u = key_in(used, key);
            (u, u)
        },
    }
}

} // verus!

verus! {

/// Sorted members stay sorted, and the jamo is added.
fn add_member(groups: &mut Vec<ComponentGroup>, i: usize, c: char)
    requires
        i < old(groups)@.len(),
    ensures
        final(groups)@.len() == old(groups)@.len(),
        forall|j: int| 0 <= j < old(groups)@.len() && j != i ==> #[trigger] final(groups)@[j] == old(groups)@[j],
        final(groups)@[i as int] == (ComponentGroup {
            members: final(groups)@[i as int].members,
            ..old(groups)@[i as int]
        }),
        final(groups)@[i as int].members@.to_set() == old(groups)@[i as int].members@.to_set().insert(c),
        crate::charset::sorted_chars(old(groups)@[i as int].members@) ==> crate::charset::sorted_chars(
            final(groups)@[i as int].members@,
        ),
{
    let g = &mut groups[i];
    crate::charset::insert_char(&mut g.members, c);
}

/// `sb` and `rb` are `sa` and `ra` after removing the glyphs that do not fit the rules
/// (see `keep_glyph`) and adding to its group the jamo of every glyph kept only because
/// a syllable's layout uses it.
pub open spec fn glyphs_sanitized(sa: GlyphStore, ra: RuleSystem, sb: GlyphStore, rb: RuleSystem, ext: bool) -> bool {
    let used = used_keys(ra, sa@, 11172);
    &&& sb.wf()
    &&& forall|k: KeyView|
        #[trigger] sb@.contains_key(k) <==> sa@.contains_key(k) && keep_glyph(ra.groups@, used, ext, k)
    &&& forall|k: KeyView| #[trigger] sb@.contains_key(k) ==> sb@[k] == sa@[k]
    &&& rb == (RuleSystem { groups: rb.groups, ..ra })
    &&& rb.groups@.len() == ra.groups@.len()
    &&& forall|i: int|
        0 <= i < ra.groups@.len() ==> {
            &&& #[trigger] rb.groups@[i] == (ComponentGroup { members: rb.groups@[i].members, ..ra.groups@[i] })
            &&& rb.groups@[i].members@.to_set() == ra.groups@[i].members@.to_set().union(
                added_members(ra.groups@, sa@.dom(), used, ext, i),
            )
            &&& crate::charset::sorted_chars(ra.groups@[i].members@) ==> crate::charset::sorted_chars(
                rb.groups@[i].members@,
            )
        }
}

/// Removes the glyphs that do not fit the rules (see `keep_glyph`) and adds to its group
/// the jamo of every glyph kept only because a syllable's layout uses it.
fn sanitize_glyphs(store: &mut GlyphStore, rules: &mut RuleSystem, old_hangul_enabled: bool)
    requires
        old(store).wf(),
    ensures
        glyphs_sanitized(*old(store), *old(rules), *final(store), *final(rules), old_hangul_enabled),
{
    let used = scan_used_glyphs_by_layout(rules, store);
    let ghost uk = key_set(used@);
    let ghost g0 = rules.groups@;
    let ghost s0 = store.glyphs@;
    let ghost m0 = store@;
    let mut mask: Vec<bool> = Vec::new();
    let mut fixed: Vec<GlyphKey> = Vec::new();
    let mut i: usize = 0;
    while i < store.glyphs.len()
        invariant
            store.glyphs@ == s0,
            rules.groups@ == g0,
            uk == key_set(used@),
            i <= s0.len(),
            mask@.len() == i,
            forall|j: int| 0 <= j < i ==> mask@[j] == keep_glyph(g0, uk, old_hangul_enabled, #[trigger] s0[j].0@),
            forall|j: int|
                #![trigger fixed@[j]]
                0 <= j < fixed@.len() ==> exists|q: int|
                    #![trigger s0[q]]
                    0 <= q < i && s0[q].0@ == fixed@[j]@ && member_missing(g0, uk, old_hangul_enabled, s0[q].0@),
            forall|q: int|
                #![trigger s0[q]]
                0 <= q < i && member_missing(g0, uk, old_hangul_enabled, s0[q].0@) ==> exists|j: int|
                    #![trigger fixed@[j]]
                    0 <= j < fixed@.len() && fixed@[j]@ == s0[q].0@,
        decreases s0.len() - i,
    {
        let key = &store.glyphs[i].0;
        let (keep, missing) = keep_decision(&rules.groups, &used, key, old_hangul_enabled);
        let ghost f0 = fixed@;
        if missing {
            fixed.push(key.clone());
        }
        proof {
            assert forall|q: int|
                #![trigger s0[q]]
                0 <= q < i + 1 && member_missing(g0, uk, old_hangul_enabled, s0[q].0@) implies exists|j: int|
                    #![trigger fixed@[j]]
                    0 <= j < fixed@.len() && fixed@[j]@ == s0[q].0@ by {
                if q < i {
                    let j = choose|j: int| #![trigger f0[j]] 0 <= j < f0.len() && f0[j]@ == s0[q].0@;
                    assert(fixed@[j] == f0[j]);
                } else {
                    assert(fixed@[fixed@.len() - 1]@ == s0[q].0@);
                }
            }
            assert forall|j: int|
                #![trigger fixed@[j]]
                0 <= j < fixed@.len() implies exists|q: int|
                    #![trigger s0[q]]
                    0 <= q < i + 1 && s0[q].0@ == fixed@[j]@ && member_missing(g0, uk, old_hangul_enabled, s0[q].0@) by {
                if j < f0.len() {
                    assert(fixed@[j] == f0[j]);
                    let q = choose|q: int| #![trigger s0[q]] 0 <= q < i && s0[q].0@ == f0[j]@ && member_missing(g0, uk, old_hangul_enabled, s0[q].0@);
                } else {
                    assert(s0[i as int].0@ == fixed@[j]@);
                }
            }
        }
        mask.push(keep);
        i = i + 1;
    }
    store.retain_masked(&mask);
    proof {
        lemma_masked_view(s0, mask@);
        assert forall|k: KeyView| #[trigger] store@.contains_key(k) <==> m0.contains_key(k) && keep_glyph(
            g0,
            uk,
            old_hangul_enabled,
            k,
        ) by {
            if m0.contains_key(k) {
                let j = choose|j: int| 0 <= j < s0.len() && s0[j].0@ == k;
                assert(mask@[j] == keep_glyph(g0, uk, old_hangul_enabled, s0[j].0@));
            }
        }
    }
    let mut j: usize = 0;
    while j < fixed.len()
        invariant
            *rules == (RuleSystem { groups: rules.groups, ..*old(rules) }),
            g0 == old(rules).groups@,
            rules.groups@.len() == g0.len(),
            j <= fixed@.len(),
            forall|x: int|
                0 <= x < g0.len() ==> {
                    &&& #[trigger] rules.groups@[x] == (ComponentGroup { members: rules.groups@[x].members, ..g0[x] })
                    &&& rules.groups@[x].members@.to_set() == g0[x].members@.to_set().union(
                        Set::new(|c: char| exists|q: int| 0 <= q < j && fixed@[q]@.1 == c && id_position(g0, #[trigger] fixed@[q]@.2) == Some(x)),
                    )
                    &&& crate::charset::sorted_chars(g0[x].members@) ==> crate::charset::sorted_chars(rules.groups@[x].members@)
                },
        decreases fixed@.len() - j,
    {
        let key = &fixed[j];
        let ghost before = rules.groups@;
        match crate::idlist::position_of(&rules.groups, key.group_id.as_str()) {
            Some(gi) => {
                proof {
                    crate::seqs::lemma_first_index_props(rules.groups@, has_id::<ComponentGroup>(key@.2));
                    lemma_same_ids_position(rules.groups@, g0, key@.2);
                }
                add_member(&mut rules.groups, gi, key.jamo);
                proof {
                    assert forall|x: int| 0 <= x < g0.len() implies {
                        &&& #[trigger] rules.groups@[x] == (ComponentGroup { members: rules.groups@[x].members, ..g0[x] })
                        &&& rules.groups@[x].members@.to_set() == g0[x].members@.to_set().union(
                            Set::new(|c: char| exists|q: int| 0 <= q < j + 1 && fixed@[q]@.1 == c && id_position(g0, #[trigger] fixed@[q]@.2) == Some(x)),
                        )
                        &&& crate::charset::sorted_chars(g0[x].members@) ==> crate::charset::sorted_chars(rules.groups@[x].members@)
                    } by {
                        let a = Set::new(|c: char| exists|q: int| 0 <= q < j && fixed@[q]@.1 == c && id_position(g0, #[trigger] fixed@[q]@.2) == Some(x));
                        let b = Set::new(|c: char| exists|q: int| 0 <= q < j + 1 && fixed@[q]@.1 == c && id_position(g0, #[trigger] fixed@[q]@.2) == Some(x));
                        if x == gi {
                            assert(b =~= a.insert(key.jamo));
                        } else {
                            assert(b =~= a);
                        }
                    }
                }
            },
            None => {
                proof {
                    crate::seqs::lemma_first_index_props(rules.groups@, has_id::<ComponentGroup>(key@.2));
                    lemma_same_ids_position(rules.groups@, g0, key@.2);
                    assert forall|x: int| 0 <= x < g0.len() implies {
                        &&& #[trigger] rules.groups@[x] == (ComponentGroup { members: rules.groups@[x].members, ..g0[x] })
                        &&& rules.groups@[x].members@.to_set() == g0[x].members@.to_set().union(
                            Set::new(|c: char| exists|q: int| 0 <= q < j + 1 && fixed@[q]@.1 == c && id_position(g0, #[trigger] fixed@[q]@.2) == Some(x)),
                        )
                        &&& crate::charset::sorted_chars(g0[x].members@) ==> crate::charset::sorted_chars(rules.groups@[x].members@)
                    } by {
                        let a = Set::new(|c: char| exists|q: int| 0 <= q < j && fixed@[q]@.1 == c && id_position(g0, #[trigger] fixed@[q]@.2) == Some(x));
                        let b = Set::new(|c: char| exists|q: int| 0 <= q < j + 1 && fixed@[q]@.1 == c && id_position(g0, #[trigger] fixed@[q]@.2) == Some(x));
                        assert(b =~= a);
                    }
                }
            },
        }
        j = j + 1;
    }
    proof {
        assert forall|x: int| 0 <= x < g0.len() implies Set::new(|c: char| exists|q: int| 0 <= q < fixed@.len() && fixed@[q]@.1 == c && id_position(g0, #[trigger] fixed@[q]@.2) == Some(x))
            == added_members(g0, m0.dom(), uk, old_hangul_enabled, x) by {
            let a = Set::new(|c: char| exists|q: int| 0 <= q < fixed@.len() && fixed@[q]@.1 == c && id_position(g0, #[trigger] fixed@[q]@.2) == Some(x));
            let b = added_members(g0, m0.dom(), uk, old_hangul_enabled, x);
            assert forall|c: char| a.contains(c) <==> b.contains(c) by {
                if a.contains(c) {
                    let q = choose|q: int| 0 <= q < fixed@.len() && fixed@[q]@.1 == c && id_position(g0, #[trigger] fixed@[q]@.2) == Some(x);
                    let p = choose|p: int| #![trigger s0[p]] 0 <= p < s0.len() && s0[p].0@ == fixed@[q]@ && member_missing(g0, uk, old_hangul_enabled, s0[p].0@);
                    assert(m0.contains_key(s0[p].0@));
                }
                if b.contains(c) {
                    let k = choose|k: KeyView| #[trigger] m0.dom().contains(k) && member_missing(g0, uk, old_hangul_enabled, k) && k.1 == c
                        && id_position(g0, k.2) == Some(x);
                    let p = choose|p: int| 0 <= p < s0.len() && s0[p].0@ == k;
                    assert(member_missing(g0, uk, old_hangul_enabled, s0[p].0@));
                    let q = choose|q: int| #![trigger fixed@[q]] 0 <= q < fixed@.len() && fixed@[q]@ == s0[p].0@;
                    assert(fixed@[q]@.2 == k.2);
                }
            }
            assert(a =~= b);
        }
    }
}

/// Two group lists with the same ids find an id at the same place.
proof fn lemma_same_ids_position(a: Seq<ComponentGroup>, b: Seq<ComponentGroup>, gid: Seq<char>)
    requires
        a.len() == b.len(),
        forall|x: int| 0 <= x < a.len() ==> #[trigger] a[x].id == b[x].id,
    ensures
        id_position(a, gid) == id_position(b, gid),
{
    let f = has_id::<ComponentGroup>(gid);
    crate::seqs::lemma_first_index_props(a, f);
    crate::seqs::lemma_first_index_props(b, f);
    match id_position(a, gid) {
        Some(i) => {
            assert forall|j: int| 0 <= j < i implies !f(b[j]) by {
                assert(a[j].id == b[j].id);
            }
            assert(a[i].id == b[i].id);
            crate::seqs::lemma_first_index_is(b, f, i);
        },
        None => {
            assert forall|j: int| 0 <= j < b.len() implies !f(b[j]) by {
                assert(a[j].id == b[j].id);
            }
        },
    }
}

} // verus!

verus! {

/// `ids` lists the ids of `groups`, in order.
pub open spec fn ids_of(ids: Seq<String>, groups: Seq<ComponentGroup>) -> bool {
    ids.len() == groups.len() && forall|i: int| 0 <= i < ids.len() ==> (#[trigger] ids[i])@ == groups[i].id@
}

fn group_id_list(groups: &Vec<ComponentGroup>) -> (r: Vec<String>)
    ensures
        ids_of(r@, groups@),
{
    let mut out: Vec<String> = Vec::new();
    let mut i: usize = 0;
    while i < groups.len()
        invariant
            i <= groups@.len(),
            out@.len() == i,
            forall|k: int| 0 <= k < i ==> (#[trigger] out@[k])@ == groups@[k].id@,
        decreases groups@.len() - i,
    {
        out.push(groups[i].id.clone());
        i = i + 1;
    }
    out
}

/// Brings a loaded or about-to-be-saved project into a consistent state, in five steps:
/// group members, base groups, template references, selector references, glyphs.
pub fn sanitize_rules_and_store(rules: &mut RuleSystem, store: &mut GlyphStore, old_hangul_enabled: bool)
    requires
        old(store).wf(),
    ensures
        exists|r1: RuleSystem, ids: Seq<String>, r2: RuleSystem, r3: RuleSystem, r4: RuleSystem|
            #![trigger members_sanitized(*old(rules), r1, old_hangul_enabled), bases_sanitized(r1, r2, ids), templates_sanitized(r2, r3, ids), selectors_sanitized(r3, r4)]
            members_sanitized(*old(rules), r1, old_hangul_enabled) && ids_of(ids, r1.groups@)
                && bases_sanitized(r1, r2, ids) && templates_sanitized(r2, r3, ids) && selectors_sanitized(
                r3,
                r4,
            ) && glyphs_sanitized(*old(store), r4, *final(store), *final(rules), old_hangul_enabled),
{
    sanitize_group_members(rules, old_hangul_enabled);
    let ghost r1 = *rules;
    let group_ids = group_id_list(&rules.groups);
    sanitize_base_groups(rules, &group_ids);
    let ghost r2 = *rules;
    sanitize_template_references(rules, &group_ids);
    let ghost r3 = *rules;
    sanitize_selector_references(rules);
    let ghost r4 = *rules;
    sanitize_glyphs(store, rules, old_hangul_enabled);
    assert(members_sanitized(*old(rules), r1, old_hangul_enabled) && ids_of(group_ids@, r1.groups@)
        && bases_sanitized(r1, r2, group_ids@) && templates_sanitized(r2, r3, group_ids@) && selectors_sanitized(r3, r4)
        && glyphs_sanitized(*old(store), r4, *store, *rules, old_hangul_enabled));
}

} // verus!

verus! {

/// Do all the file's pixel rows read back without overflow (see `entries_fit`)?
pub fn file_fits(file: &ProjectFile) -> (r: bool)
    ensures
        r == entries_fit(entries_view(file.glyphs@)),
{
    let ghost es = entries_view(file.glyphs@);
    let mut i: usize = 0;
    while i < file.glyphs.len()
        invariant
            es == entries_view(file.glyphs@),
            i <= file.glyphs@.len(),
            forall|k: int| 0 <= k < i && (#[trigger] key_parse(es[k].0)) is Some ==> rows_fit(ws_tokens(es[k].1)),
        decreases file.glyphs@.len() - i,
    {
        let e = &file.glyphs[i];
        assert(es[i as int] == (e.0@, e.1@));
        if key_from_str(e.0.as_str()).is_some() && !crate::file_format::rows_fit_text(e.1.as_str()) {
            proof {
                let k = i as int;
                assert(key_parse(es[k].0) is Some && !rows_fit(ws_tokens(es[k].1)));
                assert(!entries_fit(es));
            }
            return false;
        }
        i = i + 1;
    }
    true
}

/// A project read from its file form and brought into a consistent state.
pub fn project_from_file(file: ProjectFile) -> (r: ProjectData)
    requires
        entries_fit(entries_view(file.glyphs@)),
    ensures
        load_result(file, r),
{
    let mut data = from_file_format(file);
    let ghost d = data;
    sanitize_rules_and_store(&mut data.rules, &mut data.store, data.old_hangul_enabled);
    assert(from_file_result(file, d));
    data
}

/// What `from_file_format` gives for a file.
pub open spec fn from_file_result(file: ProjectFile, d: ProjectData) -> bool {
    &&& d.version == file.version
    &&& d.canvas_w == file.canvas_w
    &&& d.canvas_h == file.canvas_h
    &&& d.store.wf()
    &&& d.store@ == entries_map(entries_view(file.glyphs@))
    &&& d.rules == file.rules
    &&& d.old_hangul_enabled == file.old_hangul_enabled
    &&& d.archaic_jamo_map == file.archaic_jamo_map
}

/// What `sanitize_rules_and_store` makes of rules `ra` and store `sa`.
pub open spec fn sanitize_result(ra: RuleSystem, sa: GlyphStore, ext: bool, rb: RuleSystem, sb: GlyphStore) -> bool {
    exists|r1: RuleSystem, ids: Seq<String>, r2: RuleSystem, r3: RuleSystem, r4: RuleSystem|
        #![trigger members_sanitized(ra, r1, ext), bases_sanitized(r1, r2, ids), templates_sanitized(r2, r3, ids), selectors_sanitized(r3, r4)]
        members_sanitized(ra, r1, ext) && ids_of(ids, r1.groups@) && bases_sanitized(r1, r2, ids)
            && templates_sanitized(r2, r3, ids) && selectors_sanitized(r3, r4) && glyphs_sanitized(sa, r4, sb, rb, ext)
}

} // verus!

verus! {

/// A store kept by sanitizing holds no glyph whose jamo is `/`: every kept jamo is one
/// its group's component allows.
proof fn lemma_sanitized_keys(sa: GlyphStore, ra: RuleSystem, sb: GlyphStore, rb: RuleSystem, ext: bool)
    requires
        glyphs_sanitized(sa, ra, sb, rb, ext),
    ensures
        forall|k: KeyView| #[trigger] sb@.contains_key(k) ==> k.1 != '/',
{
    let used = used_keys(ra, sa@, 11172);
    assert forall|k: KeyView| #[trigger] sb@.contains_key(k) implies k.1 != '/' by {
        assert(keep_glyph(ra.groups@, used, ext, k));
        let i = last_group(ra.groups@, k.2)->0;
        crate::hangul::lemma_tables_lack_slash(ra.groups@[i].target);
    }
}

/// What saving `d0` gives: `d1`, the state that was saved (`d0` brought into a consistent
/// state, then renumbered), and `r`, its file form.
pub open spec fn save_result(d0: ProjectData, d1: ProjectData, r: ProjectFile) -> bool {
    &&& exists|mid: ProjectData|
        #![trigger compacted(mid, d1)]
        sanitize_result(d0.rules, d0.store, d0.old_hangul_enabled, mid.rules, mid.store) && mid == (ProjectData {
            rules: mid.rules,
            store: mid.store,
            ..d0
        }) && compacted(mid, d1)
    &&& r.version@ == "1.0.0"@
    &&& r.canvas_w == d1.canvas_w
    &&& r.canvas_h == d1.canvas_h
    &&& entries_view(r.glyphs@) == file_entries(d1.store.glyphs@, d1.canvas_w, d1.canvas_h)
    &&& r.rules@ == d1.rules@
    &&& r.old_hangul_enabled == d1.old_hangul_enabled
    &&& r.archaic_jamo_map@ == d1.archaic_jamo_map@
    &&& d1.store.wf()
    &&& 0 <= d1.canvas_w ==> entries_fit(entries_view(r.glyphs@)) && entries_map(entries_view(r.glyphs@))
        == on_canvas(d1.store.glyphs@, d1.canvas_w, d1.canvas_h)
}

/// What reading file `file` gives: `d`, the file's project brought into a consistent state.
pub open spec fn load_result(file: ProjectFile, d: ProjectData) -> bool {
    &&& d.store.wf()
    &&& exists|d0: ProjectData|
        #![trigger from_file_result(file, d0)]
        from_file_result(file, d0) && sanitize_result(d0.rules, d0.store, d0.old_hangul_enabled, d.rules, d.store)
            && d == (ProjectData { rules: d.rules, store: d.store, ..d0 })
}

/// The project in the form in which it is saved: first brought into a consistent state,
/// then renumbered, then turned into its file form. `data` keeps the state that was saved.
/// Reading the file's glyph entries back gives every saved glyph under its own key with
/// its pixels on the canvas.
pub fn project_to_file(data: &mut ProjectData) -> (r: ProjectFile)
    requires
        old(data).store.wf(),
        -6 <= old(data).canvas_w <= 64,
    ensures
        save_result(*old(data), *final(data), r),
{
    let ghost d0 = *data;
    sanitize_rules_and_store(&mut data.rules, &mut data.store, data.old_hangul_enabled);
    let ghost mid = *data;
    proof {
        let (r1, ids, r2, r3, r4) = choose|r1: RuleSystem, ids: Seq<String>, r2: RuleSystem, r3: RuleSystem, r4: RuleSystem|
            #![trigger members_sanitized(d0.rules, r1, d0.old_hangul_enabled), bases_sanitized(r1, r2, ids), templates_sanitized(r2, r3, ids), selectors_sanitized(r3, r4)]
            members_sanitized(d0.rules, r1, d0.old_hangul_enabled) && ids_of(ids, r1.groups@)
                && bases_sanitized(r1, r2, ids) && templates_sanitized(r2, r3, ids) && selectors_sanitized(r3, r4)
                && glyphs_sanitized(d0.store, r4, mid.store, mid.rules, d0.old_hangul_enabled);
        lemma_sanitized_keys(d0.store, r4, mid.store, mid.rules, d0.old_hangul_enabled);
    }
    compact_ids(data);
    let r = to_file_format(data);
    proof {
        let g = data.store.glyphs@;
        let gids = crate::compact::group_ids(mid.rules.groups@);
        assert forall|i: int| 0 <= i < g.len() implies (#[trigger] g[i]).0.jamo != '/' by {
            lemma_entry_in_view(g, i);
            let nk = g[i].0@;
            assert(data.store@.contains_key(nk));
            let k = choose|k: KeyView| mid.store@.contains_key(k) && #[trigger] crate::compact::remap_key(gids, k) == nk;
            assert(k.1 == nk.1);
        }
        if 0 <= data.canvas_w {
            lemma_file_entries_roundtrip(g, data.canvas_w, data.canvas_h);
        }
    }
    r
}

} // verus!

verus! {

/// The glyphs of `g` with their pixels cut to a `w` by `h` canvas.
pub open spec fn on_canvas(g: Seq<GlyphEntry>, w: i32, h: i32) -> Map<KeyView, Set<(i32, i32)>> {
    Map::new(
        |k: KeyView| has_key(g, k),
        |k: KeyView| value_at(g, k).filter(|q: (i32, i32)| 0 <= q.0 < w && 0 <= q.1 < h),
    )
}

/// Writing a store's glyphs as file entries and reading them back gives every glyph under
/// its own key with its pixels on the canvas, and the entries always read back without
/// overflow. A key whose jamo is `/` does not read back (see `lemma_key_text_roundtrip`).
pub proof fn lemma_file_entries_roundtrip(g: Seq<GlyphEntry>, w: i32, h: i32)
    requires
        keys_distinct(g),
        forall|i: int| 0 <= i < g.len() ==> (#[trigger] g[i]).0.jamo != '/',
        0 <= w <= 64,
    ensures
        entries_fit(file_entries(g, w, h)),
        entries_map(file_entries(g, w, h)) == on_canvas(g, w, h),
    decreases g.len(),
{
    let es = file_entries(g, w, h);
    if g.len() == 0 {
        assert(entries_map(es) =~= on_canvas(g, w, h));
    } else {
        let n = g.len() - 1;
        let gp = g.drop_last();
        assert forall|i: int| 0 <= i < gp.len() implies (#[trigger] gp[i]).0.jamo != '/' by {
            assert(gp[i] == g[i]);
        }
        lemma_file_entries_roundtrip(gp, w, h);
        assert(es.drop_last() =~= file_entries(gp, w, h));
        let last = g[n];
        lemma_key_text_roundtrip(last.0.kind, last.0.jamo, last.0.group_id@);
        lemma_pixel_rows_roundtrip(last.1@, w, h);
        assert(es.last() == (key_text(last.0.kind, last.0.jamo, last.0.group_id@), rows_text(last.1@, w, h as int)));
        assert forall|i: int| 0 <= i < es.len() && (#[trigger] key_parse(es[i].0)) is Some implies rows_fit(
            ws_tokens(es[i].1),
        ) by {
            if i < n {
                assert(es[i] == es.drop_last()[i]);
            }
        }
        let m = on_canvas(g, w, h);
        let mp = on_canvas(gp, w, h);
        lemma_entry_in_view(g, n);
        assert forall|k: KeyView| #[trigger] m.contains_key(k) <==> mp.insert(last.0@, m[last.0@]).contains_key(k) by {
            if has_key(g, k) && k != last.0@ {
                let j = choose|j: int| 0 <= j < g.len() && g[j].0@ == k;
                assert(gp[j] == g[j]);
            }
            if has_key(gp, k) {
                let j = choose|j: int| 0 <= j < gp.len() && gp[j].0@ == k;
                assert(gp[j] == g[j]);
            }
        }
        assert forall|k: KeyView| #[trigger] m.contains_key(k) && k != last.0@ implies m[k] == mp[k] by {
            let j = choose|j: int| 0 <= j < g.len() && g[j].0@ == k;
            assert(j != n);
            assert(gp[j] == g[j]);
            lemma_entry_in_view(g, j);
            lemma_entry_in_view(gp, j);
        }
        assert(m =~= mp.insert(last.0@, m[last.0@]));
        assert(entries_map(es) =~= m);
    }
}

} // verus!
