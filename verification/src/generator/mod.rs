use vstd::prelude::*;

use crate::charset::{char_set_from, clone_chars, lemma_sorted_of, sorted_chars, sorted_of};
use crate::glyph::{GlyphStore, KeyView};
use crate::groups::{ComponentGroup, GroupView};
use crate::hangul::{cho_allowed, cho_table, jong_allowed, jong_table, jung_allowed, jung_table};
use crate::rule_system::{
    consistent, glyphs_cover, group_ids_distinct, has_group, lemma_has_group_position, lemma_seq_id_injective,
    seq_id, with_group_glyphs, has_template, rule_refs_ok, template_refs_ok, RuleSystem,
};
use crate::rules::{cond_matches, rules_view, CharSetCond, CondView, SelectorRule, SelectorView, Template, TemplateView, VariantRule, VariantView};
use crate::text::string_from;
use crate::types::HangulComponent;

pub mod default;
pub mod dkb;
pub mod hanterm;
pub mod minzkn;
pub mod zik;

verus! {

/// Builds the preset rule systems, adding the glyphs their groups need to a store.
pub struct RuleGenerator;

/// A fresh rule system whose id counters start at 1.
pub fn new_rule_system() -> (r: RuleSystem)
    ensures
        r.groups@.len() == 0,
        r.templates@.len() == 0,
        r.selectors@.len() == 0,
        r.base_cho_group_id@.len() == 0,
        r.base_jung_group_id@.len() == 0,
        r.base_jong_group_id@.len() == 0,
        r.next_group_seq == 1,
        r.next_template_seq == 1,
        r.next_selector_seq == 1,
        r.next_variant_seq == 1,
{
    let mut rs = RuleSystem::default();
    rs.reset_seqs(1, 1, 1, 1);
    rs
}

/// The modern initials, medials and finals, each as a sorted set.
pub fn all_jamo_sets() -> (r: (Vec<char>, Vec<char>, Vec<char>))
    ensures
        r.0@.to_set() == cho_table().to_set(),
        r.1@.to_set() == jung_table().to_set(),
        r.2@.to_set() == jong_table().skip(1).to_set(),
        sorted_chars(r.0@),
        sorted_chars(r.1@),
        sorted_chars(r.2@),
        r.0@ == all_cho(),
        r.1@ == all_jung(),
        r.2@ == all_jong(),
{
    let r = (char_set_from(&cho_allowed()), char_set_from(&jung_allowed()), char_set_from(&jong_allowed()));
    proof {
        lemma_sorted_of(r.0@);
        lemma_sorted_of(r.1@);
        lemma_sorted_of(r.2@);
    }
    r
}

/// The modern initials in increasing order.
pub open spec fn all_cho() -> Seq<char> {
    sorted_of(cho_table().to_set())
}

/// The modern medials in increasing order.
pub open spec fn all_jung() -> Seq<char> {
    sorted_of(jung_table().to_set())
}

/// The modern finals in increasing order.
pub open spec fn all_jong() -> Seq<char> {
    sorted_of(jong_table().skip(1).to_set())
}

/// The given jamo as a set in increasing order.
pub open spec fn jamo(s: Seq<char>) -> Seq<char> {
    sorted_of(s.to_set())
}

/// The given jamo as a sorted set without repeats.
pub fn jamo_set(v: Vec<char>) -> (r: Vec<char>)
    ensures
        r@ == jamo(v@),
{
    let r = char_set_from(&v);
    proof {
        lemma_sorted_of(r@);
    }
    r
}

/// No variant rules.
pub fn no_rules() -> (r: Vec<VariantRule>)
    ensures
        r@.len() == 0,
        rules_view(r@) == Seq::<VariantView>::empty(),
{
    let r: Vec<VariantRule> = Vec::new();
    assert(rules_view(r@) =~= Seq::<VariantView>::empty());
    r
}

/// The set holding the one jamo `c`.
pub fn one_jamo(c: char) -> (r: Vec<char>)
    ensures
        r@ == jamo(seq![c]),
{
    let mut r: Vec<char> = Vec::new();
    r.push(c);
    proof {
        assert(r@ =~= seq![c]);
        lemma_sorted_of(r@);
    }
    r
}

/// The id of the preset group numbered `n`.
pub open spec fn grp(n: u64) -> Seq<char> {
    seq_id("grp_"@, n)
}

/// A preset group: numbered `n`, with its name, component and the given jamo in increasing
/// order.
pub open spec fn preset_group(n: u64, name: Seq<char>, target: HangulComponent, members: Seq<char>) -> GroupView {
    GroupView { id: grp(n), name, target, members }
}

/// A preset template numbered `n`, with its default groups and variant rules.
pub open spec fn case_template(
    n: u64,
    name: Seq<char>,
    cho: Seq<char>,
    jung: Seq<char>,
    jong: Option<Seq<char>>,
    rules: Seq<VariantView>,
) -> TemplateView {
    TemplateView { id: seq_id("tpl_"@, n), name, default_cho: cho, default_jung: jung, default_jong: jong, variant_rules: rules }
}

/// A preset selector numbered `n` of priority 100 for any initial, the medials `jung` and
/// the finals `jong`, choosing template `t`.
pub open spec fn case_selector(n: u64, t: u64, name: Seq<char>, jung: Seq<char>, jong: Seq<char>) -> SelectorView {
    SelectorView {
        id: seq_id("sel_"@, n),
        name,
        priority: 100,
        cho_set: CondView::Any,
        jung_set: CondView::Include(jung),
        jong_set: CondView::Include(jong),
        template_id: seq_id("tpl_"@, t),
    }
}

/// A preset variant rule, identified by its name, of the given priority, conditions and
/// group changes.
pub open spec fn preset_rule(
    name: Seq<char>,
    prio: i32,
    cho: Option<Seq<char>>,
    jung: Option<Seq<char>>,
    jong: Option<Seq<char>>,
    set_cho: Option<Seq<char>>,
    set_jung: Option<Seq<char>>,
    set_jong: Option<Seq<char>>,
) -> VariantView {
    VariantView {
        id: name,
        name,
        priority: prio,
        cho_set: cond_of(cho),
        jung_set: cond_of(jung),
        jong_set: cond_of(jong),
        set_cho,
        set_jung,
        set_jong,
    }
}

/// The views of groups, in order.
pub open spec fn group_views(s: Seq<ComponentGroup>) -> Seq<GroupView> {
    s.map_values(|g: ComponentGroup| g@)
}

/// The views of templates, in order.
pub open spec fn template_views(s: Seq<Template>) -> Seq<TemplateView> {
    s.map_values(|t: Template| t@)
}

/// The views of selectors, in order.
pub open spec fn selector_views(s: Seq<SelectorRule>) -> Seq<SelectorView> {
    s.map_values(|x: SelectorRule| x@)
}

/// Store `m` with an empty glyph added, group after group, for every member of every group
/// of `gs` that has none yet.
pub open spec fn glyphs_added(m: Map<KeyView, Set<(i32, i32)>>, gs: Seq<GroupView>) -> Map<KeyView, Set<(i32, i32)>>
    decreases gs.len(),
{
    if gs.len() == 0 {
        m
    } else {
        let g = gs.last();
        with_group_glyphs(glyphs_added(m, gs.drop_last()), g.target, g.members, g.id)
    }
}

/// The set holding only the "no final" marker.
pub fn no_jong_set() -> (r: Vec<char>)
    ensures
        r@ == seq!['\0'],
{
    let mut v: Vec<char> = Vec::new();
    v.push('\0');
    v
}

pub fn build_template(
    id: String,
    name: &str,
    cho: String,
    jung: String,
    jong: Option<String>,
    variant_rules: Vec<VariantRule>,
) -> (r: Template)
    ensures
        r.id == id,
        r.name@ == name@,
        r.default_cho_group_id == cho,
        r.default_jung_group_id == jung,
        r.default_jong_group_id == jong,
        r.variant_rules == variant_rules,
{
    Template {
        id,
        name: string_from(name),
        default_cho_group_id: cho,
        default_jung_group_id: jung,
        default_jong_group_id: jong,
        variant_rules,
    }
}

/// A selector of priority 100 for any initial, the given medials, and either any real
/// final (`has_jong`) or no final.
pub fn build_selector(
    id: String,
    name: &str,
    jung_set: Vec<char>,
    has_jong: bool,
    tpl_id: String,
    jong_all: &Vec<char>,
    no_jong: &Vec<char>,
) -> (r: SelectorRule)
    ensures
        r.id == id,
        r.name@ == name@,
        r.priority == 100,
        r.cho_set@ == CondView::Any,
        r.jung_set@ == CondView::Include(jung_set@),
        r.jong_set@ == CondView::Include(
            if has_jong {
                jong_all@
            } else {
                no_jong@
            },
        ),
        r.template_id == tpl_id,
{
    SelectorRule {
        id,
        name: string_from(name),
        priority: 100,
        cho_set: CharSetCond::Any,
        jung_set: CharSetCond::Include(jung_set),
        jong_set: if has_jong {
            CharSetCond::Include(clone_chars(jong_all))
        } else {
            CharSetCond::Include(clone_chars(no_jong))
        },
        template_id: tpl_id,
    }
}

/// A condition from an optional set: the set, or any jamo.
pub open spec fn cond_of(s: Option<Seq<char>>) -> CondView {
    match s {
        Some(x) => CondView::Include(x),
        None => CondView::Any,
    }
}

fn include_or_any(s: Option<&Vec<char>>) -> (r: CharSetCond)
    ensures
        r@ == cond_of(
            match s {
                Some(v) => Some(v@),
                None => None,
            },
        ),
{
    match s {
        Some(v) => CharSetCond::Include(clone_chars(v)),
        None => CharSetCond::Any,
    }
}

/// The view of an optional string slice.
pub open spec fn opt_str_view(o: Option<&str>) -> Option<Seq<char>> {
    match o {
        Some(s) => Some(s@),
        None => None,
    }
}

fn opt_string(o: Option<&str>) -> (r: Option<String>)
    ensures
        crate::rules::opt_view(r) == opt_str_view(o),
{
    match o {
        Some(s) => Some(string_from(s)),
        None => None,
    }
}

/// A variant rule named (and identified) by `name`.
pub fn build_variant_rule(
    name: &str,
    cho_s: Option<&Vec<char>>,
    jung_s: Option<&Vec<char>>,
    jong_s: Option<&Vec<char>>,
    prio: i32,
    set_cho: Option<&str>,
    set_jung: Option<&str>,
    set_jong: Option<&str>,
) -> (r: VariantRule)
    ensures
        r.id@ == name@,
        r.name@ == name@,
        r.priority == prio,
        r.cho_set@ == cond_of(
            match cho_s {
                Some(v) => Some(v@),
                None => None,
            },
        ),
        r.jung_set@ == cond_of(
            match jung_s {
                Some(v) => Some(v@),
                None => None,
            },
        ),
        r.jong_set@ == cond_of(
            match jong_s {
                Some(v) => Some(v@),
                None => None,
            },
        ),
        crate::rules::opt_view(r.set_cho_group_id) == opt_str_view(set_cho),
        crate::rules::opt_view(r.set_jung_group_id) == opt_str_view(set_jung),
        crate::rules::opt_view(r.set_jong_group_id) == opt_str_view(set_jong),
{
    VariantRule {
        id: string_from(name),
        name: string_from(name),
        priority: prio,
        cho_set: include_or_any(cho_s),
        jung_set: include_or_any(jung_s),
        jong_set: include_or_any(jong_s),
        set_cho_group_id: opt_string(set_cho),
        set_jung_group_id: opt_string(set_jung),
        set_jong_group_id: opt_string(set_jong),
    }
}

/// The templates use only existing groups and every selector names one of the templates.
pub open spec fn cases_ok(
    groups: Seq<ComponentGroup>,
    templates: Seq<Template>,
    selectors: Seq<SelectorRule>,
) -> bool {
    &&& forall|i: int| 0 <= i < templates.len() ==> template_refs_ok(groups, #[trigger] templates[i])
    &&& forall|i: int| 0 <= i < selectors.len() ==> has_template(templates, #[trigger] selectors[i].template_id@)
}

/// Adds one case of a preset: a template with a fresh id using the given groups and
/// rules, and a selector with a fresh id that chooses it for the given medials.
pub fn add_preset_case(
    sys: &mut RuleSystem,
    templates: &mut Vec<Template>,
    selectors: &mut Vec<SelectorRule>,
    name: &str,
    jung_set: Vec<char>,
    has_jong: bool,
    cho_group: &str,
    jung_group: &str,
    jong_group: Option<&str>,
    variant_rules: Vec<VariantRule>,
    jong_all: &Vec<char>,
    no_jong: &Vec<char>,
)
    requires
        old(sys).next_template_seq < u64::MAX,
        old(sys).next_selector_seq < u64::MAX,
    ensures
        *final(sys) == (RuleSystem {
            next_template_seq: (old(sys).next_template_seq + 1) as u64,
            next_selector_seq: (old(sys).next_selector_seq + 1) as u64,
            ..*old(sys)
        }),
        template_views(final(templates)@) == template_views(old(templates)@).push(
            case_template(
                old(sys).next_template_seq,
                name@,
                cho_group@,
                jung_group@,
                opt_str_view(jong_group),
                rules_view(variant_rules@),
            ),
        ),
        selector_views(final(selectors)@) == selector_views(old(selectors)@).push(
            case_selector(
                old(sys).next_selector_seq,
                old(sys).next_template_seq,
                name@,
                jung_set@,
                if has_jong {
                    jong_all@
                } else {
                    no_jong@
                },
            ),
        ),
        final(templates)@.len() == old(templates)@.len() + 1,
        final(templates)@.drop_last() == old(templates)@,
        final(selectors)@.len() == old(selectors)@.len() + 1,
        final(selectors)@.drop_last() == old(selectors)@,
        ({
            let t = final(templates)@.last();
            &&& t.id@ == seq_id("tpl_"@, old(sys).next_template_seq)
            &&& t.name@ == name@
            &&& t.default_cho_group_id@ == cho_group@
            &&& t.default_jung_group_id@ == jung_group@
            &&& crate::rules::opt_view(t.default_jong_group_id) == opt_str_view(jong_group)
            &&& t.variant_rules == variant_rules
        }),
        ({
            let s = final(selectors)@.last();
            &&& s.id@ == seq_id("sel_"@, old(sys).next_selector_seq)
            &&& s.name@ == name@
            &&& s.priority == 100
            &&& s.cho_set@ == CondView::Any
            &&& s.jung_set@ == CondView::Include(jung_set@)
            &&& s.jong_set@ == CondView::Include(
                if has_jong {
                    jong_all@
                } else {
                    no_jong@
                },
            )
            &&& s.template_id@ == seq_id("tpl_"@, old(sys).next_template_seq)
        }),
        ({
            let g = old(sys).groups@;
            &&& cases_ok(g, old(templates)@, old(selectors)@)
            &&& has_group(g, cho_group@)
            &&& has_group(g, jung_group@)
            &&& (jong_group matches Some(j) ==> has_group(g, j@))
            &&& forall|j: int| 0 <= j < variant_rules@.len() ==> rule_refs_ok(g, #[trigger] variant_rules@[j])
        }) ==> cases_ok(final(sys).groups@, final(templates)@, final(selectors)@),
{
    let tpl_id = sys.new_template_id();
    let sel_id = sys.new_selector_id();
    let ghost t0 = templates@;
    let ghost s0 = selectors@;
    templates.push(
        build_template(
            tpl_id.clone(),
            name,
            string_from(cho_group),
            string_from(jung_group),
            opt_string(jong_group),
            variant_rules,
        ),
    );
    selectors.push(build_selector(sel_id, name, jung_set, has_jong, tpl_id, jong_all, no_jong));
    assert(templates@.drop_last() =~= t0);
    assert(selectors@.drop_last() =~= s0);
    assert(template_views(templates@) =~= template_views(t0).push(templates@.last()@));
    assert(selector_views(selectors@) =~= selector_views(s0).push(selectors@.last()@));
    proof {
        let g = sys.groups@;
        if cases_ok(g, t0, s0) && has_group(g, cho_group@) && has_group(g, jung_group@) && (
        jong_group matches Some(j) ==> has_group(g, j@)) {
            let ts = templates@;
            assert forall|i: int| 0 <= i < ts.len() implies #[trigger] ts[i] == if i < t0.len() {
                t0[i]
            } else {
                ts.last()
            } by {}
            assert forall|i: int| 0 <= i < selectors@.len() implies has_template(
                ts,
                #[trigger] selectors@[i].template_id@,
            ) by {
                if i < s0.len() {
                    assert(selectors@[i] == s0[i]);
                    let k = choose|k: int| 0 <= k < t0.len() && #[trigger] t0[k].id@ == s0[i].template_id@;
                    assert(ts[k] == t0[k]);
                } else {
                    assert(ts[t0.len() as int] == ts.last());
                }
            }
        }
    }
}

/// The state of a preset under construction: groups numbered from 1 in order, a glyph
/// for every group member, and counters small enough to go on.
pub open spec fn building(sys: RuleSystem, store: GlyphStore) -> bool {
    &&& store.wf()
    &&& sys.groups@.len() < 1000
    &&& sys.next_group_seq == sys.groups@.len() + 1
    &&& forall|i: int|
        0 <= i < sys.groups@.len() ==> #[trigger] sys.groups@[i].id@ == seq_id(
            "grp_"@,
            (i + 1) as u64,
        )
    &&& glyphs_cover(sys.groups@, store@)
}

/// Groups numbered from 1 in order have distinct ids.
pub proof fn lemma_building_ids_distinct(sys: RuleSystem, store: GlyphStore)
    requires
        building(sys, store),
    ensures
        group_ids_distinct(sys.groups@),
{
    assert forall|i: int, j: int|
        0 <= i < sys.groups@.len() && 0 <= j < sys.groups@.len() && i != j implies #[trigger] sys.groups@[i].id@
        != #[trigger] sys.groups@[j].id@ by {
        lemma_seq_id_injective("grp_"@, (i + 1) as u64, (j + 1) as u64);
    }
}

/// What every preset generator guarantees: a consistent rule system over the store, whose
/// earlier glyphs are all kept unchanged.
pub open spec fn preset_result(r: RuleSystem, before: GlyphStore, after: GlyphStore) -> bool {
    &&& after.wf()
    &&& consistent(r, after@)
    &&& forall|k: KeyView|
        #[trigger] before@.contains_key(k) ==> after@.contains_key(k) && after@[k] == before@[k]
}

/// While a preset is built, the group numbered `k` is there.
pub proof fn lemma_numbered_groups(sys: RuleSystem, store: GlyphStore)
    requires
        building(sys, store),
    ensures
        forall|k: u64|
            1 <= k <= sys.groups@.len() ==> has_group(sys.groups@, #[trigger] seq_id("grp_"@, k)),
{
    assert forall|k: u64| 1 <= k <= sys.groups@.len() implies has_group(
        sys.groups@,
        #[trigger] seq_id("grp_"@, k),
    ) by {
        assert(sys.groups@[k - 1].id@ == seq_id("grp_"@, k));
    }
}

/// Adds a group while a preset is built; the new group has the next number.
fn add_preset_group(
    sys: &mut RuleSystem,
    store: &mut GlyphStore,
    name: &str,
    target: HangulComponent,
    members: &Vec<char>,
    Ghost(base): Ghost<Map<KeyView, Set<(i32, i32)>>>,
) -> (r: String)
    requires
        building(*old(sys), *old(store)),
        old(sys).groups@.len() < 999,
        old(store)@ == glyphs_added(base, group_views(old(sys).groups@)),
    ensures
        final(store)@ == glyphs_added(base, group_views(final(sys).groups@)),
        group_views(final(sys).groups@) == group_views(old(sys).groups@).push(
            preset_group(old(sys).next_group_seq, name@, target, jamo(members@)),
        ),
        building(*final(sys), *final(store)),
        *final(sys) == (RuleSystem {
            groups: final(sys).groups,
            next_group_seq: final(sys).next_group_seq,
            ..*old(sys)
        }),
        final(sys).groups@.len() == old(sys).groups@.len() + 1,
        final(sys).groups@.drop_last() == old(sys).groups@,
        final(sys).groups@.last().id@ == r@,
        r@ == seq_id("grp_"@, old(sys).next_group_seq),
        forall|k: KeyView|
            #[trigger] old(store)@.contains_key(k) ==> final(store)@.contains_key(k) && final(store)@[k]
                == old(store)@[k],
{
    let ghost n = sys.groups@.len();
    let ghost g0 = sys.groups@;
    let ghost m0 = store@;
    let r = sys.add_group(store, name, target, clone_chars(members));
    proof {
        let gs = sys.groups@;
        assert(gs[n as int] == gs.last());
        assert forall|i: int| 0 <= i < gs.len() implies #[trigger] gs[i].id@ == seq_id(
            "grp_"@,
            (i + 1) as u64,
        ) by {
            if i < n {
                assert(gs[i] == g0[i]);
            }
        }
        assert forall|i: int| 0 <= i < n implies gs[i].id@ != r@ by {
            assert(gs[i] == g0[i]);
            lemma_seq_id_injective("grp_"@, (i + 1) as u64, (n + 1) as u64);
        }
        crate::seqs::lemma_first_index_is(gs, crate::idlist::has_id::<ComponentGroup>(r@), n as int);
        assert(store@ == with_group_glyphs(m0, target, gs.last().members@, r@));
        lemma_sorted_of(gs.last().members@);
        assert(group_views(gs) =~= group_views(g0).push(
            preset_group(old(sys).next_group_seq, name@, target, jamo(members@)),
        ));
        assert(group_views(gs).drop_last() =~= group_views(g0));
        assert forall|i: int, m: char|
            0 <= i < gs.len() && #[trigger] gs[i].members@.contains(m) implies store@.contains_key(
            (gs[i].target, m, gs[i].id@),
        ) by {
            if i < n {
                assert(gs[i] == g0[i]);
            }
        }
    }
    r
}

} // verus!

verus! {

impl RuleGenerator {
    /// The basic preset (see `default::generate`).
    pub fn generate_default(store: &mut GlyphStore) -> (r: RuleSystem)
        requires
            old(store).wf(),
        ensures
            preset_result(r, *old(store), *final(store)),
            r@ == default::default_preset(),
            final(store)@ == glyphs_added(old(store)@, r@.groups),
            r.groups@.len() == 13,
            r.templates@.len() == 6,
            r.selectors@.len() == 6,
    {
        default::generate(store)
    }

    /// The minzkn preset (see `minzkn::generate`).
    pub fn generate_10x6x4(store: &mut GlyphStore) -> (r: RuleSystem)
        requires
            old(store).wf(),
        ensures
            preset_result(r, *old(store), *final(store)),
            r@ == minzkn::minzkn_preset(),
            final(store)@ == glyphs_added(old(store)@, r@.groups),
            r.groups@.len() == 20,
            r.templates@.len() == 15,
            r.selectors@.len() == 15,
    {
        minzkn::generate(store)
    }

    /// The ZIK preset (see `zik::generate`).
    pub fn generate_zik(store: &mut GlyphStore) -> (r: RuleSystem)
        requires
            old(store).wf(),
        ensures
            preset_result(r, *old(store), *final(store)),
            r@ == zik::zik_preset(),
            final(store)@ == glyphs_added(old(store)@, r@.groups),
            r.groups@.len() == 8,
            r.templates@.len() == 4,
            r.selectors@.len() == 4,
    {
        zik::generate(store)
    }

    /// The DKB preset (see `dkb::generate`).
    pub fn generate_dkb(store: &mut GlyphStore) -> (r: RuleSystem)
        requires
            old(store).wf(),
        ensures
            preset_result(r, *old(store), *final(store)),
            r@ == dkb::dkb_preset(),
            final(store)@ == glyphs_added(old(store)@, r@.groups),
            r.groups@.len() == 16,
            r.templates@.len() == 15,
            r.selectors@.len() == 15,
    {
        dkb::generate(store)
    }

    /// The hanterm preset (see `hanterm::generate`).
    pub fn generate_hanterm(store: &mut GlyphStore) -> (r: RuleSystem)
        requires
            old(store).wf(),
        ensures
            preset_result(r, *old(store), *final(store)),
            r@ == hanterm::hanterm_preset(),
            final(store)@ == glyphs_added(old(store)@, r@.groups),
            r.groups@.len() == 21,
            r.templates@.len() == 15,
            r.selectors@.len() == 15,
    {
        hanterm::generate(store)
    }
}

/// Some group among `groups` has the id `id` and the name `name`.
pub open spec fn group_named(groups: Seq<GroupView>, id: Seq<char>, name: Seq<char>) -> bool {
    exists|k: int| 0 <= k < groups.len() && groups[k].id == id && groups[k].name == name
}

/// The name of the medial group kept for initial ㅎ (when `h`) or for ㄱㅋ, in a case with
/// or without a final.
pub open spec fn medial_group_name(has_jong: bool, h: bool) -> Seq<char> {
    if has_jong {
        if h { "받침O_중성_초성ㅎ"@ } else { "받침O_중성_초성ㄱㅋ"@ }
    } else {
        if h { "받침X_중성_초성ㅎ"@ } else { "받침X_중성_초성ㄱㅋ"@ }
    }
}

/// A rule's medial change follows its initial: a rule that applies to initial ㅎ sends the
/// medial to the ㅎ medial group of the case, one that applies to ㄱ or ㅋ to the ㄱㅋ one.
pub open spec fn medial_follows_initial(groups: Seq<GroupView>, has_jong: bool, r: VariantView) -> bool {
    &&& cond_matches(r.cho_set, 'ㅎ') ==> (r.set_jung matches Some(g) && group_named(
        groups,
        g,
        medial_group_name(has_jong, true),
    ))
    &&& (cond_matches(r.cho_set, 'ㄱ') || cond_matches(r.cho_set, 'ㅋ')) ==> (r.set_jung matches Some(g)
        && group_named(groups, g, medial_group_name(has_jong, false)))
}

/// The jamo sets the presets' rules are written with.
proof fn lemma_jamo_literals()
    ensures
        jamo(seq!['ㄱ', 'ㅋ']) == seq!['ㄱ', 'ㅋ'],
        jamo(seq!['ㅎ']) == seq!['ㅎ'],
        jamo(seq!['ㄴ']) == seq!['ㄴ'],
        !seq!['ㄱ', 'ㅋ'].contains('ㅎ'),
        seq!['ㄱ', 'ㅋ'].contains('ㄱ') && seq!['ㄱ', 'ㅋ'].contains('ㅋ'),
        seq!['ㅎ'].contains('ㅎ') && !seq!['ㅎ'].contains('ㄱ') && !seq!['ㅎ'].contains('ㅋ'),
        seq!['ㄴ'].contains('ㄴ'),
{
    assert(('ㄱ' as u32) < ('ㅋ' as u32));
    lemma_sorted_of(seq!['ㄱ', 'ㅋ']);
    lemma_sorted_of(seq!['ㅎ']);
    lemma_sorted_of(seq!['ㄴ']);
    assert(seq!['ㄱ', 'ㅋ'][0] == 'ㄱ' && seq!['ㄱ', 'ㅋ'][1] == 'ㅋ');
    assert(seq!['ㅎ'][0] == 'ㅎ');
    assert(seq!['ㄴ'][0] == 'ㄴ');
}

} // verus!
