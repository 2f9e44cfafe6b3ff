use vstd::prelude::*;

use crate::glyph::{GlyphKey, GlyphStore, KeyView};
use crate::idlist::{id_position, has_id};
use crate::rule_system::{label, RuleSystem};
use crate::rules::{cond_matches, opt_view, CharSetCond, CondView, SelectorRule, Template, VariantRule};
use crate::seqs::{first_index, lemma_first_index_props};
use crate::text::{string_from, string_push, string_push_str};
use crate::types::{component_name, kind_to_name, HangulComponent};

verus! {

/// A note that the layout had to fall back from the group it wanted.
#[derive(Debug)]
pub struct FallbackEntry {
    pub message: String,
}

/// Which jamo goes into which position.
#[derive(Clone, Copy, Debug)]
pub struct PartPlacement {
    pub kind: HangulComponent,
    pub jamo: char,
}

/// A placed jamo and the group whose glyph draws it.
#[derive(Debug)]
pub struct PlacedPart {
    pub placement: PartPlacement,
    pub group_id: String,
}

/// A placed part as a mathematical value: position, jamo, group id.
pub type PartView = (HangulComponent, char, Seq<char>);

impl View for PlacedPart {
    type V = PartView;

    open spec fn view(&self) -> PartView {
        (self.placement.kind, self.placement.jamo, self.group_id@)
    }
}

/// How one syllable is laid out: the template used, why, and the group of each part.
#[derive(Debug)]
pub struct LayoutResult {
    pub template_id: String,
    pub template_name: String,
    pub selector_name: String,
    pub matched_variants: Vec<String>,
    pub cho: PlacedPart,
    pub jung: PlacedPart,
    pub jong: Option<PlacedPart>,
    pub fallbacks: Vec<FallbackEntry>,
}

/// A layout as a mathematical value.
pub struct LayoutView {
    pub template_id: Seq<char>,
    pub template_name: Seq<char>,
    pub selector_name: Seq<char>,
    pub matched_variants: Seq<Seq<char>>,
    pub cho: PartView,
    pub jung: PartView,
    pub jong: Option<PartView>,
    pub fallbacks: Seq<Seq<char>>,
}

/// The texts of a list of strings.
pub open spec fn strings_view(v: Seq<String>) -> Seq<Seq<char>> {
    v.map_values(|s: String| s@)
}

/// The messages of a list of fallback notes.
pub open spec fn messages_view(v: Seq<FallbackEntry>) -> Seq<Seq<char>> {
    v.map_values(|f: FallbackEntry| f.message@)
}

impl View for LayoutResult {
    type V = LayoutView;

    open spec fn view(&self) -> LayoutView {
        LayoutView {
            template_id: self.template_id@,
            template_name: self.template_name@,
            selector_name: self.selector_name@,
            matched_variants: strings_view(self.matched_variants@),
            cho: self.cho@,
            jung: self.jung@,
            jong: match self.jong {
                Some(p) => Some(p@),
                None => None,
            },
            fallbacks: messages_view(self.fallbacks@),
        }
    }
}

/// Lays out syllables by the rules it holds.
pub struct LayoutEngine {
    pub rules: RuleSystem,
}

impl Default for LayoutEngine {
    fn default() -> (r: Self)
        ensures
            r.rules.groups@.len() == 0,
            r.rules.templates@.len() == 0,
            r.rules.selectors@.len() == 0,
    {
        LayoutEngine { rules: RuleSystem::default() }
    }
}

/// The character a missing final stands for when conditions are checked.
pub open spec fn jong_or_none(jong: Option<char>) -> char {
    match jong {
        Some(c) => c,
        None => '\0',
    }
}

/// Do the three conditions accept the jamo (a missing final counts as `'\0'`)?
pub open spec fn sets_match(
    cho_set: CondView,
    jung_set: CondView,
    jong_set: CondView,
    cho: char,
    jung: char,
    jong: Option<char>,
) -> bool {
    cond_matches(cho_set, cho) && cond_matches(jung_set, jung) && cond_matches(
        jong_set,
        jong_or_none(jong),
    )
}

pub fn jamo_sets_match(
    cho_set: &CharSetCond,
    jung_set: &CharSetCond,
    jong_set: &CharSetCond,
    cho_ch: char,
    jung_ch: char,
    jong_ch: Option<char>,
) -> (r: bool)
    ensures
        r == sets_match(cho_set@, jung_set@, jong_set@, cho_ch, jung_ch, jong_ch),
{
    let j = match jong_ch {
        Some(c) => c,
        None => '\0',
    };
    cho_set.matches(cho_ch) && jung_set.matches(jung_ch) && jong_set.matches(j)
}

/// Selector `i` accepts the jamo and names a template that exists.
pub open spec fn selector_eligible(
    rules: RuleSystem,
    i: int,
    cho: char,
    jung: char,
    jong: Option<char>,
) -> bool {
    let s = rules.selectors@[i];
    sets_match(s.cho_set@, s.jung_set@, s.jong_set@, cho, jung, jong) && id_position(
        rules.templates@,
        s.template_id@,
    ) is Some
}

/// Among the first `n` selectors, `b` is eligible, has the highest priority of the
/// eligible ones, and comes first among those with that priority.
pub open spec fn best_among(
    rules: RuleSystem,
    b: int,
    n: int,
    cho: char,
    jung: char,
    jong: Option<char>,
) -> bool {
    &&& 0 <= b < n
    &&& selector_eligible(rules, b, cho, jung, jong)
    &&& forall|j: int|
        0 <= j < n && #[trigger] selector_eligible(rules, j, cho, jung, jong)
            ==> rules.selectors@[j].priority <= rules.selectors@[b].priority
    &&& forall|j: int|
        0 <= j < b && #[trigger] selector_eligible(rules, j, cho, jung, jong)
            ==> rules.selectors@[j].priority < rules.selectors@[b].priority
}

/// The selector that decides the template, if any is eligible.
pub open spec fn best_selector(rules: RuleSystem, cho: char, jung: char, jong: Option<char>) -> Option<
    int,
> {
    let n = rules.selectors@.len() as int;
    if exists|b: int| best_among(rules, b, n, cho, jung, jong) {
        Some(choose|b: int| best_among(rules, b, n, cho, jung, jong))
    } else {
        None
    }
}

/// There is at most one best selector.
pub proof fn lemma_best_unique(
    rules: RuleSystem,
    a: int,
    b: int,
    n: int,
    cho: char,
    jung: char,
    jong: Option<char>,
)
    requires
        best_among(rules, a, n, cho, jung, jong),
        best_among(rules, b, n, cho, jung, jong),
    ensures
        a == b,
{
    if a < b {
        assert(selector_eligible(rules, a, cho, jung, jong));
    }
    if b < a {
        assert(selector_eligible(rules, b, cho, jung, jong));
    }
}

/// The template chosen for the jamo (its index) and the name of what chose it: the best
/// selector, else the first template.
pub open spec fn picked(rules: RuleSystem, cho: char, jung: char, jong: Option<char>) -> Option<
    (int, Seq<char>),
> {
    match best_selector(rules, cho, jung, jong) {
        Some(b) => {
            let s = rules.selectors@[b];
            Some((id_position(rules.templates@, s.template_id@)->0, label(s.name@, s.id@)))
        },
        None => if rules.templates@.len() > 0 {
            Some((0, "(기본 템플릿)"@))
        } else {
            None
        },
    }
}

fn clone_label(name: &String, id: &String) -> (r: String)
    ensures
        r@ == label(name@, id@),
{
    if name.as_str().is_empty() {
        id.clone()
    } else {
        name.clone()
    }
}

impl LayoutEngine {
    /// The template for the jamo: the highest-priority selector that accepts them and names
    /// an existing template (the earlier selector on a tie), else the first template.
    fn pick_template(&self, cho_ch: char, jung_ch: char, jong_ch: Option<char>) -> (r: Option<
        (&Template, String),
    >)
        ensures
            match picked(self.rules, cho_ch, jung_ch, jong_ch) {
                Some((ti, name)) => r matches Some((t, n)) && 0 <= ti < self.rules.templates@.len()
                    && *t == self.rules.templates@[ti] && n@ == name,
                None => r is None,
            },
    {
        let ghost rules = self.rules;
        let n = self.rules.selectors.len();
        let mut best: Option<usize> = None;
        let mut i: usize = 0;
        while i < n
            invariant
                n == rules.selectors@.len(),
                rules == self.rules,
                i <= n,
                best matches Some(b) ==> best_among(rules, b as int, i as int, cho_ch, jung_ch, jong_ch),
                best is None ==> forall|j: int|
                    0 <= j < i ==> !#[trigger] selector_eligible(rules, j, cho_ch, jung_ch, jong_ch),
            decreases n - i,
        {
            let s = &self.rules.selectors[i];
            let eligible = jamo_sets_match(&s.cho_set, &s.jung_set, &s.jong_set, cho_ch, jung_ch, jong_ch)
                && self.rules.find_template(s.template_id.as_str()).is_some();
            if eligible {
                match best {
                    None => {
                        best = Some(i);
                    },
                    Some(b) => {
                        if s.priority > self.rules.selectors[b].priority {
                            best = Some(i);
                        }
                    },
                }
            }
            i = i + 1;
        }
        match best {
            Some(b) => {
                proof {
                    assert(best_among(rules, b as int, n as int, cho_ch, jung_ch, jong_ch));
                    assert forall|x: int| best_among(rules, x, n as int, cho_ch, jung_ch, jong_ch) implies x == b by {
                        lemma_best_unique(rules, x, b as int, n as int, cho_ch, jung_ch, jong_ch);
                    }
                }
                let s = &self.rules.selectors[b];
                match self.rules.find_template(s.template_id.as_str()) {
                    Some(tpl) => {
                        proof {
                            lemma_first_index_props(
                                rules.templates@,
                                has_id::<Template>(s.template_id@),
                            );
                        }
                        Some((tpl, clone_label(&s.name, &s.id)))
                    },
                    None => None,
                }
            },
            None => {
                if self.rules.templates.len() > 0 {
                    Some((&self.rules.templates[0], string_from("(기본 템플릿)")))
                } else {
                    None
                }
            },
        }
    }
}

} // verus!

verus! {

/// The position at which a rule of priority `p` joins `o`: before the first index whose
/// rule has a higher priority.
pub open spec fn insert_pos(o: Seq<usize>, rs: Seq<VariantRule>, p: i32) -> int {
    match first_index(o, |j: usize| rs[j as int].priority > p) {
        Some(k) => k,
        None => o.len() as int,
    }
}

/// The order in which the first `n` variant rules are applied: by priority, lowest first,
/// rules of equal priority in list order.
pub open spec fn priority_order(rs: Seq<VariantRule>, n: nat) -> Seq<usize>
    decreases n,
{
    if n == 0 {
        Seq::empty()
    } else {
        let o = priority_order(rs, (n - 1) as nat);
        o.insert(insert_pos(o, rs, rs[n - 1].priority), (n - 1) as usize)
    }
}

/// The order holds each of the first `n` rules once, sorted by priority and, on equal
/// priority, by position in the list.
pub proof fn lemma_priority_order(rs: Seq<VariantRule>, n: nat)
    requires
        n <= rs.len(),
        n <= usize::MAX,
    ensures
        priority_order(rs, n).len() == n,
        forall|a: int| 0 <= a < n ==> (#[trigger] priority_order(rs, n)[a]) < n,
        forall|a: int, b: int|
            0 <= a < b < n ==> #[trigger] priority_order(rs, n)[a] != #[trigger] priority_order(
                rs,
                n,
            )[b],
        forall|a: int, b: int|
            0 <= a < b < n ==> {
                let x = #[trigger] priority_order(rs, n)[a];
                let y = #[trigger] priority_order(rs, n)[b];
                rs[x as int].priority < rs[y as int].priority || (rs[x as int].priority
                    == rs[y as int].priority && x < y)
            },
    decreases n,
{
    if n > 0 {
        let m = (n - 1) as nat;
        lemma_priority_order(rs, m);
        let o = priority_order(rs, m);
        let p = rs[m as int].priority;
        let f = |j: usize| rs[j as int].priority > p;
        lemma_first_index_props(o, f);
        let k = insert_pos(o, rs, p);
        let o2 = o.insert(k, m as usize);
        assert(o2 == priority_order(rs, n));
        assert(0 <= k <= o.len());
        assert forall|a: int| 0 <= a < k implies rs[o[a] as int].priority <= p by {
            assert(!f(o[a]));
        }
        assert forall|a: int| k <= a < o.len() implies rs[o[a] as int].priority > p by {
            assert(f(o[k]));
            if a > k {
                let x = o[k];
                let y = o[a];
                assert(rs[x as int].priority < rs[y as int].priority || rs[x as int].priority
                    == rs[y as int].priority);
            }
        }
        assert forall|a: int| 0 <= a < n implies (#[trigger] o2[a]) < n by {
            if a < k {
                assert(o2[a] == o[a]);
            } else if a > k {
                assert(o2[a] == o[a - 1]);
            }
        }
        assert forall|a: int, b: int| 0 <= a < b < n implies #[trigger] o2[a] != #[trigger] o2[b]
            && {
            let x = o2[a];
            let y = o2[b];
            rs[x as int].priority < rs[y as int].priority || (rs[x as int].priority
                == rs[y as int].priority && x < y)
        } by {
            let ia = if a < k {
                a
            } else {
                a - 1
            };
            let ib = if b < k {
                b
            } else {
                b - 1
            };
            if a != k && b != k {
                assert(o2[a] == o[ia]);
                assert(o2[b] == o[ib]);
                assert(ia < ib);
            } else if a == k {
                assert(o2[b] == o[ib]);
                assert(o[ib] < m);
            } else {
                assert(o2[a] == o[ia]);
                assert(o[ia] < m);
            }
        }
    }
}

/// The group ids of the three slots as mathematical values.
pub type GroupIdsView = (Seq<char>, Seq<char>, Seq<char>);

/// A slot keeps its group unless the rule sets one.
pub open spec fn slot_override(cur: Seq<char>, set: Option<String>) -> Seq<char> {
    match opt_view(set) {
        Some(g) => g,
        None => cur,
    }
}

/// The slot groups and names of matched rules after applying the rules in `order`.
pub open spec fn apply_variants(
    rs: Seq<VariantRule>,
    order: Seq<usize>,
    cho: char,
    jung: char,
    jong: Option<char>,
    init: GroupIdsView,
) -> (GroupIdsView, Seq<Seq<char>>)
    decreases order.len(),
{
    if order.len() == 0 {
        (init, Seq::empty())
    } else {
        let prev = apply_variants(rs, order.drop_last(), cho, jung, jong, init);
        let r = rs[order.last() as int];
        if sets_match(r.cho_set@, r.jung_set@, r.jong_set@, cho, jung, jong) {
            (
                (
                    slot_override(prev.0.0, r.set_cho_group_id),
                    slot_override(prev.0.1, r.set_jung_group_id),
                    slot_override(prev.0.2, r.set_jong_group_id),
                ),
                prev.1.push(label(r.name@, r.id@)),
            )
        } else {
            prev
        }
    }
}

struct GroupIds {
    cho: String,
    jung: String,
    jong: String,
}

spec fn ids_view(g: GroupIds) -> GroupIdsView {
    (g.cho@, g.jung@, g.jong@)
}

fn priority_order_of(rs: &Vec<VariantRule>) -> (o: Vec<usize>)
    ensures
        o@ == priority_order(rs@, rs@.len()),
{
    let mut o: Vec<usize> = Vec::new();
    let mut n: usize = 0;
    while n < rs.len()
        invariant
            n <= rs@.len(),
            o@ == priority_order(rs@, n as nat),
        decreases rs@.len() - n,
    {
        proof {
            lemma_priority_order(rs@, n as nat);
        }
        let p = rs[n].priority;
        let ghost f = |j: usize| rs@[j as int].priority > p;
        let mut k: usize = 0;
        while k < o.len() && rs[o[k]].priority <= p
            invariant
                n < rs@.len(),
                o@ == priority_order(rs@, n as nat),
                forall|a: int| 0 <= a < n ==> (#[trigger] o@[a]) < n,
                o@.len() == n,
                k <= o@.len(),
                forall|a: int| 0 <= a < k ==> rs@[(#[trigger] o@[a]) as int].priority <= p,
            decreases o@.len() - k,
        {
            k = k + 1;
        }
        proof {
            assert forall|a: int| 0 <= a < k implies !f(#[trigger] o@[a]) by {}
            if k < o@.len() {
                crate::seqs::lemma_first_index_is(o@, f, k as int);
            } else {
                crate::seqs::lemma_first_index_none(o@, f);
            }
            assert(k == insert_pos(o@, rs@, p));
        }
        o.insert(k, n);
        n = n + 1;
    }
    o
}

fn override_slot(cur: &mut String, set: &Option<String>)
    ensures
        final(cur)@ == slot_override(old(cur)@, *set),
{
    if let Some(g) = set {
        *cur = g.clone();
    }
}

impl LayoutEngine {
    /// Applies the template's variant rules that accept the jamo, lowest priority first, so
    /// that a later rule overrides an earlier one; returns the groups and the names of the
    /// rules that applied, in that order.
    fn apply_variant_rules_group(
        rs: &Vec<VariantRule>,
        cho_ch: char,
        jung_ch: char,
        jong_ch: Option<char>,
        gids: GroupIds,
    ) -> (r: (GroupIds, Vec<String>))
        ensures
            (ids_view(r.0), strings_view(r.1@)) == apply_variants(
                rs@,
                priority_order(rs@, rs@.len()),
                cho_ch,
                jung_ch,
                jong_ch,
                ids_view(gids),
            ),
    {
        let order = priority_order_of(rs);
        let len = rs.len();
        proof {
            lemma_priority_order(rs@, rs@.len());
        }
        let ghost init = ids_view(gids);
        let mut gids = gids;
        let mut matched: Vec<String> = Vec::new();
        let mut i: usize = 0;
        while i < order.len()
            invariant
                order@ == priority_order(rs@, rs@.len()),
                order@.len() == rs@.len(),
                forall|a: int| 0 <= a < rs@.len() ==> (#[trigger] order@[a]) < rs@.len(),
                i <= order@.len(),
                (ids_view(gids), strings_view(matched@)) == apply_variants(
                    rs@,
                    order@.take(i as int),
                    cho_ch,
                    jung_ch,
                    jong_ch,
                    init,
                ),
            decreases order@.len() - i,
        {
            let r = &rs[order[i]];
            proof {
                assert(order@.take(i + 1).drop_last() =~= order@.take(i as int));
            }
            if jamo_sets_match(&r.cho_set, &r.jung_set, &r.jong_set, cho_ch, jung_ch, jong_ch) {
                let ghost m0 = matched@;
                matched.push(clone_label(&r.name, &r.id));
                assert(strings_view(matched@) =~= strings_view(m0).push(label(r.name@, r.id@)));
                override_slot(&mut gids.cho, &r.set_cho_group_id);
                override_slot(&mut gids.jung, &r.set_jung_group_id);
                override_slot(&mut gids.jong, &r.set_jong_group_id);
            }
            i = i + 1;
        }
        proof {
            assert(order@.take(order@.len() as int) =~= order@);
        }
        (gids, matched)
    }
}

} // verus!

verus! {

/// A message about one part: `<part> '<jamo>'` followed by `mid`, the group id and `tail`.
pub open spec fn part_msg(
    kind: HangulComponent,
    jamo: char,
    mid: Seq<char>,
    gid: Seq<char>,
    tail: Seq<char>,
) -> Seq<char> {
    component_name(kind) + " '"@ + seq![jamo] + mid + gid + tail
}

/// The wanted group exists but has no glyph for the jamo.
pub open spec fn msg_glyph_missing(kind: HangulComponent, jamo: char, gid: Seq<char>) -> Seq<char> {
    part_msg(kind, jamo, "' 에서 group '"@, gid, "' 글리프 없음 -> Base로 fallback"@)
}

/// The wanted group does not exist.
pub open spec fn msg_group_missing(kind: HangulComponent, jamo: char, gid: Seq<char>) -> Seq<char> {
    part_msg(kind, jamo, "' 에서 group '"@, gid, "' 존재하지 않음 -> Base로 fallback"@)
}

/// The base group has no glyph for the jamo either.
pub open spec fn msg_base_missing(kind: HangulComponent, jamo: char, base: Seq<char>) -> Seq<char> {
    part_msg(kind, jamo, "' 에서 Base group '"@, base, "' 글리프도 없음"@)
}

/// The base group id configured for a component.
pub open spec fn base_group(rules: RuleSystem, kind: HangulComponent) -> Seq<char> {
    match kind {
        HangulComponent::Cho => rules.base_cho_group_id@,
        HangulComponent::Jung => rules.base_jung_group_id@,
        HangulComponent::Jong => rules.base_jong_group_id@,
    }
}

/// The group that draws a part, with the fallback notes: the wanted group when it exists
/// and has the glyph, else the base group when that has the glyph, else the wanted group.
pub open spec fn resolve_part(
    rules: RuleSystem,
    store: Map<KeyView, Set<(i32, i32)>>,
    kind: HangulComponent,
    jamo: char,
    gid: Seq<char>,
) -> (Seq<char>, Seq<Seq<char>>) {
    let group_exists = id_position(rules.groups@, gid) is Some;
    let glyph_exists = store.contains_key((kind, jamo, gid));
    if group_exists && glyph_exists {
        (gid, Seq::empty())
    } else {
        let first = if group_exists {
            msg_glyph_missing(kind, jamo, gid)
        } else {
            msg_group_missing(kind, jamo, gid)
        };
        let base = base_group(rules, kind);
        if store.contains_key((kind, jamo, base)) {
            (base, seq![first])
        } else {
            (gid, seq![first, msg_base_missing(kind, jamo, base)])
        }
    }
}

/// The message when the syllable has a final but the chosen template has no final slot.
pub open spec fn msg_jong_slot_missing() -> Seq<char> {
    "문자에 종성이 있는데, 선택 템플릿에 종성 슬롯이 없음"@
}

/// The groups a template starts from (an absent final group counts as empty).
pub open spec fn template_ids(t: Template) -> GroupIdsView {
    (
        t.default_cho_group_id@,
        t.default_jung_group_id@,
        match opt_view(t.default_jong_group_id) {
            Some(g) => g,
            None => Seq::empty(),
        },
    )
}

/// The layout of the jamo under the rules, against the glyphs in `store`; `None` when
/// no template can be chosen.
pub open spec fn spec_layout(
    rules: RuleSystem,
    store: Map<KeyView, Set<(i32, i32)>>,
    cho: char,
    jung: char,
    jong: Option<char>,
) -> Option<LayoutView> {
    match picked(rules, cho, jung, jong) {
        None => None,
        Some(p) => {
            let t = rules.templates@[p.0];
            let rs = t.variant_rules@;
            let applied = apply_variants(
                rs,
                priority_order(rs, rs.len()),
                cho,
                jung,
                jong,
                template_ids(t),
            );
            let gids = applied.0;
            let c = resolve_part(rules, store, HangulComponent::Cho, cho, gids.0);
            let j = resolve_part(rules, store, HangulComponent::Jung, jung, gids.1);
            let k: (Option<PartView>, Seq<Seq<char>>) = match jong {
                None => (None, Seq::empty()),
                Some(ch) => if t.default_jong_group_id is Some {
                    let f = resolve_part(rules, store, HangulComponent::Jong, ch, gids.2);
                    (Some((HangulComponent::Jong, ch, f.0)), f.1)
                } else {
                    (None, seq![msg_jong_slot_missing()])
                },
            };
            Some(
                LayoutView {
                    template_id: t.id@,
                    template_name: label(t.name@, t.id@),
                    selector_name: p.1,
                    matched_variants: applied.1,
                    cho: (HangulComponent::Cho, cho, c.0),
                    jung: (HangulComponent::Jung, jung, j.0),
                    jong: k.0,
                    fallbacks: c.1 + j.1 + k.1,
                },
            )
        },
    }
}

/// The view of an optional layout.
pub open spec fn layout_opt_view(r: Option<LayoutResult>) -> Option<LayoutView> {
    match r {
        Some(x) => Some(x@),
        None => None,
    }
}

fn part_message(kind: HangulComponent, jamo: char, mid: &str, gid: &str, tail: &str) -> (r: String)
    ensures
        r@ == part_msg(kind, jamo, mid@, gid@, tail@),
{
    let mut s = string_from(kind_to_name(kind));
    string_push_str(&mut s, " '");
    string_push(&mut s, jamo);
    string_push_str(&mut s, mid);
    string_push_str(&mut s, gid);
    string_push_str(&mut s, tail);
    s
}

fn fallback(message: String) -> (r: Vec<FallbackEntry>)
    ensures
        messages_view(r@) == seq![message@],
{
    let mut v: Vec<FallbackEntry> = Vec::new();
    v.push(FallbackEntry { message });
    assert(messages_view(v@) =~= seq![message@]);
    v
}

fn append_fallbacks(v: &mut Vec<FallbackEntry>, more: Vec<FallbackEntry>)
    ensures
        messages_view(final(v)@) == messages_view(old(v)@) + messages_view(more@),
{
    let mut more = more;
    let ghost s0 = v@;
    let ghost m0 = more@;
    v.append(&mut more);
    assert(v@ == s0 + m0);
    assert(messages_view(v@) =~= messages_view(s0) + messages_view(m0));
}

impl LayoutEngine {
    fn resolve_group_id_for_part(
        rules: &RuleSystem,
        store: &GlyphStore,
        kind: HangulComponent,
        jamo: char,
        desired_gid: &str,
    ) -> (r: (String, Vec<FallbackEntry>))
        ensures
            (r.0@, messages_view(r.1@)) == resolve_part(*rules, store@, kind, jamo, desired_gid@),
    {
        let group_exists = rules.find_group(desired_gid).is_some();
        let glyph_exists = store.has(&GlyphKey::new(kind, jamo, desired_gid));
        if group_exists && glyph_exists {
            let v: Vec<FallbackEntry> = Vec::new();
            assert(messages_view(v@) =~= Seq::<Seq<char>>::empty());
            return (string_from(desired_gid), v);
        }
        let message = if group_exists {
            part_message(kind, jamo, "' 에서 group '", desired_gid, "' 글리프 없음 -> Base로 fallback")
        } else {
            part_message(kind, jamo, "' 에서 group '", desired_gid, "' 존재하지 않음 -> Base로 fallback")
        };
        let mut fallbacks = fallback(message);
        let base = rules.base_group_id_for_kind(kind);
        if store.has(&GlyphKey::new(kind, jamo, base)) {
            return (string_from(base), fallbacks);
        }
        let ghost f0 = messages_view(fallbacks@);
        fallbacks.push(
            FallbackEntry {
                message: part_message(kind, jamo, "' 에서 Base group '", base, "' 글리프도 없음"),
            },
        );
        assert(messages_view(fallbacks@) =~= f0.push(msg_base_missing(kind, jamo, base@)));
        (string_from(desired_gid), fallbacks)
    }

    /// Lays out the given jamo: picks the template, applies its variant rules, and
    /// resolves each part's group against the glyphs in `store`.
    pub fn layout_jamo(&self, store: &GlyphStore, cho_ch: char, jung_ch: char, jong_ch: Option<
        char,
    >) -> (r: Option<LayoutResult>)
        ensures
            layout_opt_view(r) == spec_layout(self.rules, store@, cho_ch, jung_ch, jong_ch),
    {
        let (tpl, sel_dbg) = match self.pick_template(cho_ch, jung_ch, jong_ch) {
            Some(p) => p,
            None => {
                return None;
            },
        };
        let gids = GroupIds {
            cho: tpl.default_cho_group_id.clone(),
            jung: tpl.default_jung_group_id.clone(),
            jong: match &tpl.default_jong_group_id {
                Some(g) => g.clone(),
                None => String::new(),
            },
        };
        assert(ids_view(gids) == template_ids(*tpl));
        let (gids, matched_variants) = Self::apply_variant_rules_group(
            &tpl.variant_rules,
            cho_ch,
            jung_ch,
            jong_ch,
            gids,
        );
        let mut fallbacks: Vec<FallbackEntry> = Vec::new();
        let (resolved_cho_gid, cho_f) = Self::resolve_group_id_for_part(
            &self.rules,
            store,
            HangulComponent::Cho,
            cho_ch,
            gids.cho.as_str(),
        );
        append_fallbacks(&mut fallbacks, cho_f);
        let (resolved_jung_gid, jung_f) = Self::resolve_group_id_for_part(
            &self.rules,
            store,
            HangulComponent::Jung,
            jung_ch,
            gids.jung.as_str(),
        );
        append_fallbacks(&mut fallbacks, jung_f);
        let cho = PlacedPart {
            placement: PartPlacement { kind: HangulComponent::Cho, jamo: cho_ch },
            group_id: resolved_cho_gid,
        };
        let jung = PlacedPart {
            placement: PartPlacement { kind: HangulComponent::Jung, jamo: jung_ch },
            group_id: resolved_jung_gid,
        };
        let ghost before_jong = messages_view(fallbacks@);
        let jong = match jong_ch {
            Some(jc) => {
                if tpl.default_jong_group_id.is_some() {
                    let (resolved_jong_gid, jong_f) = Self::resolve_group_id_for_part(
                        &self.rules,
                        store,
                        HangulComponent::Jong,
                        jc,
                        gids.jong.as_str(),
                    );
                    append_fallbacks(&mut fallbacks, jong_f);
                    Some(
                        PlacedPart {
                            placement: PartPlacement { kind: HangulComponent::Jong, jamo: jc },
                            group_id: resolved_jong_gid,
                        },
                    )
                } else {
                    fallbacks.push(
                        FallbackEntry {
                            message: string_from("문자에 종성이 있는데, 선택 템플릿에 종성 슬롯이 없음"),
                        },
                    );
                    assert(messages_view(fallbacks@) =~= before_jong + seq![msg_jong_slot_missing()]);
                    None
                }
            },
            None => {
                assert(messages_view(fallbacks@) =~= before_jong + Seq::<Seq<char>>::empty());
                None
            },
        };
        let r = LayoutResult {
            template_id: tpl.id.clone(),
            template_name: clone_label(&tpl.name, &tpl.id),
            selector_name: sel_dbg,
            matched_variants,
            cho,
            jung,
            jong,
            fallbacks,
        };
        proof {
            let sv = spec_layout(self.rules, store@, cho_ch, jung_ch, jong_ch)->0;
            assert(r@.fallbacks =~= sv.fallbacks);
            assert(r@ == sv);
        }
        Some(r)
    }
}

} // verus!

verus! {

/// The final jamo that a decomposed final index stands for: none for index 0.
pub open spec fn jong_arg(ki: usize, kc: Option<char>) -> bool {
    if ki == 0 {
        kc is None
    } else {
        kc is Some
    }
}

impl LayoutEngine {
    /// Lays out a character: `decompose` splits it into jamo indices (`None` when it is not
    /// a syllable, and then there is no layout) and `get_jamo_char` maps each index to its
    /// jamo; a final index of 0 means no final.
    pub fn layout_char(
        &self,
        store: &GlyphStore,
        c: char,
        decompose: impl Fn(char) -> Option<(usize, usize, usize)>,
        get_jamo_char: impl Fn(HangulComponent, usize) -> char,
    ) -> (r: Option<LayoutResult>)
        requires
            call_requires(decompose, (c,)),
            forall|k: HangulComponent, i: usize| call_requires(get_jamo_char, (k, i)),
        ensures
            exists|d: Option<(usize, usize, usize)>|
                #[trigger] call_ensures(decompose, (c,), d) && match d {
                    None => r is None,
                    Some(ix) => exists|cc: char, jc: char, kc: Option<char>|
                        #[trigger] call_ensures(get_jamo_char, (HangulComponent::Cho, ix.0), cc)
                            && #[trigger] call_ensures(
                            get_jamo_char,
                            (HangulComponent::Jung, ix.1),
                            jc,
                        ) && #[trigger] jong_arg(ix.2, kc) && (kc matches Some(k) ==> call_ensures(
                            get_jamo_char,
                            (HangulComponent::Jong, ix.2),
                            k,
                        )) && layout_opt_view(r) == spec_layout(self.rules, store@, cc, jc, kc),
                },
    {
        let d = decompose(c);
        match d {
            None => None,
            Some((cho_idx, jung_idx, jong_idx)) => {
                let cho_ch = get_jamo_char(HangulComponent::Cho, cho_idx);
                let jung_ch = get_jamo_char(HangulComponent::Jung, jung_idx);
                let jong_ch = if jong_idx != 0 {
                    Some(get_jamo_char(HangulComponent::Jong, jong_idx))
                } else {
                    None
                };
                let r = self.layout_jamo(store, cho_ch, jung_ch, jong_ch);
                assert(jong_arg(jong_idx, jong_ch));
                r
            },
        }
    }
}

} // verus!

verus! {

/// Layout fails exactly when there is no template: with at least one template every
/// jamo combination gets a layout, whatever the selectors say.
pub proof fn lemma_layout_none_iff_no_templates(
    rules: RuleSystem,
    store: Map<KeyView, Set<(i32, i32)>>,
    cho: char,
    jung: char,
    jong: Option<char>,
)
    ensures
        spec_layout(rules, store, cho, jung, jong) is None <==> rules.templates@.len() == 0,
{
    let n = rules.selectors@.len() as int;
    if rules.templates@.len() == 0 {
        if exists|b: int| best_among(rules, b, n, cho, jung, jong) {
            let b = choose|b: int| best_among(rules, b, n, cho, jung, jong);
            assert(selector_eligible(rules, b, cho, jung, jong));
            lemma_first_index_props(rules.templates@, has_id::<Template>(rules.selectors@[b].template_id@));
        }
    }
}

/// A layout without fallback notes draws every part with a glyph that is in the store,
/// from a group that exists.
pub proof fn lemma_no_fallbacks_all_glyphs_present(
    rules: RuleSystem,
    store: Map<KeyView, Set<(i32, i32)>>,
    cho: char,
    jung: char,
    jong: Option<char>,
)
    requires
        spec_layout(rules, store, cho, jung, jong) matches Some(v) && v.fallbacks.len() == 0,
    ensures
        spec_layout(rules, store, cho, jung, jong) matches Some(v) && {
            &&& store.contains_key(v.cho)
            &&& id_position(rules.groups@, v.cho.2) is Some
            &&& store.contains_key(v.jung)
            &&& id_position(rules.groups@, v.jung.2) is Some
            &&& (jong is Some <==> v.jong is Some)
            &&& (v.jong matches Some(p) ==> store.contains_key(p) && id_position(rules.groups@, p.2) is Some)
        },
{
}

/// Among the first `n` selectors, once one accepts the jamo and names an existing
/// template, there is a best one: the highest priority, the earliest on a tie.
pub proof fn lemma_best_exists(
    rules: RuleSystem,
    n: int,
    cho: char,
    jung: char,
    jong: Option<char>,
    j: int,
) -> (b: int)
    requires
        0 <= j < n <= rules.selectors@.len(),
        selector_eligible(rules, j, cho, jung, jong),
    ensures
        best_among(rules, b, n, cho, jung, jong),
    decreases n,
{
    if exists|k: int| 0 <= k < n - 1 && #[trigger] selector_eligible(rules, k, cho, jung, jong) {
        let k = choose|k: int| 0 <= k < n - 1 && #[trigger] selector_eligible(rules, k, cho, jung, jong);
        let b0 = lemma_best_exists(rules, n - 1, cho, jung, jong, k);
        if selector_eligible(rules, n - 1, cho, jung, jong) && rules.selectors@[n - 1].priority
            > rules.selectors@[b0].priority {
            n - 1
        } else {
            b0
        }
    } else {
        assert(!(0 <= j < n - 1));
        n - 1
    }
}

/// The highest-priority selector decides the template: whenever some selector accepts
/// the jamo and names an existing template, the layout takes the template and the name of
/// an accepting selector that no accepting selector outranks, and that comes first among
/// the accepting selectors of its priority.
pub proof fn lemma_layout_uses_top_priority_selector(
    rules: RuleSystem,
    store: Map<KeyView, Set<(i32, i32)>>,
    cho: char,
    jung: char,
    jong: Option<char>,
    j: int,
)
    requires
        0 <= j < rules.selectors@.len(),
        selector_eligible(rules, j, cho, jung, jong),
    ensures
        exists|b: int|
            {
                &&& 0 <= b < rules.selectors@.len()
                &&& #[trigger] selector_eligible(rules, b, cho, jung, jong)
                &&& forall|k: int|
                    0 <= k < rules.selectors@.len() && #[trigger] selector_eligible(rules, k, cho, jung, jong)
                        ==> rules.selectors@[k].priority <= rules.selectors@[b].priority
                &&& forall|k: int|
                    0 <= k < b && #[trigger] selector_eligible(rules, k, cho, jung, jong)
                        ==> rules.selectors@[k].priority < rules.selectors@[b].priority
                &&& spec_layout(rules, store, cho, jung, jong) matches Some(v)
                &&& v.template_id == rules.templates@[id_position(
                    rules.templates@,
                    rules.selectors@[b].template_id@,
                )->0].id@
                &&& v.selector_name == label(rules.selectors@[b].name@, rules.selectors@[b].id@)
            },
{
    let n = rules.selectors@.len() as int;
    let b0 = lemma_best_exists(rules, n, cho, jung, jong, j);
    assert(exists|b: int| best_among(rules, b, n, cho, jung, jong));
    let b = choose|b: int| best_among(rules, b, n, cho, jung, jong);
    assert(best_among(rules, b, n, cho, jung, jong));
    assert(best_selector(rules, cho, jung, jong) == Some(b));
    assert(selector_eligible(rules, b, cho, jung, jong));
}

/// With no selector that accepts the jamo and names an existing template, the layout uses
/// the first template, under the name "(기본 템플릿)".
pub proof fn lemma_layout_defaults_to_first_template(
    rules: RuleSystem,
    store: Map<KeyView, Set<(i32, i32)>>,
    cho: char,
    jung: char,
    jong: Option<char>,
)
    requires
        rules.templates@.len() > 0,
        forall|j: int| 0 <= j < rules.selectors@.len() ==> !#[trigger] selector_eligible(rules, j, cho, jung, jong),
    ensures
        spec_layout(rules, store, cho, jung, jong) matches Some(v) && v.template_id == rules.templates@[0].id@
            && v.selector_name == "(기본 템플릿)"@,
{
    let n = rules.selectors@.len() as int;
    assert forall|b: int| !best_among(rules, b, n, cho, jung, jong) by {
        if 0 <= b < n {
            assert(!selector_eligible(rules, b, cho, jung, jong));
        }
    }
    assert(best_selector(rules, cho, jung, jong) is None);
}

/// The base group is the fallback that draws: when the wanted group is missing or lacks
/// the glyph and the base group of the component has it, the part is drawn with the base
/// group; so the part has a glyph whenever the wanted group (existing) or the base group
/// has one.
pub proof fn lemma_resolve_falls_back_to_base(
    rules: RuleSystem,
    store: Map<KeyView, Set<(i32, i32)>>,
    kind: HangulComponent,
    jamo: char,
    gid: Seq<char>,
)
    ensures
        !(id_position(rules.groups@, gid) is Some && store.contains_key((kind, jamo, gid)))
            && store.contains_key((kind, jamo, base_group(rules, kind))) ==> resolve_part(
            rules,
            store,
            kind,
            jamo,
            gid,
        ).0 == base_group(rules, kind),
        (id_position(rules.groups@, gid) is Some && store.contains_key((kind, jamo, gid)))
            || store.contains_key((kind, jamo, base_group(rules, kind))) ==> store.contains_key(
            (kind, jamo, resolve_part(rules, store, kind, jamo, gid).0),
        ),
{
}

/// Every part of a layout whose jamo has a glyph in its component's base group is drawn
/// with a glyph that is in the store.
pub proof fn lemma_base_glyph_keeps_parts_drawn(
    rules: RuleSystem,
    store: Map<KeyView, Set<(i32, i32)>>,
    cho: char,
    jung: char,
    jong: Option<char>,
)
    requires
        spec_layout(rules, store, cho, jung, jong) is Some,
    ensures
        spec_layout(rules, store, cho, jung, jong) matches Some(v) && {
            &&& store.contains_key((HangulComponent::Cho, cho, base_group(rules, HangulComponent::Cho)))
                ==> store.contains_key(v.cho)
            &&& store.contains_key((HangulComponent::Jung, jung, base_group(rules, HangulComponent::Jung)))
                ==> store.contains_key(v.jung)
            &&& (v.jong matches Some(p) ==> (store.contains_key(
                (HangulComponent::Jong, p.1, base_group(rules, HangulComponent::Jong)),
            ) ==> store.contains_key(p)))
        },
{
}

/// Every part is drawn either with the group the rules ask for or with the base group
/// of its component.
pub proof fn lemma_resolved_group_is_wanted_or_base(
    rules: RuleSystem,
    store: Map<KeyView, Set<(i32, i32)>>,
    kind: HangulComponent,
    jamo: char,
    gid: Seq<char>,
)
    ensures
        resolve_part(rules, store, kind, jamo, gid).0 == gid || resolve_part(
            rules,
            store,
            kind,
            jamo,
            gid,
        ).0 == base_group(rules, kind),
        resolve_part(rules, store, kind, jamo, gid).1.len() == 0 <==> (id_position(
            rules.groups@,
            gid,
        ) is Some && store.contains_key((kind, jamo, gid))),
{
}

} // verus!

verus! {

/// The rule order with rule `skip` (when given) left out.
pub open spec fn order_without(order: Seq<usize>, skip: Option<usize>) -> Seq<usize> {
    match skip {
        Some(k) => order.filter(|x: usize| x != k),
        None => order,
    }
}

/// The groups that the variant rules give a jamo combination, starting from the default
/// groups: the rules that accept it apply lowest priority first (on equal priority, in
/// list order), each setting the slots it names; rule `skip`, when given, is left out.
pub fn sim_variant_rules(
    rules: &Vec<VariantRule>,
    skip: Option<usize>,
    cho_ch: char,
    jung_ch: char,
    jong_ch: Option<char>,
    default_cho: &str,
    default_jung: &str,
    default_jong: &str,
) -> (r: (String, String, String))
    ensures
        (r.0@, r.1@, r.2@) == apply_variants(
            rules@,
            order_without(priority_order(rules@, rules@.len()), skip),
            cho_ch,
            jung_ch,
            jong_ch,
            (default_cho@, default_jung@, default_jong@),
        ).0,
{
    let order = priority_order_of(rules);
    let len = rules.len();
    proof {
        lemma_priority_order(rules@, rules@.len());
    }
    let ghost init = (default_cho@, default_jung@, default_jong@);
    let ghost full = order@;
    let mut cho = string_from(default_cho);
    let mut jung = string_from(default_jung);
    let mut jong = string_from(default_jong);
    let mut i: usize = 0;
    while i < order.len()
        invariant
            order@ == full,
            full == priority_order(rules@, rules@.len()),
            full.len() == rules@.len(),
            forall|a: int| 0 <= a < rules@.len() ==> (#[trigger] full[a]) < rules@.len(),
            i <= full.len(),
            (cho@, jung@, jong@) == apply_variants(
                rules@,
                order_without(full.take(i as int), skip),
                cho_ch,
                jung_ch,
                jong_ch,
                init,
            ).0,
        decreases full.len() - i,
    {
        let k = order[i];
        let ghost before = order_without(full.take(i as int), skip);
        proof {
            assert(full.take(i + 1) =~= full.take(i as int).push(k));
            reveal_with_fuel(Seq::<_>::filter, 1);
            assert(full.take(i + 1).drop_last() =~= full.take(i as int));
        }
        let skipped = match skip {
            Some(s) => s == k,
            None => false,
        };
        if skipped {
            assert(order_without(full.take(i + 1), skip) == before);
        } else {
            assert(order_without(full.take(i + 1), skip) =~= before.push(k));
            let r = &rules[k];
            assert(before.push(k).drop_last() =~= before);
            if jamo_sets_match(&r.cho_set, &r.jung_set, &r.jong_set, cho_ch, jung_ch, jong_ch) {
                override_slot(&mut cho, &r.set_cho_group_id);
                override_slot(&mut jung, &r.set_jung_group_id);
                override_slot(&mut jong, &r.set_jong_group_id);
            }
        }
        i = i + 1;
    }
    proof {
        assert(full.take(full.len() as int) =~= full);
    }
    (cho, jung, jong)
}

} // verus!
