use vstd::prelude::*;

use crate::charset::{char_set_from, sorted_chars};
use crate::glyph::{GlyphKey, GlyphStore, KeyView};
use crate::groups::{ComponentGroup, GroupView};
use crate::idlist::{
    find_by_id, find_mut_by_id, id_position, lacks_id, move_down_with_id, move_up_with_id,
    moved_down, moved_up, remove_with_id,
};
use crate::rules::{
    opt_view, GroupRef, GroupRefView, SelectorRule, SelectorView, Template, TemplateView, VariantRule,
};
use crate::text::{push_radix_padded, radix_digits, str_eq, string_from, zero_pad};
use crate::types::HangulComponent;

verus! {

/// The whole set of layout rules: component groups, templates and the selectors that
/// pick a template, with the base group of each component and the counters from
/// which new ids are made.
#[derive(Debug)]
pub struct RuleSystem {
    pub groups: Vec<ComponentGroup>,
    pub templates: Vec<Template>,
    pub selectors: Vec<SelectorRule>,
    pub base_cho_group_id: String,
    pub base_jung_group_id: String,
    pub base_jong_group_id: String,
    pub next_group_seq: u64,
    pub next_template_seq: u64,
    pub next_selector_seq: u64,
    pub next_variant_seq: u64,
}

impl Default for RuleSystem {
    fn default() -> (r: Self)
        ensures
            r.groups@.len() == 0,
            r.templates@.len() == 0,
            r.selectors@.len() == 0,
            r.base_cho_group_id@.len() == 0,
            r.base_jung_group_id@.len() == 0,
            r.base_jong_group_id@.len() == 0,
            r.next_group_seq == 0,
            r.next_template_seq == 0,
            r.next_selector_seq == 0,
            r.next_variant_seq == 0,
    {
        RuleSystem {
            groups: Vec::new(),
            templates: Vec::new(),
            selectors: Vec::new(),
            base_cho_group_id: String::new(),
            base_jung_group_id: String::new(),
            base_jong_group_id: String::new(),
            next_group_seq: 0,
            next_template_seq: 0,
            next_selector_seq: 0,
            next_variant_seq: 0,
        }
    }
}

/// An id made of a prefix and a counter written in decimal with at least six digits.
pub open spec fn seq_id(prefix: Seq<char>, n: u64) -> Seq<char> {
    prefix + zero_pad(radix_digits(n as nat, 10, false), 6)
}

/// `m` with an empty glyph added for every member of a group that has none yet.
pub open spec fn with_group_glyphs(
    m: Map<KeyView, Set<(i32, i32)>>,
    target: HangulComponent,
    members: Seq<char>,
    gid: Seq<char>,
) -> Map<KeyView, Set<(i32, i32)>> {
    Map::new(
        |k: KeyView| m.contains_key(k) || (k.0 == target && members.contains(k.1) && k.2 == gid),
        |k: KeyView|
            if m.contains_key(k) {
                m[k]
            } else {
                Set::empty()
            },
    )
}

/// The store after making sure the first group with id `gid` has a glyph for each of its
/// members (unchanged when no group has that id).
pub open spec fn group_glyphs_ensured(
    m: Map<KeyView, Set<(i32, i32)>>,
    groups: Seq<ComponentGroup>,
    gid: Seq<char>,
) -> Map<KeyView, Set<(i32, i32)>> {
    match id_position(groups, gid) {
        Some(i) => with_group_glyphs(m, groups[i].target, groups[i].members@, groups[i].id@),
        None => m,
    }
}

/// Ids made from one prefix with different counters differ, so each call of a
/// `new_*_id` method yields an id that no earlier call of it yielded.
pub proof fn lemma_seq_id_injective(prefix: Seq<char>, a: u64, b: u64)
    ensures
        seq_id(prefix, a) == seq_id(prefix, b) <==> a == b,
{
    if seq_id(prefix, a) == seq_id(prefix, b) {
        let pa = zero_pad(radix_digits(a as nat, 10, false), 6);
        let pb = zero_pad(radix_digits(b as nat, 10, false), 6);
        assert(pa =~= seq_id(prefix, a).skip(prefix.len() as int));
        assert(pb =~= seq_id(prefix, b).skip(prefix.len() as int));
        crate::text::lemma_padded_decimal_injective(a as nat, b as nat, 6);
    }
}

pub(crate) fn make_seq_id(prefix: &str, n: u64) -> (r: String)
    ensures
        r@ == seq_id(prefix@, n),
{
    let mut s = string_from(prefix);
    push_radix_padded(&mut s, n, 10, false, 6);
    s
}

impl RuleSystem {
    /// A fresh group id `grp_NNNNNN`; the counter moves on by one.
    pub fn new_group_id(&mut self) -> (r: String)
        requires
            old(self).next_group_seq < u64::MAX,
        ensures
            r@ == seq_id("grp_"@, old(self).next_group_seq),
            *final(self) == (RuleSystem {
                next_group_seq: (old(self).next_group_seq + 1) as u64,
                ..*old(self)
            }),
    {
        let id = make_seq_id("grp_", self.next_group_seq);
        self.next_group_seq = self.next_group_seq + 1;
        id
    }

    /// A fresh template id `tpl_NNNNNN`; the counter moves on by one.
    pub fn new_template_id(&mut self) -> (r: String)
        requires
            old(self).next_template_seq < u64::MAX,
        ensures
            r@ == seq_id("tpl_"@, old(self).next_template_seq),
            *final(self) == (RuleSystem {
                next_template_seq: (old(self).next_template_seq + 1) as u64,
                ..*old(self)
            }),
    {
        let id = make_seq_id("tpl_", self.next_template_seq);
        self.next_template_seq = self.next_template_seq + 1;
        id
    }

    /// A fresh selector id `sel_NNNNNN`; the counter moves on by one.
    pub fn new_selector_id(&mut self) -> (r: String)
        requires
            old(self).next_selector_seq < u64::MAX,
        ensures
            r@ == seq_id("sel_"@, old(self).next_selector_seq),
            *final(self) == (RuleSystem {
                next_selector_seq: (old(self).next_selector_seq + 1) as u64,
                ..*old(self)
            }),
    {
        let id = make_seq_id("sel_", self.next_selector_seq);
        self.next_selector_seq = self.next_selector_seq + 1;
        id
    }

    /// A fresh variant-rule id `vr_NNNNNN`; the counter moves on by one.
    pub fn new_variant_id(&mut self) -> (r: String)
        requires
            old(self).next_variant_seq < u64::MAX,
        ensures
            r@ == seq_id("vr_"@, old(self).next_variant_seq),
            *final(self) == (RuleSystem {
                next_variant_seq: (old(self).next_variant_seq + 1) as u64,
                ..*old(self)
            }),
    {
        let id = make_seq_id("vr_", self.next_variant_seq);
        self.next_variant_seq = self.next_variant_seq + 1;
        id
    }

    pub fn find_group(&self, id: &str) -> (r: Option<&ComponentGroup>)
        ensures
            match id_position(self.groups@, id@) {
                Some(i) => r == Some(&self.groups@[i]),
                None => r is None,
            },
    {
        find_by_id(&self.groups, id)
    }

    pub fn find_group_mut(&mut self, id: &str) -> (r: Option<&mut ComponentGroup>)
        ensures
            *final(self) == (RuleSystem { groups: final(self).groups, ..*old(self) }),
            id_position(old(self).groups@, id@) is None ==> r is None && final(self).groups@
                == old(self).groups@,
            id_position(old(self).groups@, id@) matches Some(i) ==> r is Some,
            r matches Some(g) ==> id_position(old(self).groups@, id@) matches Some(i) && *g
                == old(self).groups@[i] && final(self).groups@ == old(self).groups@.update(
                i,
                *final(g),
            ),
    {
        find_mut_by_id(&mut self.groups, id)
    }

    /// Makes sure every member of the group has a glyph in `store`.
    pub fn ensure_group_glyphs(&self, store: &mut GlyphStore, group_id: &str)
        requires
            old(store).wf(),
        ensures
            final(store).wf(),
            final(store)@ == group_glyphs_ensured(old(store)@, self.groups@, group_id@),
    {
        let g = match self.find_group(group_id) {
            Some(g) => g,
            None => {
                return;
            },
        };
        proof {
            crate::seqs::lemma_first_index_props(self.groups@, crate::idlist::has_id::<ComponentGroup>(group_id@));
        }
        let ghost m0 = store@;
        let mut j: usize = 0;
        while j < g.members.len()
            invariant
                j <= g.members@.len(),
                store.wf(),
                store@ == with_group_glyphs(m0, g.target, g.members@.take(j as int), g.id@),
            decreases g.members@.len() - j,
        {
            let jamo = g.members[j];
            let key = GlyphKey::new(g.target, jamo, g.id.as_str());
            let ghost before = store@;
            store.ensure_glyph(key);
            proof {
                broadcast use vstd::seq_lib::lemma_seq_contains_after_push;
                let ms = g.members@.take(j + 1);
                assert(ms =~= g.members@.take(j as int).push(jamo));
                assert(store@ =~= with_group_glyphs(m0, g.target, ms, g.id@));
            }
            j = j + 1;
        }
        proof {
            assert(g.members@.take(g.members@.len() as int) =~= g.members@);
        }
    }

    /// Adds a new group (its members kept as a sorted set) with a fresh id, makes sure its
    /// glyphs exist, and returns the id.
    pub fn add_group(
        &mut self,
        store: &mut GlyphStore,
        name: &str,
        target: HangulComponent,
        members: Vec<char>,
    ) -> (r: String)
        requires
            old(self).next_group_seq < u64::MAX,
            old(store).wf(),
        ensures
            r@ == seq_id("grp_"@, old(self).next_group_seq),
            *final(self) == (RuleSystem {
                groups: final(self).groups,
                next_group_seq: (old(self).next_group_seq + 1) as u64,
                ..*old(self)
            }),
            final(self).groups@.len() == old(self).groups@.len() + 1,
            final(self).groups@.drop_last() == old(self).groups@,
            final(self).groups@.last().id@ == r@,
            final(self).groups@.last().name@ == name@,
            final(self).groups@.last().target == target,
            final(self).groups@.last().members@.to_set() == members@.to_set(),
            sorted_chars(final(self).groups@.last().members@),
            final(store).wf(),
            final(store)@ == group_glyphs_ensured(old(store)@, final(self).groups@, r@),
    {
        let id = self.new_group_id();
        let g = ComponentGroup {
            id: id.clone(),
            name: string_from(name),
            target,
            members: char_set_from(&members),
        };
        let ghost s0 = self.groups@;
        self.groups.push(g);
        assert(self.groups@.drop_last() =~= s0);
        self.ensure_group_glyphs(store, id.as_str());
        id
    }

    /// Removes every group with the id, and its glyphs.
    pub fn remove_group(&mut self, store: &mut GlyphStore, id: &str)
        requires
            old(store).wf(),
        ensures
            *final(self) == (RuleSystem { groups: final(self).groups, ..*old(self) }),
            final(self).groups@ == old(self).groups@.filter(lacks_id::<ComponentGroup>(id@)),
            final(store).wf(),
            forall|k: KeyView|
                #[trigger] final(store)@.contains_key(k) <==> old(store)@.contains_key(k) && k.2
                    != id@,
            forall|k: KeyView| #[trigger] final(store)@.contains_key(k) ==> final(store)@[k] == old(store)@[k],
    {
        remove_with_id(&mut self.groups, id);
        store.remove_group_glyphs(id);
    }

    /// Gives the first group with the id a new name.
    pub fn rename_group(&mut self, id: &str, new_name: &str)
        ensures
            *final(self) == (RuleSystem { groups: final(self).groups, ..*old(self) }),
            match id_position(old(self).groups@, id@) {
                Some(i) => final(self).groups@ == old(self).groups@.update(
                    i,
                    (ComponentGroup { name: final(self).groups@[i].name, ..old(self).groups@[i] }),
                ) && final(self).groups@[i].name@ == new_name@,
                None => final(self).groups@ == old(self).groups@,
            },
    {
        if let Some(g) = self.find_group_mut(id) {
            g.name = string_from(new_name);
        }
    }

    /// Moves the first group with the id one place towards the front.
    pub fn move_group_up(&mut self, id: &str)
        ensures
            *final(self) == (RuleSystem { groups: final(self).groups, ..*old(self) }),
            final(self).groups@ == moved_up(old(self).groups@, id@),
    {
        move_up_with_id(&mut self.groups, id);
    }

    /// Moves the first group with the id one place towards the back.
    pub fn move_group_down(&mut self, id: &str)
        ensures
            *final(self) == (RuleSystem { groups: final(self).groups, ..*old(self) }),
            final(self).groups@ == moved_down(old(self).groups@, id@),
    {
        move_down_with_id(&mut self.groups, id);
    }

    /// The base group id configured for a component.
    pub fn base_group_id_for_kind(&self, kind: HangulComponent) -> (r: &str)
        ensures
            r@ == match kind {
                HangulComponent::Cho => self.base_cho_group_id@,
                HangulComponent::Jung => self.base_jung_group_id@,
                HangulComponent::Jong => self.base_jong_group_id@,
            },
    {
        match kind {
            HangulComponent::Cho => self.base_cho_group_id.as_str(),
            HangulComponent::Jung => self.base_jung_group_id.as_str(),
            HangulComponent::Jong => self.base_jong_group_id.as_str(),
        }
    }

    pub fn find_template(&self, id: &str) -> (r: Option<&Template>)
        ensures
            match id_position(self.templates@, id@) {
                Some(i) => r == Some(&self.templates@[i]),
                None => r is None,
            },
    {
        find_by_id(&self.templates, id)
    }

    pub fn find_template_mut(&mut self, id: &str) -> (r: Option<&mut Template>)
        ensures
            *final(self) == (RuleSystem { templates: final(self).templates, ..*old(self) }),
            id_position(old(self).templates@, id@) is None ==> r is None && final(self).templates@
                == old(self).templates@,
            id_position(old(self).templates@, id@) matches Some(i) ==> r is Some,
            r matches Some(t) ==> id_position(old(self).templates@, id@) matches Some(i) && *t
                == old(self).templates@[i] && final(self).templates@ == old(self).templates@.update(
                i,
                *final(t),
            ),
    {
        find_mut_by_id(&mut self.templates, id)
    }

    pub fn add_template(&mut self, tpl: Template)
        ensures
            *final(self) == (RuleSystem { templates: final(self).templates, ..*old(self) }),
            final(self).templates@ == old(self).templates@.push(tpl),
    {
        self.templates.push(tpl);
    }

    /// Removes every template with the id.
    pub fn remove_template(&mut self, id: &str)
        ensures
            *final(self) == (RuleSystem { templates: final(self).templates, ..*old(self) }),
            final(self).templates@ == old(self).templates@.filter(lacks_id::<Template>(id@)),
    {
        remove_with_id(&mut self.templates, id);
    }

    pub fn move_template_up(&mut self, id: &str)
        ensures
            *final(self) == (RuleSystem { templates: final(self).templates, ..*old(self) }),
            final(self).templates@ == moved_up(old(self).templates@, id@),
    {
        move_up_with_id(&mut self.templates, id);
    }

    pub fn move_template_down(&mut self, id: &str)
        ensures
            *final(self) == (RuleSystem { templates: final(self).templates, ..*old(self) }),
            final(self).templates@ == moved_down(old(self).templates@, id@),
    {
        move_down_with_id(&mut self.templates, id);
    }

    /// Does some selector choose the template?
    pub fn is_template_referenced(&self, tid: &str) -> (r: bool)
        ensures
            r == exists|i: int|
                0 <= i < self.selectors@.len() && #[trigger] self.selectors@[i].template_id@ == tid@,
    {
        let mut i: usize = 0;
        while i < self.selectors.len()
            invariant
                i <= self.selectors@.len(),
                forall|j: int| 0 <= j < i ==> self.selectors@[j].template_id@ != tid@,
            decreases self.selectors@.len() - i,
        {
            if str_eq(self.selectors[i].template_id.as_str(), tid) {
                return true;
            }
            i = i + 1;
        }
        false
    }

    pub fn find_selector(&self, id: &str) -> (r: Option<&SelectorRule>)
        ensures
            match id_position(self.selectors@, id@) {
                Some(i) => r == Some(&self.selectors@[i]),
                None => r is None,
            },
    {
        find_by_id(&self.selectors, id)
    }

    pub fn find_selector_mut(&mut self, id: &str) -> (r: Option<&mut SelectorRule>)
        ensures
            *final(self) == (RuleSystem { selectors: final(self).selectors, ..*old(self) }),
            id_position(old(self).selectors@, id@) is None ==> r is None && final(self).selectors@
                == old(self).selectors@,
            id_position(old(self).selectors@, id@) matches Some(i) ==> r is Some,
            r matches Some(t) ==> id_position(old(self).selectors@, id@) matches Some(i) && *t
                == old(self).selectors@[i] && final(self).selectors@ == old(self).selectors@.update(
                i,
                *final(t),
            ),
    {
        find_mut_by_id(&mut self.selectors, id)
    }

    pub fn add_selector(&mut self, sel: SelectorRule)
        ensures
            *final(self) == (RuleSystem { selectors: final(self).selectors, ..*old(self) }),
            final(self).selectors@ == old(self).selectors@.push(sel),
    {
        self.selectors.push(sel);
    }

    /// Removes every selector with the id.
    pub fn remove_selector(&mut self, id: &str)
        ensures
            *final(self) == (RuleSystem { selectors: final(self).selectors, ..*old(self) }),
            final(self).selectors@ == old(self).selectors@.filter(lacks_id::<SelectorRule>(id@)),
    {
        remove_with_id(&mut self.selectors, id);
    }

    pub fn move_selector_up(&mut self, id: &str)
        ensures
            *final(self) == (RuleSystem { selectors: final(self).selectors, ..*old(self) }),
            final(self).selectors@ == moved_up(old(self).selectors@, id@),
    {
        move_up_with_id(&mut self.selectors, id);
    }

    pub fn move_selector_down(&mut self, id: &str)
        ensures
            *final(self) == (RuleSystem { selectors: final(self).selectors, ..*old(self) }),
            final(self).selectors@ == moved_down(old(self).selectors@, id@),
    {
        move_down_with_id(&mut self.selectors, id);
    }

    /// Sets the four id counters.
    pub fn reset_seqs(&mut self, groups: u64, templates: u64, selectors: u64, variants: u64)
        ensures
            *final(self) == (RuleSystem {
                next_group_seq: groups,
                next_template_seq: templates,
                next_selector_seq: selectors,
                next_variant_seq: variants,
                ..*old(self)
            }),
    {
        self.next_group_seq = groups;
        self.next_template_seq = templates;
        self.next_selector_seq = selectors;
        self.next_variant_seq = variants;
    }
}

} // verus!

verus! {

/// How a template or rule is shown: its name, or its id when the name is empty.
pub open spec fn label(name: Seq<char>, id: Seq<char>) -> Seq<char> {
    if name.len() == 0 {
        id
    } else {
        name
    }
}

/// One reference when `cond` holds, none otherwise.
pub open spec fn ref_if(cond: bool, r: GroupRefView) -> Seq<GroupRefView> {
    if cond {
        seq![r]
    } else {
        Seq::empty()
    }
}

/// The references a variant rule makes to `gid`, in the order cho, jung, jong.
pub open spec fn rule_refs(tname: Seq<char>, r: VariantRule, gid: Seq<char>) -> Seq<GroupRefView> {
    let rname = Some(label(r.name@, r.id@));
    ref_if(
        opt_view(r.set_cho_group_id) == Some(gid),
        GroupRefView { template_name: tname, rule_name: rname, component: HangulComponent::Cho },
    ) + ref_if(
        opt_view(r.set_jung_group_id) == Some(gid),
        GroupRefView { template_name: tname, rule_name: rname, component: HangulComponent::Jung },
    ) + ref_if(
        opt_view(r.set_jong_group_id) == Some(gid),
        GroupRefView { template_name: tname, rule_name: rname, component: HangulComponent::Jong },
    )
}

/// The references the rules make, rule after rule.
pub open spec fn rules_refs(tname: Seq<char>, rs: Seq<VariantRule>, gid: Seq<char>) -> Seq<
    GroupRefView,
>
    decreases rs.len(),
{
    if rs.len() == 0 {
        Seq::empty()
    } else {
        rules_refs(tname, rs.drop_last(), gid) + rule_refs(tname, rs.last(), gid)
    }
}

/// The references a template makes to `gid`: its default slots, then its rules.
pub open spec fn template_refs(t: Template, gid: Seq<char>) -> Seq<GroupRefView> {
    let tname = label(t.name@, t.id@);
    ref_if(
        t.default_cho_group_id@ == gid,
        GroupRefView { template_name: tname, rule_name: None, component: HangulComponent::Cho },
    ) + ref_if(
        t.default_jung_group_id@ == gid,
        GroupRefView { template_name: tname, rule_name: None, component: HangulComponent::Jung },
    ) + ref_if(
        opt_view(t.default_jong_group_id) == Some(gid),
        GroupRefView { template_name: tname, rule_name: None, component: HangulComponent::Jong },
    ) + rules_refs(tname, t.variant_rules@, gid)
}

/// Every reference to `gid`, template after template.
pub open spec fn group_refs(ts: Seq<Template>, gid: Seq<char>) -> Seq<GroupRefView>
    decreases ts.len(),
{
    if ts.len() == 0 {
        Seq::empty()
    } else {
        group_refs(ts.drop_last(), gid) + template_refs(ts.last(), gid)
    }
}

/// The views of a list of references.
pub open spec fn refs_view(v: Seq<GroupRef>) -> Seq<GroupRefView> {
    v.map_values(|r: GroupRef| r@)
}

/// Does the rule point one of its slots at `gid`?
pub open spec fn rule_mentions(r: VariantRule, gid: Seq<char>) -> bool {
    opt_view(r.set_cho_group_id) == Some(gid) || opt_view(r.set_jung_group_id) == Some(gid)
        || opt_view(r.set_jong_group_id) == Some(gid)
}

/// Does the template use `gid` in a default slot or in one of its rules?
pub open spec fn template_mentions(t: Template, gid: Seq<char>) -> bool {
    t.default_cho_group_id@ == gid || t.default_jung_group_id@ == gid || opt_view(
        t.default_jong_group_id,
    ) == Some(gid) || exists|j: int|
        0 <= j < t.variant_rules@.len() && #[trigger] rule_mentions(t.variant_rules@[j], gid)
}

/// Is the optional string present and equal to `s`?
fn opt_is(o: &Option<String>, s: &str) -> (r: bool)
    ensures
        r == (opt_view(*o) == Some(s@)),
{
    match o {
        Some(x) => str_eq(x.as_str(), s),
        None => false,
    }
}

fn push_ref(
    refs: &mut Vec<GroupRef>,
    cond: bool,
    tname: &str,
    rname: Option<&str>,
    component: HangulComponent,
)
    ensures
        refs_view(final(refs)@) == refs_view(old(refs)@) + ref_if(
            cond,
            GroupRefView {
                template_name: tname@,
                rule_name: match rname {
                    Some(n) => Some(n@),
                    None => None,
                },
                component,
            },
        ),
{
    let ghost s0 = refs@;
    if cond {
        let rule_name = match rname {
            Some(n) => Some(string_from(n)),
            None => None,
        };
        refs.push(GroupRef { template_name: string_from(tname), rule_name, component });
        assert(refs_view(refs@) =~= refs_view(s0) + refs_view(refs@).subrange(
            s0.len() as int,
            refs@.len() as int,
        ));
    } else {
        assert(refs_view(refs@) =~= refs_view(s0) + Seq::<GroupRefView>::empty());
    }
}

fn label_of<'a>(name: &'a String, id: &'a String) -> (r: &'a str)
    ensures
        r@ == label(name@, id@),
{
    if name.as_str().is_empty() {
        id.as_str()
    } else {
        name.as_str()
    }
}

impl RuleSystem {
    /// Every place where a template uses the group: default slots first, then variant
    /// rules, template after template.
    pub fn collect_group_refs(&self, gid: &str) -> (r: Vec<GroupRef>)
        ensures
            refs_view(r@) == group_refs(self.templates@, gid@),
    {
        let mut refs: Vec<GroupRef> = Vec::new();
        let mut i: usize = 0;
        while i < self.templates.len()
            invariant
                i <= self.templates@.len(),
                refs_view(refs@) == group_refs(self.templates@.take(i as int), gid@),
            decreases self.templates@.len() - i,
        {
            let t = &self.templates[i];
            let tname = label_of(&t.name, &t.id);
            let ghost before = refs_view(refs@);
            let c = str_eq(t.default_cho_group_id.as_str(), gid);
            push_ref(&mut refs, c, tname, None, HangulComponent::Cho);
            let c = str_eq(t.default_jung_group_id.as_str(), gid);
            push_ref(&mut refs, c, tname, None, HangulComponent::Jung);
            let c = opt_is(&t.default_jong_group_id, gid);
            push_ref(&mut refs, c, tname, None, HangulComponent::Jong);
            let ghost mid = refs_view(refs@);
            let mut j: usize = 0;
            while j < t.variant_rules.len()
                invariant
                    j <= t.variant_rules@.len(),
                    tname@ == label(t.name@, t.id@),
                    refs_view(refs@) == mid + rules_refs(tname@, t.variant_rules@.take(j as int), gid@),
                decreases t.variant_rules@.len() - j,
            {
                let r = &t.variant_rules[j];
                let rname = label_of(&r.name, &r.id);
                let ghost b2 = refs_view(refs@);
                let c = opt_is(&r.set_cho_group_id, gid);
                push_ref(&mut refs, c, tname, Some(rname), HangulComponent::Cho);
                let c = opt_is(&r.set_jung_group_id, gid);
                push_ref(&mut refs, c, tname, Some(rname), HangulComponent::Jung);
                let c = opt_is(&r.set_jong_group_id, gid);
                push_ref(&mut refs, c, tname, Some(rname), HangulComponent::Jong);
                proof {
                    let rs = t.variant_rules@.take(j + 1);
                    assert(rs.drop_last() =~= t.variant_rules@.take(j as int));
                    assert(refs_view(refs@) =~= mid + rules_refs(tname@, rs, gid@));
                }
                j = j + 1;
            }
            proof {
                assert(t.variant_rules@.take(t.variant_rules@.len() as int) =~= t.variant_rules@);
                let ts = self.templates@.take(i + 1);
                assert(ts.drop_last() =~= self.templates@.take(i as int));
                assert(refs_view(refs@) =~= group_refs(ts, gid@));
            }
            i = i + 1;
        }
        proof {
            assert(self.templates@.take(self.templates@.len() as int) =~= self.templates@);
        }
        refs
    }

    /// Does any template use the group, in a default slot or a variant rule?
    pub fn is_group_referenced(&self, gid: &str) -> (r: bool)
        ensures
            r == exists|i: int|
                0 <= i < self.templates@.len() && #[trigger] template_mentions(
                    self.templates@[i],
                    gid@,
                ),
    {
        let mut i: usize = 0;
        while i < self.templates.len()
            invariant
                i <= self.templates@.len(),
                forall|k: int| 0 <= k < i ==> !template_mentions(#[trigger] self.templates@[k], gid@),
            decreases self.templates@.len() - i,
        {
            let t = &self.templates[i];
            if str_eq(t.default_cho_group_id.as_str(), gid) || str_eq(
                t.default_jung_group_id.as_str(),
                gid,
            ) || opt_is(&t.default_jong_group_id, gid) {
                assert(template_mentions(self.templates@[i as int], gid@));
                return true;
            }
            let mut j: usize = 0;
            while j < t.variant_rules.len()
                invariant
                    i < self.templates@.len(),
                    *t == self.templates@[i as int],
                    forall|k: int| 0 <= k < i ==> !template_mentions(#[trigger] self.templates@[k], gid@),
                    t.default_cho_group_id@ != gid@,
                    t.default_jung_group_id@ != gid@,
                    opt_view(t.default_jong_group_id) != Some(gid@),
                    j <= t.variant_rules@.len(),
                    forall|k: int| 0 <= k < j ==> !rule_mentions(#[trigger] t.variant_rules@[k], gid@),
                decreases t.variant_rules@.len() - j,
            {
                let r = &t.variant_rules[j];
                if opt_is(&r.set_cho_group_id, gid) || opt_is(&r.set_jung_group_id, gid) || opt_is(
                    &r.set_jong_group_id,
                    gid,
                ) {
                    assert(rule_mentions(t.variant_rules@[j as int], gid@));
                    assert(template_mentions(self.templates@[i as int], gid@));
                    return true;
                }
                j = j + 1;
            }
            i = i + 1;
        }
        false
    }
}

} // verus!

verus! {

proof fn lemma_rules_refs_nonempty(tname: Seq<char>, rs: Seq<VariantRule>, gid: Seq<char>)
    ensures
        rules_refs(tname, rs, gid).len() > 0 <==> exists|j: int|
            0 <= j < rs.len() && #[trigger] rule_mentions(rs[j], gid),
    decreases rs.len(),
{
    if rs.len() > 0 {
        let init = rs.drop_last();
        lemma_rules_refs_nonempty(tname, init, gid);
        let last = rs.last();
        assert(rs[rs.len() - 1] == last);
        assert(rule_refs(tname, last, gid).len() > 0 <==> rule_mentions(last, gid));
        if exists|j: int| 0 <= j < init.len() && #[trigger] rule_mentions(init[j], gid) {
            let j = choose|j: int| 0 <= j < init.len() && #[trigger] rule_mentions(init[j], gid);
            assert(rule_mentions(rs[j], gid));
        }
        if exists|j: int| 0 <= j < rs.len() && #[trigger] rule_mentions(rs[j], gid) {
            let j = choose|j: int| 0 <= j < rs.len() && #[trigger] rule_mentions(rs[j], gid);
            if j < rs.len() - 1 {
                assert(rule_mentions(init[j], gid));
            }
        }
    }
}

/// A group counts as referenced (`is_group_referenced`) exactly when its list of
/// references (`collect_group_refs`) is not empty.
pub proof fn lemma_referenced_iff_refs(ts: Seq<Template>, gid: Seq<char>)
    ensures
        group_refs(ts, gid).len() > 0 <==> exists|i: int|
            0 <= i < ts.len() && #[trigger] template_mentions(ts[i], gid),
    decreases ts.len(),
{
    if ts.len() > 0 {
        let init = ts.drop_last();
        let t = ts.last();
        lemma_referenced_iff_refs(init, gid);
        lemma_rules_refs_nonempty(label(t.name@, t.id@), t.variant_rules@, gid);
        assert(ts[ts.len() - 1] == t);
        assert(template_refs(t, gid).len() > 0 <==> template_mentions(t, gid));
        if exists|i: int| 0 <= i < init.len() && #[trigger] template_mentions(init[i], gid) {
            let i = choose|i: int| 0 <= i < init.len() && #[trigger] template_mentions(init[i], gid);
            assert(template_mentions(ts[i], gid));
        }
        if exists|i: int| 0 <= i < ts.len() && #[trigger] template_mentions(ts[i], gid) {
            let i = choose|i: int| 0 <= i < ts.len() && #[trigger] template_mentions(ts[i], gid);
            if i < ts.len() - 1 {
                assert(template_mentions(init[i], gid));
            }
        }
    }
}

} // verus!

verus! {

/// Some group in `groups` has id `gid`.
pub open spec fn has_group(groups: Seq<ComponentGroup>, gid: Seq<char>) -> bool {
    exists|i: int| 0 <= i < groups.len() && #[trigger] groups[i].id@ == gid
}

/// An optional group reference is absent or names a group.
pub open spec fn opt_group_ok(groups: Seq<ComponentGroup>, o: Option<String>) -> bool {
    match o {
        Some(g) => has_group(groups, g@),
        None => true,
    }
}

/// Every group a variant rule sets exists.
pub open spec fn rule_refs_ok(groups: Seq<ComponentGroup>, r: VariantRule) -> bool {
    opt_group_ok(groups, r.set_cho_group_id) && opt_group_ok(groups, r.set_jung_group_id)
        && opt_group_ok(groups, r.set_jong_group_id)
}

/// Every group a template uses, in its default slots and its rules, exists.
pub open spec fn template_refs_ok(groups: Seq<ComponentGroup>, t: Template) -> bool {
    &&& has_group(groups, t.default_cho_group_id@)
    &&& has_group(groups, t.default_jung_group_id@)
    &&& opt_group_ok(groups, t.default_jong_group_id)
    &&& forall|j: int| 0 <= j < t.variant_rules@.len() ==> rule_refs_ok(groups, #[trigger] t.variant_rules@[j])
}

/// Some template in `templates` has id `tid`.
pub open spec fn has_template(templates: Seq<Template>, tid: Seq<char>) -> bool {
    exists|i: int| 0 <= i < templates.len() && #[trigger] templates[i].id@ == tid
}

/// Every id the rules refer to names something that exists: the base groups, the groups
/// of every template, and the template of every selector.
pub open spec fn refs_resolved(rules: RuleSystem) -> bool {
    &&& has_group(rules.groups@, rules.base_cho_group_id@)
    &&& has_group(rules.groups@, rules.base_jung_group_id@)
    &&& has_group(rules.groups@, rules.base_jong_group_id@)
    &&& forall|i: int| 0 <= i < rules.templates@.len() ==> template_refs_ok(rules.groups@, #[trigger] rules.templates@[i])
    &&& forall|i: int| 0 <= i < rules.selectors@.len() ==> has_template(rules.templates@, #[trigger] rules.selectors@[i].template_id@)
}

/// Every member of every group has a glyph for that group in the store.
pub open spec fn glyphs_cover(groups: Seq<ComponentGroup>, store: Map<KeyView, Set<(i32, i32)>>) -> bool {
    forall|i: int, m: char|
        0 <= i < groups.len() && #[trigger] groups[i].members@.contains(m) ==> store.contains_key(
            (groups[i].target, m, groups[i].id@),
        )
}

/// No two groups share an id.
pub open spec fn group_ids_distinct(groups: Seq<ComponentGroup>) -> bool {
    forall|i: int, j: int|
        0 <= i < groups.len() && 0 <= j < groups.len() && i != j ==> #[trigger] groups[i].id@
            != #[trigger] groups[j].id@
}

/// Rules and glyphs that fit together: distinct group ids, resolved references and a
/// glyph for every group member.
pub open spec fn consistent(rules: RuleSystem, store: Map<KeyView, Set<(i32, i32)>>) -> bool {
    group_ids_distinct(rules.groups@) && refs_resolved(rules) && glyphs_cover(rules.groups@, store)
}

/// `has_group` is the same as finding the id by `id_position`.
pub proof fn lemma_has_group_position(groups: Seq<ComponentGroup>, gid: Seq<char>)
    ensures
        has_group(groups, gid) <==> id_position(groups, gid) is Some,
{
    crate::seqs::lemma_first_index_props(groups, crate::idlist::has_id::<ComponentGroup>(gid));
    if has_group(groups, gid) {
        let i = choose|i: int| 0 <= i < groups.len() && #[trigger] groups[i].id@ == gid;
        assert(crate::idlist::has_id::<ComponentGroup>(gid)(groups[i]));
    }
}

} // verus!

verus! {

/// A rule system as a mathematical value.
pub struct RulesView {
    pub groups: Seq<GroupView>,
    pub templates: Seq<TemplateView>,
    pub selectors: Seq<SelectorView>,
    pub base_cho: Seq<char>,
    pub base_jung: Seq<char>,
    pub base_jong: Seq<char>,
    pub seqs: (u64, u64, u64, u64),
}

impl View for RuleSystem {
    type V = RulesView;

    open spec fn view(&self) -> RulesView {
        RulesView {
            groups: self.groups@.map_values(|g: ComponentGroup| g@),
            templates: self.templates@.map_values(|t: Template| t@),
            selectors: self.selectors@.map_values(|s: SelectorRule| s@),
            base_cho: self.base_cho_group_id@,
            base_jung: self.base_jung_group_id@,
            base_jong: self.base_jong_group_id@,
            seqs: (self.next_group_seq, self.next_template_seq, self.next_selector_seq, self.next_variant_seq),
        }
    }
}

impl Clone for RuleSystem {
    fn clone(&self) -> (r: Self)
        ensures
            r@ == self@,
    {
        let mut groups: Vec<ComponentGroup> = Vec::new();
        let mut i: usize = 0;
        while i < self.groups.len()
            invariant
                i <= self.groups@.len(),
                groups@.len() == i,
                forall|k: int| 0 <= k < i ==> (#[trigger] groups@[k])@ == self.groups@[k]@,
            decreases self.groups@.len() - i,
        {
            groups.push(self.groups[i].clone());
            i = i + 1;
        }
        let mut templates: Vec<Template> = Vec::new();
        let mut i: usize = 0;
        while i < self.templates.len()
            invariant
                i <= self.templates@.len(),
                templates@.len() == i,
                forall|k: int| 0 <= k < i ==> (#[trigger] templates@[k])@ == self.templates@[k]@,
            decreases self.templates@.len() - i,
        {
            templates.push(self.templates[i].clone());
            i = i + 1;
        }
        let mut selectors: Vec<SelectorRule> = Vec::new();
        let mut i: usize = 0;
        while i < self.selectors.len()
            invariant
                i <= self.selectors@.len(),
                selectors@.len() == i,
                forall|k: int| 0 <= k < i ==> (#[trigger] selectors@[k])@ == self.selectors@[k]@,
            decreases self.selectors@.len() - i,
        {
            selectors.push(self.selectors[i].clone());
            i = i + 1;
        }
        let r = RuleSystem {
            groups,
            templates,
            selectors,
            base_cho_group_id: self.base_cho_group_id.clone(),
            base_jung_group_id: self.base_jung_group_id.clone(),
            base_jong_group_id: self.base_jong_group_id.clone(),
            next_group_seq: self.next_group_seq,
            next_template_seq: self.next_template_seq,
            next_selector_seq: self.next_selector_seq,
            next_variant_seq: self.next_variant_seq,
        };
        assert(r@.groups =~= self@.groups);
        assert(r@.templates =~= self@.templates);
        assert(r@.selectors =~= self@.selectors);
        r
    }
}

} // verus!
