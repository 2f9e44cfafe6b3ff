use vstd::prelude::*;

use crate::charset::{clone_chars, contains_char, insert_char, remove_char, sorted_chars};
use crate::groups::{ComponentGroup, GroupView};
use crate::idlist::Identified;
use crate::text::clone_opt_string;
use crate::types::HangulComponent;

verus! {

/// A condition on one jamo: anything, one of a set, or anything outside a set.
#[derive(Debug, PartialEq, Eq)]
pub enum CharSetCond {
    Any,
    Include(Vec<char>),
    Exclude(Vec<char>),
}

/// A jamo condition as a mathematical value.
pub enum CondView {
    Any,
    Include(Seq<char>),
    Exclude(Seq<char>),
}

impl View for CharSetCond {
    type V = CondView;

    open spec fn view(&self) -> CondView {
        match self {
            CharSetCond::Any => CondView::Any,
            CharSetCond::Include(s) => CondView::Include(s@),
            CharSetCond::Exclude(s) => CondView::Exclude(s@),
        }
    }
}

/// Does the condition accept `c`?
pub open spec fn cond_matches(cond: CondView, c: char) -> bool {
    match cond {
        CondView::Any => true,
        CondView::Include(s) => s.contains(c),
        CondView::Exclude(s) => !s.contains(c),
    }
}

/// The condition's set, kept in increasing order (true of `Any`).
pub open spec fn cond_sorted(cond: CondView) -> bool {
    match cond {
        CondView::Any => true,
        CondView::Include(s) => sorted_chars(s),
        CondView::Exclude(s) => sorted_chars(s),
    }
}

impl Clone for CharSetCond {
    fn clone(&self) -> (r: Self)
        ensures
            r@ == self@,
    {
        match self {
            CharSetCond::Any => CharSetCond::Any,
            CharSetCond::Include(s) => CharSetCond::Include(clone_chars(s)),
            CharSetCond::Exclude(s) => CharSetCond::Exclude(clone_chars(s)),
        }
    }
}

impl Default for CharSetCond {
    fn default() -> (r: Self)
        ensures
            r@ == CondView::Any,
    {
        CharSetCond::Any
    }
}

impl CharSetCond {
    pub fn matches(&self, c: char) -> (r: bool)
        ensures
            r == cond_matches(self@, c),
    {
        match self {
            CharSetCond::Any => true,
            CharSetCond::Include(set) => contains_char(set, c),
            CharSetCond::Exclude(set) => !contains_char(set, c),
        }
    }

    /// Only `Any` leaves the jamo unconstrained (an empty `Include` still constrains).
    pub fn implies_some_constraint(&self) -> (r: bool)
        ensures
            r == !(self@ is Any),
    {
        match self {
            CharSetCond::Any => false,
            _ => true,
        }
    }

    /// `Any` becomes `Include({c})`; otherwise `c` is added to the set or, when present,
    /// taken out of it, keeping the kind of condition.
    pub fn toggle(&mut self, c: char)
        ensures
            match old(self)@ {
                CondView::Any => final(self)@ == CondView::Include(seq![c]),
                CondView::Include(s) => final(self)@ matches CondView::Include(t) && t.to_set() == toggled(
                    s.to_set(),
                    c,
                ),
                CondView::Exclude(s) => final(self)@ matches CondView::Exclude(t) && t.to_set() == toggled(
                    s.to_set(),
                    c,
                ),
            },
            cond_sorted(old(self)@) ==> cond_sorted(final(self)@),
    {
        match self {
            CharSetCond::Any => {
                let mut s: Vec<char> = Vec::new();
                s.push(c);
                *self = CharSetCond::Include(s);
            },
            CharSetCond::Include(set) => {
                if contains_char(set, c) {
                    remove_char(set, c);
                } else {
                    insert_char(set, c);
                }
            },
            CharSetCond::Exclude(set) => {
                if contains_char(set, c) {
                    remove_char(set, c);
                } else {
                    insert_char(set, c);
                }
            },
        }
    }

    /// Any condition becomes `Any`.
    pub fn clear(&mut self)
        ensures
            final(self)@ == CondView::Any,
    {
        *self = CharSetCond::Any;
    }
}

} // verus!

verus! {

/// The view of an optional string.
pub open spec fn opt_view(o: Option<String>) -> Option<Seq<char>> {
    match o {
        Some(s) => Some(s@),
        None => None,
    }
}

/// Within a template, overrides the groups used for some jamo combinations.
#[derive(Debug)]
pub struct VariantRule {
    pub id: String,
    pub name: String,
    pub priority: i32,
    pub cho_set: CharSetCond,
    pub jung_set: CharSetCond,
    pub jong_set: CharSetCond,
    pub set_cho_group_id: Option<String>,
    pub set_jung_group_id: Option<String>,
    pub set_jong_group_id: Option<String>,
}

pub struct VariantView {
    pub id: Seq<char>,
    pub name: Seq<char>,
    pub priority: i32,
    pub cho_set: CondView,
    pub jung_set: CondView,
    pub jong_set: CondView,
    pub set_cho: Option<Seq<char>>,
    pub set_jung: Option<Seq<char>>,
    pub set_jong: Option<Seq<char>>,
}

impl View for VariantRule {
    type V = VariantView;

    open spec fn view(&self) -> VariantView {
        VariantView {
            id: self.id@,
            name: self.name@,
            priority: self.priority,
            cho_set: self.cho_set@,
            jung_set: self.jung_set@,
            jong_set: self.jong_set@,
            set_cho: opt_view(self.set_cho_group_id),
            set_jung: opt_view(self.set_jung_group_id),
            set_jong: opt_view(self.set_jong_group_id),
        }
    }
}

impl Clone for VariantRule {
    fn clone(&self) -> (r: Self)
        ensures
            r@ == self@,
    {
        VariantRule {
            id: self.id.clone(),
            name: self.name.clone(),
            priority: self.priority,
            cho_set: self.cho_set.clone(),
            jung_set: self.jung_set.clone(),
            jong_set: self.jong_set.clone(),
            set_cho_group_id: clone_opt_string(&self.set_cho_group_id),
            set_jung_group_id: clone_opt_string(&self.set_jung_group_id),
            set_jong_group_id: clone_opt_string(&self.set_jong_group_id),
        }
    }
}

/// The groups a syllable shape is drawn with by default, and its variant rules.
#[derive(Debug)]
pub struct Template {
    pub id: String,
    pub name: String,
    pub default_cho_group_id: String,
    pub default_jung_group_id: String,
    pub default_jong_group_id: Option<String>,
    pub variant_rules: Vec<VariantRule>,
}

pub struct TemplateView {
    pub id: Seq<char>,
    pub name: Seq<char>,
    pub default_cho: Seq<char>,
    pub default_jung: Seq<char>,
    pub default_jong: Option<Seq<char>>,
    pub variant_rules: Seq<VariantView>,
}

/// The views of a list of rules.
pub open spec fn rules_view(rs: Seq<VariantRule>) -> Seq<VariantView> {
    rs.map_values(|r: VariantRule| r@)
}

impl View for Template {
    type V = TemplateView;

    open spec fn view(&self) -> TemplateView {
        TemplateView {
            id: self.id@,
            name: self.name@,
            default_cho: self.default_cho_group_id@,
            default_jung: self.default_jung_group_id@,
            default_jong: opt_view(self.default_jong_group_id),
            variant_rules: rules_view(self.variant_rules@),
        }
    }
}

pub fn clone_rules(v: &Vec<VariantRule>) -> (r: Vec<VariantRule>)
    ensures
        rules_view(r@) == rules_view(v@),
{
    let mut out: Vec<VariantRule> = Vec::new();
    let mut i: usize = 0;
    while i < v.len()
        invariant
            i <= v@.len(),
            out@.len() == i,
            forall|k: int| 0 <= k < i ==> (#[trigger] out@[k])@ == v@[k]@,
        decreases v@.len() - i,
    {
        out.push(v[i].clone());
        i = i + 1;
    }
    assert(rules_view(out@) =~= rules_view(v@));
    out
}

impl Clone for Template {
    fn clone(&self) -> (r: Self)
        ensures
            r@ == self@,
    {
        Template {
            id: self.id.clone(),
            name: self.name.clone(),
            default_cho_group_id: self.default_cho_group_id.clone(),
            default_jung_group_id: self.default_jung_group_id.clone(),
            default_jong_group_id: clone_opt_string(&self.default_jong_group_id),
            variant_rules: clone_rules(&self.variant_rules),
        }
    }
}

impl Identified for Template {
    open spec fn key_id(&self) -> Seq<char> {
        self.id@
    }

    fn id_str(&self) -> (r: &str) {
        self.id.as_str()
    }
}

/// Chooses a template for the jamo combinations it matches; higher priority wins.
#[derive(Debug)]
pub struct SelectorRule {
    pub id: String,
    pub name: String,
    pub priority: i32,
    pub cho_set: CharSetCond,
    pub jung_set: CharSetCond,
    pub jong_set: CharSetCond,
    pub template_id: String,
}

pub struct SelectorView {
    pub id: Seq<char>,
    pub name: Seq<char>,
    pub priority: i32,
    pub cho_set: CondView,
    pub jung_set: CondView,
    pub jong_set: CondView,
    pub template_id: Seq<char>,
}

impl View for SelectorRule {
    type V = SelectorView;

    open spec fn view(&self) -> SelectorView {
        SelectorView {
            id: self.id@,
            name: self.name@,
            priority: self.priority,
            cho_set: self.cho_set@,
            jung_set: self.jung_set@,
            jong_set: self.jong_set@,
            template_id: self.template_id@,
        }
    }
}

impl Clone for SelectorRule {
    fn clone(&self) -> (r: Self)
        ensures
            r@ == self@,
    {
        SelectorRule {
            id: self.id.clone(),
            name: self.name.clone(),
            priority: self.priority,
            cho_set: self.cho_set.clone(),
            jung_set: self.jung_set.clone(),
            jong_set: self.jong_set.clone(),
            template_id: self.template_id.clone(),
        }
    }
}

impl Identified for SelectorRule {
    open spec fn key_id(&self) -> Seq<char> {
        self.id@
    }

    fn id_str(&self) -> (r: &str) {
        self.id.as_str()
    }
}

/// Where a group is used: a template's default slot (`rule_name` is `None`) or a
/// variant rule of that template.
#[derive(Debug)]
pub struct GroupRef {
    pub template_name: String,
    pub rule_name: Option<String>,
    pub component: HangulComponent,
}

pub struct GroupRefView {
    pub template_name: Seq<char>,
    pub rule_name: Option<Seq<char>>,
    pub component: HangulComponent,
}

impl View for GroupRef {
    type V = GroupRefView;

    open spec fn view(&self) -> GroupRefView {
        GroupRefView {
            template_name: self.template_name@,
            rule_name: opt_view(self.rule_name),
            component: self.component,
        }
    }
}

} // verus!

verus! {

/// The set a toggle of `c` leaves: `c` taken out when present, added otherwise.
pub open spec fn toggled(s: Set<char>, c: char) -> Set<char> {
    if s.contains(c) {
        s.remove(c)
    } else {
        s.insert(c)
    }
}

/// Toggling the same jamo twice gives the condition's set back.
pub proof fn lemma_toggle_twice(s: Set<char>, c: char)
    ensures
        toggled(toggled(s, c), c) == s,
{
    assert(toggled(toggled(s, c), c) =~= s);
}

} // verus!
