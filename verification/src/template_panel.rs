use vstd::prelude::*;

use crate::editor_state::TemplateEditorState;
use crate::idlist::{id_position, position_of};
use crate::list_edit::{
    id_at, reorder, reorder_dest, reordered, reselect, reselected, selected_id, sort_by_keys, stably_sorted, Reorder,
};
use crate::rule_system::{seq_id, RuleSystem};
use crate::analysis::{auto_name, variant_rule_auto_name};
use crate::rules::{rules_view, CharSetCond, CondView, Template, TemplateView, VariantRule, VariantView};
use crate::text::{string_from, string_push_str};

verus! {

/// The name a list shows for an item: its name, or its id when the name is empty.
pub open spec fn display_name(name: Seq<char>, id: Seq<char>) -> Seq<char> {
    if name.len() == 0 {
        id
    } else {
        name
    }
}

/// The name a list shows for an item: its name, or its id when the name is empty.
pub fn display_name_of(name: &String, id: &String) -> (r: String)
    ensures
        r@ == display_name(name@, id@),
{
    if name.as_str().is_empty() {
        string_from(id.as_str())
    } else {
        string_from(name.as_str())
    }
}

/// A copy's name: the original's shown name followed by `suffix`.
pub open spec fn copy_name(name: Seq<char>, id: Seq<char>, suffix: Seq<char>) -> Seq<char> {
    display_name(name, id) + suffix
}

fn copy_name_of(name: &String, id: &String, suffix: &str) -> (r: String)
    ensures
        r@ == copy_name(name@, id@, suffix@),
{
    let mut n = display_name_of(name, id);
    string_push_str(&mut n, suffix);
    n
}

/// A template's shown name, the key by which "sort by name" orders templates.
pub open spec fn template_name_key(t: Template) -> Seq<char> {
    display_name(t.name@, t.id@)
}

/// Selects the template with id `tid`, when there is one.
pub fn select_template(rules: &RuleSystem, state: &mut TemplateEditorState, tid: &str)
    ensures
        match id_position(rules.templates@, tid@) {
            Some(i) => *final(state) == (TemplateEditorState { selected_template: i as usize, ..*old(state) }),
            None => *final(state) == *old(state),
        },
{
    if let Some(i) = position_of(&rules.templates, tid) {
        state.selected_template = i;
    }
}

/// Adds a template named `name` under a new id, whose default groups are the base groups
/// and which has no final group and no variant rules, and selects it.
pub fn add_template_from_panel(rules: &mut RuleSystem, state: &mut TemplateEditorState, name: &str)
    requires
        old(rules).next_template_seq < u64::MAX,
    ensures
        *final(rules) == (RuleSystem {
            templates: final(rules).templates,
            next_template_seq: (old(rules).next_template_seq + 1) as u64,
            ..*old(rules)
        }),
        final(rules).templates@.drop_last() == old(rules).templates@,
        final(rules).templates@.len() == old(rules).templates@.len() + 1,
        final(rules).templates@.last()@ == (TemplateView {
            id: seq_id("tpl_"@, old(rules).next_template_seq),
            name: name@,
            default_cho: old(rules).base_cho_group_id@,
            default_jung: old(rules).base_jung_group_id@,
            default_jong: None,
            variant_rules: Seq::empty(),
        }),
        *final(state) == (TemplateEditorState {
            selected_template: old(rules).templates@.len() as usize,
            ..*old(state)
        }),
{
    let base_cho = string_from(rules.base_cho_group_id.as_str());
    let base_jung = string_from(rules.base_jung_group_id.as_str());
    let new_id = rules.new_template_id();
    let tpl = Template {
        id: new_id,
        name: string_from(name),
        default_cho_group_id: base_cho,
        default_jung_group_id: base_jung,
        default_jong_group_id: None,
        variant_rules: Vec::new(),
    };
    let ghost t0 = rules.templates@;
    rules.add_template(tpl);
    assert(rules.templates@.drop_last() =~= t0);
    assert(rules.templates@.last()@.variant_rules =~= Seq::<crate::rules::VariantView>::empty());
    state.selected_template = rules.templates.len() - 1;
}

/// The copy of template `t` under id `nid`, named after it with `suffix`.
pub open spec fn template_copy(t: TemplateView, nid: Seq<char>, suffix: Seq<char>) -> TemplateView {
    TemplateView { id: nid, name: copy_name(t.name, t.id, suffix), ..t }
}

fn copy_of_template(t: &Template, new_id: &String, suffix: &str) -> (r: Template)
    ensures
        r@ == template_copy(t@, new_id@, suffix@),
{
    let mut t2 = t.clone();
    t2.id = string_from(new_id.as_str());
    t2.name = copy_name_of(&t.name, &t.id, suffix);
    t2
}

/// Copies the template at `idx` under a new id, with `suffix` after its shown name, puts
/// the copy at the end and selects it; nothing happens when `idx` is past the end. Tells
/// whether a copy was made.
#[verifier::spinoff_prover]
pub fn copy_template_to_end(rules: &mut RuleSystem, state: &mut TemplateEditorState, idx: usize, suffix: &str) -> (r: bool)
    requires
        old(rules).next_template_seq < u64::MAX,
    ensures
        r == (idx < old(rules).templates@.len()),
        !r ==> *final(rules) == *old(rules) && *final(state) == *old(state),
        r ==> *final(rules) == (RuleSystem {
            templates: final(rules).templates,
            next_template_seq: (old(rules).next_template_seq + 1) as u64,
            ..*old(rules)
        }),
        r ==> final(rules).templates@.drop_last() == old(rules).templates@,
        r ==> final(rules).templates@.len() == old(rules).templates@.len() + 1,
        r ==> final(rules).templates@.last()@ == template_copy(
            old(rules).templates@[idx as int]@,
            seq_id("tpl_"@, old(rules).next_template_seq),
            suffix@,
        ),
        r ==> *final(state) == (TemplateEditorState {
            selected_template: old(rules).templates@.len() as usize,
            ..*old(state)
        }),
{
    if idx >= rules.templates.len() {
        return false;
    }
    let new_id = rules.new_template_id();
    let t2 = copy_of_template(&rules.templates[idx], &new_id, suffix);
    let ghost t0 = rules.templates@;
    rules.templates.push(t2);
    assert(rules.templates@.drop_last() =~= t0);
    state.selected_template = rules.templates.len() - 1;
    true
}

/// Copies the template at `idx` under a new id, with `suffix` after its shown name, puts
/// the copy right after it and selects the first template with the new id; nothing
/// happens when `idx` is past the end. Tells whether a copy was made.
#[verifier::spinoff_prover]
#[verifier::rlimit(30)]
pub fn copy_template_after(rules: &mut RuleSystem, state: &mut TemplateEditorState, idx: usize, suffix: &str) -> (r: bool)
    requires
        old(rules).next_template_seq < u64::MAX,
    ensures
        r == (idx < old(rules).templates@.len()),
        !r ==> *final(rules) == *old(rules) && *final(state) == *old(state),
        r ==> *final(rules) == (RuleSystem {
            templates: final(rules).templates,
            next_template_seq: (old(rules).next_template_seq + 1) as u64,
            ..*old(rules)
        }),
        r ==> final(rules).templates@.len() == old(rules).templates@.len() + 1,
        r ==> final(rules).templates@.remove(idx + 1) == old(rules).templates@,
        r ==> final(rules).templates@[idx + 1]@ == template_copy(
            old(rules).templates@[idx as int]@,
            seq_id("tpl_"@, old(rules).next_template_seq),
            suffix@,
        ),
        r ==> *final(state) == (TemplateEditorState {
            selected_template: match id_position(
                final(rules).templates@,
                seq_id("tpl_"@, old(rules).next_template_seq),
            ) {
                Some(j) => j as usize,
                None => old(state).selected_template,
            },
            ..*old(state)
        }),
{
    if idx >= rules.templates.len() {
        return false;
    }
    let new_id = rules.new_template_id();
    let t2 = copy_of_template(&rules.templates[idx], &new_id, suffix);
    let ghost t0 = rules.templates@;
    rules.templates.insert(idx + 1, t2);
    assert(rules.templates@.remove(idx + 1) =~= t0);
    if let Some(j) = position_of(&rules.templates, new_id.as_str()) {
        state.selected_template = j;
    }
    true
}

/// Deletes the selected template (the last one when the selection is past the end) and
/// selects the one before it.
pub fn delete_selected_template(rules: &mut RuleSystem, state: &mut TemplateEditorState)
    requires
        old(rules).templates@.len() > 0,
    ensures
        ({
            let n = old(rules).templates@.len();
            let sel = old(state).selected_template;
            let at = if sel < n {
                sel as int
            } else {
                n - 1
            };
            &&& *final(rules) == (RuleSystem { templates: final(rules).templates, ..*old(rules) })
            &&& final(rules).templates@ == old(rules).templates@.remove(at)
            &&& *final(state) == (TemplateEditorState {
                selected_template: if sel > 0 {
                    (sel - 1) as usize
                } else {
                    0
                },
                ..*old(state)
            })
        }),
{
    let n = rules.templates.len();
    let at = if state.selected_template < n {
        state.selected_template
    } else {
        n - 1
    };
    rules.templates.remove(at);
    if state.selected_template > 0 {
        state.selected_template = state.selected_template - 1;
    }
}

/// Deletes the template at `idx` when it exists and no selector uses it, keeping the
/// selection within the list. Tells whether it was deleted.
pub fn delete_template_at(rules: &mut RuleSystem, state: &mut TemplateEditorState, idx: usize) -> (r: bool)
    ensures
        r == (idx < old(rules).templates@.len() && !exists|i: int|
            0 <= i < old(rules).selectors@.len() && #[trigger] old(rules).selectors@[i].template_id@
                == old(rules).templates@[idx as int].id@),
        !r ==> *final(rules) == *old(rules) && *final(state) == *old(state),
        r ==> *final(rules) == (RuleSystem { templates: final(rules).templates, ..*old(rules) })
            && final(rules).templates@ == old(rules).templates@.remove(idx as int) && *final(state) == (
        TemplateEditorState {
            selected_template: if old(state).selected_template < final(rules).templates@.len() {
                old(state).selected_template
            } else if final(rules).templates@.len() > 0 {
                (final(rules).templates@.len() - 1) as usize
            } else {
                0
            },
            ..*old(state)
        }),
{
    if idx >= rules.templates.len() {
        return false;
    }
    let referenced = rules.is_template_referenced(rules.templates[idx].id.as_str());
    if referenced {
        return false;
    }
    rules.templates.remove(idx);
    let n = rules.templates.len();
    if state.selected_template >= n {
        state.selected_template = if n > 0 {
            n - 1
        } else {
            0
        };
    }
    true
}

/// Moves the template at `idx` as `how` says and keeps the selected template selected
/// (the first place when it is gone or nothing was selected). The selection is redone
/// after every move and after every move to the top, even one that moved nothing. Tells
/// whether the selection was redone.
pub fn move_template(rules: &mut RuleSystem, state: &mut TemplateEditorState, idx: usize, how: Reorder) -> (r: bool)
    requires
        how == Reorder::Up && idx > 0 ==> idx < old(rules).templates@.len(),
    ensures
        r == (reorder_dest(old(rules).templates@.len() as int, idx as int, how) is Some || how == Reorder::Top),
        *final(rules) == (RuleSystem { templates: final(rules).templates, ..*old(rules) }),
        final(rules).templates@ == reordered(old(rules).templates@, idx as int, how),
        *final(state) == (TemplateEditorState { selected_template: final(state).selected_template, ..*old(state) }),
        final(state).selected_template as int == if r {
            reselected(final(rules).templates@, id_at(old(rules).templates@, old(state).selected_template as int), 0)
        } else {
            old(state).selected_template as int
        },
{
    let sel = selected_id(&rules.templates, state.selected_template);
    let moved_any = reorder(&mut rules.templates, idx, how);
    let redo = moved_any || how == Reorder::Top;
    if redo {
        state.selected_template = reselect(&rules.templates, &sel, 0);
    }
    redo
}

/// Sorts the templates by shown name, keeping the order of templates with equal names, and
/// keeps the selected template selected (the first place when nothing was selected).
pub fn sort_templates(rules: &mut RuleSystem, state: &mut TemplateEditorState)
    ensures
        *final(rules) == (RuleSystem { templates: final(rules).templates, ..*old(rules) }),
        stably_sorted(old(rules).templates@, final(rules).templates@, |t: Template| template_name_key(t)),
        *final(state) == (TemplateEditorState { selected_template: final(state).selected_template, ..*old(state) }),
        final(state).selected_template as int == reselected(
            final(rules).templates@,
            id_at(old(rules).templates@, old(state).selected_template as int),
            0,
        ),
{
    let sel = selected_id(&rules.templates, state.selected_template);
    let mut templates: Vec<Template> = Vec::new();
    std::mem::swap(&mut templates, &mut rules.templates);
    let mut keys: Vec<String> = Vec::new();
    let mut i: usize = 0;
    while i < templates.len()
        invariant
            i <= templates@.len(),
            keys@.len() == i,
            forall|j: int| 0 <= j < i ==> (#[trigger] keys@[j])@ == template_name_key(templates@[j]),
        decreases templates@.len() - i,
    {
        keys.push(display_name_of(&templates[i].name, &templates[i].id));
        i = i + 1;
    }
    let sorted = sort_by_keys(templates, keys, Ghost(|t: Template| template_name_key(t)));
    rules.templates = sorted;
    state.selected_template = reselect(&rules.templates, &sel, 0);
}

/// `b` is `a` with the variant rules of template `t` replaced by `vr`.
pub open spec fn with_template_rules(a: RuleSystem, b: RuleSystem, t: int, vr: Seq<VariantRule>) -> bool {
    &&& b == (RuleSystem { templates: b.templates, ..a })
    &&& b.templates@.len() == a.templates@.len()
    &&& forall|j: int| 0 <= j < a.templates@.len() && j != t ==> #[trigger] b.templates@[j] == a.templates@[j]
    &&& b.templates@[t] == (Template { variant_rules: b.templates@[t].variant_rules, ..a.templates@[t] })
    &&& b.templates@[t].variant_rules@ == vr
}

/// Replaces the variant rules of template `t` by `vr`, returning the old ones.
fn swap_template_rules(rules: &mut RuleSystem, t: usize, vr: Vec<VariantRule>) -> (r: Vec<VariantRule>)
    requires
        t < old(rules).templates@.len(),
    ensures
        r@ == old(rules).templates@[t as int].variant_rules@,
        with_template_rules(*old(rules), *final(rules), t as int, vr@),
{
    let mut vr = vr;
    let tpl = &mut rules.templates[t];
    std::mem::swap(&mut tpl.variant_rules, &mut vr);
    vr
}

/// Adds to template `t` a variant rule under a new id, with no name, priority 100, no
/// conditions and no group changes.
pub fn add_variant_rule(rules: &mut RuleSystem, t: usize)
    requires
        t < old(rules).templates@.len(),
        old(rules).next_variant_seq < u64::MAX,
    ensures
        ({
            let vr = final(rules).templates@[t as int].variant_rules@;
            &&& with_template_rules(
                RuleSystem { next_variant_seq: (old(rules).next_variant_seq + 1) as u64, ..*old(rules) },
                *final(rules),
                t as int,
                vr,
            )
            &&& vr.drop_last() == old(rules).templates@[t as int].variant_rules@
            &&& vr.len() == old(rules).templates@[t as int].variant_rules@.len() + 1
            &&& vr.last()@ == (VariantView {
                id: seq_id("vr_"@, old(rules).next_variant_seq),
                name: Seq::empty(),
                priority: 100,
                cho_set: CondView::Any,
                jung_set: CondView::Any,
                jong_set: CondView::Any,
                set_cho: None,
                set_jung: None,
                set_jong: None,
            })
        }),
{
    let new_id = rules.new_variant_id();
    let rule = VariantRule {
        id: new_id,
        name: String::new(),
        priority: 100,
        cho_set: CharSetCond::Any,
        jung_set: CharSetCond::Any,
        jong_set: CharSetCond::Any,
        set_cho_group_id: None,
        set_jung_group_id: None,
        set_jong_group_id: None,
    };
    let mut vr = swap_template_rules(rules, t, Vec::new());
    let ghost v0 = vr@;
    vr.push(rule);
    assert(vr@.drop_last() =~= v0);
    let _ = swap_template_rules(rules, t, vr);
}

/// Moves variant rule `idx` of template `t` as `how` says; moving up a rule past the end
/// does nothing.
pub fn move_variant_rule(rules: &mut RuleSystem, t: usize, idx: usize, how: Reorder)
    requires
        t < old(rules).templates@.len(),
    ensures
        ({
            let v0 = old(rules).templates@[t as int].variant_rules@;
            with_template_rules(
                *old(rules),
                *final(rules),
                t as int,
                if how == Reorder::Up && idx >= v0.len() {
                    v0
                } else {
                    reordered(v0, idx as int, how)
                },
            )
        }),
{
    let mut vr = swap_template_rules(rules, t, Vec::new());
    if !(how == Reorder::Up && idx >= vr.len()) {
        let _ = reorder(&mut vr, idx, how);
    }
    let _ = swap_template_rules(rules, t, vr);
}

/// Deletes variant rule `idx` of template `t`, when there is one.
pub fn delete_variant_rule(rules: &mut RuleSystem, t: usize, idx: usize)
    requires
        t < old(rules).templates@.len(),
    ensures
        ({
            let v0 = old(rules).templates@[t as int].variant_rules@;
            with_template_rules(
                *old(rules),
                *final(rules),
                t as int,
                if idx < v0.len() {
                    v0.remove(idx as int)
                } else {
                    v0
                },
            )
        }),
{
    let mut vr = swap_template_rules(rules, t, Vec::new());
    if idx < vr.len() {
        vr.remove(idx);
    }
    let _ = swap_template_rules(rules, t, vr);
}

/// Names variant rule `idx` of template `t` after its conditions (see `auto_name`), when
/// there is such a rule.
pub fn auto_name_variant_rule(rules: &mut RuleSystem, t: usize, idx: usize, cho_label: &str, jung_label: &str, jong_label: &str)
    requires
        t < old(rules).templates@.len(),
    ensures
        ({
            let v0 = old(rules).templates@[t as int].variant_rules@;
            let v1 = final(rules).templates@[t as int].variant_rules@;
            &&& with_template_rules(*old(rules), *final(rules), t as int, v1)
            &&& idx >= v0.len() ==> v1 == v0
            &&& idx < v0.len() ==> v1.len() == v0.len() && forall|j: int|
                0 <= j < v0.len() && j != idx ==> #[trigger] v1[j] == v0[j]
            &&& idx < v0.len() ==> v1[idx as int] == (VariantRule { name: v1[idx as int].name, ..v0[idx as int] })
            &&& idx < v0.len() ==> v1[idx as int].name@ == auto_name(
                v0[idx as int].cho_set@,
                v0[idx as int].jung_set@,
                v0[idx as int].jong_set@,
                cho_label@,
                jung_label@,
                jong_label@,
            )
        }),
{
    let mut vr = swap_template_rules(rules, t, Vec::new());
    if idx < vr.len() {
        let name = variant_rule_auto_name(&vr[idx], cho_label, jung_label, jong_label);
        let r = &mut vr[idx];
        r.name = name;
    }
    let _ = swap_template_rules(rules, t, vr);
}

/// The copy of variant rule `r` under id `nid`, named after it with `suffix`.
pub open spec fn rule_copy(r: VariantView, nid: Seq<char>, suffix: Seq<char>) -> VariantView {
    VariantView { id: nid, name: copy_name(r.name, r.id, suffix), ..r }
}

/// Copies variant rule `idx` of template `t` under a new id, with `suffix` after its shown
/// name, right after it, and selects the copy. A new id is taken even when there is no
/// such rule, and then nothing else happens.
pub fn copy_variant_rule(rules: &mut RuleSystem, state: &mut TemplateEditorState, t: usize, idx: usize, suffix: &str)
    requires
        t < old(rules).templates@.len(),
        old(rules).next_variant_seq < u64::MAX,
    ensures
        ({
            let v0 = old(rules).templates@[t as int].variant_rules@;
            let v1 = final(rules).templates@[t as int].variant_rules@;
            let nid = seq_id("vr_"@, old(rules).next_variant_seq);
            &&& with_template_rules(
                RuleSystem { next_variant_seq: (old(rules).next_variant_seq + 1) as u64, ..*old(rules) },
                *final(rules),
                t as int,
                v1,
            )
            &&& idx >= v0.len() ==> v1 == v0 && *final(state) == *old(state)
            &&& idx < v0.len() ==> v1.len() == v0.len() + 1 && v1.remove(idx + 1) == v0 && v1[idx + 1]@ == rule_copy(
                v0[idx as int]@,
                nid,
                suffix@,
            ) && *final(state) == (TemplateEditorState {
                selected_variant_rule: Some(final(state).selected_variant_rule->0),
                ..*old(state)
            }) && final(state).selected_variant_rule->0@ == nid
        }),
{
    let new_id = rules.new_variant_id();
    let mut vr = swap_template_rules(rules, t, Vec::new());
    if idx < vr.len() {
        let mut r2 = vr[idx].clone();
        r2.id = string_from(new_id.as_str());
        r2.name = copy_name_of(&vr[idx].name, &vr[idx].id, suffix);
        let ghost v0 = vr@;
        vr.insert(idx + 1, r2);
        assert(vr@.remove(idx + 1) =~= v0);
        state.selected_variant_rule = Some(new_id);
    }
    let _ = swap_template_rules(rules, t, vr);
}

/// Clicking a variant rule's header selects it, or clears the selection when it was
/// already selected.
pub fn click_variant_rule(state: &mut TemplateEditorState, rid: &str)
    ensures
        *final(state) == (TemplateEditorState { selected_variant_rule: final(state).selected_variant_rule, ..*old(state) }),
        (old(state).selected_variant_rule matches Some(x) && x@ == rid@) ==> final(state).selected_variant_rule is None,
        !(old(state).selected_variant_rule matches Some(x) && x@ == rid@) ==> (final(state).selected_variant_rule matches Some(y) && y@ == rid@),
{
    let same = match &state.selected_variant_rule {
        Some(x) => crate::text::str_eq(x.as_str(), rid),
        None => false,
    };
    if same {
        state.selected_variant_rule = None;
    } else {
        state.selected_variant_rule = Some(string_from(rid));
    }
}

} // verus!
