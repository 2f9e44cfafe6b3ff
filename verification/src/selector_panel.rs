use vstd::prelude::*;

use crate::idlist::{id_position, position_of};
use crate::list_edit::{
    id_at, reorder, reorder_dest, reordered, reselect, reselected, selected_id, sort_by_keys, stably_sorted, Reorder,
};
use crate::rule_system::{seq_id, RuleSystem};
use crate::rules::{CharSetCond, CondView, SelectorRule, SelectorView};
use crate::template_panel::{copy_name, display_name, display_name_of};
use crate::text::{string_from, string_push_str};

verus! {

/// A selector's shown name, the key by which "sort by name" orders selectors.
pub open spec fn selector_name_key(x: SelectorRule) -> Seq<char> {
    display_name(x.name@, x.id@)
}

/// The copy of selector `x` under id `nid`, named after it with `suffix`.
pub open spec fn selector_copy(x: SelectorView, nid: Seq<char>, suffix: Seq<char>) -> SelectorView {
    SelectorView { id: nid, name: copy_name(x.name, x.id, suffix), ..x }
}

fn copy_of_selector(x: &SelectorRule, new_id: &String, suffix: &str) -> (r: SelectorRule)
    ensures
        r@ == selector_copy(x@, new_id@, suffix@),
{
    let mut y = x.clone();
    y.id = string_from(new_id.as_str());
    let mut n = display_name_of(&x.name, &x.id);
    string_push_str(&mut n, suffix);
    y.name = n;
    y
}

/// Selects the selector with id `sid`, when there is one.
pub fn select_selector(rules: &RuleSystem, selected: &mut usize, sid: &str)
    ensures
        match id_position(rules.selectors@, sid@) {
            Some(i) => *final(selected) == i as usize,
            None => *final(selected) == *old(selected),
        },
{
    if let Some(i) = position_of(&rules.selectors, sid) {
        *selected = i;
    }
}

/// The template a new selector points at: the first template, or `None` when there is no
/// template.
pub open spec fn new_selector_template(rules: RuleSystem) -> Seq<char> {
    if rules.templates@.len() > 0 {
        rules.templates@[0].id@
    } else {
        "None"@
    }
}

/// Adds a selector under a new id, with no name, priority 100 and no conditions, pointing
/// at the first template, and selects it.
pub fn add_selector_from_panel(rules: &mut RuleSystem, selected: &mut usize)
    requires
        old(rules).next_selector_seq < u64::MAX,
    ensures
        *final(rules) == (RuleSystem {
            selectors: final(rules).selectors,
            next_selector_seq: (old(rules).next_selector_seq + 1) as u64,
            ..*old(rules)
        }),
        final(rules).selectors@.drop_last() == old(rules).selectors@,
        final(rules).selectors@.len() == old(rules).selectors@.len() + 1,
        final(rules).selectors@.last()@ == (SelectorView {
            id: seq_id("sel_"@, old(rules).next_selector_seq),
            name: Seq::empty(),
            priority: 100,
            cho_set: CondView::Any,
            jung_set: CondView::Any,
            jong_set: CondView::Any,
            template_id: new_selector_template(*old(rules)),
        }),
        *final(selected) == old(rules).selectors@.len() as usize,
{
    let tpl_id = if rules.templates.len() > 0 {
        string_from(rules.templates[0].id.as_str())
    } else {
        string_from("None")
    };
    let new_id = rules.new_selector_id();
    let ghost s0 = rules.selectors@;
    rules.add_selector(
        SelectorRule {
            id: new_id,
            name: String::new(),
            priority: 100,
            cho_set: CharSetCond::Any,
            jung_set: CharSetCond::Any,
            jong_set: CharSetCond::Any,
            template_id: tpl_id,
        },
    );
    assert(rules.selectors@.drop_last() =~= s0);
    *selected = rules.selectors.len() - 1;
}

/// The selected position kept within a list of `n` items (the last one when past the end).
pub open spec fn clamped(sel: int, n: int) -> int {
    if sel < n {
        sel
    } else {
        n - 1
    }
}

/// Deletes the selected selector (the last one when the selection is past the end) and
/// selects the one before it; nothing happens when there are no selectors.
pub fn delete_selected_selector(rules: &mut RuleSystem, selected: &mut usize)
    ensures
        old(rules).selectors@.len() == 0 ==> *final(rules) == *old(rules) && *final(selected) == *old(selected),
        old(rules).selectors@.len() > 0 ==> *final(rules) == (RuleSystem {
            selectors: final(rules).selectors,
            ..*old(rules)
        }) && final(rules).selectors@ == old(rules).selectors@.remove(
            clamped(*old(selected) as int, old(rules).selectors@.len() as int),
        ) && *final(selected) == (if *old(selected) > 0 {
            (*old(selected) - 1) as usize
        } else {
            0
        }),
{
    let n = rules.selectors.len();
    if n == 0 {
        return;
    }
    let at = if *selected < n {
        *selected
    } else {
        n - 1
    };
    rules.selectors.remove(at);
    if *selected > 0 {
        *selected = *selected - 1;
    }
}

/// Copies the selector at `at` under a new id, with `suffix` after its shown name, right
/// after it, and selects the copy.
fn duplicate_at(rules: &mut RuleSystem, selected: &mut usize, at: usize, suffix: &str)
    requires
        at < old(rules).selectors@.len(),
        old(rules).next_selector_seq < u64::MAX,
    ensures
        *final(rules) == (RuleSystem {
            selectors: final(rules).selectors,
            next_selector_seq: (old(rules).next_selector_seq + 1) as u64,
            ..*old(rules)
        }),
        final(rules).selectors@.len() == old(rules).selectors@.len() + 1,
        final(rules).selectors@.remove(at + 1) == old(rules).selectors@,
        final(rules).selectors@[at + 1]@ == selector_copy(
            old(rules).selectors@[at as int]@,
            seq_id("sel_"@, old(rules).next_selector_seq),
            suffix@,
        ),
        *final(selected) == (at + 1) as usize,
{
    let n = rules.selectors.len();
    assert(at < n);
    let new_id = rules.new_selector_id();
    let y = copy_of_selector(&rules.selectors[at], &new_id, suffix);
    let ghost s0 = rules.selectors@;
    rules.selectors.insert(at + 1, y);
    assert(rules.selectors@.remove(at + 1) =~= s0);
    *selected = at + 1;
}

/// Copies the selected selector (the last one when the selection is past the end) under a
/// new id, with `suffix` after its shown name, right after it, and selects the copy;
/// nothing happens when there are no selectors.
pub fn duplicate_selected_selector(rules: &mut RuleSystem, selected: &mut usize, suffix: &str)
    requires
        old(rules).next_selector_seq < u64::MAX,
    ensures
        old(rules).selectors@.len() == 0 ==> *final(rules) == *old(rules) && *final(selected) == *old(selected),
        old(rules).selectors@.len() > 0 ==> {
            let at = clamped(*old(selected) as int, old(rules).selectors@.len() as int);
            &&& *final(rules) == (RuleSystem {
                selectors: final(rules).selectors,
                next_selector_seq: (old(rules).next_selector_seq + 1) as u64,
                ..*old(rules)
            })
            &&& final(rules).selectors@.len() == old(rules).selectors@.len() + 1
            &&& final(rules).selectors@.remove(at + 1) == old(rules).selectors@
            &&& final(rules).selectors@[at + 1]@ == selector_copy(
                old(rules).selectors@[at]@,
                seq_id("sel_"@, old(rules).next_selector_seq),
                suffix@,
            )
            &&& *final(selected) == (at + 1) as usize
        },
{
    let n = rules.selectors.len();
    if n == 0 {
        return;
    }
    let at = if *selected < n {
        *selected
    } else {
        n - 1
    };
    duplicate_at(rules, selected, at, suffix);
}

/// Copies the selector at `idx` under a new id, with `suffix` after its shown name, right
/// after it, and selects the copy; nothing happens when `idx` is past the end.
pub fn duplicate_selector_at(rules: &mut RuleSystem, selected: &mut usize, idx: usize, suffix: &str)
    requires
        old(rules).next_selector_seq < u64::MAX,
    ensures
        idx >= old(rules).selectors@.len() ==> *final(rules) == *old(rules) && *final(selected) == *old(selected),
        idx < old(rules).selectors@.len() ==> {
            &&& *final(rules) == (RuleSystem {
                selectors: final(rules).selectors,
                next_selector_seq: (old(rules).next_selector_seq + 1) as u64,
                ..*old(rules)
            })
            &&& final(rules).selectors@.len() == old(rules).selectors@.len() + 1
            &&& final(rules).selectors@.remove(idx + 1) == old(rules).selectors@
            &&& final(rules).selectors@[idx + 1]@ == selector_copy(
                old(rules).selectors@[idx as int]@,
                seq_id("sel_"@, old(rules).next_selector_seq),
                suffix@,
            )
            &&& *final(selected) == (idx + 1) as usize
        },
{
    if idx < rules.selectors.len() {
        duplicate_at(rules, selected, idx, suffix);
    }
}

/// Deletes the selector at `idx`, when there is one, keeping the selection within the
/// list.
pub fn delete_selector_at(rules: &mut RuleSystem, selected: &mut usize, idx: usize)
    ensures
        idx >= old(rules).selectors@.len() ==> *final(rules) == *old(rules) && *final(selected) == *old(selected),
        idx < old(rules).selectors@.len() ==> *final(rules) == (RuleSystem {
            selectors: final(rules).selectors,
            ..*old(rules)
        }) && final(rules).selectors@ == old(rules).selectors@.remove(idx as int) && *final(selected) == (if *old(
            selected,
        ) < final(rules).selectors@.len() {
            *old(selected)
        } else if final(rules).selectors@.len() > 0 {
            (final(rules).selectors@.len() - 1) as usize
        } else {
            0
        }),
{
    if idx < rules.selectors.len() {
        rules.selectors.remove(idx);
        let n = rules.selectors.len();
        if *selected >= n {
            *selected = if n > 0 {
                n - 1
            } else {
                0
            };
        }
    }
}

/// Moves the selector at `idx` as `how` says and keeps the selected selector selected (the
/// first place when it is gone or nothing was selected). The selection is redone after
/// every move and after every move to the top or the bottom, even one that moved nothing.
/// Tells whether the selection was redone.
pub fn move_selector(rules: &mut RuleSystem, selected: &mut usize, idx: usize, how: Reorder) -> (r: bool)
    requires
        how == Reorder::Up && idx > 0 ==> idx < old(rules).selectors@.len(),
    ensures
        r == (reorder_dest(old(rules).selectors@.len() as int, idx as int, how) is Some || how == Reorder::Top || how
            == Reorder::Bottom),
        *final(rules) == (RuleSystem { selectors: final(rules).selectors, ..*old(rules) }),
        final(rules).selectors@ == reordered(old(rules).selectors@, idx as int, how),
        *final(selected) as int == if r {
            reselected(final(rules).selectors@, id_at(old(rules).selectors@, *old(selected) as int), 0)
        } else {
            *old(selected) as int
        },
{
    let sel = selected_id(&rules.selectors, *selected);
    let moved_any = reorder(&mut rules.selectors, idx, how);
    let redo = moved_any || how == Reorder::Top || how == Reorder::Bottom;
    if redo {
        *selected = reselect(&rules.selectors, &sel, 0);
    }
    redo
}

/// Sorts the selectors by shown name, keeping the order of selectors with equal names, and
/// keeps the selected selector selected (the first place when nothing was selected).
pub fn sort_selectors(rules: &mut RuleSystem, selected: &mut usize)
    ensures
        *final(rules) == (RuleSystem { selectors: final(rules).selectors, ..*old(rules) }),
        stably_sorted(old(rules).selectors@, final(rules).selectors@, |x: SelectorRule| selector_name_key(x)),
        *final(selected) as int == reselected(
            final(rules).selectors@,
            id_at(old(rules).selectors@, *old(selected) as int),
            0,
        ),
{
    let sel = selected_id(&rules.selectors, *selected);
    let mut items: Vec<SelectorRule> = Vec::new();
    std::mem::swap(&mut items, &mut rules.selectors);
    let mut keys: Vec<String> = Vec::new();
    let mut i: usize = 0;
    while i < items.len()
        invariant
            i <= items@.len(),
            keys@.len() == i,
            forall|j: int| 0 <= j < i ==> (#[trigger] keys@[j])@ == selector_name_key(items@[j]),
        decreases items@.len() - i,
    {
        keys.push(display_name_of(&items[i].name, &items[i].id));
        i = i + 1;
    }
    let sorted = sort_by_keys(items, keys, Ghost(|x: SelectorRule| selector_name_key(x)));
    rules.selectors = sorted;
    *selected = reselect(&rules.selectors, &sel, 0);
}

} // verus!
