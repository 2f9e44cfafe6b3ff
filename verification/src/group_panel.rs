use vstd::prelude::*;

use crate::editor_state::ComponentsState;
use crate::glyph::{regrouped, GlyphStore, KeyView};
use crate::groups::{ComponentGroup, GroupView};
use crate::idlist::{id_position, lacks_id, position_of, remove_with_id};
use crate::compact::text_lt;
use crate::list_edit::{
    id_at, ordered_by, reorder, reorder_dest, reordered, reselect, reselected, selected_id, sort_by_keys, stably_sorted, Reorder,
};
use crate::project::{allowed_chars, build_allowed_set};
use crate::rule_system::{group_glyphs_ensured, seq_id, RuleSystem};
use crate::seqs::{first_index, lemma_first_index_is, lemma_first_index_none};
use crate::text::{str_eq, string_from, string_push_str};
use crate::types::{spec_kind, HangulComponent};

verus! {

/// Selects the group with id `gid` in the group list, when there is one.
pub fn select_group(rules: &RuleSystem, state: &mut ComponentsState, gid: &str)
    ensures
        match id_position(rules.groups@, gid@) {
            Some(i) => *final(state) == (ComponentsState {
                selected_group: i as usize,
                selected_member_index: None,
                ..*old(state)
            }),
            None => *final(state) == *old(state),
        },
{
    if let Some(i) = position_of(&rules.groups, gid) {
        state.selected_group = i;
        state.selected_member_index = None;
    }
}

/// Adds a group named `name` for component `target`, holding every jamo the component
/// allows (the archaic ones too when old Hangul is on), with its glyphs, and selects it.
pub fn add_group_from_panel(
    rules: &mut RuleSystem,
    store: &mut GlyphStore,
    state: &mut ComponentsState,
    name: &str,
    target: HangulComponent,
    old_hangul_enabled: bool,
) -> (r: String)
    requires
        old(rules).next_group_seq < u64::MAX,
        old(store).wf(),
    ensures
        r@ == seq_id("grp_"@, old(rules).next_group_seq),
        *final(rules) == (RuleSystem {
            groups: final(rules).groups,
            next_group_seq: (old(rules).next_group_seq + 1) as u64,
            ..*old(rules)
        }),
        final(rules).groups@.drop_last() == old(rules).groups@,
        final(rules).groups@.len() == old(rules).groups@.len() + 1,
        final(rules).groups@.last().id@ == r@,
        final(rules).groups@.last().name@ == name@,
        final(rules).groups@.last().target == target,
        final(rules).groups@.last().members@.to_set() == allowed_chars(target, old_hangul_enabled).to_set(),
        final(store).wf(),
        final(store)@ == group_glyphs_ensured(old(store)@, final(rules).groups@, r@),
        *final(state) == (ComponentsState {
            selected_group: old(rules).groups@.len() as usize,
            selected_member_index: None,
            ..*old(state)
        }),
{
    let allowed = build_allowed_set(target, old_hangul_enabled);
    let id = rules.add_group(store, name, target, allowed);
    state.selected_group = rules.groups.len() - 1;
    state.selected_member_index = None;
    id
}

/// Moves the group at `idx` as `how` says, keeping the selected group selected; tells
/// whether it moved.
pub fn move_group(rules: &mut RuleSystem, state: &mut ComponentsState, idx: usize, how: Reorder) -> (r: bool)
    requires
        how == Reorder::Up && idx > 0 ==> idx < old(rules).groups@.len(),
    ensures
        r == reorder_dest(old(rules).groups@.len() as int, idx as int, how) is Some,
        *final(rules) == (RuleSystem { groups: final(rules).groups, ..*old(rules) }),
        final(rules).groups@ == reordered(old(rules).groups@, idx as int, how),
        *final(state) == (ComponentsState { selected_group: final(state).selected_group, ..*old(state) }),
        final(state).selected_group as int == if r {
            reselected(
                final(rules).groups@,
                id_at(old(rules).groups@, old(state).selected_group as int),
                old(state).selected_group as int,
            )
        } else {
            old(state).selected_group as int
        },
{
    let sel = selected_id(&rules.groups, state.selected_group);
    let moved_any = reorder(&mut rules.groups, idx, how);
    if moved_any {
        state.selected_group = reselect(&rules.groups, &sel, state.selected_group);
    }
    moved_any
}

/// A group's name, the key by which "sort by name" orders groups.
pub open spec fn group_name_key(g: ComponentGroup) -> Seq<char> {
    g.name@
}

/// The digit that stands for a component in a sort key: `0`, `1`, `2` for initial,
/// medial and final.
pub open spec fn component_digit(c: HangulComponent) -> char {
    match c {
        HangulComponent::Cho => '0',
        HangulComponent::Jung => '1',
        HangulComponent::Jong => '2',
    }
}

/// The key by which "sort by component, then name" orders groups: the component's digit
/// followed by the name, so that components come in their order and names order each.
pub open spec fn component_name_key(g: ComponentGroup) -> Seq<char> {
    seq![component_digit(g.target)] + g.name@
}

fn component_digit_of(c: HangulComponent) -> (r: char)
    ensures
        r == component_digit(c),
{
    match c {
        HangulComponent::Cho => '0',
        HangulComponent::Jung => '1',
        HangulComponent::Jong => '2',
    }
}

/// Comparing the component keys of two groups: a key not below another's puts the
/// group's component not before the other's, and within one component its name not
/// below the other's.
proof fn lemma_component_key_order(a: ComponentGroup, b: ComponentGroup)
    ensures
        !text_lt(component_name_key(b), component_name_key(a)) ==> spec_kind(a.target) <= spec_kind(b.target)
            && (a.target == b.target ==> !text_lt(b.name@, a.name@)),
{
    let ka = component_name_key(a);
    let kb = component_name_key(b);
    assert(ka[0] == component_digit(a.target));
    assert(kb[0] == component_digit(b.target));
    assert(ka.skip(1) =~= a.name@);
    assert(kb.skip(1) =~= b.name@);
    assert('0' as u32 == 48u32 && '1' as u32 == 49u32 && '2' as u32 == 50u32);
}

/// Sorting by component puts every initial group before every medial group, and every
/// medial group before every final group; within a component the names are in order.
pub proof fn lemma_sorted_by_component(s: Seq<ComponentGroup>, r: Seq<ComponentGroup>)
    requires
        stably_sorted(s, r, |g: ComponentGroup| component_name_key(g)),
    ensures
        forall|i: int, j: int|
            0 <= i < j < r.len() ==> spec_kind(#[trigger] r[i].target) <= spec_kind(#[trigger] r[j].target),
        forall|i: int, j: int|
            0 <= i < j < r.len() && (#[trigger] r[i]).target == (#[trigger] r[j]).target ==> !text_lt(
                r[j].name@,
                r[i].name@,
            ),
{
    let key = |g: ComponentGroup| component_name_key(g);
    assert(ordered_by(r, key));
    assert forall|i: int, j: int| 0 <= i < j < r.len() implies spec_kind(#[trigger] r[i].target) <= spec_kind(
        #[trigger] r[j].target,
    ) && (r[i].target == r[j].target ==> !text_lt(r[j].name@, r[i].name@)) by {
        assert(!text_lt(key(r[j]), key(r[i])));
        lemma_component_key_order(r[i], r[j]);
    }
}

/// Where the selection goes after the groups are sorted: the selected group's new place,
/// or the first place when it is gone; the selection stays when nothing was selected.
pub open spec fn sorted_selection(s: Seq<ComponentGroup>, id: Option<Seq<char>>, cur: int) -> int {
    match id {
        Some(x) => match id_position(s, x) {
            Some(j) => j,
            None => 0,
        },
        None => cur,
    }
}

/// Sorts the groups by name or, when `by_component`, by component and then name, keeping
/// the order of groups with equal keys and the selected group selected.
pub fn sort_groups(rules: &mut RuleSystem, state: &mut ComponentsState, by_component: bool)
    ensures
        *final(rules) == (RuleSystem { groups: final(rules).groups, ..*old(rules) }),
        by_component ==> stably_sorted(
            old(rules).groups@,
            final(rules).groups@,
            |g: ComponentGroup| component_name_key(g),
        ),
        !by_component ==> stably_sorted(old(rules).groups@, final(rules).groups@, |g: ComponentGroup| group_name_key(g)),
        by_component ==> forall|i: int, j: int|
            0 <= i < j < final(rules).groups@.len() ==> spec_kind(#[trigger] final(rules).groups@[i].target)
                <= spec_kind(#[trigger] final(rules).groups@[j].target),
        *final(state) == (ComponentsState { selected_group: final(state).selected_group, ..*old(state) }),
        final(state).selected_group as int == sorted_selection(
            final(rules).groups@,
            id_at(old(rules).groups@, old(state).selected_group as int),
            old(state).selected_group as int,
        ),
{
    let sel = selected_id(&rules.groups, state.selected_group);
    let mut groups: Vec<ComponentGroup> = Vec::new();
    std::mem::swap(&mut groups, &mut rules.groups);
    let mut keys: Vec<String> = Vec::new();
    let mut i: usize = 0;
    while i < groups.len()
        invariant
            i <= groups@.len(),
            keys@.len() == i,
            forall|j: int|
                0 <= j < i ==> (#[trigger] keys@[j])@ == (if by_component {
                    component_name_key(groups@[j])
                } else {
                    group_name_key(groups@[j])
                }),
        decreases groups@.len() - i,
    {
        let g = &groups[i];
        let mut k = String::new();
        if by_component {
            crate::text::string_push(&mut k, component_digit_of(g.target));
        }
        string_push_str(&mut k, g.name.as_str());
        proof {
            if by_component {
                assert(k@ =~= component_name_key(groups@[i as int]));
            } else {
                assert(k@ =~= group_name_key(groups@[i as int]));
            }
        }
        keys.push(k);
        i = i + 1;
    }
    let ghost key: spec_fn(ComponentGroup) -> Seq<char> = if by_component {
        |g: ComponentGroup| component_name_key(g)
    } else {
        |g: ComponentGroup| group_name_key(g)
    };
    let ghost unsorted = groups@;
    let sorted = sort_by_keys(groups, keys, Ghost(key));
    proof {
        if by_component {
            lemma_sorted_by_component(unsorted, sorted@);
        }
    }
    rules.groups = sorted;
    if sel.is_some() {
        state.selected_group = reselect(&rules.groups, &sel, 0);
    }
}

/// The predicate "a group of component `t` other than `gid`".
pub open spec fn other_of(t: HangulComponent, gid: Seq<char>) -> spec_fn(ComponentGroup) -> bool {
    |g: ComponentGroup| g.target == t && g.id@ != gid
}

/// The id that takes over a base reference to group `gid` of component `t` when the group
/// is deleted: the first other group of the component, or the empty id when there is none.
pub open spec fn replacement_id(groups: Seq<ComponentGroup>, t: HangulComponent, gid: Seq<char>) -> Seq<char> {
    match first_index(groups, other_of(t, gid)) {
        Some(j) => groups[j].id@,
        None => Seq::empty(),
    }
}

/// A base group id of component `c` after deleting group `gid`: replaced when it names the
/// deleted group and that group (the first with the id) is of component `c`.
pub open spec fn base_after_delete(
    base: Seq<char>,
    groups: Seq<ComponentGroup>,
    gid: Seq<char>,
    c: HangulComponent,
) -> Seq<char> {
    match id_position(groups, gid) {
        Some(i) => if groups[i].target == c && base == gid {
            replacement_id(groups, c, gid)
        } else {
            base
        },
        None => base,
    }
}

fn replacement_of(groups: &Vec<ComponentGroup>, t: HangulComponent, gid: &str) -> (r: String)
    ensures
        r@ == replacement_id(groups@, t, gid@),
{
    let mut i: usize = 0;
    while i < groups.len()
        invariant
            i <= groups@.len(),
            forall|j: int| 0 <= j < i ==> !other_of(t, gid@)(#[trigger] groups@[j]),
        decreases groups@.len() - i,
    {
        let same_target = groups[i].target == t;
        if same_target && !str_eq(groups[i].id.as_str(), gid) {
            proof {
                lemma_first_index_is(groups@, other_of(t, gid@), i as int);
            }
            return string_from(groups[i].id.as_str());
        }
        i = i + 1;
    }
    proof {
        lemma_first_index_none(groups@, other_of(t, gid@));
    }
    String::new()
}

/// The selection after deleting a group: nothing left selects the first place and no
/// member; otherwise the selected group keeps its selection at its new place, and when it
/// is gone (or nothing was selected) the selection is kept within the list and no member
/// is selected.
pub open spec fn selection_after_delete(
    s: Seq<ComponentGroup>,
    id: Option<Seq<char>>,
    st: ComponentsState,
) -> ComponentsState {
    let clamp = if st.selected_group < s.len() {
        st.selected_group as int
    } else {
        s.len() - 1
    };
    if s.len() == 0 {
        ComponentsState { selected_group: 0, selected_member_index: None, ..st }
    } else {
        match id {
            Some(x) => match id_position(s, x) {
                Some(j) => ComponentsState { selected_group: j as usize, ..st },
                None => ComponentsState { selected_group: clamp as usize, selected_member_index: None, ..st },
            },
            None => ComponentsState { selected_group: clamp as usize, selected_member_index: None, ..st },
        }
    }
}

/// Deletes group `gid` with its glyphs. A base group id that named it passes to the first
/// other group of its component (or becomes empty); the selection follows the selected
/// group.
pub fn delete_group(rules: &mut RuleSystem, store: &mut GlyphStore, state: &mut ComponentsState, gid: &str)
    requires
        old(store).wf(),
    ensures
        *final(rules) == (RuleSystem {
            groups: final(rules).groups,
            base_cho_group_id: final(rules).base_cho_group_id,
            base_jung_group_id: final(rules).base_jung_group_id,
            base_jong_group_id: final(rules).base_jong_group_id,
            ..*old(rules)
        }),
        final(rules).groups@ == old(rules).groups@.filter(lacks_id::<ComponentGroup>(gid@)),
        final(rules).base_cho_group_id@ == base_after_delete(
            old(rules).base_cho_group_id@,
            old(rules).groups@,
            gid@,
            HangulComponent::Cho,
        ),
        final(rules).base_jung_group_id@ == base_after_delete(
            old(rules).base_jung_group_id@,
            old(rules).groups@,
            gid@,
            HangulComponent::Jung,
        ),
        final(rules).base_jong_group_id@ == base_after_delete(
            old(rules).base_jong_group_id@,
            old(rules).groups@,
            gid@,
            HangulComponent::Jong,
        ),
        final(store).wf(),
        forall|k: KeyView| #[trigger] final(store)@.contains_key(k) <==> old(store)@.contains_key(k) && k.2 != gid@,
        forall|k: KeyView| #[trigger] final(store)@.contains_key(k) ==> final(store)@[k] == old(store)@[k],
        *final(state) == selection_after_delete(
            final(rules).groups@,
            id_at(old(rules).groups@, old(state).selected_group as int),
            *old(state),
        ),
{
    let sel = selected_id(&rules.groups, state.selected_group);
    if let Some(i) = position_of(&rules.groups, gid) {
        let t = rules.groups[i].target;
        let next = replacement_of(&rules.groups, t, gid);
        match t {
            HangulComponent::Cho => {
                if str_eq(rules.base_cho_group_id.as_str(), gid) {
                    rules.base_cho_group_id = next;
                }
            },
            HangulComponent::Jung => {
                if str_eq(rules.base_jung_group_id.as_str(), gid) {
                    rules.base_jung_group_id = next;
                }
            },
            HangulComponent::Jong => {
                if str_eq(rules.base_jong_group_id.as_str(), gid) {
                    rules.base_jong_group_id = next;
                }
            },
        }
    }
    store.remove_group_glyphs(gid);
    remove_with_id(&mut rules.groups, gid);
    let n = rules.groups.len();
    if n == 0 {
        state.selected_group = 0;
        state.selected_member_index = None;
    } else {
        let found = match &sel {
            Some(x) => position_of(&rules.groups, x.as_str()),
            None => None,
        };
        match found {
            Some(j) => {
                state.selected_group = j;
            },
            None => {
                if state.selected_group >= n {
                    state.selected_group = n - 1;
                }
                state.selected_member_index = None;
            },
        }
    }
}

/// The name a copy takes: the original's name followed by ` (copy)`.
pub open spec fn group_copy_name(name: Seq<char>) -> Seq<char> {
    name + " (copy)"@
}

/// Copies group `gid` (the first with the id) under a new id, with ` (copy)` after its name,
/// at the end of the list, copies its glyphs to the new group and selects it; nothing
/// happens when no group has the id.
pub fn copy_group(rules: &mut RuleSystem, store: &mut GlyphStore, state: &mut ComponentsState, gid: &str)
    requires
        old(rules).next_group_seq < u64::MAX,
        old(store).wf(),
    ensures
        final(store).wf(),
        match id_position(old(rules).groups@, gid@) {
            None => *final(rules) == *old(rules) && final(store)@ == old(store)@ && *final(state) == *old(state),
            Some(i) => {
                let nid = seq_id("grp_"@, old(rules).next_group_seq);
                &&& *final(rules) == (RuleSystem {
                    groups: final(rules).groups,
                    next_group_seq: (old(rules).next_group_seq + 1) as u64,
                    ..*old(rules)
                })
                &&& final(rules).groups@.drop_last() == old(rules).groups@
                &&& final(rules).groups@.len() == old(rules).groups@.len() + 1
                &&& final(rules).groups@.last()@ == (GroupView {
                    id: nid,
                    name: group_copy_name(old(rules).groups@[i].name@),
                    ..old(rules).groups@[i]@
                })
                &&& final(store)@ == (if gid@ == nid {
                    old(store)@
                } else {
                    old(store)@.union_prefer_right(regrouped(old(store)@, gid@, nid))
                })
                &&& *final(state) == (ComponentsState {
                    selected_group: old(rules).groups@.len() as usize,
                    selected_member_index: None,
                    ..*old(state)
                })
            },
        },
{
    if let Some(i) = position_of(&rules.groups, gid) {
        let mut g2 = rules.groups[i].clone();
        let new_id = rules.new_group_id();
        g2.id = string_from(new_id.as_str());
        string_push_str(&mut g2.name, " (copy)");
        let ghost g0 = rules.groups@;
        rules.groups.push(g2);
        assert(rules.groups@.drop_last() =~= g0);
        store.clone_group_glyphs(gid, new_id.as_str());
        state.selected_group = rules.groups.len() - 1;
        state.selected_member_index = None;
    }
}

/// The members of a group after clicking jamo `c` in its editor: taken out when present,
/// put in when absent.
pub open spec fn toggled_member(m: Set<char>, c: char) -> Set<char> {
    if m.contains(c) {
        m.remove(c)
    } else {
        m.insert(c)
    }
}

/// Takes jamo `c` out of group `idx` when it is a member, puts it in otherwise; members
/// stay in increasing order.
pub fn toggle_member(rules: &mut RuleSystem, idx: usize, c: char)
    requires
        idx < old(rules).groups@.len(),
    ensures
        *final(rules) == (RuleSystem { groups: final(rules).groups, ..*old(rules) }),
        final(rules).groups@.len() == old(rules).groups@.len(),
        forall|j: int| 0 <= j < old(rules).groups@.len() && j != idx ==> #[trigger] final(rules).groups@[j] == old(rules).groups@[j],
        final(rules).groups@[idx as int] == (ComponentGroup {
            members: final(rules).groups@[idx as int].members,
            ..old(rules).groups@[idx as int]
        }),
        final(rules).groups@[idx as int].members@.to_set() == toggled_member(
            old(rules).groups@[idx as int].members@.to_set(),
            c,
        ),
        crate::charset::sorted_chars(old(rules).groups@[idx as int].members@) ==> crate::charset::sorted_chars(
            final(rules).groups@[idx as int].members@,
        ),
{
    let present = crate::charset::contains_char(&rules.groups[idx].members, c);
    let g = &mut rules.groups[idx];
    if present {
        crate::charset::remove_char(&mut g.members, c);
    } else {
        crate::charset::insert_char(&mut g.members, c);
    }
}

/// Makes every jamo the group's component allows (the archaic ones too when old Hangul is
/// on) a member of group `idx` ("select all"), or none ("deselect all").
pub fn set_all_members(rules: &mut RuleSystem, idx: usize, all: bool, old_hangul_enabled: bool)
    requires
        idx < old(rules).groups@.len(),
    ensures
        *final(rules) == (RuleSystem { groups: final(rules).groups, ..*old(rules) }),
        final(rules).groups@.len() == old(rules).groups@.len(),
        forall|j: int| 0 <= j < old(rules).groups@.len() && j != idx ==> #[trigger] final(rules).groups@[j] == old(rules).groups@[j],
        final(rules).groups@[idx as int] == (ComponentGroup {
            members: final(rules).groups@[idx as int].members,
            ..old(rules).groups@[idx as int]
        }),
        all ==> final(rules).groups@[idx as int].members@.to_set() == allowed_chars(
            old(rules).groups@[idx as int].target,
            old_hangul_enabled,
        ).to_set(),
        all ==> crate::charset::sorted_chars(final(rules).groups@[idx as int].members@),
        !all ==> final(rules).groups@[idx as int].members@ == Seq::<char>::empty(),
{
    let target = rules.groups[idx].target;
    let members = if all {
        let allowed = build_allowed_set(target, old_hangul_enabled);
        crate::charset::char_set_from(&allowed)
    } else {
        Vec::new()
    };
    let g = &mut rules.groups[idx];
    g.members = members;
}

} // verus!
