use vstd::prelude::*;

use crate::charset::clone_chars;
use crate::idlist::{id_position, position_of, Identified};
use crate::text::{string_from, string_push_str};
use crate::types::HangulComponent;

verus! {

/// A named set of jamo of one component that are drawn the same way.
#[derive(Debug)]
pub struct ComponentGroup {
    pub id: String,
    pub name: String,
    pub target: HangulComponent,
    /// Kept in increasing order without repeats.
    pub members: Vec<char>,
}

/// A group as a mathematical value.
pub struct GroupView {
    pub id: Seq<char>,
    pub name: Seq<char>,
    pub target: HangulComponent,
    pub members: Seq<char>,
}

impl View for ComponentGroup {
    type V = GroupView;

    open spec fn view(&self) -> GroupView {
        GroupView {
            id: self.id@,
            name: self.name@,
            target: self.target,
            members: self.members@,
        }
    }
}

impl Clone for ComponentGroup {
    fn clone(&self) -> (r: Self)
        ensures
            r@ == self@,
    {
        ComponentGroup {
            id: self.id.clone(),
            name: self.name.clone(),
            target: self.target,
            members: clone_chars(&self.members),
        }
    }
}

impl Identified for ComponentGroup {
    open spec fn key_id(&self) -> Seq<char> {
        self.id@
    }

    fn id_str(&self) -> (r: &str) {
        self.id.as_str()
    }
}

/// The text shown for a group id: the group's name, or a marker for a missing group.
pub open spec fn display_name(groups: Seq<ComponentGroup>, id: Seq<char>) -> Seq<char> {
    match id_position(groups, id) {
        Some(i) => groups[i].name@,
        None => "(missing) "@ + id,
    }
}

pub fn group_display_name(groups: &Vec<ComponentGroup>, id: &str) -> (r: String)
    ensures
        r@ == display_name(groups@, id@),
{
    match position_of(groups, id) {
        Some(i) => groups[i].name.clone(),
        None => {
            let mut s = string_from("(missing) ");
            string_push_str(&mut s, id);
            s
        },
    }
}

} // verus!
