use vstd::prelude::*;

use crate::seqs::{first_index, lemma_first_index_is, lemma_first_index_none, lemma_first_index_props};
use crate::text::str_eq;

verus! {

/// Items that carry a string id by which lists of them are searched and edited.
pub trait Identified: Sized {
    spec fn key_id(&self) -> Seq<char>;

    fn id_str(&self) -> (r: &str)
        ensures
            r@ == self.key_id(),
    ;
}

/// The predicate "has id `id`".
pub open spec fn has_id<T: Identified>(id: Seq<char>) -> spec_fn(T) -> bool {
    |x: T| x.key_id() == id
}

/// The predicate "does not have id `id`".
pub open spec fn lacks_id<T: Identified>(id: Seq<char>) -> spec_fn(T) -> bool {
    |x: T| x.key_id() != id
}

/// Position of the first item with the given id.
pub open spec fn id_position<T: Identified>(s: Seq<T>, id: Seq<char>) -> Option<int> {
    first_index(s, has_id::<T>(id))
}

/// `s` with the neighbours at `i` and `i + 1` exchanged.
pub open spec fn swap_adjacent<T>(s: Seq<T>, i: int) -> Seq<T> {
    s.update(i, s[i + 1]).update(i + 1, s[i])
}

/// The list after moving the item with the given id one place towards the front
/// (unchanged when it is first or absent).
pub open spec fn moved_up<T: Identified>(s: Seq<T>, id: Seq<char>) -> Seq<T> {
    match id_position(s, id) {
        Some(i) => if i > 0 {
            swap_adjacent(s, i - 1)
        } else {
            s
        },
        None => s,
    }
}

/// The list after moving the item with the given id one place towards the back
/// (unchanged when it is last or absent).
pub open spec fn moved_down<T: Identified>(s: Seq<T>, id: Seq<char>) -> Seq<T> {
    match id_position(s, id) {
        Some(i) => if i + 1 < s.len() {
            swap_adjacent(s, i)
        } else {
            s
        },
        None => s,
    }
}

pub fn position_of<T: Identified>(v: &Vec<T>, id: &str) -> (r: Option<usize>)
    ensures
        match r {
            Some(i) => id_position(v@, id@) == Some(i as int),
            None => id_position(v@, id@) is None,
        },
{
    let mut i: usize = 0;
    while i < v.len()
        invariant
            i <= v@.len(),
            forall|j: int| 0 <= j < i ==> v@[j].key_id() != id@,
        decreases v@.len() - i,
    {
        if str_eq(v[i].id_str(), id) {
            proof {
                lemma_first_index_is(v@, has_id::<T>(id@), i as int);
            }
            return Some(i);
        }
        i = i + 1;
    }
    proof {
        lemma_first_index_none(v@, has_id::<T>(id@));
    }
    None
}

/// Removes every item with the given id, keeping the others in order.
pub fn remove_with_id<T: Identified>(v: &mut Vec<T>, id: &str)
    ensures
        final(v)@ == old(v)@.filter(lacks_id::<T>(id@)),
{
    let ghost s0 = v@;
    let mut out: Vec<T> = Vec::new();
    let total = v.len();
    let mut rest: Vec<T> = Vec::new();
    std::mem::swap(&mut rest, v);
    let mut i: usize = 0;
    while rest.len() > 0
        invariant
            i + rest@.len() == s0.len(),
            s0.len() == total,
            rest@ == s0.skip(i as int),
            out@ == s0.take(i as int).filter(lacks_id::<T>(id@)),
        decreases rest@.len(),
    {
        let x = rest.remove(0);
        proof {
            reveal_with_fuel(Seq::<_>::filter, 1);
            assert(x == s0[i as int]);
            assert(s0.take(i + 1).drop_last() =~= s0.take(i as int));
        }
        if !str_eq(x.id_str(), id) {
            out.push(x);
        }
        i = i + 1;
    }
    proof {
        assert(s0.take(i as int) =~= s0);
    }
    *v = out;
}

pub fn move_up_with_id<T: Identified>(v: &mut Vec<T>, id: &str)
    ensures
        final(v)@ == moved_up(old(v)@, id@),
{
    if let Some(idx) = position_of(v, id) {
        proof {
            lemma_first_index_props(v@, has_id::<T>(id@));
        }
        if idx > 0 {
            let ghost s0 = v@;
            let x = v.remove(idx);
            v.insert(idx - 1, x);
            assert(v@ =~= swap_adjacent(s0, idx - 1));
        }
    }
}

pub fn move_down_with_id<T: Identified>(v: &mut Vec<T>, id: &str)
    ensures
        final(v)@ == moved_down(old(v)@, id@),
{
    if let Some(idx) = position_of(v, id) {
        proof {
            lemma_first_index_props(v@, has_id::<T>(id@));
        }
        let n = v.len();
        if idx < n - 1 {
            let ghost s0 = v@;
            let x = v.remove(idx);
            v.insert(idx + 1, x);
            assert(v@ =~= swap_adjacent(s0, idx as int));
        }
    }
}


/// The first item with the given id.
pub fn find_by_id<'a, T: Identified>(v: &'a Vec<T>, id: &str) -> (r: Option<&'a T>)
    ensures
        match id_position(v@, id@) {
            Some(i) => r == Some(&v@[i]),
            None => r is None,
        },
{
    match position_of(v, id) {
        Some(i) => {
            proof {
                lemma_first_index_props(v@, has_id::<T>(id@));
            }
            Some(&v[i])
        },
        None => None,
    }
}

/// Mutable access to the first item with the given id.
pub fn find_mut_by_id<'a, T: Identified>(v: &'a mut Vec<T>, id: &str) -> (r: Option<&'a mut T>)
    ensures
        id_position(old(v)@, id@) is None ==> r is None && final(v)@ == old(v)@,
        id_position(old(v)@, id@) matches Some(i) ==> r is Some,
        r matches Some(x) ==> id_position(old(v)@, id@) matches Some(i) && *x == old(v)@[i]
            && final(v)@ == old(v)@.update(i, *final(x)),
{
    match position_of(v, id) {
        Some(i) => {
            proof {
                lemma_first_index_props(v@, has_id::<T>(id@));
            }
            Some(&mut v[i])
        },
        None => None,
    }
}

} // verus!

verus! {

/// The list with the element at `from` moved to position `to` (at most the end), or the
/// list unchanged when `from` is not a position of it.
pub open spec fn moved<T>(s: Seq<T>, from: int, to: int) -> Seq<T> {
    if from < 0 || from >= s.len() {
        s
    } else {
        let rest = s.remove(from);
        let at = if to < rest.len() {
            to
        } else {
            rest.len() as int
        };
        rest.insert(at, s[from])
    }
}

/// Moves the element at `from` to position `to`, or to the end when `to` lies beyond it;
/// nothing happens when `from` is not a position of the list.
pub fn move_vec<T>(v: &mut Vec<T>, from: usize, to: usize)
    ensures
        final(v)@ == moved(old(v)@, from as int, to as int),
{
    if v.len() == 0 || from >= v.len() {
        return;
    }
    let item = v.remove(from);
    let at = if to < v.len() {
        to
    } else {
        v.len()
    };
    v.insert(at, item);
}

/// Moving an element keeps every element, each as often: the result is a permutation.
pub proof fn lemma_moved_permutation<T>(s: Seq<T>, from: int, to: int)
    requires
        0 <= to,
    ensures
        moved(s, from, to).len() == s.len(),
        moved(s, from, to).to_multiset() == s.to_multiset(),
{
    broadcast use vstd::seq_lib::group_to_multiset_ensures;

    if 0 <= from < s.len() {
        let rest = s.remove(from);
        let at = if to < rest.len() {
            to
        } else {
            rest.len() as int
        };
        let x = s[from];
        assert(s =~= s.take(from) + s.skip(from + 1).insert(0, x));
        assert(rest =~= s.take(from) + s.skip(from + 1));
        assert(rest.insert(at, x) =~= rest.take(at) + seq![x] + rest.skip(at));
        assert(rest =~= rest.take(at) + rest.skip(at));
        vstd::seq_lib::lemma_multiset_commutative(rest.take(at), seq![x] + rest.skip(at));
        vstd::seq_lib::lemma_multiset_commutative(seq![x], rest.skip(at));
        vstd::seq_lib::lemma_multiset_commutative(rest.take(at), rest.skip(at));
        vstd::seq_lib::lemma_multiset_commutative(s.take(from), seq![x] + s.skip(from + 1));
        vstd::seq_lib::lemma_multiset_commutative(seq![x], s.skip(from + 1));
        vstd::seq_lib::lemma_multiset_commutative(s.take(from), s.skip(from + 1));
        assert(s.skip(from + 1).insert(0, x) =~= seq![x] + s.skip(from + 1));
        assert(rest.insert(at, x) =~= rest.take(at) + (seq![x] + rest.skip(at)));
    }
}

} // verus!
