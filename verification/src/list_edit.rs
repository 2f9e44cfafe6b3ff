use vstd::prelude::*;

use crate::compact::{lemma_text_lt_order, text_less, text_lt};
use crate::idlist::{id_position, move_vec, moved, position_of, Identified};
use crate::rules::opt_view;

verus! {

/// `s` is in order of `key`: no element's key is below that of an earlier one.
pub open spec fn ordered_by<T>(s: Seq<T>, key: spec_fn(T) -> Seq<char>) -> bool {
    forall|i: int, j: int| 0 <= i < j < s.len() ==> !text_lt(#[trigger] key(s[j]), #[trigger] key(s[i]))
}

/// The predicate "has key `k`".
pub open spec fn keyed<T>(key: spec_fn(T) -> Seq<char>, k: Seq<char>) -> spec_fn(T) -> bool {
    |x: T| key(x) == k
}

/// `r` is `s` sorted by `key`, elements of equal key keeping their order: `r` is in order,
/// and for every key it holds the elements of `s` with that key, in their order in `s`.
pub open spec fn stably_sorted<T>(s: Seq<T>, r: Seq<T>, key: spec_fn(T) -> Seq<char>) -> bool {
    &&& ordered_by(r, key)
    &&& forall|k: Seq<char>| #[trigger] r.filter(keyed(key, k)) == s.filter(keyed(key, k))
}

/// Adding an element at the end of a sequence adds it at the end of each filter it passes.
proof fn lemma_filter_push<T>(s: Seq<T>, x: T, f: spec_fn(T) -> bool)
    ensures
        s.push(x).filter(f) == (if f(x) {
            s.filter(f).push(x)
        } else {
            s.filter(f)
        }),
{
    reveal_with_fuel(Seq::<_>::filter, 1);
    assert(s.push(x).drop_last() =~= s);
}

/// Inserting `x` at `p`, after the keys not above its own and before those above it, keeps
/// the sequence in order and adds `x` to the end of its key's elements.
proof fn lemma_insert_in_order<T>(out: Seq<T>, p: int, x: T, prev: Seq<T>, key: spec_fn(T) -> Seq<char>)
    requires
        ordered_by(out, key),
        0 <= p <= out.len(),
        forall|j: int| 0 <= j < p ==> !text_lt(key(x), #[trigger] key(out[j])),
        forall|j: int| p <= j < out.len() ==> text_lt(key(x), #[trigger] key(out[j])),
        forall|k: Seq<char>| #[trigger] out.filter(keyed(key, k)) == prev.filter(keyed(key, k)),
    ensures
        ordered_by(out.insert(p, x), key),
        forall|k: Seq<char>| #[trigger] out.insert(p, x).filter(keyed(key, k)) == prev.push(x).filter(keyed(key, k)),
{
    broadcast use Seq::filter_distributes_over_add;

    let n = out.insert(p, x);
    assert forall|i: int, j: int| 0 <= i < j < n.len() implies !text_lt(#[trigger] key(n[j]), #[trigger] key(n[i])) by {
        if j < p {
            assert(n[i] == out[i] && n[j] == out[j]);
        } else if j == p {
            assert(n[i] == out[i]);
        } else if i == p {
            assert(n[j] == out[j - 1]);
            lemma_text_lt_order(key(x), key(out[j - 1]), key(x));
        } else if i < p {
            assert(n[i] == out[i] && n[j] == out[j - 1]);
        } else {
            assert(n[i] == out[i - 1] && n[j] == out[j - 1]);
        }
    }
    let a = out.take(p);
    let b = out.skip(p);
    assert(out =~= a + b);
    assert(n =~= a + seq![x] + b);
    assert forall|k: Seq<char>| #[trigger] n.filter(keyed(key, k)) == prev.push(x).filter(keyed(key, k)) by {
        let f = keyed(key, k);
        lemma_filter_push(prev, x, f);
        lemma_filter_push(a, x, f);
        assert(a + seq![x] =~= a.push(x));
        assert(n.filter(f) == (a + seq![x]).filter(f) + b.filter(f));
        assert(out.filter(f) == a.filter(f) + b.filter(f));
        if f(x) {
            assert forall|j: int| 0 <= j < b.len() implies !f(b[j]) by {
                assert(b[j] == out[p + j]);
                assert(text_lt(key(x), key(out[p + j])));
                lemma_text_lt_order(key(x), key(x), key(x));
            }
            b.lemma_all_neg_filter_empty(f);
            assert(b.filter(f) =~= Seq::<T>::empty());
            assert(n.filter(f) =~= a.filter(f).push(x));
            assert(out.filter(f) =~= a.filter(f));
        } else {
            assert(n.filter(f) =~= a.filter(f) + b.filter(f));
        }
    }
}

/// Sorts `items` by the keys `keys` (one per item, in the same order), keeping the order of
/// items with equal keys, as a stable sort by comparing the keys' text does.
pub(crate) fn sort_by_keys<T>(items: Vec<T>, keys: Vec<String>, Ghost(key): Ghost<spec_fn(T) -> Seq<char>>) -> (r: Vec<T>)
    requires
        items@.len() == keys@.len(),
        forall|i: int| 0 <= i < items@.len() ==> (#[trigger] keys@[i])@ == key(items@[i]),
    ensures
        stably_sorted(items@, r@, key),
{
    let ghost s = items@;
    let mut items = items;
    let mut keys = keys;
    let mut out: Vec<T> = Vec::new();
    let mut out_keys: Vec<String> = Vec::new();
    let ghost mut i: int = 0;
    proof {
        assert forall|k: Seq<char>| #[trigger] out@.filter(keyed(key, k)) == s.take(0).filter(keyed(key, k)) by {
            reveal_with_fuel(Seq::<_>::filter, 1);
            assert(s.take(0) =~= Seq::<T>::empty());
        }
    }
    while items.len() > 0
        invariant
            0 <= i <= s.len(),
            items@ == s.skip(i),
            keys@.len() == items@.len(),
            forall|j: int| 0 <= j < items@.len() ==> (#[trigger] keys@[j])@ == key(items@[j]),
            out_keys@.len() == out@.len(),
            forall|j: int| 0 <= j < out@.len() ==> (#[trigger] out_keys@[j])@ == key(out@[j]),
            ordered_by(out@, key),
            forall|k: Seq<char>| #[trigger] out@.filter(keyed(key, k)) == s.take(i).filter(keyed(key, k)),
        decreases items@.len(),
    {
        let ghost before = items@;
        let x = items.remove(0);
        let kx = keys.remove(0);
        assert(kx@ == key(x));
        assert(items@ =~= s.skip(i + 1));
        assert(s.take(i + 1) =~= s.take(i).push(x));
        let mut p: usize = 0;
        while p < out.len()
            invariant
                0 <= p <= out@.len(),
                out_keys@.len() == out@.len(),
                forall|j: int| 0 <= j < out@.len() ==> (#[trigger] out_keys@[j])@ == key(out@[j]),
                kx@ == key(x),
                forall|j: int| 0 <= j < p ==> !text_lt(key(x), #[trigger] key(out@[j])),
            ensures
                0 <= p <= out@.len(),
                forall|j: int| 0 <= j < p ==> !text_lt(key(x), #[trigger] key(out@[j])),
                p == out@.len() || text_lt(key(x), key(out@[p as int])),
            decreases out@.len() - p,
        {
            if text_less(kx.as_str(), out_keys[p].as_str()) {
                break;
            }
            p = p + 1;
        }
        proof {
            assert forall|j: int| p <= j < out@.len() implies text_lt(key(x), #[trigger] key(out@[j])) by {
                assert(text_lt(key(x), key(out@[p as int])));
                if j > p {
                    assert(!text_lt(key(out@[j]), key(out@[p as int])));
                    lemma_text_lt_order(key(x), key(out@[p as int]), key(out@[j]));
                    lemma_text_lt_order(key(out@[p as int]), key(out@[j]), key(out@[j]));
                    if key(out@[p as int]) == key(out@[j]) {
                    } else {
                        assert(text_lt(key(out@[p as int]), key(out@[j])));
                    }
                }
            }
            lemma_insert_in_order(out@, p as int, x, s.take(i), key);
        }
        out.insert(p, x);
        out_keys.insert(p, kx);
        proof {
            i = i + 1;
        }
    }
    proof {
        assert(s.take(i) =~= s);
    }
    out
}

/// Filtering by a predicate that `x` meets keeps every copy of `x`.
proof fn lemma_filter_count<T>(s: Seq<T>, f: spec_fn(T) -> bool, x: T)
    requires
        f(x),
    ensures
        s.filter(f).to_multiset().count(x) == s.to_multiset().count(x),
    decreases s.len(),
{
    broadcast use vstd::seq_lib::group_to_multiset_ensures;

    if s.len() > 0 {
        let t = s.drop_last();
        lemma_filter_count(t, f, x);
        lemma_filter_push(t, s.last(), f);
        assert(t.push(s.last()) =~= s);
    } else {
        reveal_with_fuel(Seq::<_>::filter, 1);
    }
}

/// A stable sort keeps every element, each as often: the result is a permutation.
pub proof fn lemma_stably_sorted_permutation<T>(s: Seq<T>, r: Seq<T>, key: spec_fn(T) -> Seq<char>)
    requires
        stably_sorted(s, r, key),
    ensures
        r.to_multiset() == s.to_multiset(),
{
    assert forall|x: T| r.to_multiset().count(x) == s.to_multiset().count(x) by {
        let f = keyed(key, key(x));
        lemma_filter_count(r, f, x);
        lemma_filter_count(s, f, x);
        assert(r.filter(f) == s.filter(f));
    }
    assert(r.to_multiset() =~= s.to_multiset());
}

/// How an item of a list is moved: one place up or down, or to the top or the bottom.
#[derive(Clone, Copy, PartialEq, Eq, Structural, Debug)]
pub enum Reorder {
    Up,
    Down,
    Top,
    Bottom,
}

/// Where the item at `idx` of a list of `len` items goes, or `None` when it stays.
pub open spec fn reorder_dest(len: int, idx: int, how: Reorder) -> Option<int> {
    match how {
        Reorder::Up => if idx > 0 {
            Some(idx - 1)
        } else {
            None
        },
        Reorder::Down => if idx + 1 < len {
            Some(idx + 1)
        } else {
            None
        },
        Reorder::Top => if idx < len {
            Some(0)
        } else {
            None
        },
        Reorder::Bottom => if idx < len && len > 0 {
            Some(len - 1)
        } else {
            None
        },
    }
}

/// The list after moving the item at `idx` as `how` says.
pub open spec fn reordered<T>(s: Seq<T>, idx: int, how: Reorder) -> Seq<T> {
    match reorder_dest(s.len() as int, idx, how) {
        Some(to) => moved(s, idx, to),
        None => s,
    }
}

/// Moves the item at `idx` as `how` says; tells whether it moved. Moving up an item past
/// the end is refused.
pub fn reorder<T>(v: &mut Vec<T>, idx: usize, how: Reorder) -> (r: bool)
    requires
        how == Reorder::Up && idx > 0 ==> idx < old(v)@.len(),
    ensures
        final(v)@ == reordered(old(v)@, idx as int, how),
        r == reorder_dest(old(v)@.len() as int, idx as int, how) is Some,
{
    let n = v.len();
    let to: Option<usize> = match how {
        Reorder::Up => if idx > 0 {
            Some(idx - 1)
        } else {
            None
        },
        Reorder::Down => if idx < n && idx + 1 < n {
            Some(idx + 1)
        } else {
            None
        },
        Reorder::Top => if idx < n {
            Some(0)
        } else {
            None
        },
        Reorder::Bottom => if idx < n && n > 0 {
            Some(n - 1)
        } else {
            None
        },
    };
    match to {
        Some(t) => {
            move_vec(v, idx, t);
            true
        },
        None => false,
    }
}

/// The id of the item at `i`, when there is one.
pub open spec fn id_at<T: Identified>(s: Seq<T>, i: int) -> Option<Seq<char>> {
    if 0 <= i < s.len() {
        Some(s[i].key_id())
    } else {
        None
    }
}

/// The position of the item with id `id`, or `fallback` when there is none.
pub open spec fn reselected<T: Identified>(s: Seq<T>, id: Option<Seq<char>>, fallback: int) -> int {
    match id {
        Some(x) => match id_position(s, x) {
            Some(j) => j,
            None => fallback,
        },
        None => fallback,
    }
}

/// The id of the item at `i`, when there is one.
pub fn selected_id<T: Identified>(v: &Vec<T>, i: usize) -> (r: Option<String>)
    ensures
        opt_view(r) == id_at(v@, i as int),
{
    if i < v.len() {
        Some(crate::text::string_from(v[i].id_str()))
    } else {
        None
    }
}

/// The position of the item with id `id`, or `fallback` when there is none.
pub fn reselect<T: Identified>(v: &Vec<T>, id: &Option<String>, fallback: usize) -> (r: usize)
    ensures
        r as int == reselected(v@, opt_view(*id), fallback as int),
{
    match id {
        Some(x) => match position_of(v, x.as_str()) {
            Some(j) => j,
            None => fallback,
        },
        None => fallback,
    }
}

} // verus!
