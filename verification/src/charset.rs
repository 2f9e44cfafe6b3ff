use vstd::prelude::*;

verus! {

/// A set of characters kept as a vector in strictly increasing code-point order,
/// which is the order a `BTreeSet<char>` would list them in.
pub open spec fn sorted_chars(s: Seq<char>) -> bool {
    forall|i: int, j: int| 0 <= i < j < s.len() ==> (s[i] as u32) < (s[j] as u32)
}

pub fn contains_char(v: &Vec<char>, c: char) -> (r: bool)
    ensures
        r == v@.contains(c),
{
    let mut i: usize = 0;
    while i < v.len()
        invariant
            i <= v@.len(),
            forall|j: int| 0 <= j < i ==> v@[j] != c,
        decreases v@.len() - i,
    {
        if v[i] == c {
            return true;
        }
        i = i + 1;
    }
    false
}

/// Distinct characters have distinct codes.
pub proof fn lemma_code_injective(a: char, b: char)
    ensures
        (a as u32 == b as u32) ==> a == b,
{
}

/// Adds `c` at its place in increasing order; nothing changes when it is present.
pub fn insert_char(v: &mut Vec<char>, c: char)
    ensures
        final(v)@.to_set() == old(v)@.to_set().insert(c),
        sorted_chars(old(v)@) ==> sorted_chars(final(v)@),
        old(v)@.contains(c) ==> final(v)@ == old(v)@,
        !old(v)@.contains(c) ==> final(v)@.len() == old(v)@.len() + 1,
{
    if contains_char(v, c) {
        proof {
            assert(v@.to_set().insert(c) =~= v@.to_set());
        }
        return;
    }
    let mut p: usize = 0;
    while p < v.len()
        invariant
            p <= v@.len(),
            forall|j: int| 0 <= j < p ==> (v@[j] as u32) < (c as u32),
        ensures
            p <= v@.len(),
            forall|j: int| 0 <= j < p ==> (v@[j] as u32) < (c as u32),
            p < v@.len() ==> (v@[p as int] as u32) >= (c as u32),
        decreases v@.len() - p,
    {
        if (v[p] as u32) >= (c as u32) {
            break;
        }
        p = p + 1;
    }
    let ghost s0 = v@;
    v.insert(p, c);
    proof {
        assert(v@ == s0.insert(p as int, c));
        assert(v@.to_set() =~= s0.to_set().insert(c)) by {
            assert forall|x: char| v@.to_set().contains(x) <==> s0.to_set().insert(c).contains(x) by {
                if v@.contains(x) {
                    let j = choose|j: int| 0 <= j < v@.len() && v@[j] == x;
                    if j < p {
                        assert(s0[j] == x);
                    } else if j > p {
                        assert(s0[j - 1] == x);
                    }
                }
                if s0.contains(x) {
                    let j = choose|j: int| 0 <= j < s0.len() && s0[j] == x;
                    if j < p {
                        assert(v@[j] == x);
                    } else {
                        assert(v@[j + 1] == x);
                    }
                }
                if x == c {
                    assert(v@[p as int] == c);
                }
            }
        }
        if sorted_chars(s0) {
            assert(p < s0.len() ==> (s0[p as int] as u32) > (c as u32)) by {
                if p < s0.len() {
                    assert(s0[p as int] != c);
                    lemma_code_injective(s0[p as int], c);
                }
            }
            assert forall|i: int, j: int| 0 <= i < j < v@.len() implies (v@[i] as u32) < (
            v@[j] as u32) by {
                if j < p {
                    assert(v@[i] == s0[i] && v@[j] == s0[j]);
                } else if j == p {
                    assert(v@[i] == s0[i]);
                } else if i < p {
                    assert(v@[i] == s0[i] && v@[j] == s0[j - 1]);
                    assert((s0[p as int] as u32) <= (s0[j - 1] as u32));
                } else if i == p {
                    assert(v@[j] == s0[j - 1]);
                    assert((s0[p as int] as u32) <= (s0[j - 1] as u32));
                } else {
                    assert(v@[i] == s0[i - 1] && v@[j] == s0[j - 1]);
                }
            }
        }
    }
}

/// The predicate "differs from `c`".
pub open spec fn other_than(c: char) -> spec_fn(char) -> bool {
    |x: char| x != c
}

/// Removes every occurrence of `c`.
pub fn remove_char(v: &mut Vec<char>, c: char)
    ensures
        final(v)@ == old(v)@.filter(other_than(c)),
        final(v)@.to_set() == old(v)@.to_set().remove(c),
        sorted_chars(old(v)@) ==> sorted_chars(final(v)@),
{
    broadcast use vstd::seq_lib::group_filter_ensures, Seq::lemma_filter_contains_rev;

    let ghost s0 = v@;
    let mut out: Vec<char> = Vec::new();
    let mut i: usize = 0;
    while i < v.len()
        invariant
            v@ == s0,
            i <= s0.len(),
            out@ == s0.take(i as int).filter(other_than(c)),
        decreases s0.len() - i,
    {
        proof {
            reveal_with_fuel(Seq::<_>::filter, 1);
            assert(s0.take(i + 1).drop_last() =~= s0.take(i as int));
        }
        if v[i] != c {
            out.push(v[i]);
        }
        i = i + 1;
    }
    proof {
        assert(s0.take(s0.len() as int) =~= s0);
        let f = other_than(c);
        assert(out@.to_set() =~= s0.to_set().remove(c)) by {
            assert forall|x: char| out@.contains(x) <==> s0.to_set().remove(c).contains(x) by {
                if out@.contains(x) {
                    assert(s0.filter(f).contains(x));
                    let j = choose|j: int| 0 <= j < out@.len() && out@[j] == x;
                    assert(f(out@[j]));
                }
                if s0.contains(x) && x != c {
                    let j = choose|j: int| 0 <= j < s0.len() && s0[j] == x;
                    assert(s0.filter(f).contains(s0[j]));
                }
            }
        }
        if sorted_chars(s0) {
            lemma_filter_sorted(s0, f);
        }
    }
    *v = out;
}

pub(crate) proof fn lemma_filter_sorted(s: Seq<char>, f: spec_fn(char) -> bool)
    requires
        sorted_chars(s),
    ensures
        sorted_chars(s.filter(f)),
    decreases s.len(),
{
    broadcast use vstd::seq_lib::group_filter_ensures, Seq::lemma_filter_contains_rev;

    reveal_with_fuel(Seq::<_>::filter, 1);
    if s.len() > 0 {
        let t = s.drop_last();
        assert(sorted_chars(t));
        lemma_filter_sorted(t, f);
        let r = t.filter(f);
        if f(s.last()) {
            let u = s.filter(f);
            assert(u == r.push(s.last()));
            assert forall|i: int, j: int| 0 <= i < j < u.len() implies (u[i] as u32) < (
            u[j] as u32) by {
                if j == r.len() {
                    assert(u[i] == r[i]);
                    assert(r.contains(r[i]));
                    assert(t.contains(r[i]));
                    let k = choose|k: int| 0 <= k < t.len() && t[k] == r[i];
                    assert(s[k] == r[i]);
                    assert(u[j] == s[s.len() - 1]);
                } else {
                    assert(u[i] == r[i] && u[j] == r[j]);
                }
            }
        }
    }
}

/// The characters of `chars` as a sorted set without repeats.
pub fn char_set_from(chars: &Vec<char>) -> (r: Vec<char>)
    ensures
        r@.to_set() == chars@.to_set(),
        sorted_chars(r@),
{
    let mut out: Vec<char> = Vec::new();
    let mut i: usize = 0;
    while i < chars.len()
        invariant
            i <= chars@.len(),
            out@.to_set() == chars@.take(i as int).to_set(),
            sorted_chars(out@),
        decreases chars@.len() - i,
    {
        insert_char(&mut out, chars[i]);
        proof {
            assert(chars@.take(i + 1) =~= chars@.take(i as int).push(chars@[i as int]));
            chars@.take(i as int).lemma_push_to_set_commute(chars@[i as int]);
        }
        i = i + 1;
    }
    proof {
        assert(chars@.take(chars@.len() as int) =~= chars@);
    }
    out
}

} // verus!

verus! {

/// A copy of a character vector.
pub fn clone_chars(v: &Vec<char>) -> (r: Vec<char>)
    ensures
        r@ == v@,
{
    let mut out: Vec<char> = Vec::new();
    let mut i: usize = 0;
    while i < v.len()
        invariant
            i <= v@.len(),
            out@ == v@.take(i as int),
        decreases v@.len() - i,
    {
        out.push(v[i]);
        proof {
            assert(v@.take(i + 1) =~= v@.take(i as int).push(v@[i as int]));
        }
        i = i + 1;
    }
    assert(v@.take(v@.len() as int) =~= v@);
    out
}

/// Two sequences in increasing order with the same elements are the same.
pub proof fn lemma_sorted_same_set(a: Seq<char>, b: Seq<char>)
    requires
        sorted_chars(a),
        sorted_chars(b),
        a.to_set() == b.to_set(),
    ensures
        a == b,
    decreases a.len(),
{
    if a.len() == 0 {
        if b.len() > 0 {
            assert(b.to_set().contains(b[0]));
        }
        assert(b.len() == 0);
        assert(a =~= b);
    } else {
        assert(a.to_set().contains(a[0]));
        assert(b.len() > 0) by {
            assert(b.to_set().contains(a[0]));
        }
        assert(a[0] == b[0]) by {
            assert(b.to_set().contains(a[0]));
            let j = choose|j: int| 0 <= j < b.len() && b[j] == a[0];
            assert(a.to_set().contains(b[0]));
            let i = choose|i: int| 0 <= i < a.len() && a[i] == b[0];
            if j > 0 {
                assert((b[0] as u32) < (b[j] as u32));
                if i > 0 {
                    assert((a[0] as u32) < (a[i] as u32));
                }
            }
            lemma_code_injective(a[0], b[0]);
        }
        let a1 = a.skip(1);
        let b1 = b.skip(1);
        assert forall|c: char| a1.to_set().contains(c) <==> b1.to_set().contains(c) by {
            if a1.to_set().contains(c) {
                let i = choose|i: int| 0 <= i < a1.len() && a1[i] == c;
                assert(a[i + 1] == c);
                assert(b.to_set().contains(c));
                let j = choose|j: int| 0 <= j < b.len() && b[j] == c;
                if j == 0 {
                    assert((a[0] as u32) < (a[i + 1] as u32));
                }
                assert(b1[j - 1] == c);
            }
            if b1.to_set().contains(c) {
                let j = choose|j: int| 0 <= j < b1.len() && b1[j] == c;
                assert(b[j + 1] == c);
                assert(a.to_set().contains(c));
                let i = choose|i: int| 0 <= i < a.len() && a[i] == c;
                if i == 0 {
                    assert((b[0] as u32) < (b[j + 1] as u32));
                }
                assert(a1[i - 1] == c);
            }
        }
        assert(a1.to_set() =~= b1.to_set());
        lemma_sorted_same_set(a1, b1);
        assert(a =~= seq![a[0]] + a1);
        assert(b =~= seq![b[0]] + b1);
    }
}

/// The characters of `s` in increasing order.
pub open spec fn sorted_of(s: Set<char>) -> Seq<char> {
    choose|q: Seq<char>| sorted_chars(q) && q.to_set() == s
}

/// A sequence in increasing order is the increasing order of its characters.
pub proof fn lemma_sorted_of(q: Seq<char>)
    requires
        sorted_chars(q),
    ensures
        sorted_of(q.to_set()) == q,
{
    let p = sorted_of(q.to_set());
    assert(sorted_chars(p) && p.to_set() == q.to_set());
    lemma_sorted_same_set(p, q);
}

} // verus!
