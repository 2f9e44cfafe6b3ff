use vstd::prelude::*;
use vstd::std_specs::cmp::OrdSpec;

verus! {

/// Pixel coordinates are ordered the way `BTreeSet` expects (a total order that
/// agrees with equality), so the set operations behave as mathematical sets.
pub open spec fn pixel_order_lawful() -> bool {
    vstd::laws_cmp::obeys_cmp::<(i32, i32)>()
}

pub proof fn lemma_pixel_order_lawful()
    ensures
        pixel_order_lawful(),
{
    broadcast use vstd::laws_cmp::group_laws_cmp;

}

/// Pixels in increasing order: by `x`, then by `y`.
pub open spec fn ascending(s: Seq<(i32, i32)>) -> bool {
    forall|i: int, j: int|
        0 <= i < j < s.len() ==> #[trigger] s[i].0 < #[trigger] s[j].0 || (s[i].0 == s[j].0 && s[i].1 < s[j].1)
}

/// A sequence of pixels that a set's ordered walk yields is in increasing order.
pub proof fn lemma_walk_ascending(s: Seq<&(i32, i32)>)
    requires
        vstd::std_specs::btree::increasing_seq(s),
    ensures
        ascending(s.unref()),
{
    broadcast use vstd::laws_cmp::group_laws_cmp, vstd::std_specs::btree::axiom_increasing_seq_meaning;

    let u = s.unref();
    assert(vstd::laws_cmp::obeys_cmp::<&(i32, i32)>());
    vstd::std_specs::btree::axiom_increasing_seq_meaning(s);
    assert forall|i: int, j: int| 0 <= i < j < u.len() implies #[trigger] u[i].0 < #[trigger] u[j].0 || (u[i].0
        == u[j].0 && u[i].1 < u[j].1) by {
        assert(OrdSpec::cmp_spec(&s[i], &s[j]) is Less);
    }
}

/// Keeping some pixels of an increasing sequence keeps it increasing.
pub proof fn lemma_filter_ascending(s: Seq<(i32, i32)>, f: spec_fn((i32, i32)) -> bool)
    requires
        ascending(s),
    ensures
        ascending(s.filter(f)),
    decreases s.len(),
{
    broadcast use vstd::seq_lib::group_filter_ensures;

    reveal_with_fuel(Seq::<_>::filter, 1);
    if s.len() > 0 {
        let t = s.drop_last();
        assert(ascending(t)) by {
            assert forall|i: int, j: int| 0 <= i < j < t.len() implies #[trigger] t[i].0 < #[trigger] t[j].0 || (t[i].0
                == t[j].0 && t[i].1 < t[j].1) by {
                assert(t[i] == s[i] && t[j] == s[j]);
            }
        }
        lemma_filter_ascending(t, f);
        let r = t.filter(f);
        if f(s.last()) {
            let q = r.push(s.last());
            assert forall|i: int, j: int| 0 <= i < j < q.len() implies #[trigger] q[i].0 < #[trigger] q[j].0 || (q[i].0
                == q[j].0 && q[i].1 < q[j].1) by {
                if j == q.len() - 1 {
                    assert(q[i] == r[i]);
                    assert(r.contains(r[i]));
                    t.lemma_filter_contains_rev(f, r[i]);
                    assert(t.contains(r[i]));
                    let k = choose|k: int| 0 <= k < t.len() && t[k] == r[i];
                    assert(s[k] == t[k]);
                    assert(s[s.len() - 1] == s.last());
                } else {
                    assert(q[i] == r[i] && q[j] == r[j]);
                }
            }
        }
    }
}

} // verus!
