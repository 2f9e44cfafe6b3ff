use std::collections::BTreeSet;
use vstd::prelude::*;

use crate::order::{lemma_pixel_order_lawful, pixel_order_lawful};
use crate::seqs::{first_index, lemma_first_index_is, lemma_first_index_none, lemma_first_index_props};
use crate::text::str_eq;
use crate::types::HangulComponent;

verus! {

broadcast use vstd::std_specs::btree::group_btree_axioms;

/// A glyph key as a mathematical value: component, jamo and group id.
pub type KeyView = (HangulComponent, char, Seq<char>);

/// Identifies one drawable glyph: a jamo in a given position, drawn for a given group.
#[derive(Debug, PartialEq, Eq, PartialOrd, Ord, Hash)]
pub struct GlyphKey {
    pub kind: HangulComponent,
    pub jamo: char,
    pub group_id: String,
}

impl View for GlyphKey {
    type V = KeyView;

    open spec fn view(&self) -> KeyView {
        (self.kind, self.jamo, self.group_id@)
    }
}

impl Clone for GlyphKey {
    fn clone(&self) -> (r: Self)
        ensures
            r@ == self@,
    {
        GlyphKey { kind: self.kind, jamo: self.jamo, group_id: self.group_id.clone() }
    }
}

impl GlyphKey {
    pub fn new(kind: HangulComponent, jamo: char, group_id: &str) -> (r: Self)
        ensures
            r@ == (kind, jamo, group_id@),
    {
        GlyphKey { kind, jamo, group_id: String::from_str(group_id) }
    }

    /// Do the two keys name the same glyph?
    pub fn same_as(&self, other: &GlyphKey) -> (r: bool)
        ensures
            r == (self@ == other@),
    {
        self.kind == other.kind && self.jamo == other.jamo && str_eq(
            self.group_id.as_str(),
            other.group_id.as_str(),
        )
    }
}

/// A bitmap glyph: the set of lit pixel coordinates.
#[derive(Debug)]
pub struct PixelGlyph {
    pub pixels: BTreeSet<(i32, i32)>,
}

impl View for PixelGlyph {
    type V = Set<(i32, i32)>;

    open spec fn view(&self) -> Set<(i32, i32)> {
        self.pixels@
    }
}

impl Default for PixelGlyph {
    fn default() -> (r: Self)
        ensures
            r@ == Set::<(i32, i32)>::empty(),
    {
        PixelGlyph { pixels: BTreeSet::new() }
    }
}

impl Clone for PixelGlyph {
    fn clone(&self) -> (r: Self)
        ensures
            r@ == self@,
    {
        PixelGlyph { pixels: self.pixels.clone() }
    }
}

/// The pixel moved by (`dx`, `dy`).
pub open spec fn shifted(p: (i32, i32), dx: i32, dy: i32) -> (i32, i32) {
    ((p.0 + dx) as i32, (p.1 + dy) as i32)
}

/// Every pixel of `s` stays within `i32` when moved by (`dx`, `dy`).
pub open spec fn can_shift(s: Set<(i32, i32)>, dx: i32, dy: i32) -> bool {
    forall|p: (i32, i32)|
        s.contains(p) ==> i32::MIN <= p.0 + dx <= i32::MAX && i32::MIN <= p.1 + dy <= i32::MAX
}

impl PixelGlyph {
    /// The lit pixels, each once, in the set's iteration order.
    pub fn pixel_list(&self) -> (out: Vec<(i32, i32)>)
        ensures
            out@.to_set() == self@,
            out@.no_duplicates(),
            crate::order::ascending(out@),
    {
        broadcast use vstd::std_specs::btree::group_btree_axioms;

        let mut out: Vec<(i32, i32)> = Vec::new();
        proof { lemma_pixel_order_lawful(); }
        for p in it: self.pixels.iter()
            invariant
                vstd::std_specs::btree::increasing_seq(it.seq()),
                crate::order::ascending(out@),
                it.seq().unref().to_set() == self.pixels@,
                it.seq().unref().no_duplicates(),
                out@.len() == it.index(),
                forall|k: int| 0 <= k < it.index() ==> out@[k] == *it.seq()[k],
                it.index() == it.seq().len() ==> out@ == it.seq().unref(),
        {
            proof {
                crate::order::lemma_walk_ascending(it.seq());
            }
            out.push(*p);
            proof {
                let u = it.seq().unref();
                assert forall|a: int, b: int| 0 <= a < b < out@.len() implies #[trigger] out@[a].0
                    < #[trigger] out@[b].0 || (out@[a].0 == out@[b].0 && out@[a].1 < out@[b].1) by {
                    assert(out@[a] == u[a] && out@[b] == u[b]);
                }
            }
        }
        out
    }

    pub fn has(&self, x: i32, y: i32) -> (r: bool)
        ensures
            r == self@.contains((x, y)),
    {
        proof { lemma_pixel_order_lawful(); }
        self.pixels.contains(&(x, y))
    }

    pub fn set(&mut self, x: i32, y: i32)
        ensures
            final(self)@ == old(self)@.insert((x, y)),
    {
        proof { lemma_pixel_order_lawful(); }
        self.pixels.insert((x, y));
    }

    pub fn clear(&mut self, x: i32, y: i32)
        ensures
            final(self)@ == old(self)@.remove((x, y)),
    {
        proof { lemma_pixel_order_lawful(); }
        self.pixels.remove(&(x, y));
    }

    /// Moves every pixel by (`dx`, `dy`); a zero move leaves the glyph as it is.
    pub fn shift(&mut self, dx: i32, dy: i32)
        requires
            can_shift(old(self)@, dx, dy),
        ensures
            final(self)@ == old(self)@.map(|p: (i32, i32)| shifted(p, dx, dy)),
    {
        if dx == 0 && dy == 0 {
            assert(self@.map(|p: (i32, i32)| shifted(p, dx, dy)) =~= self@);
            return;
        }
        let list = self.pixel_list();
        let ghost start = self@;
        let mut moved: BTreeSet<(i32, i32)> = BTreeSet::new();
        proof { lemma_pixel_order_lawful(); }
        let mut i: usize = 0;
        while i < list.len()
            invariant
                pixel_order_lawful(),
                list@.to_set() == start,
                can_shift(start, dx, dy),
                i <= list@.len(),
                moved@ == list@.take(i as int).to_set().map(|p: (i32, i32)| shifted(p, dx, dy)),
            decreases list@.len() - i,
        {
            let p = list[i];
            assert(list@.to_set().contains(p));
            moved.insert((p.0 + dx, p.1 + dy));
            proof {
                let f = |p: (i32, i32)| shifted(p, dx, dy);
                let prev = list@.take(i as int).to_set();
                assert(list@.take(i + 1) =~= list@.take(i as int).push(p));
                list@.take(i as int).lemma_push_to_set_commute(p);
                prev.lemma_set_map_insert_commute(p, f);
            }
            i = i + 1;
        }
        assert(list@.take(list@.len() as int) =~= list@);
        self.pixels = moved;
    }
}

} // verus!

verus! {

/// One stored glyph: its key and its pixels.
pub type GlyphEntry = (GlyphKey, PixelGlyph);

/// No two entries share a key.
pub open spec fn keys_distinct(s: Seq<GlyphEntry>) -> bool {
    forall|i: int, j: int| 0 <= i < s.len() && 0 <= j < s.len() && i != j ==> s[i].0@ != s[j].0@
}

/// Some entry of `s` has key `k`.
pub open spec fn has_key(s: Seq<GlyphEntry>, k: KeyView) -> bool {
    exists|i: int| 0 <= i < s.len() && s[i].0@ == k
}

/// The pixels stored under `k` (meaningful when `has_key(s, k)`).
pub open spec fn value_at(s: Seq<GlyphEntry>, k: KeyView) -> Set<(i32, i32)> {
    s[choose|i: int| 0 <= i < s.len() && s[i].0@ == k].1@
}

/// The map from keys to pixels that a sequence of entries stands for.
pub open spec fn entries_map(s: Seq<GlyphEntry>) -> Map<KeyView, Set<(i32, i32)>> {
    Map::new(|k: KeyView| has_key(s, k), |k: KeyView| value_at(s, k))
}

/// The entries of group `from` re-keyed to group `to`.
pub open spec fn regrouped(m: Map<KeyView, Set<(i32, i32)>>, from: Seq<char>, to: Seq<char>) -> Map<
    KeyView,
    Set<(i32, i32)>,
> {
    Map::new(
        |k: KeyView| k.2 == to && m.contains_key((k.0, k.1, from)),
        |k: KeyView| m[(k.0, k.1, from)],
    )
}

/// The entries of `s` whose flag in `m` is set, in order.
pub open spec fn masked(s: Seq<GlyphEntry>, m: Seq<bool>) -> Seq<GlyphEntry>
    decreases s.len(),
{
    if s.len() == 0 {
        s
    } else {
        let rest = masked(s.drop_last(), m);
        if m[s.len() - 1] {
            rest.push(s.last())
        } else {
            rest
        }
    }
}

/// The glyph store: one entry per key.
#[derive(Debug)]
pub struct GlyphStore {
    pub glyphs: Vec<GlyphEntry>,
}

impl View for GlyphStore {
    type V = Map<KeyView, Set<(i32, i32)>>;

    open spec fn view(&self) -> Map<KeyView, Set<(i32, i32)>> {
        entries_map(self.glyphs@)
    }
}

impl Default for GlyphStore {
    fn default() -> (r: Self)
        ensures
            r.wf(),
            r@ == Map::<KeyView, Set<(i32, i32)>>::empty(),
    {
        let r = GlyphStore { glyphs: Vec::new() };
        assert(r@ =~= Map::<KeyView, Set<(i32, i32)>>::empty());
        r
    }
}

/// In a store with distinct keys, the entry at `i` is what the map holds for its key.
pub proof fn lemma_entry_in_view(s: Seq<GlyphEntry>, i: int)
    requires
        keys_distinct(s),
        0 <= i < s.len(),
    ensures
        has_key(s, s[i].0@),
        value_at(s, s[i].0@) == s[i].1@,
{
    let j = choose|j: int| 0 <= j < s.len() && s[j].0@ == s[i].0@;
    assert(j == i);
}

/// Membership and distinctness of a masked sequence.
pub proof fn lemma_masked(s: Seq<GlyphEntry>, m: Seq<bool>)
    requires
        s.len() <= m.len(),
    ensures
        forall|x: GlyphEntry|
            #[trigger] masked(s, m).contains(x) ==> exists|i: int|
                0 <= i < s.len() && m[i] && s[i] == x,
        forall|i: int| 0 <= i < s.len() && m[i] ==> masked(s, m).contains(#[trigger] s[i]),
        keys_distinct(s) ==> keys_distinct(masked(s, m)),
    decreases s.len(),
{
    if s.len() > 0 {
        let t = s.drop_last();
        lemma_masked(t, m);
        let r = masked(t, m);
        let last = s.last();
        assert forall|x: GlyphEntry| #[trigger] masked(s, m).contains(x) implies exists|i: int|
            0 <= i < s.len() && m[i] && s[i] == x by {
            if r.contains(x) {
                let i = choose|i: int| 0 <= i < t.len() && m[i] && t[i] == x;
                assert(s[i] == x);
            } else {
                assert(m[s.len() - 1] && masked(s, m) == r.push(last));
                let j = choose|j: int| 0 <= j < masked(s, m).len() && masked(s, m)[j] == x;
                assert(j == r.len());
                assert(s[s.len() - 1] == x);
            }
        }
        assert forall|i: int| 0 <= i < s.len() && m[i] implies masked(s, m).contains(#[trigger] s[i]) by {
            if i < s.len() - 1 {
                assert(t[i] == s[i]);
                assert(r.contains(t[i]));
                let j = choose|j: int| 0 <= j < r.len() && r[j] == t[i];
                assert(masked(s, m)[j] == s[i]);
            } else {
                assert(masked(s, m)[r.len() as int] == s[i]);
            }
        }
        if keys_distinct(s) {
            assert(keys_distinct(t));
            if m[s.len() - 1] {
                let ms = masked(s, m);
                assert forall|a: int, b: int|
                    0 <= a < ms.len() && 0 <= b < ms.len() && a != b implies ms[a].0@ != ms[b].0@ by {
                    if a < r.len() && b < r.len() {
                        assert(ms[a] == r[a] && ms[b] == r[b]);
                    } else if a < r.len() {
                        assert(r.contains(r[a]));
                        let i = choose|i: int| 0 <= i < t.len() && m[i] && t[i] == r[a];
                        assert(ms[a] == s[i]);
                        assert(ms[b] == s[s.len() - 1]);
                    } else {
                        assert(r.contains(r[b]));
                        let i = choose|i: int| 0 <= i < t.len() && m[i] && t[i] == r[b];
                        assert(ms[b] == s[i]);
                        assert(ms[a] == s[s.len() - 1]);
                    }
                }
            }
        }
    }
}

/// Replacing the value of an entry keeps the keys and updates the map at that key.
pub proof fn lemma_update_value(s: Seq<GlyphEntry>, i: int, e: GlyphEntry)
    requires
        keys_distinct(s),
        0 <= i < s.len(),
        e.0@ == s[i].0@,
    ensures
        keys_distinct(s.update(i, e)),
        entries_map(s.update(i, e)) == entries_map(s).insert(s[i].0@, e.1@),
{
    let t = s.update(i, e);
    assert(keys_distinct(t));
    let m1 = entries_map(t);
    let m0 = entries_map(s);
    assert forall|k: KeyView| m1.contains_key(k) <==> m0.insert(s[i].0@, e.1@).contains_key(k) by {
        if has_key(t, k) {
            let j = choose|j: int| 0 <= j < t.len() && t[j].0@ == k;
            assert(s[j].0@ == k);
        }
        if has_key(s, k) {
            let j = choose|j: int| 0 <= j < s.len() && s[j].0@ == k;
            assert(t[j].0@ == k);
        }
        if k == s[i].0@ {
            assert(t[i].0@ == k);
        }
    }
    assert forall|k: KeyView| m1.contains_key(k) implies m1[k] == m0.insert(s[i].0@, e.1@)[k] by {
        let j = choose|j: int| 0 <= j < t.len() && t[j].0@ == k;
        lemma_entry_in_view(t, j);
        if j != i {
            assert(s[j].0@ == k);
            lemma_entry_in_view(s, j);
        }
    }
    assert(m1 =~= m0.insert(s[i].0@, e.1@));
}

/// Appending an entry with a new key extends the map by that key.
pub proof fn lemma_push_entry(s: Seq<GlyphEntry>, e: GlyphEntry)
    requires
        keys_distinct(s),
        !has_key(s, e.0@),
    ensures
        keys_distinct(s.push(e)),
        entries_map(s.push(e)) == entries_map(s).insert(e.0@, e.1@),
{
    let t = s.push(e);
    assert forall|a: int, b: int| 0 <= a < t.len() && 0 <= b < t.len() && a != b implies t[a].0@
        != t[b].0@ by {
        if a < s.len() && b < s.len() {
            assert(t[a] == s[a] && t[b] == s[b]);
        } else if a < s.len() {
            assert(t[a] == s[a]);
        } else {
            assert(t[b] == s[b]);
        }
    }
    let m1 = entries_map(t);
    let m0 = entries_map(s).insert(e.0@, e.1@);
    assert forall|k: KeyView| m1.contains_key(k) <==> m0.contains_key(k) by {
        if has_key(t, k) {
            let j = choose|j: int| 0 <= j < t.len() && t[j].0@ == k;
            if j < s.len() {
                assert(s[j].0@ == k);
            }
        }
        if has_key(s, k) {
            let j = choose|j: int| 0 <= j < s.len() && s[j].0@ == k;
            assert(t[j].0@ == k);
        }
        assert(t[s.len() as int].0@ == e.0@);
    }
    assert forall|k: KeyView| m1.contains_key(k) implies m1[k] == m0[k] by {
        let j = choose|j: int| 0 <= j < t.len() && t[j].0@ == k;
        lemma_entry_in_view(t, j);
        if j < s.len() {
            assert(s[j] == t[j]);
            lemma_entry_in_view(s, j);
        }
    }
    assert(m1 =~= m0);
}

/// The map of a masked sequence keeps exactly the keys whose flag is set.
pub proof fn lemma_masked_view(s: Seq<GlyphEntry>, m: Seq<bool>)
    requires
        keys_distinct(s),
        s.len() <= m.len(),
    ensures
        forall|k: KeyView|
            entries_map(masked(s, m)).contains_key(k) <==> exists|i: int|
                0 <= i < s.len() && m[i] && #[trigger] s[i].0@ == k,
        forall|k: KeyView|
            #[trigger] entries_map(masked(s, m)).contains_key(k) ==> entries_map(masked(s, m))[k]
                == entries_map(s)[k],
{
    lemma_masked(s, m);
    let t = masked(s, m);
    assert forall|k: KeyView| entries_map(t).contains_key(k) <==> exists|i: int|
        0 <= i < s.len() && m[i] && #[trigger] s[i].0@ == k by {
        if has_key(t, k) {
            let j = choose|j: int| 0 <= j < t.len() && t[j].0@ == k;
            assert(t.contains(t[j]));
            let i = choose|i: int| 0 <= i < s.len() && m[i] && s[i] == t[j];
            assert(s[i].0@ == k);
        }
        if exists|i: int| 0 <= i < s.len() && m[i] && #[trigger] s[i].0@ == k {
            let i = choose|i: int| 0 <= i < s.len() && m[i] && #[trigger] s[i].0@ == k;
            assert(t.contains(s[i]));
            let j = choose|j: int| 0 <= j < t.len() && t[j] == s[i];
            assert(t[j].0@ == k);
        }
    }
    assert forall|k: KeyView| #[trigger] entries_map(t).contains_key(k) implies entries_map(t)[k]
        == entries_map(s)[k] by {
        let j = choose|j: int| 0 <= j < t.len() && t[j].0@ == k;
        lemma_entry_in_view(t, j);
        assert(t.contains(t[j]));
        let i = choose|i: int| 0 <= i < s.len() && m[i] && s[i] == t[j];
        lemma_entry_in_view(s, i);
    }
}

impl GlyphStore {
    /// Keys are unique, so the vector is a faithful map.
    pub open spec fn wf(&self) -> bool {
        keys_distinct(self.glyphs@)
    }

    /// Position of the entry with the given key.
    pub fn find(&self, key: &GlyphKey) -> (r: Option<usize>)
        ensures
            match r {
                Some(i) => i < self.glyphs@.len() && self.glyphs@[i as int].0@ == key@,
                None => !has_key(self.glyphs@, key@),
            },
    {
        let mut i: usize = 0;
        while i < self.glyphs.len()
            invariant
                i <= self.glyphs@.len(),
                forall|j: int| 0 <= j < i ==> self.glyphs@[j].0@ != key@,
            decreases self.glyphs@.len() - i,
        {
            if self.glyphs[i].0.same_as(key) {
                return Some(i);
            }
            i = i + 1;
        }
        None
    }

    pub fn get(&self, key: &GlyphKey) -> (r: Option<&PixelGlyph>)
        requires
            self.wf(),
        ensures
            r is Some <==> self@.contains_key(key@),
            r matches Some(g) ==> g@ == self@[key@],
    {
        match self.find(key) {
            Some(i) => {
                proof {
                    lemma_entry_in_view(self.glyphs@, i as int);
                }
                Some(&self.glyphs[i].1)
            },
            None => None,
        }
    }

    pub fn get_mut(&mut self, key: &GlyphKey) -> (r: Option<&mut PixelGlyph>)
        requires
            old(self).wf(),
        ensures
            r is Some <==> old(self)@.contains_key(key@),
            r is None ==> *final(self) == *old(self),
            r matches Some(g) ==> {
                &&& g@ == old(self)@[key@]
                &&& final(self).wf()
                &&& final(self)@ == old(self)@.insert(key@, final(g)@)
            },
    {
        match self.find(key) {
            Some(i) => {
                proof {
                    lemma_entry_in_view(self.glyphs@, i as int);
                    let s0 = self.glyphs@;
                    assert forall|v: PixelGlyph| #![trigger s0.update(i as int, (s0[i as int].0, v))]
                        keys_distinct(s0.update(i as int, (s0[i as int].0, v))) && entries_map(
                            s0.update(i as int, (s0[i as int].0, v)),
                        ) == entries_map(s0).insert(key@, v@) by {
                        lemma_update_value(s0, i as int, (s0[i as int].0, v));
                    }
                }
                let e = &mut self.glyphs[i];
                Some(&mut e.1)
            },
            None => None,
        }
    }

    pub fn has(&self, key: &GlyphKey) -> (r: bool)
        ensures
            r == self@.contains_key(key@),
    {
        self.find(key).is_some()
    }

    /// Stores `glyph` under `key`, replacing what was there.
    pub fn insert_glyph(&mut self, key: GlyphKey, glyph: PixelGlyph)
        requires
            old(self).wf(),
        ensures
            final(self).wf(),
            final(self)@ == old(self)@.insert(key@, glyph@),
    {
        match self.find(&key) {
            Some(i) => {
                proof {
                    lemma_update_value(self.glyphs@, i as int, (key, glyph));
                }
                self.glyphs.set(i, (key, glyph));
            },
            None => {
                proof {
                    lemma_push_entry(self.glyphs@, (key, glyph));
                }
                self.glyphs.push((key, glyph));
            },
        }
    }

    /// Makes sure a glyph exists under `key`; a new one starts empty.
    pub fn ensure_glyph(&mut self, key: GlyphKey)
        requires
            old(self).wf(),
        ensures
            final(self).wf(),
            final(self)@ == if old(self)@.contains_key(key@) {
                old(self)@
            } else {
                old(self)@.insert(key@, Set::empty())
            },
    {
        if !self.has(&key) {
            let g = PixelGlyph::default();
            proof {
                lemma_push_entry(self.glyphs@, (key, g));
            }
            self.glyphs.push((key, g));
        }
    }

    /// Keeps the entries whose flag is set, in order.
    pub(crate) fn retain_masked(&mut self, mask: &Vec<bool>)
        requires
            old(self).wf(),
            mask@.len() == old(self).glyphs@.len(),
        ensures
            final(self).wf(),
            final(self).glyphs@ == masked(old(self).glyphs@, mask@),
    {
        let mut out: Vec<GlyphEntry> = Vec::new();
        let ghost s0 = self.glyphs@;
        let mut old_glyphs: Vec<GlyphEntry> = Vec::new();
        std::mem::swap(&mut old_glyphs, &mut self.glyphs);
        let mut rest = old_glyphs;
        let total = rest.len();
        let mut i: usize = 0;
        while rest.len() > 0
            invariant
                i + rest@.len() == s0.len(),
                s0.len() == total,
                mask@.len() == s0.len(),
                rest@ == s0.skip(i as int),
                out@ == masked(s0.take(i as int), mask@),
            decreases rest@.len(),
        {
            let e = rest.remove(0);
            proof {
                assert(e == s0[i as int]);
                assert(s0.take(i + 1).drop_last() =~= s0.take(i as int));
            }
            if mask[i] {
                out.push(e);
            }
            i = i + 1;
        }
        proof {
            assert(s0.take(i as int) =~= s0);
            lemma_masked(s0, mask@);
        }
        self.glyphs = out;
    }

    /// Removes every glyph of the group.
    pub fn remove_group_glyphs(&mut self, group_id: &str)
        requires
            old(self).wf(),
        ensures
            final(self).wf(),
            forall|k: KeyView|
                #[trigger] final(self)@.contains_key(k) <==> old(self)@.contains_key(k) && k.2
                    != group_id@,
            forall|k: KeyView| #[trigger] final(self)@.contains_key(k) ==> final(self)@[k] == old(self)@[k],
    {
        let mut mask: Vec<bool> = Vec::new();
        let mut i: usize = 0;
        while i < self.glyphs.len()
            invariant
                i <= self.glyphs@.len(),
                mask@.len() == i,
                forall|j: int| 0 <= j < i ==> mask@[j] == (self.glyphs@[j].0@.2 != group_id@),
            decreases self.glyphs@.len() - i,
        {
            let keep = !str_eq(self.glyphs[i].0.group_id.as_str(), group_id);
            mask.push(keep);
            i = i + 1;
        }
        let ghost s0 = self.glyphs@;
        self.retain_masked(&mask);
        proof {
            lemma_masked_view(s0, mask@);
            assert forall|k: KeyView| #[trigger] self@.contains_key(k) <==> entries_map(s0).contains_key(k) && k.2 != group_id@ by {
                if entries_map(s0).contains_key(k) {
                    let j = choose|j: int| 0 <= j < s0.len() && s0[j].0@ == k;
                    assert(mask@[j] == (k.2 != group_id@));
                }
            }
        }
    }

    /// Copies every glyph of group `from_gid` into group `to_gid` (same component and
    /// jamo), replacing glyphs already there; nothing happens when the ids are equal.
    pub fn clone_group_glyphs(&mut self, from_gid: &str, to_gid: &str)
        requires
            old(self).wf(),
        ensures
            final(self).wf(),
            final(self)@ == if from_gid@ == to_gid@ {
                old(self)@
            } else {
                old(self)@.union_prefer_right(regrouped(old(self)@, from_gid@, to_gid@))
            },
    {
        if str_eq(from_gid, to_gid) {
            return;
        }
        let ghost s0 = self.glyphs@;
        let mut clones: Vec<GlyphEntry> = Vec::new();
        let mut i: usize = 0;
        while i < self.glyphs.len()
            invariant
                self.glyphs@ == s0,
                keys_distinct(s0),
                from_gid@ != to_gid@,
                i <= s0.len(),
                keys_distinct(clones@),
                entries_map(clones@) == regrouped(entries_map(s0.take(i as int)), from_gid@, to_gid@),
            decreases s0.len() - i,
        {
            let key = &self.glyphs[i].0;
            proof {
                assert(s0.take(i + 1) =~= s0.take(i as int).push(s0[i as int]));
                assert(keys_distinct(s0.take(i as int)));
                if has_key(s0.take(i as int), s0[i as int].0@) {
                    let j = choose|j: int| 0 <= j < i && s0.take(i as int)[j].0@ == s0[i as int].0@;
                    assert(s0[j].0@ == s0[i as int].0@);
                }
                lemma_push_entry(s0.take(i as int), s0[i as int]);
            }
            if str_eq(key.group_id.as_str(), from_gid) {
                let nk = GlyphKey::new(key.kind, key.jamo, to_gid);
                let g = self.glyphs[i].1.clone();
                proof {
                    let prev = entries_map(s0.take(i as int));
                    if has_key(clones@, nk@) {
                        let j = choose|j: int| 0 <= j < clones@.len() && clones@[j].0@ == nk@;
                        assert(entries_map(clones@).contains_key(nk@));
                        assert(prev.contains_key((nk@.0, nk@.1, from_gid@)));
                        assert(false);
                    }
                    lemma_push_entry(clones@, (nk, g));
                    assert(entries_map(clones@.push((nk, g))) =~= regrouped(
                        prev.insert(s0[i as int].0@, s0[i as int].1@),
                        from_gid@,
                        to_gid@,
                    ));
                }
                clones.push((nk, g));
            } else {
                proof {
                    let prev = entries_map(s0.take(i as int));
                    assert(regrouped(prev, from_gid@, to_gid@) =~= regrouped(
                        prev.insert(s0[i as int].0@, s0[i as int].1@),
                        from_gid@,
                        to_gid@,
                    ));
                }
            }
            i = i + 1;
        }
        proof {
            assert(s0.take(s0.len() as int) =~= s0);
        }
        let ghost m0 = self@;
        let mut j: usize = 0;
        while j < clones.len()
            invariant
                self.wf(),
                keys_distinct(clones@),
                j <= clones@.len(),
                self@ == m0.union_prefer_right(entries_map(clones@.take(j as int))),
            decreases clones@.len() - j,
        {
            let k = clones[j].0.clone();
            let g = clones[j].1.clone();
            proof {
                assert(clones@.take(j + 1) =~= clones@.take(j as int).push(clones@[j as int]));
                assert(keys_distinct(clones@.take(j as int)));
                if has_key(clones@.take(j as int), clones@[j as int].0@) {
                    let a = choose|a: int| 0 <= a < j && clones@.take(j as int)[a].0@ == clones@[j as int].0@;
                    assert(clones@[a].0@ == clones@[j as int].0@);
                }
                lemma_push_entry(clones@.take(j as int), clones@[j as int]);
            }
            self.insert_glyph(k, g);
            proof {
                assert(m0.union_prefer_right(entries_map(clones@.take(j + 1))) =~= m0.union_prefer_right(
                    entries_map(clones@.take(j as int)),
                ).insert(clones@[j as int].0@, clones@[j as int].1@));
            }
            j = j + 1;
        }
        proof {
            assert(clones@.take(clones@.len() as int) =~= clones@);
        }
    }
}

} // verus!

verus! {

impl Clone for GlyphStore {
    fn clone(&self) -> (r: Self)
        ensures
            r.glyphs@.len() == self.glyphs@.len(),
            forall|i: int|
                0 <= i < self.glyphs@.len() ==> (#[trigger] r.glyphs@[i]).0@ == self.glyphs@[i].0@
                    && r.glyphs@[i].1@ == self.glyphs@[i].1@,
            self.wf() ==> r.wf() && r@ == self@,
    {
        let mut out: Vec<GlyphEntry> = Vec::new();
        let mut i: usize = 0;
        while i < self.glyphs.len()
            invariant
                i <= self.glyphs@.len(),
                out@.len() == i,
                forall|k: int|
                    0 <= k < i ==> (#[trigger] out@[k]).0@ == self.glyphs@[k].0@ && out@[k].1@
                        == self.glyphs@[k].1@,
            decreases self.glyphs@.len() - i,
        {
            let e = &self.glyphs[i];
            out.push((e.0.clone(), e.1.clone()));
            i = i + 1;
        }
        let r = GlyphStore { glyphs: out };
        proof {
            let a = r.glyphs@;
            let b = self.glyphs@;
            assert forall|k: KeyView| has_key(a, k) <==> has_key(b, k) by {
                if has_key(a, k) {
                    let j = choose|j: int| 0 <= j < a.len() && a[j].0@ == k;
                    assert(b[j].0@ == k);
                }
                if has_key(b, k) {
                    let j = choose|j: int| 0 <= j < b.len() && b[j].0@ == k;
                    assert(a[j].0@ == k);
                }
            }
            if self.wf() {
                assert forall|x: int, y: int| 0 <= x < a.len() && 0 <= y < a.len() && x != y implies a[x].0@ != a[y].0@ by {
                    assert(a[x].0@ == b[x].0@);
                    assert(a[y].0@ == b[y].0@);
                }
                assert forall|k: KeyView| #[trigger] entries_map(a).contains_key(k) implies entries_map(a)[k] == entries_map(b)[k] by {
                    let j = choose|j: int| 0 <= j < a.len() && a[j].0@ == k;
                    lemma_entry_in_view(a, j);
                    lemma_entry_in_view(b, j);
                }
                assert(entries_map(a) =~= entries_map(b));
            }
        }
        r
    }
}

} // verus!
