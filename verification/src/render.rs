use vstd::prelude::*;

use crate::engine::{LayoutEngine, LayoutResult, LayoutView, PartPlacement, PartView};
use crate::glyph::{GlyphKey, GlyphStore, KeyView};

verus! {

/// What drawing a syllable needs: the glyphs, the layout engine and the canvas size.
pub struct RenderContext<'a> {
    pub store: &'a GlyphStore,
    pub engine: &'a LayoutEngine,
    pub canvas_w: i32,
    pub canvas_h: i32,
}

/// One lit pixel of a composed syllable.
#[derive(Clone, Copy, Debug)]
pub struct ComposedPixel {
    pub x: i32,
    pub y: i32,
}

/// The coordinates of composed pixels.
pub open spec fn coords(v: Seq<ComposedPixel>) -> Seq<(i32, i32)> {
    v.map_values(|p: ComposedPixel| (p.x, p.y))
}

/// Is the pixel on a `w` by `h` canvas?
pub open spec fn in_canvas(p: (i32, i32), w: i32, h: i32) -> bool {
    0 <= p.0 < w && 0 <= p.1 < h
}

/// The pixels a part contributes: those of its glyph that fall on the canvas (none when
/// the store has no glyph for it).
pub open spec fn part_pixels(
    store: Map<KeyView, Set<(i32, i32)>>,
    part: PartView,
    w: i32,
    h: i32,
) -> Set<(i32, i32)> {
    if store.contains_key(part) {
        store[part].filter(on_canvas(w, h))
    } else {
        Set::empty()
    }
}

/// The predicate "is on a `w` by `h` canvas".
pub open spec fn on_canvas(w: i32, h: i32) -> spec_fn((i32, i32)) -> bool {
    |p: (i32, i32)| in_canvas(p, w, h)
}

/// `s` lists the set `t`, each element once, in increasing order (by `x`, then by `y`).
pub open spec fn lists(s: Seq<(i32, i32)>, t: Set<(i32, i32)>) -> bool {
    s.no_duplicates() && s.to_set() == t && crate::order::ascending(s)
}

fn push_part_pixels(
    out: &mut Vec<ComposedPixel>,
    store: &GlyphStore,
    p: &PartPlacement,
    group_id: &str,
    canvas_w: i32,
    canvas_h: i32,
)
    requires
        store.wf(),
    ensures
        final(out)@.len() >= old(out)@.len(),
        final(out)@.subrange(0, old(out)@.len() as int) == old(out)@,
        lists(
            coords(final(out)@).subrange(old(out)@.len() as int, final(out)@.len() as int),
            part_pixels(store@, (p.kind, p.jamo, group_id@), canvas_w, canvas_h),
        ),
{
    let ghost s0 = out@;
    let key = GlyphKey::new(p.kind, p.jamo, group_id);
    let g = match store.get(&key) {
        Some(g) => g,
        None => {
            assert(coords(out@).subrange(s0.len() as int, out@.len() as int) =~= Seq::empty());
            assert(Seq::<(i32, i32)>::empty().to_set() =~= Set::<(i32, i32)>::empty());
            assert(out@.subrange(0, s0.len() as int) =~= s0);
            return;
        },
    };
    let list = g.pixel_list();
    let ghost f = on_canvas(canvas_w, canvas_h);
    let mut i: usize = 0;
    while i < list.len()
        invariant
            i <= list@.len(),
            list@.no_duplicates(),
            out@.len() >= s0.len(),
            out@.subrange(0, s0.len() as int) == s0,
            f == on_canvas(canvas_w, canvas_h),
            coords(out@).subrange(s0.len() as int, out@.len() as int) == list@.take(i as int).filter(f),
            coords(out@).subrange(s0.len() as int, out@.len() as int).no_duplicates(),
        decreases list@.len() - i,
    {
        let (x, y) = list[i];
        let ghost before = out@;
        proof {
            assert(list@.take(i + 1).drop_last() =~= list@.take(i as int));
            reveal_with_fuel(Seq::<_>::filter, 1);
        }
        assert(list@.take(i + 1).last() == (x, y));
        assert(f((x, y)) == in_canvas((x, y), canvas_w, canvas_h));
        if x < 0 || y < 0 || x >= canvas_w || y >= canvas_h {
            assert(list@.take(i + 1).filter(f) == list@.take(i as int).filter(f));
        } else {
            assert(list@.take(i + 1).filter(f) == list@.take(i as int).filter(f).push((x, y)));
            proof {
                broadcast use vstd::seq_lib::group_filter_ensures, Seq::lemma_filter_contains_rev;
                let seg = list@.take(i as int).filter(f);
                if seg.contains((x, y)) {
                    assert(list@.take(i as int).contains((x, y)));
                    let k = choose|k: int| 0 <= k < i && list@.take(i as int)[k] == (x, y);
                    assert(list@[k] == list@[i as int]);
                }
            }
            out.push(ComposedPixel { x, y });
            assert(coords(out@).subrange(s0.len() as int, out@.len() as int) =~= coords(before).subrange(
                s0.len() as int,
                before.len() as int,
            ).push((x, y)));
        }
        assert(out@.subrange(0, s0.len() as int) =~= before.subrange(0, s0.len() as int));
        i = i + 1;
    }
    proof {
        broadcast use vstd::seq_lib::group_filter_ensures, Seq::lemma_filter_contains_rev;
        assert(list@.take(list@.len() as int) =~= list@);
        let s = list@.filter(f);
        assert(s.to_set() =~= g@.filter(f));
        crate::order::lemma_filter_ascending(list@, f);
    }
}

/// All pixels a layout lights on a `w` by `h` canvas.
pub open spec fn layout_pixels(store: Map<KeyView, Set<(i32, i32)>>, l: LayoutView, w: i32, h: i32) -> Set<
    (i32, i32),
> {
    part_pixels(store, l.cho, w, h).union(part_pixels(store, l.jung, w, h)).union(
        match l.jong {
            Some(j) => part_pixels(store, j, w, h),
            None => Set::empty(),
        },
    )
}

/// The pixels of a laid-out syllable: the initial's, then the medial's, then the final's
/// (when there is one), each clipped to the canvas and listed in increasing order (by `x`,
/// then by `y`).
pub fn compose_pixels(store: &GlyphStore, layout: &LayoutResult, canvas_w: i32, canvas_h: i32) -> (out:
    Vec<ComposedPixel>)
    requires
        store.wf(),
    ensures
        exists|a: int, b: int|
            #![trigger coords(out@).subrange(0, a), coords(out@).subrange(a, b)]
            0 <= a <= b <= out@.len() && lists(
                coords(out@).subrange(0, a),
                part_pixels(store@, layout.cho@, canvas_w, canvas_h),
            ) && lists(
                coords(out@).subrange(a, b),
                part_pixels(store@, layout.jung@, canvas_w, canvas_h),
            ) && lists(
                coords(out@).subrange(b, out@.len() as int),
                match layout.jong {
                    Some(j) => part_pixels(store@, j@, canvas_w, canvas_h),
                    None => Set::empty(),
                },
            ),
        coords(out@).to_set() == layout_pixels(store@, layout@, canvas_w, canvas_h),
{
    let mut out: Vec<ComposedPixel> = Vec::new();
    push_part_pixels(&mut out, store, &layout.cho.placement, layout.cho.group_id.as_str(), canvas_w, canvas_h);
    let a = out.len();
    let ghost o1 = out@;
    push_part_pixels(&mut out, store, &layout.jung.placement, layout.jung.group_id.as_str(), canvas_w, canvas_h);
    let b = out.len();
    let ghost mid = out@;
    if let Some(jong) = &layout.jong {
        push_part_pixels(&mut out, store, &jong.placement, jong.group_id.as_str(), canvas_w, canvas_h);
    } else {
        assert(coords(out@).subrange(b as int, out@.len() as int) =~= Seq::empty());
        assert(Seq::<(i32, i32)>::empty().to_set() =~= Set::<(i32, i32)>::empty());
    }
    proof {
        assert(o1.subrange(0, 0) =~= Seq::<ComposedPixel>::empty());
        assert(coords(o1).subrange(0, a as int) =~= coords(o1));
        assert(coords(out@).subrange(0, a as int) =~= coords(mid).subrange(0, a as int));
        assert(coords(mid).subrange(0, a as int) =~= coords(o1));
        assert(coords(out@).subrange(a as int, b as int) =~= coords(mid).subrange(a as int, b as int));
        assert(lists(coords(out@).subrange(0, a as int), part_pixels(store@, layout.cho@, canvas_w, canvas_h)));
        assert(lists(coords(out@).subrange(a as int, b as int), part_pixels(store@, layout.jung@, canvas_w, canvas_h)));
        assert(lists(
            coords(out@).subrange(b as int, out@.len() as int),
            match layout.jong {
                Some(j) => part_pixels(store@, j@, canvas_w, canvas_h),
                None => Set::empty(),
            },
        ));
        let c = coords(out@);
        assert(c =~= c.subrange(0, a as int) + c.subrange(a as int, b as int) + c.subrange(b as int, c.len() as int));
        assert forall|q: (i32, i32)| c.to_set().contains(q) <==> (c.subrange(0, a as int).to_set().contains(q)
            || c.subrange(a as int, b as int).to_set().contains(q) || c.subrange(b as int, c.len() as int).to_set().contains(q)) by {
            if c.to_set().contains(q) {
                let k = choose|k: int| 0 <= k < c.len() && c[k] == q;
                if k < a {
                    assert(c.subrange(0, a as int)[k] == q);
                } else if k < b {
                    assert(c.subrange(a as int, b as int)[k - a] == q);
                } else {
                    assert(c.subrange(b as int, c.len() as int)[k - b] == q);
                }
            }
            if c.subrange(0, a as int).to_set().contains(q) {
                let k = choose|k: int| 0 <= k < a && c.subrange(0, a as int)[k] == q;
                assert(c[k] == q);
            }
            if c.subrange(a as int, b as int).to_set().contains(q) {
                let k = choose|k: int| 0 <= k < b - a && c.subrange(a as int, b as int)[k] == q;
                assert(c[k + a] == q);
            }
            if c.subrange(b as int, c.len() as int).to_set().contains(q) {
                let k = choose|k: int| 0 <= k < c.len() - b && c.subrange(b as int, c.len() as int)[k] == q;
                assert(c[k + b] == q);
            }
        }
        assert(c.to_set() =~= layout_pixels(store@, layout@, canvas_w, canvas_h));
    }
    out
}

} // verus!
