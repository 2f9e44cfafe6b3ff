use vstd::prelude::*;
use std::collections::BTreeSet;

use crate::glyph::{GlyphKey, GlyphStore, KeyView, PixelGlyph};
use crate::order::lemma_pixel_order_lawful;

verus! {

/// One undo or redo step: a glyph key and the pixels to put back under it.
pub type HistoryEntry = (GlyphKey, BTreeSet<(i32, i32)>);

/// An undo or redo step as a mathematical value.
pub type EntryView = (KeyView, Set<(i32, i32)>);

/// The undo and redo stacks of pixel edits, and the pixel clipboard.
pub struct EditHistory {
    pub undo_stack: Vec<HistoryEntry>,
    pub redo_stack: Vec<HistoryEntry>,
    pub pixel_clipboard: Option<BTreeSet<(i32, i32)>>,
}

/// The edit history as a mathematical value.
pub struct HistoryView {
    pub undo: Seq<EntryView>,
    pub redo: Seq<EntryView>,
    pub clipboard: Option<Set<(i32, i32)>>,
}

/// The views of a stack's entries.
pub open spec fn entries_view(s: Seq<HistoryEntry>) -> Seq<EntryView> {
    s.map_values(|e: HistoryEntry| (e.0@, e.1@))
}

impl View for EditHistory {
    type V = HistoryView;

    open spec fn view(&self) -> HistoryView {
        HistoryView {
            undo: entries_view(self.undo_stack@),
            redo: entries_view(self.redo_stack@),
            clipboard: match self.pixel_clipboard {
                Some(c) => Some(c@),
                None => None,
            },
        }
    }
}

impl Default for EditHistory {
    fn default() -> (r: Self)
        ensures
            r@.undo.len() == 0,
            r@.redo.len() == 0,
            r@.clipboard is None,
    {
        let r = EditHistory { undo_stack: Vec::new(), redo_stack: Vec::new(), pixel_clipboard: None };
        assert(r@.undo =~= Seq::<EntryView>::empty());
        assert(r@.redo =~= Seq::<EntryView>::empty());
        r
    }
}

/// The most undo steps kept.
pub const UNDO_LIMIT: usize = 50;

/// The pixels stored under `k`, none when the store has no glyph for it.
pub open spec fn pixels_at(store: Map<KeyView, Set<(i32, i32)>>, k: KeyView) -> Set<(i32, i32)> {
    if store.contains_key(k) {
        store[k]
    } else {
        Set::empty()
    }
}

/// The store with `pixels` put under `k`.
pub open spec fn put(store: Map<KeyView, Set<(i32, i32)>>, k: KeyView, pixels: Set<(i32, i32)>) -> Map<
    KeyView,
    Set<(i32, i32)>,
> {
    store.insert(k, pixels)
}

/// The undo stack with a step pushed, its oldest step dropped beyond the limit.
pub open spec fn push_undo(undo: Seq<EntryView>, e: EntryView) -> Seq<EntryView> {
    let s = undo.push(e);
    if s.len() > UNDO_LIMIT {
        s.skip(1)
    } else {
        s
    }
}

/// The pixels of the glyph under `key`, none when the store has no glyph for it.
pub fn get_glyph_pixels(store: &GlyphStore, key: &GlyphKey) -> (r: BTreeSet<(i32, i32)>)
    requires
        store.wf(),
    ensures
        r@ == pixels_at(store@, key@),
{
    match store.get(key) {
        Some(g) => g.pixels.clone(),
        None => BTreeSet::new(),
    }
}

fn put_pixels(store: &mut GlyphStore, key: &GlyphKey, pixels: BTreeSet<(i32, i32)>)
    requires
        old(store).wf(),
    ensures
        final(store).wf(),
        final(store)@ == put(old(store)@, key@, pixels@),
{
    store.insert_glyph(key.clone(), PixelGlyph { pixels });
}

fn contains_all(a: &BTreeSet<(i32, i32)>, b: &BTreeSet<(i32, i32)>) -> (r: bool)
    ensures
        r == a@.subset_of(b@),
{
    proof {
        lemma_pixel_order_lawful();
    }
    let list = PixelGlyph { pixels: a.clone() }.pixel_list();
    let mut i: usize = 0;
    while i < list.len()
        invariant
            list@.to_set() == a@,
            crate::order::pixel_order_lawful(),
            i <= list@.len(),
            forall|k: int| 0 <= k < i ==> b@.contains(#[trigger] list@[k]),
        decreases list@.len() - i,
    {
        if !b.contains(&list[i]) {
            assert(a@.contains(list@[i as int]));
            return false;
        }
        i = i + 1;
    }
    assert forall|p: (i32, i32)| a@.contains(p) implies b@.contains(p) by {
        assert(list@.to_set().contains(p));
        let k = choose|k: int| 0 <= k < list@.len() && list@[k] == p;
    }
    true
}

fn same_pixels(a: &BTreeSet<(i32, i32)>, b: &BTreeSet<(i32, i32)>) -> (r: bool)
    ensures
        r == (a@ == b@),
{
    let r = contains_all(a, b) && contains_all(b, a);
    if r {
        assert(a@ =~= b@);
    }
    r
}

fn entry_clone(key: &GlyphKey, pixels: &BTreeSet<(i32, i32)>) -> (r: HistoryEntry)
    ensures
        (r.0@, r.1@) == (key@, pixels@),
{
    (key.clone(), pixels.clone())
}

/// The history and store after `paste_pixels_to(key)`: nothing changes without a clipboard
/// or when the glyph already has the clipboard's pixels; otherwise its pixels are saved
/// as an undo step (the oldest dropped beyond the limit), the redo stack is emptied and
/// the clipboard's pixels are put under the key.
pub open spec fn pasted(h: HistoryView, store: Map<KeyView, Set<(i32, i32)>>, key: KeyView) -> (
    HistoryView,
    Map<KeyView, Set<(i32, i32)>>,
) {
    match h.clipboard {
        None => (h, store),
        Some(c) => if pixels_at(store, key) == c {
            (h, store)
        } else {
            (
                HistoryView {
                    undo: push_undo(h.undo, (key, pixels_at(store, key))),
                    redo: Seq::empty(),
                    clipboard: h.clipboard,
                },
                put(store, key, c),
            )
        },
    }
}

/// The history and store after stepping back (`undo`) or forward (`redo`): the top step
/// of the stack is taken, the glyph's current pixels are saved on the other stack, and the
/// step's pixels are put under its key; nothing happens when the stack is empty.
pub open spec fn stepped(h: HistoryView, store: Map<KeyView, Set<(i32, i32)>>, back: bool) -> (
    HistoryView,
    Map<KeyView, Set<(i32, i32)>>,
) {
    let from = if back {
        h.undo
    } else {
        h.redo
    };
    if from.len() == 0 {
        (h, store)
    } else {
        let e = from.last();
        let saved = (e.0, pixels_at(store, e.0));
        let h2 = if back {
            HistoryView { undo: h.undo.drop_last(), redo: h.redo.push(saved), clipboard: h.clipboard }
        } else {
            HistoryView { undo: h.undo.push(saved), redo: h.redo.drop_last(), clipboard: h.clipboard }
        };
        (h2, put(store, e.0, e.1))
    }
}

impl EditHistory {
    /// Copies the glyph's pixels to the clipboard.
    pub fn copy_pixels_from(&mut self, store: &GlyphStore, key: &GlyphKey)
        requires
            store.wf(),
        ensures
            final(self)@ == (HistoryView { clipboard: Some(pixels_at(store@, key@)), ..old(self)@ }),
    {
        let p = get_glyph_pixels(store, key);
        self.pixel_clipboard = Some(p);
    }

    /// Puts the clipboard's pixels under the key, keeping the glyph's pixels as an undo
    /// step (see `pasted`).
    pub fn paste_pixels_to(&mut self, store: &mut GlyphStore, key: &GlyphKey)
        requires
            old(store).wf(),
        ensures
            final(store).wf(),
            (final(self)@, final(store)@) == pasted(old(self)@, old(store)@, key@),
    {
        let clipboard = match &self.pixel_clipboard {
            Some(c) => c.clone(),
            None => {
                return;
            },
        };
        let current = get_glyph_pixels(store, key);
        if same_pixels(&current, &clipboard) {
            return;
        }
        let ghost u0 = self@.undo;
        self.undo_stack.push((key.clone(), current));
        assert(entries_view(self.undo_stack@) =~= u0.push((key@, pixels_at(old(store)@, key@))));
        if self.undo_stack.len() > UNDO_LIMIT {
            let ghost u1 = self.undo_stack@;
            self.undo_stack.remove(0);
            assert(entries_view(self.undo_stack@) =~= entries_view(u1).skip(1));
        }
        self.redo_stack.clear();
        assert(entries_view(self.redo_stack@) =~= Seq::<EntryView>::empty());
        put_pixels(store, key, clipboard);
    }

    /// Steps back or forward one edit (see `stepped`).
    fn apply_history_entry(&mut self, store: &mut GlyphStore, key: GlyphKey, pixels: BTreeSet<(i32, i32)>, push_to_redo: bool)
        requires
            old(store).wf(),
        ensures
            final(store).wf(),
            final(store)@ == put(old(store)@, key@, pixels@),
            final(self)@ == if push_to_redo {
                HistoryView { redo: old(self)@.redo.push((key@, pixels_at(old(store)@, key@))), ..old(self)@ }
            } else {
                HistoryView { undo: old(self)@.undo.push((key@, pixels_at(old(store)@, key@))), ..old(self)@ }
            },
    {
        let current = get_glyph_pixels(store, &key);
        let e = entry_clone(&key, &current);
        if push_to_redo {
            let ghost r0 = self@.redo;
            self.redo_stack.push(e);
            assert(entries_view(self.redo_stack@) =~= r0.push((key@, current@)));
        } else {
            let ghost u0 = self@.undo;
            self.undo_stack.push(e);
            assert(entries_view(self.undo_stack@) =~= u0.push((key@, current@)));
        }
        put_pixels(store, &key, pixels);
    }

    /// Undoes the last pixel edit.
    pub fn undo(&mut self, store: &mut GlyphStore)
        requires
            old(store).wf(),
        ensures
            final(store).wf(),
            (final(self)@, final(store)@) == stepped(old(self)@, old(store)@, true),
    {
        let ghost u0 = self.undo_stack@;
        match self.undo_stack.pop() {
            Some((key, pixels)) => {
                assert(entries_view(self.undo_stack@) =~= entries_view(u0).drop_last());
                self.apply_history_entry(store, key, pixels, true);
            },
            None => {},
        }
    }

    /// Redoes the last undone pixel edit.
    pub fn redo(&mut self, store: &mut GlyphStore)
        requires
            old(store).wf(),
        ensures
            final(store).wf(),
            (final(self)@, final(store)@) == stepped(old(self)@, old(store)@, false),
    {
        let ghost r0 = self.redo_stack@;
        match self.redo_stack.pop() {
            Some((key, pixels)) => {
                assert(entries_view(self.redo_stack@) =~= entries_view(r0).drop_last());
                self.apply_history_entry(store, key, pixels, false);
            },
            None => {},
        }
    }
}

/// Undoing a paste that changed a glyph gives every glyph its pixels from before the paste
/// (a glyph that was missing reads back as empty), and puts the paste on the redo stack.
pub proof fn lemma_undo_reverts_paste(h: HistoryView, store: Map<KeyView, Set<(i32, i32)>>, key: KeyView)
    requires
        h.clipboard matches Some(c) && pixels_at(store, key) != c,
    ensures
        ({
            let p = pasted(h, store, key);
            let u = stepped(p.0, p.1, true);
            &&& forall|k: KeyView| #[trigger] pixels_at(u.1, k) == pixels_at(store, k)
            &&& u.0.redo == seq![(key, h.clipboard->0)]
        }),
{
    let c = h.clipboard->0;
    let p = pasted(h, store, key);
    assert(p.0.undo.last() == (key, pixels_at(store, key)));
    let u = stepped(p.0, p.1, true);
    assert forall|k: KeyView| #[trigger] pixels_at(u.1, k) == pixels_at(store, k) by {
        if k == key {
        } else {
            assert(u.1.contains_key(k) == store.contains_key(k));
        }
    }
    assert(u.0.redo =~= seq![(key, c)]);
}

/// Redoing right after an undo gives every glyph its pixels from before the undo.
pub proof fn lemma_redo_reverts_undo(h: HistoryView, store: Map<KeyView, Set<(i32, i32)>>)
    requires
        h.undo.len() > 0,
    ensures
        ({
            let u = stepped(h, store, true);
            let r = stepped(u.0, u.1, false);
            &&& forall|k: KeyView| #[trigger] pixels_at(r.1, k) == pixels_at(store, k)
            &&& r.0.undo == h.undo.drop_last().push((h.undo.last().0, h.undo.last().1))
            &&& r.0.redo == h.redo
        }),
{
    let u = stepped(h, store, true);
    let r = stepped(u.0, u.1, false);
    let e = h.undo.last();
    assert forall|k: KeyView| #[trigger] pixels_at(r.1, k) == pixels_at(store, k) by {
        if k != e.0 {
            assert(r.1.contains_key(k) == store.contains_key(k));
        }
    }
    assert(u.0.redo.drop_last() =~= h.redo);
}

} // verus!

verus! {

/// The pen stroke in progress: how it paints, the last cell it painted and the glyph's
/// pixels from when it began.
pub struct StrokeState {
    pub paint_mode: Option<crate::editor_state::PaintMode>,
    pub last_paint_cell: Option<(i32, i32)>,
    pub stroke_start: Option<HistoryEntry>,
}

/// The stroke's start as a mathematical value.
pub open spec fn start_view(s: Option<HistoryEntry>) -> Option<EntryView> {
    match s {
        Some(e) => Some((e.0@, e.1@)),
        None => None,
    }
}

impl Default for StrokeState {
    fn default() -> (r: Self)
        ensures
            r.paint_mode is None,
            r.last_paint_cell is None,
            r.stroke_start is None,
    {
        StrokeState { paint_mode: None, last_paint_cell: None, stroke_start: None }
    }
}

/// The cell lies on a `w` by `h` canvas.
pub open spec fn on_grid(c: (i32, i32), w: i32, h: i32) -> bool {
    0 <= c.0 < w && 0 <= c.1 < h
}

/// How a stroke begun on `cell` paints: in toggle mode it erases a lit cell and draws an
/// unlit one (drawing when the press is off the canvas); otherwise it draws.
pub open spec fn pen_mode(
    store: Map<KeyView, Set<(i32, i32)>>,
    key: KeyView,
    cell: Option<(i32, i32)>,
    w: i32,
    h: i32,
    toggle: bool,
) -> crate::editor_state::PaintMode {
    if toggle && (cell matches Some(c) && on_grid(c, w, h) && pixels_at(store, key).contains(c)) {
        crate::editor_state::PaintMode::Erase
    } else {
        crate::editor_state::PaintMode::Draw
    }
}

/// How a stroke begun with the pen on `cell` paints (see `pen_mode`).
pub fn pen_mode_at(
    store: &GlyphStore,
    key: &GlyphKey,
    cell: Option<(i32, i32)>,
    canvas_w: i32,
    canvas_h: i32,
    toggle: bool,
) -> (r: crate::editor_state::PaintMode)
    requires
        store.wf(),
    ensures
        r == pen_mode(store@, key@, cell, canvas_w, canvas_h, toggle),
{
    proof {
        lemma_pixel_order_lawful();
    }
    if toggle {
        if let Some((gx, gy)) = cell {
            if gx >= 0 && gy >= 0 && gx < canvas_w && gy < canvas_h {
                let lit = match store.get(key) {
                    Some(g) => g.pixels.contains(&(gx, gy)),
                    None => false,
                };
                return if lit {
                    crate::editor_state::PaintMode::Erase
                } else {
                    crate::editor_state::PaintMode::Draw
                };
            }
        }
    }
    crate::editor_state::PaintMode::Draw
}

/// What ending a stroke makes of the history: when the stroke changed its glyph (which
/// the store still holds), the glyph's pixels from the stroke's start become an undo step
/// (the oldest dropped beyond the limit) and the redo stack is emptied.
pub open spec fn ended(h: HistoryView, start: Option<EntryView>, store: Map<KeyView, Set<(i32, i32)>>) -> HistoryView {
    match start {
        Some(e) => if store.contains_key(e.0) && store[e.0] != e.1 {
            HistoryView { undo: push_undo(h.undo, e), redo: Seq::empty(), clipboard: h.clipboard }
        } else {
            h
        },
        None => h,
    }
}

impl StrokeState {
    /// Begins a stroke on the glyph: remembers its pixels and how the stroke paints.
    pub fn begin_stroke(&mut self, store: &GlyphStore, key: &GlyphKey, mode: crate::editor_state::PaintMode)
        requires
            store.wf(),
        ensures
            final(self).paint_mode == Some(mode),
            final(self).last_paint_cell is None,
            start_view(final(self).stroke_start) == Some((key@, pixels_at(store@, key@))),
    {
        self.paint_mode = Some(mode);
        self.last_paint_cell = None;
        self.stroke_start = Some((key.clone(), get_glyph_pixels(store, key)));
    }

    /// Paints the cell when it lies on the canvas and differs from the last one painted:
    /// lights it (drawing) or clears it (erasing) in the glyph when the store has one, and
    /// reports that a cell was painted.
    pub fn paint_at(&mut self, store: &mut GlyphStore, key: &GlyphKey, cell: (i32, i32), canvas_w: i32, canvas_h: i32) -> (r: bool)
        requires
            old(store).wf(),
        ensures
            final(store).wf(),
            r == (on_grid(cell, canvas_w, canvas_h) && old(self).last_paint_cell != Some(cell)),
            r ==> final(self).last_paint_cell == Some(cell),
            !r ==> final(self).last_paint_cell == old(self).last_paint_cell,
            final(self).paint_mode == old(self).paint_mode,
            final(self).stroke_start == old(self).stroke_start,
            final(store)@ == if r && old(store)@.contains_key(key@) {
                match old(self).paint_mode {
                    Some(crate::editor_state::PaintMode::Draw) => old(store)@.insert(key@, old(store)@[key@].insert(cell)),
                    Some(crate::editor_state::PaintMode::Erase) => old(store)@.insert(key@, old(store)@[key@].remove(cell)),
                    None => old(store)@,
                }
            } else {
                old(store)@
            },
    {
        let (gx, gy) = cell;
        let fresh = match self.last_paint_cell {
            Some(c) => c.0 != gx || c.1 != gy,
            None => true,
        };
        if gx >= 0 && gy >= 0 && gx < canvas_w && gy < canvas_h && fresh {
            self.last_paint_cell = Some(cell);
            let mode = self.paint_mode;
            match store.get_mut(key) {
                Some(glyph) => match mode {
                    Some(crate::editor_state::PaintMode::Draw) => glyph.set(gx, gy),
                    Some(crate::editor_state::PaintMode::Erase) => glyph.clear(gx, gy),
                    None => {},
                },
                None => {},
            }
            return true;
        }
        false
    }

    /// Ends the stroke: records it as an undo step when it changed its glyph (see
    /// `ended`), and clears the stroke.
    pub fn end_stroke(&mut self, history: &mut EditHistory, store: &GlyphStore)
        requires
            store.wf(),
        ensures
            final(history)@ == ended(old(history)@, start_view(old(self).stroke_start), store@),
            final(self).paint_mode is None,
            final(self).last_paint_cell is None,
            final(self).stroke_start is None,
    {
        let start = self.stroke_start.take();
        if let Some((snap_key, snapshot)) = start {
            let changed = match store.get(&snap_key) {
                Some(g) => !same_pixels(&g.pixels, &snapshot),
                None => false,
            };
            if changed {
                let ghost u0 = history@.undo;
                let ghost e = (snap_key@, snapshot@);
                history.undo_stack.push((snap_key, snapshot));
                assert(entries_view(history.undo_stack@) =~= u0.push(e));
                if history.undo_stack.len() > UNDO_LIMIT {
                    let ghost u1 = history.undo_stack@;
                    history.undo_stack.remove(0);
                    assert(entries_view(history.undo_stack@) =~= entries_view(u1).skip(1));
                }
                history.redo_stack.clear();
                assert(entries_view(history.redo_stack@) =~= Seq::<EntryView>::empty());
            }
        }
        self.paint_mode = None;
        self.last_paint_cell = None;
    }
}

/// Undoing right after a stroke that changed its glyph gives the glyph back its pixels
/// from before the stroke, and leaves every other glyph as the stroke left it.
pub proof fn lemma_undo_reverts_stroke(h: HistoryView, key: KeyView, before: Set<(i32, i32)>, store: Map<KeyView, Set<(i32, i32)>>)
    requires
        store.contains_key(key),
        store[key] != before,
    ensures
        ({
            let u = stepped(ended(h, Some((key, before)), store), store, true);
            &&& pixels_at(u.1, key) == before
            &&& forall|k: KeyView| k != key ==> #[trigger] pixels_at(u.1, k) == pixels_at(store, k)
        }),
{
    let h2 = ended(h, Some((key, before)), store);
    assert(h2.undo.last() == (key, before));
    let u = stepped(h2, store, true);
    assert forall|k: KeyView| k != key implies #[trigger] pixels_at(u.1, k) == pixels_at(store, k) by {
        assert(u.1.contains_key(k) == store.contains_key(k));
    }
}

} // verus!
