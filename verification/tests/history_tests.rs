use hangul_syllable::editor_state::{ComponentsState, PaintMode, ProjectState, SelEditorState, TemplateEditorState};
use hangul_syllable::glyph::{GlyphKey, GlyphStore};
use hangul_syllable::history::{get_glyph_pixels, pen_mode_at, EditHistory, StrokeState};
use hangul_syllable::types::HangulComponent;

fn key(g: &str) -> GlyphKey {
    GlyphKey::new(HangulComponent::Cho, 'ㄱ', g)
}

#[test]
fn paste_then_undo_restores_pixels() {
    let mut store = GlyphStore::default();
    let mut h = EditHistory::default();
    store.ensure_glyph(key("a"));
    store.get_mut(&key("a")).unwrap().set(1, 1);
    store.ensure_glyph(key("b"));
    store.get_mut(&key("b")).unwrap().set(2, 2);
    h.copy_pixels_from(&store, &key("a"));
    h.paste_pixels_to(&mut store, &key("b"));
    assert!(get_glyph_pixels(&store, &key("b")).contains(&(1, 1)));
    assert_eq!(h.undo_stack.len(), 1);
    h.undo(&mut store);
    let b = get_glyph_pixels(&store, &key("b"));
    assert!(b.contains(&(2, 2)) && !b.contains(&(1, 1)));
    assert_eq!(h.redo_stack.len(), 1);
    h.redo(&mut store);
    assert!(get_glyph_pixels(&store, &key("b")).contains(&(1, 1)));
    assert_eq!(h.undo_stack.len(), 1);
    assert!(h.redo_stack.is_empty());
}

#[test]
fn paste_of_same_pixels_records_nothing() {
    let mut store = GlyphStore::default();
    let mut h = EditHistory::default();
    store.ensure_glyph(key("a"));
    h.copy_pixels_from(&store, &key("a"));
    h.paste_pixels_to(&mut store, &key("a"));
    assert!(h.undo_stack.is_empty());
    let mut h2 = EditHistory::default();
    h2.paste_pixels_to(&mut store, &key("a"));
    assert!(h2.undo_stack.is_empty());
}

#[test]
fn undo_stack_keeps_fifty_steps() {
    let mut store = GlyphStore::default();
    let mut h = EditHistory::default();
    for i in 0..60 {
        store.ensure_glyph(key("src"));
        store.get_mut(&key("src")).unwrap().set(i, 0);
        h.copy_pixels_from(&store, &key("src"));
        h.paste_pixels_to(&mut store, &key("dst"));
    }
    assert_eq!(h.undo_stack.len(), 50);
}

#[test]
fn paste_onto_missing_glyph_undoes_to_empty() {
    let mut store = GlyphStore::default();
    let mut h = EditHistory::default();
    store.ensure_glyph(key("a"));
    store.get_mut(&key("a")).unwrap().set(4, 4);
    h.copy_pixels_from(&store, &key("a"));
    h.paste_pixels_to(&mut store, &key("new"));
    assert!(store.has(&key("new")));
    h.undo(&mut store);
    assert!(get_glyph_pixels(&store, &key("new")).is_empty());
}

#[test]
fn reset_states_on_project_load() {
    let mut c = ComponentsState::default();
    c.selected_group = 3;
    c.group_cache_key = Some("g".to_string());
    c.group_filter = Some(HangulComponent::Jung);
    c.reset_on_project_load();
    assert_eq!(c.selected_group, 0);
    assert!(c.group_cache_key.is_none());
    assert_eq!(c.group_filter, Some(HangulComponent::Jung));
    let mut t = TemplateEditorState::default();
    t.usage_cache_chars.push('가');
    t.selected_template = 2;
    t.reset_on_project_load();
    assert!(t.usage_cache_chars.is_empty());
    assert_eq!(t.selected_template, 0);
    let mut s = SelEditorState::default();
    s.effective_chars.push('가');
    s.reset_on_project_load();
    assert!(s.effective_chars.is_empty());
}

#[test]
fn project_state_roundtrip_through_data() {
    let mut p = ProjectState::default();
    assert_eq!(p.engine.rules.groups.len(), 13);
    p.is_dirty = true;
    let mut data = p.to_project_data();
    data.canvas_w = 20;
    p.load_data(data);
    assert_eq!(p.canvas_w, 20);
    assert!(!p.is_dirty);
}

#[test]
fn stroke_paints_and_undoes() {
    let mut store = GlyphStore::default();
    let mut h = EditHistory::default();
    let mut s = StrokeState::default();
    store.ensure_glyph(key("a"));
    store.get_mut(&key("a")).unwrap().set(0, 0);
    assert_eq!(pen_mode_at(&store, &key("a"), Some((0, 0)), 8, 8, true), PaintMode::Erase);
    assert_eq!(pen_mode_at(&store, &key("a"), Some((1, 0)), 8, 8, true), PaintMode::Draw);
    assert_eq!(pen_mode_at(&store, &key("a"), Some((0, 0)), 8, 8, false), PaintMode::Draw);
    s.begin_stroke(&store, &key("a"), PaintMode::Draw);
    assert!(s.paint_at(&mut store, &key("a"), (2, 3), 8, 8));
    assert!(!s.paint_at(&mut store, &key("a"), (2, 3), 8, 8));
    assert!(!s.paint_at(&mut store, &key("a"), (8, 0), 8, 8));
    assert!(s.paint_at(&mut store, &key("a"), (4, 4), 8, 8));
    s.end_stroke(&mut h, &store);
    assert!(s.paint_mode.is_none() && s.stroke_start.is_none());
    assert_eq!(h.undo_stack.len(), 1);
    let after = get_glyph_pixels(&store, &key("a"));
    assert!(after.contains(&(2, 3)) && after.contains(&(4, 4)));
    h.undo(&mut store);
    let back = get_glyph_pixels(&store, &key("a"));
    assert_eq!(back.len(), 1);
    assert!(back.contains(&(0, 0)));
}

#[test]
fn stroke_without_change_records_nothing() {
    let mut store = GlyphStore::default();
    let mut h = EditHistory::default();
    let mut s = StrokeState::default();
    store.ensure_glyph(key("a"));
    s.begin_stroke(&store, &key("a"), PaintMode::Erase);
    assert!(s.paint_at(&mut store, &key("a"), (1, 1), 4, 4));
    s.end_stroke(&mut h, &store);
    assert!(h.undo_stack.is_empty());
}
