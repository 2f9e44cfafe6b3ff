use vstd::prelude::*;

use crate::engine::LayoutEngine;
use crate::generator::RuleGenerator;
use crate::glyph::GlyphStore;
use crate::project::{clone_pairs, ProjectData};
use crate::types::HangulComponent;

verus! {

/// What a confirmed "discard unsaved changes" goes on to do.
#[derive(Clone, Copy, PartialEq, Eq, Debug, Structural)]
pub enum DiscardAction {
    NewDefault,
    NewMinzkn,
    NewZik,
    NewDkb,
    NewHanterm,
    OpenFile,
}

/// The editor's screens.
#[derive(Clone, Copy, PartialEq, Eq, Debug, Structural)]
pub enum EditorMode {
    Drawing,
    Components,
    Templates,
    SelectorRules,
    Syllables,
    TypeTest,
    OldHangulMap,
}

/// Whether a stroke lights or clears pixels.
#[derive(Clone, Copy, PartialEq, Eq, Debug, Structural)]
pub enum PaintMode {
    Draw,
    Erase,
}

/// A group being created: its name and component.
pub struct NewGroupDraft {
    pub name: String,
    pub target: HangulComponent,
}

impl Default for NewGroupDraft {
    fn default() -> (r: Self)
        ensures
            r.name@ == Seq::<char>::empty(),
            r.target == HangulComponent::Cho,
    {
        NewGroupDraft { name: String::new(), target: HangulComponent::Cho }
    }
}

/// The component screen's selection and the usage lists it keeps for the selection.
pub struct ComponentsState {
    pub selected_group: usize,
    pub selected_member_index: Option<char>,
    pub group_filter: Option<HangulComponent>,
    pub usage_cache_key: Option<(String, HangulComponent, char)>,
    pub usage_cache_chars: Vec<char>,
    pub group_cache_key: Option<String>,
    pub group_cache_chars: Vec<char>,
    pub archaic_cache_key: Option<(String, HangulComponent, char)>,
    pub archaic_cache_triplets: Vec<(char, char, Option<char>)>,
    pub archaic_group_cache_key: Option<String>,
    pub archaic_group_cache_triplets: Vec<(char, char, Option<char>)>,
}

impl Default for ComponentsState {
    fn default() -> (r: Self)
        ensures
            r.selected_group == 0,
            r.selected_member_index is None,
            r.group_filter is None,
            r.usage_cache_key is None,
            r.usage_cache_chars@.len() == 0,
            r.group_cache_key is None,
            r.group_cache_chars@.len() == 0,
            r.archaic_cache_key is None,
            r.archaic_cache_triplets@.len() == 0,
            r.archaic_group_cache_key is None,
            r.archaic_group_cache_triplets@.len() == 0,
    {
        ComponentsState {
            selected_group: 0,
            selected_member_index: None,
            group_filter: None,
            usage_cache_key: None,
            usage_cache_chars: Vec::new(),
            group_cache_key: None,
            group_cache_chars: Vec::new(),
            archaic_cache_key: None,
            archaic_cache_triplets: Vec::new(),
            archaic_group_cache_key: None,
            archaic_group_cache_triplets: Vec::new(),
        }
    }
}

impl ComponentsState {
    /// Drops the selection and marks every cached usage list stale; the component filter
    /// and the lists' contents stay.
    pub fn reset_on_project_load(&mut self)
        ensures
            final(self).selected_group == 0,
            final(self).selected_member_index is None,
            final(self).usage_cache_key is None,
            final(self).group_cache_key is None,
            final(self).archaic_cache_key is None,
            final(self).archaic_group_cache_key is None,
            final(self).group_filter == old(self).group_filter,
            final(self).usage_cache_chars == old(self).usage_cache_chars,
            final(self).group_cache_chars == old(self).group_cache_chars,
            final(self).archaic_cache_triplets == old(self).archaic_cache_triplets,
            final(self).archaic_group_cache_triplets == old(self).archaic_group_cache_triplets,
    {
        self.selected_group = 0;
        self.selected_member_index = None;
        self.usage_cache_key = None;
        self.group_cache_key = None;
        self.archaic_cache_key = None;
        self.archaic_group_cache_key = None;
    }
}

/// The template screen's selection and the usage lists it keeps for the selection.
pub struct TemplateEditorState {
    pub selected_template: usize,
    pub usage_cache_key: Option<String>,
    pub usage_cache_chars: Vec<char>,
    pub usage_cache_triplets: Vec<(char, char, Option<char>)>,
    pub selected_variant_rule: Option<String>,
    pub variant_cache_key: Option<(String, String)>,
    pub variant_cache_chars: Vec<char>,
    pub variant_cache_triplets: Vec<(char, char, Option<char>)>,
}

impl Default for TemplateEditorState {
    fn default() -> (r: Self)
        ensures
            r.selected_template == 0,
            r.usage_cache_key is None,
            r.usage_cache_chars@.len() == 0,
            r.usage_cache_triplets@.len() == 0,
            r.selected_variant_rule is None,
            r.variant_cache_key is None,
            r.variant_cache_chars@.len() == 0,
            r.variant_cache_triplets@.len() == 0,
    {
        TemplateEditorState {
            selected_template: 0,
            usage_cache_key: None,
            usage_cache_chars: Vec::new(),
            usage_cache_triplets: Vec::new(),
            selected_variant_rule: None,
            variant_cache_key: None,
            variant_cache_chars: Vec::new(),
            variant_cache_triplets: Vec::new(),
        }
    }
}

impl TemplateEditorState {
    /// Drops the selection and empties every cached usage list.
    pub fn reset_on_project_load(&mut self)
        ensures
            final(self).selected_template == 0,
            final(self).usage_cache_key is None,
            final(self).usage_cache_chars@.len() == 0,
            final(self).usage_cache_triplets@.len() == 0,
            final(self).selected_variant_rule is None,
            final(self).variant_cache_key is None,
            final(self).variant_cache_chars@.len() == 0,
            final(self).variant_cache_triplets@.len() == 0,
    {
        self.selected_template = 0;
        self.usage_cache_key = None;
        self.usage_cache_chars.clear();
        self.usage_cache_triplets.clear();
        self.selected_variant_rule = None;
        self.variant_cache_key = None;
        self.variant_cache_chars.clear();
        self.variant_cache_triplets.clear();
    }
}

/// The selector screen's cached split of the selected selector's syllables.
pub struct SelEditorState {
    pub cache_key: Option<String>,
    pub effective_chars: Vec<char>,
    pub overridden_chars: Vec<char>,
}

impl Default for SelEditorState {
    fn default() -> (r: Self)
        ensures
            r.cache_key is None,
            r.effective_chars@.len() == 0,
            r.overridden_chars@.len() == 0,
    {
        SelEditorState { cache_key: None, effective_chars: Vec::new(), overridden_chars: Vec::new() }
    }
}

impl SelEditorState {
    /// Empties the cached split.
    pub fn reset_on_project_load(&mut self)
        ensures
            final(self).cache_key is None,
            final(self).effective_chars@.len() == 0,
            final(self).overridden_chars@.len() == 0,
    {
        self.cache_key = None;
        self.effective_chars.clear();
        self.overridden_chars.clear();
    }
}

/// The open project: glyphs, layout engine, canvas, where it was saved, whether it has
/// unsaved changes, and the old-Hangul settings.
pub struct ProjectState {
    pub store: GlyphStore,
    pub engine: LayoutEngine,
    pub canvas_w: i32,
    pub canvas_h: i32,
    pub current_path: Option<String>,
    pub is_dirty: bool,
    pub old_hangul_enabled: bool,
    pub archaic_jamo_map: Vec<(char, char)>,
}

impl Default for ProjectState {
    /// A new project with the basic preset on a 12 by 12 canvas, never saved.
    fn default() -> (r: Self)
        ensures
            r.store.wf(),
            r.engine.rules.groups@.len() == 13,
            r.canvas_w == 12,
            r.canvas_h == 12,
            r.current_path is None,
            !r.is_dirty,
            !r.old_hangul_enabled,
            r.archaic_jamo_map@.len() == 0,
    {
        let mut store = GlyphStore::default();
        let rules = RuleGenerator::generate_default(&mut store);
        ProjectState {
            store,
            engine: LayoutEngine { rules },
            canvas_w: 12,
            canvas_h: 12,
            current_path: None,
            is_dirty: false,
            old_hangul_enabled: false,
            archaic_jamo_map: Vec::new(),
        }
    }
}

impl ProjectState {
    /// Takes over a loaded project; it has no unsaved changes. The saved path stays.
    pub fn load_data(&mut self, data: ProjectData)
        ensures
            final(self).canvas_w == data.canvas_w,
            final(self).canvas_h == data.canvas_h,
            final(self).store == data.store,
            final(self).engine.rules == data.rules,
            final(self).old_hangul_enabled == data.old_hangul_enabled,
            final(self).archaic_jamo_map == data.archaic_jamo_map,
            !final(self).is_dirty,
            final(self).current_path == old(self).current_path,
    {
        self.canvas_w = data.canvas_w;
        self.canvas_h = data.canvas_h;
        self.store = data.store;
        self.engine.rules = data.rules;
        self.old_hangul_enabled = data.old_hangul_enabled;
        self.archaic_jamo_map = data.archaic_jamo_map;
        self.is_dirty = false;
    }

    /// The project's data, copied, at file version 1.0.0.
    pub fn to_project_data(&self) -> (r: ProjectData)
        ensures
            r.version@ == "1.0.0"@,
            r.canvas_w == self.canvas_w,
            r.canvas_h == self.canvas_h,
            self.store.wf() ==> r.store.wf() && r.store@ == self.store@,
            r.rules@ == self.engine.rules@,
            r.old_hangul_enabled == self.old_hangul_enabled,
            r.archaic_jamo_map@ == self.archaic_jamo_map@,
    {
        ProjectData::from_editor(
            self.canvas_w,
            self.canvas_h,
            &self.store,
            &self.engine.rules,
            self.old_hangul_enabled,
            clone_pairs(&self.archaic_jamo_map),
        )
    }
}

} // verus!
