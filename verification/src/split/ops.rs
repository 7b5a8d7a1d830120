//! The operations that change the panes of a split container, or move the
//! focus among them.

use vstd::prelude::*;
use crate::registry::{EditorState, PaneRegistry, TerminalRef};
use crate::split::{
    lemma_index_of, lemma_inserted_wf, LapceSplitNew, LeafContent, LeafKind, PaneContent,
    SplitDirection, SplitMoveDirection, SplitView,
};
use crate::transition::{
    add_editor, close_editor, close_terminal, exchange, exchanged, init_terminal_panel,
    lemma_exchanged_wf, lemma_with_pane_wf, lemma_without_wf, move_focus, new_pane, split_editor,
    split_terminal, SplitEffect,
};

verus! {

impl LapceSplitNew {
    /// Puts a new flexible pane of weight 1 in at `index`, with content of
    /// kind `kind` that takes whatever it is offered.
    fn insert_new_pane(&mut self, index: usize, id: u64, kind: LeafKind)
        requires
            index <= old(self)@.children.len(),
            !old(self)@.has_child(id),
        ensures
            final(self)@ == (SplitView {
                children: old(self)@.children.insert(index as int, new_pane(id, kind)),
                ..old(self)@
            }),
    {
        let content = PaneContent::leaf(LeafContent::filling(kind));
        self.insert_flex_child(index, content, id, 1);
    }

    /// Closes the editor pane `widget_id`, as [`close_editor`] says.
    pub fn split_editor_close(&mut self, registry: &mut PaneRegistry, widget_id: u64) -> (effects:
        Vec<SplitEffect>)
        ensures
            final(self)@ == close_editor(old(self)@, old(registry)@, widget_id).split,
            final(registry)@ == close_editor(old(self)@, old(registry)@, widget_id).registry,
            effects@ == close_editor(old(self)@, old(registry)@, widget_id).effects,
            old(self)@.wf() ==> final(self)@.wf(),
    {
        let mut effects: Vec<SplitEffect> = Vec::new();
        let index: usize = match self.find_child(widget_id) {
            None => {
                return effects;
            },
            Some(index) => index,
        };
        proof {
            lemma_index_of(self@, widget_id);
            lemma_without_wf(self@, index as int);
        }
        let n: usize = self.len();
        if n > 1 {
            let new_index: usize = if index >= n - 1 {
                index - 1
            } else {
                index + 1
            };
            effects.push(SplitEffect::Focus(self.child(new_index).id()));
        } else {
            registry.set_active(None);
            effects.push(SplitEffect::Focus(self.id()));
        }
        registry.remove(widget_id);
        self.remove_child(index);
        self.even_flex_children();
        registry.set_order(self.ids());
        effects.push(SplitEffect::ChildrenChanged);
        proof {
            let o = close_editor(old(self)@, old(registry)@, widget_id);
            assert(effects@ =~= o.effects);
        }
        effects
    }

    /// Exchanges the pane `widget_id` with the pane behind it, as
    /// [`exchange`] says.
    pub fn split_editor_exchange(
        &mut self,
        registry: &mut PaneRegistry,
        widget_id: u64,
    ) -> (effects: Vec<SplitEffect>)
        ensures
            final(self)@ == exchange(old(self)@, old(registry)@, widget_id).split,
            final(registry)@ == exchange(old(self)@, old(registry)@, widget_id).registry,
            effects@ == exchange(old(self)@, old(registry)@, widget_id).effects,
            old(self)@.wf() ==> final(self)@.wf(),
    {
        let mut effects: Vec<SplitEffect> = Vec::new();
        let index: usize = match self.find_child(widget_id) {
            None => {
                return effects;
            },
            Some(index) => index,
        };
        let n: usize = self.len();
        if index >= n - 1 {
            return effects;
        }
        proof {
            lemma_index_of(self@, widget_id);
            lemma_exchanged_wf(self@, index as int);
        }
        effects.push(SplitEffect::Focus(self.child(index + 1).id()));
        let child = self.remove_child(index);
        self.insert_child(index + 1, child);
        assert(self@.children =~= exchanged(old(self)@, index as int).children);
        if registry.contains(widget_id) {
            registry.set_order(self.ids());
        }
        effects.push(SplitEffect::LayoutInvalidated);
        proof {
            let o = exchange(old(self)@, old(registry)@, widget_id);
            assert(effects@ =~= o.effects);
        }
        effects
    }

    /// Moves the focus from the pane `widget_id` in `direction`, as
    /// [`move_focus`] says.
    pub fn split_editor_move(
        &mut self,
        registry: &mut PaneRegistry,
        direction: &SplitMoveDirection,
        widget_id: u64,
    ) -> (effects: Vec<SplitEffect>)
        ensures
            final(self)@ == old(self)@,
            final(registry)@ == old(registry)@,
            effects@ == move_focus(old(self)@, old(registry)@, *direction, widget_id).effects,
            move_focus(old(self)@, old(registry)@, *direction, widget_id).split == old(self)@,
            move_focus(old(self)@, old(registry)@, *direction, widget_id).registry == old(
                registry,
            )@,
    {
        let mut effects: Vec<SplitEffect> = Vec::new();
        let index: usize = match self.find_child(widget_id) {
            None => {
                return effects;
            },
            Some(index) => index,
        };
        let n: usize = self.len();
        let new_index: usize = match self.axis() {
            SplitDirection::Vertical => match direction {
                SplitMoveDirection::Left => {
                    if index == 0 {
                        return effects;
                    }
                    index - 1
                },
                SplitMoveDirection::Right => {
                    if index >= n - 1 {
                        return effects;
                    }
                    index + 1
                },
                _ => index,
            },
            SplitDirection::Horizontal => match direction {
                SplitMoveDirection::Up => {
                    if index == 0 {
                        return effects;
                    }
                    index - 1
                },
                SplitMoveDirection::Down => {
                    if index >= n - 1 {
                        return effects;
                    }
                    index + 1
                },
                _ => index,
            },
        };
        if new_index != index {
            let target: u64 = self.child(new_index).id();
            effects.push(SplitEffect::Focus(target));
            effects.push(SplitEffect::EnsureVisible(target));
        }
        proof {
            let o = move_focus(old(self)@, old(registry)@, *direction, widget_id);
            assert(effects@ =~= o.effects);
        }
        effects
    }

    /// Splits the pane `widget_id` for the terminal `term_id`, shown by the
    /// new pane `new_widget_id`, as [`split_terminal`] says. (`vertical` is
    /// a hint that the container does not use: the new pane always stands
    /// along the container's own axis.)
    pub fn split_terminal(
        &mut self,
        registry: &mut PaneRegistry,
        vertical: bool,
        widget_id: u64,
        term_id: u64,
        new_widget_id: u64,
    ) -> (effects: Vec<SplitEffect>)
        ensures
            final(self)@ == split_terminal(
                old(self)@,
                old(registry)@,
                widget_id,
                term_id,
                new_widget_id,
            ).split,
            final(registry)@ == split_terminal(
                old(self)@,
                old(registry)@,
                widget_id,
                term_id,
                new_widget_id,
            ).registry,
            effects@ == split_terminal(
                old(self)@,
                old(registry)@,
                widget_id,
                term_id,
                new_widget_id,
            ).effects,
            old(self)@.wf() ==> final(self)@.wf(),
    {
        let mut effects: Vec<SplitEffect> = Vec::new();
        let index: usize = match self.find_child(widget_id) {
            None => {
                return effects;
            },
            Some(index) => index,
        };
        if self.find_child(new_widget_id).is_some() || registry.contains(new_widget_id) {
            return effects;
        }
        proof {
            lemma_with_pane_wf(self@, index as int + 1, new_widget_id, LeafKind::Terminal);
        }
        registry.insert_terminal(term_id, new_widget_id);
        let n: usize = self.len();
        assert(index < n);
        self.insert_new_pane(index + 1, new_widget_id, LeafKind::Terminal);
        self.even_flex_children();
        effects.push(SplitEffect::ChildrenChanged);
        effects.push(SplitEffect::LayoutInvalidated);
        proof {
            let o = split_terminal(old(self)@, old(registry)@, widget_id, term_id, new_widget_id);
            assert(effects@ =~= o.effects);
        }
        effects
    }

    /// Closes the pane `widget_id` that shows the terminal `term_id`, as
    /// [`close_terminal`] says.
    pub fn split_terminal_close(
        &mut self,
        registry: &mut PaneRegistry,
        term_id: u64,
        widget_id: u64,
    ) -> (effects: Vec<SplitEffect>)
        ensures
            final(self)@ == close_terminal(old(self)@, old(registry)@, term_id, widget_id).split,
            final(registry)@ == close_terminal(
                old(self)@,
                old(registry)@,
                term_id,
                widget_id,
            ).registry,
            effects@ == close_terminal(old(self)@, old(registry)@, term_id, widget_id).effects,
            old(self)@.wf() ==> final(self)@.wf(),
    {
        let mut effects: Vec<SplitEffect> = Vec::new();
        let index: usize = match self.find_child(widget_id) {
            None => {
                return effects;
            },
            Some(index) => index,
        };
        proof {
            lemma_index_of(self@, widget_id);
            lemma_without_wf(self@, index as int);
        }
        let n: usize = self.len();
        if n == 1 {
            registry.remove_terminal(term_id);
            self.remove_child(index);
            self.even_flex_children();
            effects.push(SplitEffect::ChildrenChanged);
            registry.set_terminal_shown(false);
            match registry.active() {
                Some(active) => {
                    effects.push(SplitEffect::Focus(active));
                },
                None => {},
            }
            proof {
                let o = close_terminal(old(self)@, old(registry)@, term_id, widget_id);
                assert(effects@ =~= o.effects);
            }
            return effects;
        }
        let new_index: usize = if index >= n - 1 {
            index - 1
        } else {
            index + 1
        };
        effects.push(SplitEffect::Focus(self.child(new_index).id()));
        registry.remove_terminal(term_id);
        self.remove_child(index);
        self.even_flex_children();
        effects.push(SplitEffect::ChildrenChanged);
        proof {
            let o = close_terminal(old(self)@, old(registry)@, term_id, widget_id);
            assert(effects@ =~= o.effects);
        }
        effects
    }

    /// Adds a pane for the editor `widget_id` that the registry tracks, as
    /// [`add_editor`] says.
    pub fn split_add_editor(&mut self, registry: &mut PaneRegistry, widget_id: u64) -> (effects:
        Vec<SplitEffect>)
        ensures
            final(self)@ == add_editor(old(self)@, old(registry)@, widget_id).split,
            final(registry)@ == add_editor(old(self)@, old(registry)@, widget_id).registry,
            effects@ == add_editor(old(self)@, old(registry)@, widget_id).effects,
            old(self)@.wf() ==> final(self)@.wf(),
    {
        let mut effects: Vec<SplitEffect> = Vec::new();
        if !registry.contains(widget_id) || self.find_child(widget_id).is_some() {
            return effects;
        }
        proof {
            lemma_with_pane_wf(self@, 0, widget_id, LeafKind::Editor);
        }
        self.insert_new_pane(0, widget_id, LeafKind::Editor);
        self.even_flex_children();
        effects.push(SplitEffect::ChildrenChanged);
        registry.set_order(self.ids());
        effects.push(SplitEffect::Focus(widget_id));
        proof {
            let o = add_editor(old(self)@, old(registry)@, widget_id);
            assert(effects@ =~= o.effects);
        }
        effects
    }

    /// Splits the editor pane `widget_id`: the new pane `new_view_id` shows
    /// the same document at the same place, as [`split_editor`] says.
    /// (`vertical` is a hint that the container does not use: the new pane
    /// always stands along the container's own axis.)
    pub fn split_editor(
        &mut self,
        registry: &mut PaneRegistry,
        vertical: bool,
        widget_id: u64,
        new_view_id: u64,
    ) -> (effects: Vec<SplitEffect>)
        ensures
            final(self)@ == split_editor(old(self)@, old(registry)@, widget_id, new_view_id).split,
            final(registry)@ == split_editor(
                old(self)@,
                old(registry)@,
                widget_id,
                new_view_id,
            ).registry,
            effects@ == split_editor(old(self)@, old(registry)@, widget_id, new_view_id).effects,
            old(self)@.wf() ==> final(self)@.wf(),
    {
        let mut effects: Vec<SplitEffect> = Vec::new();
        let index: usize = match self.find_child(widget_id) {
            None => {
                return effects;
            },
            Some(index) => index,
        };
        let from: EditorState = match registry.get(widget_id) {
            None => {
                return effects;
            },
            Some(from) => from,
        };
        if self.find_child(new_view_id).is_some() || registry.contains(new_view_id) {
            return effects;
        }
        proof {
            lemma_with_pane_wf(self@, index as int + 1, new_view_id, LeafKind::Editor);
        }
        effects.push(SplitEffect::RestoreScrollOffset(new_view_id, from.scroll_x, from.scroll_y));
        let n: usize = self.len();
        assert(index < n);
        self.insert_new_pane(index + 1, new_view_id, LeafKind::Editor);
        self.even_flex_children();
        effects.push(SplitEffect::ChildrenChanged);
        effects.push(SplitEffect::LayoutInvalidated);
        registry.insert(
            new_view_id,
            EditorState { content: from.content, cursor: from.cursor, scroll_x: 0, scroll_y: 0 },
        );
        registry.set_order(self.ids());
        proof {
            let o = split_editor(old(self)@, old(registry)@, widget_id, new_view_id);
            assert(effects@ =~= o.effects);
        }
        effects
    }

    /// Opens the first terminal in the panel of the terminals, as
    /// [`init_terminal_panel`] says.
    pub fn init_terminal_panel(
        &mut self,
        registry: &mut PaneRegistry,
        focus: bool,
        term_id: u64,
        widget_id: u64,
    ) -> (effects: Vec<SplitEffect>)
        ensures
            final(self)@ == init_terminal_panel(
                old(self)@,
                old(registry)@,
                focus,
                term_id,
                widget_id,
            ).split,
            final(registry)@ == init_terminal_panel(
                old(self)@,
                old(registry)@,
                focus,
                term_id,
                widget_id,
            ).registry,
            effects@ == init_terminal_panel(
                old(self)@,
                old(registry)@,
                focus,
                term_id,
                widget_id,
            ).effects,
            old(self)@.wf() ==> final(self)@.wf(),
    {
        let mut effects: Vec<SplitEffect> = Vec::new();
        if !registry.has_no_terminal() || self.find_child(widget_id).is_some()
            || registry.contains(widget_id) {
            return effects;
        }
        proof {
            lemma_inserted_wf(self@, 0, new_pane(widget_id, LeafKind::Terminal));
        }
        self.insert_new_pane(0, widget_id, LeafKind::Terminal);
        if focus {
            effects.push(SplitEffect::Focus(widget_id));
        }
        registry.set_active_terminal(Some(TerminalRef { widget_id, term_id }));
        registry.insert_terminal(term_id, widget_id);
        effects.push(SplitEffect::ChildrenChanged);
        proof {
            let o = init_terminal_panel(old(self)@, old(registry)@, focus, term_id, widget_id);
            assert(effects@ =~= o.effects);
        }
        effects
    }
}

} // verus!
