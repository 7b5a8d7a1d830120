//! How a split container answers an event.

use vstd::prelude::*;
use crate::empty_state::hit_entry;
use crate::registry::PaneRegistry;
use crate::laws::lemma_route_keeps_wf;
use crate::split::{LapceSplitNew, PaneContent};
use crate::transition::{handle, SplitEffect, SplitEvent};

verus! {

impl LapceSplitNew {
    /// Answers `event`, as [`handle`] says: changes the panes and the
    /// registry, and returns the requests to send out, in order.
    pub fn event(&mut self, registry: &mut PaneRegistry, event: &SplitEvent) -> (effects: Vec<
        SplitEffect,
    >)
        ensures
            final(self)@ == handle(old(self)@, old(registry)@, *event).split,
            final(registry)@ == handle(old(self)@, old(registry)@, *event).registry,
            effects@ == handle(old(self)@, old(registry)@, *event).effects,
            old(self)@.wf() ==> final(self)@.wf(),
    {
        match event {
            SplitEvent::MouseMove(p) => {
                let mut effects: Vec<SplitEffect> = Vec::new();
                if self.is_empty() {
                    match hit_entry(self.commands(), *p) {
                        Some(_) => {
                            effects.push(SplitEffect::SetCursorPointer);
                        },
                        None => {
                            effects.push(SplitEffect::ClearCursor);
                        },
                    }
                }
                assert(effects@ =~= handle(old(self)@, old(registry)@, *event).effects);
                effects
            },
            SplitEvent::MouseDown(p) => {
                let mut effects: Vec<SplitEffect> = Vec::new();
                if self.is_empty() {
                    match hit_entry(self.commands(), *p) {
                        Some(i) => {
                            effects.push(SplitEffect::RunCommand(i));
                        },
                        None => {},
                    }
                }
                assert(effects@ =~= handle(old(self)@, old(registry)@, *event).effects);
                effects
            },
            SplitEvent::KeyDown => {
                let mut effects: Vec<SplitEffect> = Vec::new();
                if self.is_empty() {
                    effects.push(SplitEffect::HandleKeyDown);
                }
                assert(effects@ =~= handle(old(self)@, old(registry)@, *event).effects);
                effects
            },
            SplitEvent::Focus => {
                let mut effects: Vec<SplitEffect> = Vec::new();
                effects.push(SplitEffect::TakeFocus(self.id()));
                assert(effects@ =~= handle(old(self)@, old(registry)@, *event).effects);
                effects
            },
            SplitEvent::SplitAddEditor(widget_id) => self.split_add_editor(registry, *widget_id),
            SplitEvent::SplitEditor(vertical, widget_id, new_view_id) => self.split_editor(
                registry,
                *vertical,
                *widget_id,
                *new_view_id,
            ),
            SplitEvent::SplitEditorMove(direction, widget_id) => self.split_editor_move(
                registry,
                direction,
                *widget_id,
            ),
            SplitEvent::SplitEditorExchange(widget_id) => self.split_editor_exchange(
                registry,
                *widget_id,
            ),
            SplitEvent::SplitEditorClose(widget_id) => self.split_editor_close(
                registry,
                *widget_id,
            ),
            SplitEvent::SplitTerminal(vertical, widget_id, term_id, new_widget_id) => {
                self.split_terminal(registry, *vertical, *widget_id, *term_id, *new_widget_id)
            },
            SplitEvent::SplitTerminalClose(term_id, widget_id) => self.split_terminal_close(
                registry,
                *term_id,
                *widget_id,
            ),
            SplitEvent::InitTerminalPanel(focus, term_id, widget_id) => self.init_terminal_panel(
                registry,
                *focus,
                *term_id,
                *widget_id,
            ),
            SplitEvent::Other => Vec::new(),
        }
    }
}

impl PaneContent {
    /// Whether the content is, or holds somewhere inside, the container
    /// with identity `target`.
    pub fn contains_split(&self, target: u64) -> (holds: bool)
        ensures
            holds == self@.holds_split(target),
        decreases self, 0int,
    {
        match self {
            PaneContent::Leaf(_) => false,
            PaneContent::Nested(inner) => inner.contains_split(target),
        }
    }
}

impl LapceSplitNew {
    /// The index of the first pane that holds the container with identity
    /// `target`, if a pane does.
    fn find_holder(&self, target: u64) -> (found: Option<usize>)
        ensures
            match found {
                Some(k) => k == self@.holder_from(target, 0) && k < self@.children.len(),
                None => self@.holder_from(target, 0) == self@.children.len(),
            },
        decreases self, 1int,
    {
        proof {
            self.lemma_fields();
        }
        let ghost view = self@;
        let n: usize = self.children.len();
        let mut i: usize = 0;
        while i < n
            invariant
                i <= n,
                n == self.children@.len(),
                view == self@,
                view.children.len() == n,
                view.holder_from(target, 0) == view.holder_from(target, i as int),
            decreases n - i,
        {
            proof {
                self.lemma_fields();
            }
            if self.children[i].widget.contains_split(target) {
                return Some(i);
            }
            i = i + 1;
        }
        None
    }

    /// Whether this is, or holds somewhere inside, the container with
    /// identity `target`.
    pub fn contains_split(&self, target: u64) -> (holds: bool)
        ensures
            holds == self@.holds_split(target),
        decreases self, 2int,
    {
        proof {
            self.lemma_fields();
        }
        self.split_id == target || self.find_holder(target).is_some()
    }

    /// Sends `event` to the container with identity `target`, which may be
    /// this one or one inside it, as [`crate::split::SplitView::route`]
    /// says. Where there is no such container, nothing happens.
    pub fn dispatch(
        &mut self,
        registry: &mut PaneRegistry,
        target: u64,
        event: &SplitEvent,
    ) -> (effects: Vec<SplitEffect>)
        ensures
            final(self)@ == old(self)@.route(old(registry)@, target, *event).split,
            final(registry)@ == old(self)@.route(old(registry)@, target, *event).registry,
            effects@ == old(self)@.route(old(registry)@, target, *event).effects,
            old(self)@.wf() ==> final(self)@.wf(),
        decreases *old(self),
    {
        proof {
            self.lemma_fields();
            if self@.wf() {
                lemma_route_keeps_wf(self@, registry@, target, *event);
            }
        }
        if self.split_id == target {
            return self.event(registry, event);
        }
        let k: usize = match self.find_holder(target) {
            None => {
                return Vec::new();
            },
            Some(k) => k,
        };
        proof {
            crate::transition::lemma_holder_from(self@, target, 0);
            broadcast use vstd::std_specs::vec::axiom_vec_index_decreases;
            assert(decreases_to!(*old(self) => old(self).children[k as int]));
        }
        let ghost before = self@;
        let child = &mut self.children[k];
        let effects = match &mut child.widget {
            PaneContent::Nested(inner) => inner.dispatch(registry, target, event),
            PaneContent::Leaf(_) => Vec::new(),
        };
        proof {
            self.lemma_fields();
            assert(self@.children =~= before.route(old(registry)@, target, *event).split.children);
        }
        effects
    }
}

} // verus!
