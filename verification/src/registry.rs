//! The pane registry: the state of each pane by its identity, and the order
//! of the panes as the rest of the application sees it.
//!
//! A split container keeps the order list in step with its own children on
//! every operation that changes them.

use std::collections::HashMap;
use vstd::prelude::*;

verus! {

/// What is kept of an editor pane: the document that it shows, the place of
/// the cursor, and how far the view is scrolled.
#[derive(Clone, Copy, Debug, PartialEq, Eq, Structural)]
pub struct EditorState {
    pub content: u64,
    pub cursor: u64,
    pub scroll_x: i64,
    pub scroll_y: i64,
}

/// A terminal and the pane that shows it.
#[derive(Clone, Copy, Debug, PartialEq, Eq, Structural)]
pub struct TerminalRef {
    pub widget_id: u64,
    pub term_id: u64,
}

/// The registry of panes.
#[derive(Debug)]
pub struct PaneRegistry {
    editors: HashMap<u64, EditorState>,
    editors_order: Vec<u64>,
    active: Option<u64>,
    terminals: HashMap<u64, u64>,
    active_terminal: Option<TerminalRef>,
    terminal_shown: bool,
}

/// A registry as a mathematical value.
pub struct RegistryView {
    /// The state of each editor pane, by the pane's identity.
    pub editors: Map<u64, EditorState>,
    /// The identities of the panes in their order.
    pub order: Seq<u64>,
    /// The editor pane that was active last.
    pub active: Option<u64>,
    /// The pane of each terminal, by the terminal's identity.
    pub terminals: Map<u64, u64>,
    /// The terminal that was active last, with its pane.
    pub active_terminal: Option<TerminalRef>,
    /// Whether the panel of the terminals is shown.
    pub terminal_shown: bool,
}

/// What is left of `ids` when the identities without a state in `editors`
/// are taken out.
pub open spec fn known_of(editors: Map<u64, EditorState>, ids: Seq<u64>) -> Seq<u64> {
    ids.filter(|id: u64| editors.contains_key(id))
}

impl RegistryView {
    /// The registry that `PaneRegistry::new` makes: nothing in it, the
    /// panel of the terminals shown.
    pub open spec fn empty() -> RegistryView {
        RegistryView {
            editors: Map::empty(),
            order: Seq::empty(),
            active: None,
            terminals: Map::empty(),
            active_terminal: None,
            terminal_shown: true,
        }
    }

    /// Whether the registry holds the state of a pane with identity `id`.
    pub open spec fn tracks(self, id: u64) -> bool {
        self.editors.contains_key(id)
    }

    /// What is left of `ids` when the panes that the registry does not
    /// track are taken out.
    pub open spec fn tracked_of(self, ids: Seq<u64>) -> Seq<u64> {
        known_of(self.editors, ids)
    }
}

impl View for PaneRegistry {
    type V = RegistryView;

    closed spec fn view(&self) -> RegistryView {
        RegistryView {
            editors: self.editors@,
            order: self.editors_order@,
            active: self.active,
            terminals: self.terminals@,
            active_terminal: self.active_terminal,
            terminal_shown: self.terminal_shown,
        }
    }
}

impl PaneRegistry {
    /// A registry with nothing in it.
    pub fn new() -> (registry: PaneRegistry)
        ensures
            registry@ == RegistryView::empty(),
    {
        broadcast use vstd::std_specs::hash::group_hash_axioms;

        let registry = PaneRegistry {
            editors: HashMap::new(),
            editors_order: Vec::new(),
            active: None,
            terminals: HashMap::new(),
            active_terminal: None,
            terminal_shown: true,
        };
        assert(registry@.editors =~= Map::empty());
        assert(registry@.terminals =~= Map::empty());
        assert(registry@.order =~= Seq::empty());
        registry
    }

    /// The state of the pane with identity `id`, if the registry tracks it.
    pub fn get(&self, id: u64) -> (state: Option<EditorState>)
        ensures
            state == if self@.tracks(id) {
                Some(self@.editors[id])
            } else {
                None
            },
    {
        broadcast use vstd::std_specs::hash::group_hash_axioms;

        match self.editors.get(&id) {
            Some(state) => Some(*state),
            None => None,
        }
    }

    /// Whether the registry tracks the pane with identity `id`.
    pub fn contains(&self, id: u64) -> (known: bool)
        ensures
            known == self@.tracks(id),
    {
        broadcast use vstd::std_specs::hash::group_hash_axioms;

        self.editors.contains_key(&id)
    }

    /// Records `state` for the pane with identity `id`.
    pub fn insert(&mut self, id: u64, state: EditorState)
        ensures
            final(self)@ == (RegistryView {
                editors: old(self)@.editors.insert(id, state),
                ..old(self)@
            }),
    {
        broadcast use vstd::std_specs::hash::group_hash_axioms;

        self.editors.insert(id, state);
    }

    /// Forgets the pane with identity `id`.
    pub fn remove(&mut self, id: u64)
        ensures
            final(self)@ == (RegistryView { editors: old(self)@.editors.remove(id), ..old(self)@ }),
    {
        broadcast use vstd::std_specs::hash::group_hash_axioms;

        self.editors.remove(&id);
    }

    /// Replaces the order of the panes.
    pub fn set_order(&mut self, order: Vec<u64>)
        ensures
            final(self)@ == (RegistryView { order: order@, ..old(self)@ }),
    {
        self.editors_order = order;
    }

    /// The identities of the panes in their order.
    pub fn order(&self) -> (order: &Vec<u64>)
        ensures
            order@ == self@.order,
    {
        &self.editors_order
    }

    /// The editor pane that was active last.
    pub fn active(&self) -> (active: Option<u64>)
        ensures
            active == self@.active,
    {
        self.active
    }

    /// Records which editor pane was active last.
    pub fn set_active(&mut self, active: Option<u64>)
        ensures
            final(self)@ == (RegistryView { active, ..old(self)@ }),
    {
        self.active = active;
    }

    /// Records that the pane `widget_id` shows the terminal `term_id`.
    pub fn insert_terminal(&mut self, term_id: u64, widget_id: u64)
        ensures
            final(self)@ == (RegistryView {
                terminals: old(self)@.terminals.insert(term_id, widget_id),
                ..old(self)@
            }),
    {
        broadcast use vstd::std_specs::hash::group_hash_axioms;

        self.terminals.insert(term_id, widget_id);
    }

    /// Forgets the terminal `term_id`.
    pub fn remove_terminal(&mut self, term_id: u64)
        ensures
            final(self)@ == (RegistryView {
                terminals: old(self)@.terminals.remove(term_id),
                ..old(self)@
            }),
    {
        broadcast use vstd::std_specs::hash::group_hash_axioms;

        self.terminals.remove(&term_id);
    }

    /// The pane that shows the terminal `term_id`, if there is such a
    /// terminal.
    pub fn terminal_pane(&self, term_id: u64) -> (pane: Option<u64>)
        ensures
            pane == if self@.terminals.contains_key(term_id) {
                Some(self@.terminals[term_id])
            } else {
                None
            },
    {
        broadcast use vstd::std_specs::hash::group_hash_axioms;

        match self.terminals.get(&term_id) {
            Some(pane) => Some(*pane),
            None => None,
        }
    }

    /// Whether no terminal is recorded.
    pub fn has_no_terminal(&self) -> (none: bool)
        ensures
            none == (self@.terminals.dom().len() == 0),
    {
        broadcast use vstd::std_specs::hash::group_hash_axioms;

        self.terminals.len() == 0
    }

    /// The terminal that was active last, with its pane.
    pub fn active_terminal(&self) -> (active: Option<TerminalRef>)
        ensures
            active == self@.active_terminal,
    {
        self.active_terminal
    }

    /// Records which terminal was active last.
    pub fn set_active_terminal(&mut self, active: Option<TerminalRef>)
        ensures
            final(self)@ == (RegistryView { active_terminal: active, ..old(self)@ }),
    {
        self.active_terminal = active;
    }

    /// Whether the panel of the terminals is shown.
    pub fn terminal_shown(&self) -> (shown: bool)
        ensures
            shown == self@.terminal_shown,
    {
        self.terminal_shown
    }

    /// Shows or hides the panel of the terminals.
    pub fn set_terminal_shown(&mut self, shown: bool)
        ensures
            final(self)@ == (RegistryView { terminal_shown: shown, ..old(self)@ }),
    {
        self.terminal_shown = shown;
    }
}

} // verus!
