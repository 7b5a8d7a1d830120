//! What a split container without children shows: a short list of commands,
//! each with the text of its key binding, stacked below the centre of the
//! container.

use vstd::prelude::*;
use crate::command::{
    command_views, empty_editor_command_views, empty_editor_commands, CommandView, LapceCommandNew,
};
use crate::geometry::{Point, Rect, Size};
use crate::keypress::{binding_label, binding_text, keymap_views, KeyMap, KeyMapView, Platform};

verus! {

/// The distance from the centre of the container down to the first command.
pub const COMMANDS_OFFSET: u32 = 40;

/// The gap between a command's description and the text of its key binding.
pub const KEYS_GAP: u32 = 20;

/// Half the side of the square that holds the logo.
pub const LOGO_SIZE: u32 = 100;

/// What the layout of an empty container depends on.
#[derive(Debug)]
pub struct EmptyStateEnv {
    /// Whether modal editing is on.
    pub modal: bool,
    /// Whether a workspace folder is open.
    pub has_workspace: bool,
    /// The height of one line of the list.
    pub line_height: u32,
    /// Decides the name of the meta key.
    pub platform: Platform,
    /// The key bindings, in the order in which they are searched.
    pub keymaps: Vec<KeyMap>,
    /// The measured size of each command's description, in the order of
    /// [`empty_editor_commands`]. A description without a size counts as
    /// empty.
    pub label_sizes: Vec<Size>,
}

/// An [`EmptyStateEnv`] as plain values.
pub struct EnvView {
    pub modal: bool,
    pub has_workspace: bool,
    pub line_height: u32,
    pub platform: Platform,
    pub keymaps: Seq<KeyMapView>,
    pub label_sizes: Seq<Size>,
}

impl View for EmptyStateEnv {
    type V = EnvView;

    open spec fn view(&self) -> EnvView {
        EnvView {
            modal: self.modal,
            has_workspace: self.has_workspace,
            line_height: self.line_height,
            platform: self.platform,
            keymaps: keymap_views(self.keymaps@),
            label_sizes: self.label_sizes@,
        }
    }
}

/// One line of the list: the command, the rectangle of its description, and
/// the text of its key binding.
#[derive(Debug, PartialEq, Eq)]
pub struct CommandEntry {
    pub command: LapceCommandNew,
    pub rect: Rect,
    pub keys: String,
}

/// A [`CommandEntry`] as plain values.
pub struct EntryView {
    pub command: CommandView,
    pub rect: Rect,
    pub keys: Seq<char>,
}

impl View for CommandEntry {
    type V = EntryView;

    open spec fn view(&self) -> EntryView {
        EntryView { command: self.command@, rect: self.rect, keys: self.keys@ }
    }
}

/// The views of a sequence of entries, in order.
pub open spec fn entry_views(entries: Seq<CommandEntry>) -> Seq<EntryView> {
    Seq::new(entries.len(), |i: int| entries[i]@)
}

/// The rectangles of a sequence of entries, in order.
pub open spec fn entry_rects(entries: Seq<EntryView>) -> Seq<Rect> {
    Seq::new(entries.len(), |i: int| entries[i].rect)
}

impl EnvView {
    /// The size of the `i`-th description: as measured, or empty where no
    /// size was given.
    pub open spec fn label_size(self, i: int) -> Size {
        if 0 <= i < self.label_sizes.len() {
            self.label_sizes[i]
        } else {
            Size::spec_zero()
        }
    }

    /// The rectangle of the `i`-th description in a container of size
    /// `avail`: its right edge on the vertical centre line, its top
    /// `COMMANDS_OFFSET` and `i` lines below the horizontal one.
    pub open spec fn label_rect(self, avail: Size, i: int) -> Rect {
        Rect {
            origin: Point {
                x: (avail.width / 2 - self.label_size(i).width) as i64,
                y: (avail.height / 2 + COMMANDS_OFFSET + self.line_height * i) as i64,
            },
            size: self.label_size(i),
        }
    }

    /// The `i`-th line of the list in a container of size `avail`.
    pub open spec fn entry(self, avail: Size, i: int) -> EntryView {
        let command = empty_editor_command_views(self.modal, self.has_workspace)[i];
        EntryView {
            command,
            rect: self.label_rect(avail, i),
            keys: binding_text(self.keymaps, command.cmd, self.platform),
        }
    }

    /// The whole list in a container of size `avail`.
    pub open spec fn entries(self, avail: Size) -> Seq<EntryView> {
        Seq::new(
            empty_editor_command_views(self.modal, self.has_workspace).len(),
            |i: int| self.entry(avail, i),
        )
    }
}

/// The index of the first rectangle at or after `from` that holds `p`, or
/// the number of rectangles where none does.
pub open spec fn first_hit_from(rects: Seq<Rect>, p: Point, from: int) -> int
    decreases rects.len() - from,
{
    if from < 0 || from >= rects.len() {
        rects.len() as int
    } else if rects[from].spec_contains(p) {
        from
    } else {
        first_hit_from(rects, p, from + 1)
    }
}

/// The index of the first rectangle that holds `p`, or the number of
/// rectangles where none does.
pub open spec fn first_hit(rects: Seq<Rect>, p: Point) -> int {
    first_hit_from(rects, p, 0)
}

/// The square that holds the logo in a container of size `size`: it sits on
/// the horizontal centre line, centred from left to right.
pub open spec fn logo_rect_spec(size: Size) -> Rect {
    Rect {
        origin: Point {
            x: (size.width / 2 - LOGO_SIZE) as i64,
            y: (size.height / 2 - 2 * LOGO_SIZE) as i64,
        },
        size: Size { width: (2 * LOGO_SIZE) as u32, height: (2 * LOGO_SIZE) as u32 },
    }
}

/// Where the text of an entry's key binding starts: `KEYS_GAP` right of the
/// description, on the same line.
pub open spec fn keys_origin_spec(rect: Rect) -> Point {
    Point { x: (rect.origin.x + KEYS_GAP + rect.size.width) as i64, y: rect.origin.y }
}

/// The list of commands of an empty container of size `avail`.
pub fn empty_state_commands(avail: Size, env: &EmptyStateEnv) -> (entries: Vec<CommandEntry>)
    ensures
        entry_views(entries@) == env@.entries(avail),
{
    let cmds = empty_editor_commands(env.modal, env.has_workspace);
    let ghost views = empty_editor_command_views(env.modal, env.has_workspace);
    assert(cmds@.len() == command_views(cmds@).len());
    let n: usize = cmds.len();
    let mut entries: Vec<CommandEntry> = Vec::new();
    let mut i: usize = 0;
    while i < n
        invariant
            i <= n,
            n == cmds@.len(),
            n <= 4,
            views == empty_editor_command_views(env.modal, env.has_workspace),
            command_views(cmds@) == views,
            entries@.len() == i,
            forall|j: int| 0 <= j < i ==> (#[trigger] entries@[j])@ == env@.entry(avail, j),
        decreases n - i,
    {
        let label: Size = if i < env.label_sizes.len() {
            env.label_sizes[i]
        } else {
            Size::zero()
        };
        let x: i64 = (avail.width / 2) as i64 - label.width as i64;
        assert(0 <= (env.line_height as i64) * (i as i64) <= 0xFFFF_FFFF * 4) by (nonlinear_arith)
            requires
                0 <= env.line_height <= 0xFFFF_FFFF,
                0 <= i < 4,
        ;
        let y: i64 = (avail.height / 2) as i64 + COMMANDS_OFFSET as i64 + (env.line_height as i64)
            * (i as i64);
        let command = cmds[i].duplicate();
        assert(command@ == command_views(cmds@)[i as int]);
        let keys = binding_label(&env.keymaps, &command.cmd, env.platform);
        entries.push(CommandEntry { command, rect: Rect::new(Point::new(x, y), label), keys });
        i = i + 1;
    }
    assert(entry_views(entries@) =~= env@.entries(avail));
    entries
}

/// The index of the first entry whose rectangle holds `p`, if any does.
pub fn hit_entry(entries: &Vec<CommandEntry>, p: Point) -> (hit: Option<usize>)
    ensures
        match hit {
            Some(i) => i == first_hit(entry_rects(entry_views(entries@)), p) && i < entries@.len(),
            None => first_hit(entry_rects(entry_views(entries@)), p) == entries@.len(),
        },
{
    let ghost rects = entry_rects(entry_views(entries@));
    let n: usize = entries.len();
    let mut i: usize = 0;
    while i < n
        invariant
            i <= n,
            n == entries@.len(),
            rects == entry_rects(entry_views(entries@)),
            first_hit(rects, p) == first_hit_from(rects, p, i as int),
        decreases n - i,
    {
        if entries[i].rect.contains(p) {
            return Some(i);
        }
        i = i + 1;
    }
    None
}

/// The square that holds the logo in a container of size `size`.
pub fn logo_rect(size: Size) -> (rect: Rect)
    ensures
        rect == logo_rect_spec(size),
{
    Rect::new(
        Point::new(
            (size.width / 2) as i64 - LOGO_SIZE as i64,
            (size.height / 2) as i64 - 2 * (LOGO_SIZE as i64),
        ),
        Size::new(2 * LOGO_SIZE, 2 * LOGO_SIZE),
    )
}

/// Where the text of the key binding starts for a description in `rect`.
///
/// The sum has to fit: `rect` lies within `i64::MAX - 2^33` of the origin,
/// as every rectangle that a layout computes does.
pub fn keys_origin(rect: Rect) -> (p: Point)
    requires
        rect.origin.x + KEYS_GAP + rect.size.width <= i64::MAX,
    ensures
        p == keys_origin_spec(rect),
{
    Point::new(rect.origin.x + KEYS_GAP as i64 + rect.size.width as i64, rect.origin.y)
}

} // verus!
