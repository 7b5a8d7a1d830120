//! What a split container draws: the list of commands where it is empty,
//! its panes and the dividers between them where it is not.

use vstd::prelude::*;
use crate::empty_state::{keys_origin, keys_origin_spec, logo_rect, logo_rect_spec, EntryView};
use crate::geometry::{Line, Point, Rect, Size};
use crate::split::{LapceSplitNew, SplitDirection, SplitView};

verus! {

/// One step of drawing a split container.
#[derive(Clone, Copy, Debug, PartialEq, Eq, Structural)]
pub enum PaintOp {
    /// Fill the rectangle with the background of an editor.
    Background(Rect),
    /// Draw the logo into the rectangle, dimmed.
    Logo(Rect),
    /// Draw the description of the command at this index of the list, from
    /// this point.
    Label(usize, Point),
    /// Draw the key binding of the command at this index of the list, from
    /// this point.
    Keys(usize, Point),
    /// Draw the pane at this index, in its rectangle.
    Child(usize),
    /// Draw a divider along this line.
    Divider(Line),
}

/// The divider in front of pane `k` in a container of size `size`: from
/// edge to edge, where the rectangle of the pane starts.
pub open spec fn divider(split: SplitView, size: Size, k: int) -> Line {
    let origin = split.children[k].layout_rect.origin;
    match split.direction {
        SplitDirection::Vertical => Line {
            p0: Point { x: origin.x, y: 0 },
            p1: Point { x: origin.x, y: size.height as i64 },
        },
        SplitDirection::Horizontal => Line {
            p0: Point { x: 0, y: origin.y },
            p1: Point { x: size.width as i64, y: origin.y },
        },
    }
}

/// The dividers of a container of size `size`: one in front of every pane
/// but the first.
pub open spec fn dividers(split: SplitView, size: Size) -> Seq<Line> {
    if split.children.len() <= 1 {
        Seq::empty()
    } else {
        Seq::new((split.children.len() - 1) as nat, |j: int| divider(split, size, j + 1))
    }
}

/// The drawing of the list of commands: for every command its description
/// and then its key binding.
pub open spec fn entry_ops(entries: Seq<EntryView>) -> Seq<PaintOp> {
    Seq::new(
        2 * entries.len(),
        |j: int|
            if j % 2 == 0 {
                PaintOp::Label((j / 2) as usize, entries[j / 2].rect.origin)
            } else {
                PaintOp::Keys((j / 2) as usize, keys_origin_spec(entries[j / 2].rect))
            },
    )
}

/// The drawing of a container of size `size`.
///
/// An empty container draws its background, the logo and the list of
/// commands. Any other draws its panes in order and then, where it shows
/// borders, the dividers.
pub open spec fn painting(split: SplitView, size: Size) -> Seq<PaintOp> {
    if split.children.len() == 0 {
        seq![
            PaintOp::Background(Rect { origin: Point::spec_zero(), size }),
            PaintOp::Logo(logo_rect_spec(size)),
        ] + entry_ops(split.commands)
    } else {
        Seq::new(split.children.len(), |k: int| PaintOp::Child(k as usize)) + if split.show_border {
            Seq::new(
                dividers(split, size).len(),
                |j: int| PaintOp::Divider(dividers(split, size)[j]),
            )
        } else {
            Seq::empty()
        }
    }
}

impl LapceSplitNew {
    /// The dividers of the container at size `size`.
    pub fn paint_bar(&self, size: Size) -> (lines: Vec<Line>)
        ensures
            lines@ == dividers(self@, size),
    {
        proof {
            self.lemma_fields();
        }
        let mut lines: Vec<Line> = Vec::new();
        let children_len: usize = self.children.len();
        if children_len <= 1 {
            assert(lines@ =~= dividers(self@, size));
            return lines;
        }
        let mut i: usize = 1;
        while i < children_len
            invariant
                1 <= i <= children_len,
                children_len == self.children@.len(),
                lines@.len() == i - 1,
                forall|j: int| 0 <= j < i - 1 ==> lines@[j] == divider(self@, size, j + 1),
            decreases children_len - i,
        {
            proof {
                self.lemma_fields();
            }
            let origin = self.children[i].layout_rect.origin;
            let line = match self.direction {
                SplitDirection::Vertical => Line {
                    p0: Point::new(origin.x, 0),
                    p1: Point::new(origin.x, size.height as i64),
                },
                SplitDirection::Horizontal => Line {
                    p0: Point::new(0, origin.y),
                    p1: Point::new(size.width as i64, origin.y),
                },
            };
            lines.push(line);
            i = i + 1;
        }
        assert(lines@ =~= dividers(self@, size));
        lines
    }

    /// The drawing of the container at size `size`, step by step.
    pub fn paint(&self, size: Size) -> (ops: Vec<PaintOp>)
        requires
            self@.wf(),
        ensures
            ops@ == painting(self@, size),
    {
        proof {
            self.lemma_fields();
        }
        let mut ops: Vec<PaintOp> = Vec::new();
        let n: usize = self.children.len();
        if n == 0 {
            ops.push(PaintOp::Background(Rect::new(Point::zero(), size)));
            ops.push(PaintOp::Logo(logo_rect(size)));
            let ghost head = ops@;
            let ghost entries = self@.commands;
            let count: usize = self.commands.len();
            let mut i: usize = 0;
            while i < count
                invariant
                    i <= count,
                    count == self.commands@.len(),
                    entries == self@.commands,
                    entries.len() == count,
                    self@.wf(),
                    forall|j: int|
                        0 <= j < count ==> (#[trigger] self.commands@[j])@ == entries[j],
                    ops@.len() == 2 + 2 * i,
                    head.len() == 2,
                    forall|k: int| 0 <= k < 2 ==> ops@[k] == head[k],
                    forall|k: int|
                        2 <= k < 2 + 2 * i ==> ops@[k] == entry_ops(entries)[k - 2],
                decreases count - i,
            {
                let rect = self.commands[i].rect;
                assert(self.commands@[i as int]@ == entries[i as int]);
                assert(entries[i as int].rect.origin.x <= u32::MAX);
                ops.push(PaintOp::Label(i, rect.origin));
                ops.push(PaintOp::Keys(i, keys_origin(rect)));
                i = i + 1;
            }
            assert(ops@ =~= head + entry_ops(entries));
            return ops;
        }
        let mut i: usize = 0;
        while i < n
            invariant
                i <= n,
                ops@.len() == i,
                forall|k: int| 0 <= k < i ==> ops@[k] == PaintOp::Child(k as usize),
            decreases n - i,
        {
            ops.push(PaintOp::Child(i));
            i = i + 1;
        }
        let ghost panes = ops@;
        if self.show_border {
            let lines = self.paint_bar(size);
            let count: usize = lines.len();
            let mut j: usize = 0;
            while j < count
                invariant
                    j <= count,
                    count == lines@.len(),
                    ops@.len() == n + j,
                    panes.len() == n,
                    forall|k: int| 0 <= k < n ==> ops@[k] == panes[k],
                    forall|k: int| n <= k < n + j ==> ops@[k] == PaintOp::Divider(lines@[k - n]),
                decreases count - j,
            {
                ops.push(PaintOp::Divider(lines[j]));
                j = j + 1;
            }
            proof {
                self.lemma_fields();
                let shown = Seq::new(
                    dividers(self@, size).len(),
                    |j: int| PaintOp::Divider(dividers(self@, size)[j]),
                );
                assert(ops@ =~= panes + shown);
                assert(panes =~= Seq::new(self@.children.len(), |k: int| PaintOp::Child(k as usize)));
            }
        } else {
            proof {
                self.lemma_fields();
                assert(ops@ =~= panes + Seq::<PaintOp>::empty());
                assert(panes =~= Seq::new(self@.children.len(), |k: int| PaintOp::Child(k as usize)));
            }
        }
        ops
    }
}

} // verus!
