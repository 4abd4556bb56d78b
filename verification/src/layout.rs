use vstd::prelude::*;
use crate::backend::Size;

verus! {

/// The rectangle and offset state handed to a widget for one render pass.
///
/// A fresh `Layout` is created by the runner for every render; it is passed by
/// value so that siblings cannot leak offset mutations into each other. The
/// indent (`offset_x`) is additive and restored by the caller after a nested
/// render.
#[derive(Clone, Copy, Debug, PartialEq, Eq, Structural)]
pub struct Layout {
    /// Column at which the first rendered line starts (after any prompt text
    /// already on that line).
    pub line_offset: u16,
    /// Horizontal indent applied to every rendered line.
    pub offset_x: u16,
    /// Screen row on which the widget's first line sits.
    pub offset_y: u16,
    /// Available width, in columns.
    pub width: u16,
    /// Available height, in rows.
    pub height: u16,
}

impl Layout {
    /// A layout is only handed to widgets while its offsets stay inside the
    /// available rectangle.
    pub open spec fn wf(self) -> bool {
        &&& 1 <= self.width
        &&& 1 <= self.height
        &&& self.offset_x < self.width
        &&& self.line_offset < self.width
        &&& self.offset_y < self.height
    }

    pub fn new(line_offset: u16, size: Size) -> (l: Layout)
        requires
            1 <= size.width,
            1 <= size.height,
            line_offset < size.width,
        ensures
            l == (Layout {
                line_offset,
                offset_x: 0,
                offset_y: 0,
                width: size.width,
                height: size.height,
            }),
            l.wf(),
    {
        Layout { line_offset, offset_x: 0, offset_y: 0, width: size.width, height: size.height }
    }

    pub fn with_offset(self, offset_x: u16, offset_y: u16) -> (l: Layout)
        requires
            offset_x < self.width,
            offset_y < self.height,
        ensures
            l == (Layout { offset_x, offset_y, ..self }),
    {
        Layout { offset_x, offset_y, ..self }
    }

    pub fn with_line_offset(self, line_offset: u16) -> (l: Layout)
        requires
            line_offset < self.width,
        ensures
            l == (Layout { line_offset, ..self }),
    {
        Layout { line_offset, ..self }
    }
}

} // verus!
