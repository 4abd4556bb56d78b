use vstd::prelude::*;
use crate::backend::Backend;
use crate::error::ErrorKind;
use crate::layout::Layout;

verus! {

/// The specification side of the widget contract: what a widget's state means,
/// independently of any backend it may render to.
pub trait WidgetSpec: Sized {
    /// The widget's internal consistency.
    spec fn wf(&self) -> bool;

    /// The number of rows the widget will occupy when rendered into `layout`.
    spec fn spec_height(&self, layout: Layout) -> u16;

    /// A widget that renders anything never reports a height below 1.
    proof fn height_bounds(&self, layout: Layout)
        requires
            self.wf(),
            layout.wf(),
        ensures
            1 <= self.spec_height(layout),
    ;

    /// A widget's height depends on the rectangle it is given, never on where
    /// that rectangle sits on screen.
    proof fn height_ignores_position(&self, a: Layout, b: Layout)
        requires
            self.wf(),
            a.wf(),
            b.wf(),
            a.width == b.width,
            a.height == b.height,
            a.line_offset == b.line_offset,
            a.offset_x == b.offset_x,
        ensures
            self.spec_height(a) == self.spec_height(b),
    ;
}

/// The capability every renderable unit implements.
///
/// The central promise is height/render consistency: `render` occupies exactly
/// the rows that `height` declared for an equivalent layout. The runner relies
/// on it for all row and scrollback bookkeeping, so it is stated once here and
/// proved by every implementation:
/// a widget whose first line sits on row `layout.offset_y` leaves the cursor
/// on row `layout.offset_y + height - 1`, its last rendered row.
///
/// Side effects go strictly through the passed-in backend; a widget never
/// queries global terminal state itself and receives its size and position
/// through the layout alone.
pub trait Widget<B: Backend>: WidgetSpec {
    /// Report the vertical space a render into `layout` will consume.
    fn height(&self, layout: Layout) -> (h: u16)
        requires
            self.wf(),
            layout.wf(),
        ensures
            h == self.spec_height(layout),
    ;

    /// Draw the widget into `layout` on `b`. The caller has placed the cursor
    /// on the widget's first row and guarantees the declared height fits below
    /// it; on success the cursor is left on the widget's last rendered row.
    fn render(&self, layout: Layout, b: &mut B) -> (r: Result<(), ErrorKind>)
        requires
            self.wf(),
            layout.wf(),
            old(b).inv(),
            old(b).term_size().width == layout.width,
            old(b).term_size().height == layout.height,
            old(b).cursor().1 == layout.offset_y,
            layout.offset_y + self.spec_height(layout) <= layout.height,
        ensures
            r matches Err(e) ==> e == crate::error::ErrorKind::Io,
            final(b).inv(),
            final(b).term_size() == old(b).term_size(),
            final(b).raw_mode() == old(b).raw_mode(),
            final(b).cursor_visible() == old(b).cursor_visible(),
            r is Ok ==> final(b).cursor().1 == layout.offset_y + self.spec_height(layout) - 1,
    ;

    /// Consume one key event. Returns true iff the widget changed in a way
    /// that requires a re-render; when it reports false, nothing changed.
    fn handle_key(&mut self, key: crate::events::KeyEvent) -> (changed: bool)
        requires
            old(self).wf(),
        ensures
            final(self).wf(),
            !changed ==> *final(self) == *old(self),
    ;

    /// Where the cursor belongs, as (absolute column, row relative to the
    /// widget's first row). Only evaluated when the cursor is shown; the
    /// position is always reachable within the layout's rectangle.
    fn cursor_pos(&self, layout: Layout) -> (pos: (u16, u16))
        requires
            self.wf(),
            layout.wf(),
        ensures
            pos.0 < layout.width,
            pos.1 < self.spec_height(layout),
    ;
}

} // verus!
