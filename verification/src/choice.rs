use vstd::prelude::*;
use crate::backend::{Backend, Color};
use crate::error::ErrorKind;
use crate::events::KeyEvent;
use crate::layout::Layout;
use crate::select::{List, ListSpec};
use crate::symbols;
use crate::widget::{Widget, WidgetSpec};
use crate::widgets::{no_line_breaks, start_col, write_line_capped, Text};

verus! {

/// A possible choice in a list.
#[derive(Clone, Debug)]
pub enum Choice<T> {
    /// The main variant which represents a choice the user can pick from.
    Choice(T),
    /// A separator is a single line of text that can be used to annotate other
    /// lines. It is not selectable and is skipped over when users navigate.
    /// Anything past its first line is cut off.
    Separator(String),
    /// A separator which prints a horizontal rule.
    DefaultSeparator,
}

impl<T> Choice<T> {
    /// Maps a `Choice<T>` to a `Choice<U>` by applying a function to the
    /// contained [`Choice::Choice`], if any.
    pub fn map<U, F: FnOnce(T) -> U>(self, f: F) -> (r: Choice<U>)
        requires
            self matches Choice::Choice(t) ==> f.requires((t,)),
        ensures
            ({
                match self {
                    Choice::Choice(t) => r matches Choice::Choice(u) && f.ensures((t,), u),
                    Choice::Separator(s) => r matches Choice::Separator(rs) && rs == s,
                    Choice::DefaultSeparator => r is DefaultSeparator,
                }
            }),
    {
        match self {
            Choice::Choice(c) => Choice::Choice(f(c)),
            Choice::Separator(s) => Choice::Separator(s),
            Choice::DefaultSeparator => Choice::DefaultSeparator,
        }
    }

    /// Returns `true` if the choice is a separator.
    pub fn is_separator(&self) -> (r: bool)
        ensures
            r == !(self is Choice),
    {
        match self {
            Choice::Choice(_) => false,
            Choice::Separator(_) => true,
            Choice::DefaultSeparator => true,
        }
    }

    /// Converts `&Choice<T>` to `Choice<&T>`.
    ///
    /// This will clone the [`Choice::Separator`]'s text, if any.
    pub fn as_ref(&self) -> (r: Choice<&T>)
        ensures
            ({
                match *self {
                    Choice::Choice(ref t) => r matches Choice::Choice(u) && u == t,
                    Choice::Separator(s) => r matches Choice::Separator(rs) && rs == s,
                    Choice::DefaultSeparator => r is DefaultSeparator,
                }
            }),
    {
        match self {
            Choice::Choice(t) => Choice::Choice(t),
            Choice::Separator(s) => Choice::Separator(s.clone()),
            Choice::DefaultSeparator => Choice::DefaultSeparator,
        }
    }

    /// Converts `&mut Choice<T>` to `Choice<&mut T>`.
    ///
    /// This will clone the [`Choice::Separator`]'s text, if any.
    pub fn as_mut(&mut self) -> (r: Choice<&mut T>)
        ensures
            (*old(self) matches Choice::Choice(t) ==> (r matches Choice::Choice(u) && *u == t
                && *final(self) == Choice::Choice(*final(u)))),
            (*old(self) matches Choice::Separator(s) ==> (r matches Choice::Separator(rs) && rs
                == s) && *final(self) == *old(self)),
            *old(self) is DefaultSeparator ==> r is DefaultSeparator && *final(self) == *old(self),
    {
        match self {
            Choice::Choice(t) => Choice::Choice(t),
            Choice::Separator(s) => Choice::Separator(s.clone()),
            Choice::DefaultSeparator => Choice::DefaultSeparator,
        }
    }

    /// Returns the contained [`Choice::Choice`] value, consuming `self`.
    /// Only separator-free choices can be unwrapped.
    pub fn unwrap_choice(self) -> (r: T)
        requires
            self is Choice,
        ensures
            self matches Choice::Choice(t) && r == t,
    {
        match self {
            Choice::Choice(c) => c,
            Choice::Separator(_) => unreached(),
            Choice::DefaultSeparator => unreached(),
        }
    }
}

/// The glyph line a default separator renders as.
pub open spec fn default_sep_chars() -> Seq<char> {
    "\u{2500}\u{2500}\u{2500}\u{2500}\u{2500}\u{2500}\u{2500}\u{2500}\u{2500}\u{2500}\u{2500}\u{2500}\u{2500}\u{2500}"@
}

/// The text a separator renders: its own, or the horizontal rule.
pub(crate) fn get_sep_str<T>(separator: &Choice<T>) -> (r: &str)
    requires
        !(separator is Choice),
    ensures
        separator matches Choice::Separator(s) ==> r@ == s@,
        separator is DefaultSeparator ==> r@ == default_sep_chars(),
{
    match separator {
        Choice::Choice(_) => unreached(),
        Choice::Separator(s) => s.as_str(),
        Choice::DefaultSeparator => "\u{2500}\u{2500}\u{2500}\u{2500}\u{2500}\u{2500}\u{2500}\u{2500}\u{2500}\u{2500}\u{2500}\u{2500}\u{2500}\u{2500}",
    }
}

impl<T: WidgetSpec> WidgetSpec for Choice<T> {
    open spec fn wf(&self) -> bool {
        match *self {
            Choice::Choice(ref t) => t.wf(),
            Choice::Separator(_) => true,
            Choice::DefaultSeparator => true,
        }
    }

    open spec fn spec_height(&self, layout: Layout) -> u16 {
        match *self {
            Choice::Choice(ref t) => t.spec_height(layout),
            Choice::Separator(_) => 1,
            Choice::DefaultSeparator => 1,
        }
    }

    proof fn height_bounds(&self, layout: Layout) {
        match *self {
            Choice::Choice(ref t) => t.height_bounds(layout),
            _ => {},
        }
    }

    proof fn height_ignores_position(&self, a: Layout, b: Layout) {
        match *self {
            Choice::Choice(ref t) => t.height_ignores_position(a, b),
            _ => {},
        }
    }
}

impl<T: Widget<B>, B: Backend> Widget<B> for Choice<T> {
    fn height(&self, layout: Layout) -> (h: u16) {
        match self {
            Choice::Choice(c) => c.height(layout),
            _ => 1,
        }
    }

    fn render(&self, layout: Layout, b: &mut B) -> (r: Result<(), ErrorKind>) {
        match self {
            Choice::Choice(c) => c.render(layout, b),
            sep => {
                let start = start_col(layout);
                b.move_cursor_to(start, layout.offset_y)?;
                let avail = (layout.width - 1 - start) as usize;
                write_line_capped(b, get_sep_str(sep), avail)
            },
        }
    }

    fn handle_key(&mut self, key: KeyEvent) -> (changed: bool) {
        match self {
            Choice::Choice(c) => c.handle_key(key),
            _ => false,
        }
    }

    /// A separator never hosts the cursor; it reports its first column.
    fn cursor_pos(&self, layout: Layout) -> (pos: (u16, u16)) {
        match self {
            Choice::Choice(c) => c.cursor_pos(layout),
            _ => {
                proof {
                    self.height_bounds(layout);
                }
                (start_col(layout), 0)
            },
        }
    }
}

/// An ordered sequence of choices interleaved with separators, together with
/// the default index, page size and wraparound policy of the prompt that owns
/// it. Only [`Choice::Choice`] entries are navigable.
#[derive(Clone, Debug)]
pub struct ChoiceList<T> {
    /// The entries themselves. Builders push into this directly.
    pub choices: Vec<Choice<T>>,
    pub page_size: usize,
    pub default: usize,
    // The default is not an `Option<usize>` so the flag stays separate from
    // the index.
    pub has_default: bool,
    pub should_loop: bool,
}

impl<T> ChoiceList<T> {
    /// A page always spans at least five rows, and few enough that row
    /// arithmetic on a 16-bit terminal cannot overflow.
    pub open spec fn page_wf(&self) -> bool {
        5 <= self.spec_page_size() <= 4096
    }

    pub open spec fn spec_choices(&self) -> Seq<Choice<T>> {
        self.choices@
    }

    pub open spec fn spec_page_size(&self) -> usize {
        self.page_size
    }

    pub open spec fn spec_default(&self) -> Option<usize> {
        if self.has_default {
            Some(self.default)
        } else {
            None
        }
    }

    pub open spec fn spec_should_loop(&self) -> bool {
        self.should_loop
    }

    pub fn len(&self) -> (n: usize)
        ensures
            n == self.spec_choices().len(),
    {
        self.choices.len()
    }

    /// The configured default index, if one was set.
    pub fn default_index(&self) -> (d: Option<usize>)
        ensures
            d == self.spec_default(),
    {
        if self.has_default {
            Some(self.default)
        } else {
            None
        }
    }

    pub fn page_size(&self) -> (p: usize)
        ensures
            p == self.spec_page_size(),
    {
        self.page_size
    }

    pub fn should_loop(&self) -> (b: bool)
        ensures
            b == self.spec_should_loop(),
    {
        self.should_loop
    }

    /// Set the default index. Whether it references a selectable entry is the
    /// builder's responsibility, checked where the list is turned into a
    /// running prompt.
    pub fn set_default(&mut self, default: usize)
        ensures
            final(self).spec_default() == Some(default),
            final(self).spec_choices() == old(self).spec_choices(),
            final(self).spec_page_size() == old(self).spec_page_size(),
            final(self).spec_should_loop() == old(self).spec_should_loop(),
    {
        self.default = default;
        self.has_default = true;
    }

    /// Set the page size: at least five rows, and small enough for row
    /// arithmetic on a 16-bit terminal.
    pub fn set_page_size(&mut self, page_size: usize)
        requires
            5 <= page_size <= 4096,
        ensures
            final(self).spec_page_size() == page_size,
            final(self).spec_choices() == old(self).spec_choices(),
            final(self).spec_default() == old(self).spec_default(),
            final(self).spec_should_loop() == old(self).spec_should_loop(),
            final(self).page_wf(),
    {
        self.page_size = page_size;
    }

    pub fn set_should_loop(&mut self, should_loop: bool)
        ensures
            final(self).spec_should_loop() == should_loop,
            final(self).spec_choices() == old(self).spec_choices(),
            final(self).spec_default() == old(self).spec_default(),
            final(self).spec_page_size() == old(self).spec_page_size(),
    {
        self.should_loop = should_loop;
    }

    /// Append one choice.
    pub fn push(&mut self, choice: Choice<T>)
        ensures
            final(self).spec_choices() == old(self).spec_choices().push(choice),
            final(self).spec_default() == old(self).spec_default(),
            final(self).spec_page_size() == old(self).spec_page_size(),
            final(self).spec_should_loop() == old(self).spec_should_loop(),
    {
        self.choices.push(choice);
    }

    pub fn get(&self, i: usize) -> (c: &Choice<T>)
        requires
            i < self.spec_choices().len(),
        ensures
            *c == self.spec_choices()[i as int],
    {
        &self.choices[i]
    }
}

impl<T> Default for ChoiceList<T> {
    /// An empty list: fifteen rows per page, no default, wrapping navigation.
    fn default() -> (c: ChoiceList<T>)
        ensures
            c.spec_choices().len() == 0,
            c.spec_page_size() == 15,
            c.spec_default() is None,
            c.spec_should_loop(),
            c.page_wf(),
    {
        ChoiceList {
            choices: Vec::new(),
            page_size: 15,
            default: 0,
            has_default: false,
            should_loop: true,
        }
    }
}

impl ListSpec for ChoiceList<Text> {
    closed spec fn wf(&self) -> bool {
        &&& self.page_wf()
        &&& forall|i: int| 0 <= i < self.choices@.len() ==> (#[trigger] self.choices@[i]).wf()
    }

    closed spec fn spec_len(&self) -> usize {
        self.choices.len()
    }

    closed spec fn spec_selectable(&self, i: int) -> bool {
        self.choices@[i] is Choice
    }

    closed spec fn spec_page_size(&self) -> usize {
        self.page_size
    }

    closed spec fn spec_should_loop(&self) -> bool {
        self.should_loop
    }

    closed spec fn spec_height_at(&self, i: int) -> u16 {
        1
    }

    proof fn list_bounds(&self) {
    }

    fn len(&self) -> (n: usize) {
        self.choices.len()
    }

    fn is_selectable(&self, i: usize) -> (r: bool) {
        !self.choices[i].is_separator()
    }

    fn page_size(&self) -> (p: usize) {
        self.page_size
    }

    fn should_loop(&self) -> (b: bool) {
        self.should_loop
    }

    fn height_at(&self, i: usize) -> (h: u16) {
        1
    }
}

impl<B: Backend> List<B> for ChoiceList<Text> {
    /// One list row: a hover marker (or the dimming of a separator), then the
    /// entry itself, indented past the marker.
    fn render_item(&self, i: usize, hovered: bool, layout: Layout, b: &mut B) -> (r: Result<
        (),
        ErrorKind,
    >) {
        b.move_cursor_to(layout.offset_x, layout.offset_y)?;
        let entry = &self.choices[i];
        if hovered {
            b.set_fg(Color::Cyan)?;
            b.write_char(symbols::ARROW)?;
            b.write_char(' ')?;
        } else {
            proof {
                reveal_strlit("  ");
            }
            b.write_text("  ")?;
            if entry.is_separator() {
                b.set_fg(Color::DarkGrey)?;
            }
        }
        let indented = if (layout.offset_x as u32) + 2 < layout.width as u32 {
            Layout { offset_x: layout.offset_x + 2, ..layout }
        } else {
            layout
        };
        entry.render(indented, b)?;
        b.set_fg(Color::Reset)
    }
}

} // verus!
