use vstd::prelude::*;
use crate::error::ErrorKind;

verus! {

/// A terminal's dimensions, in columns and rows.
#[derive(Clone, Copy, Debug, PartialEq, Eq, Structural)]
pub struct Size {
    pub width: u16,
    pub height: u16,
}

/// The foreground colours the core needs.
#[derive(Clone, Copy, Debug, PartialEq, Eq, Structural)]
pub enum Color {
    Reset,
    Cyan,
    DarkCyan,
    DarkGrey,
    Red,
}

/// The capability contract over a real terminal.
///
/// This is a pure capability surface: no logic lives here. The abstract state
/// (`raw_mode`, `cursor_visible`, `cursor`, `term_size`) models what the
/// terminal driver tracks; every operation may fail when the underlying device
/// is unavailable, and the core propagates such failures without retry.
///
/// On failure an operation promises nothing about the cursor, but it never
/// changes the reported size, raw mode or cursor visibility behind the
/// caller's back: those change only through the calls made for that purpose.
pub trait Backend: Sized {
    /// The implementation's internal consistency; every operation keeps it.
    spec fn inv(&self) -> bool;

    /// Whether raw (unbuffered, non-canonical) input mode is on.
    spec fn raw_mode(&self) -> bool;

    /// Whether the cursor is currently shown.
    spec fn cursor_visible(&self) -> bool;

    /// Current cursor position, as (column, row), 0-based.
    spec fn cursor(&self) -> (u16, u16);

    /// The terminal's dimensions.
    spec fn term_size(&self) -> Size;

    /// A valid backend always reports a non-empty screen and a cursor inside it.
    proof fn inv_properties(&self)
        requires
            self.inv(),
        ensures
            1 <= self.term_size().width,
            1 <= self.term_size().height,
            self.cursor().0 < self.term_size().width,
            self.cursor().1 < self.term_size().height,
    ;

    /// Query the terminal's size.
    fn size(&self) -> (r: Result<Size, ErrorKind>)
        requires
            self.inv(),
        ensures
            r matches Err(e) ==> e == ErrorKind::Io,
            r matches Ok(s) ==> s == self.term_size(),
    ;

    /// Query the current cursor position as (column, row).
    fn get_cursor_pos(&self) -> (r: Result<(u16, u16), ErrorKind>)
        requires
            self.inv(),
        ensures
            r matches Err(e) ==> e == ErrorKind::Io,
            r matches Ok(p) ==> p == self.cursor(),
    ;

    /// Move the cursor to an absolute (column, row).
    fn move_cursor_to(&mut self, col: u16, row: u16) -> (r: Result<(), ErrorKind>)
        requires
            old(self).inv(),
            col < old(self).term_size().width,
            row < old(self).term_size().height,
        ensures
            r matches Err(e) ==> e == ErrorKind::Io,
            final(self).inv(),
            final(self).term_size() == old(self).term_size(),
            final(self).raw_mode() == old(self).raw_mode(),
            final(self).cursor_visible() == old(self).cursor_visible(),
            r is Ok ==> final(self).cursor() == (col, row),
    ;

    /// Move the cursor up by `n` rows, stopping at the top edge.
    fn move_cursor_up(&mut self, n: u16) -> (r: Result<(), ErrorKind>)
        requires
            old(self).inv(),
        ensures
            r matches Err(e) ==> e == ErrorKind::Io,
            final(self).inv(),
            final(self).term_size() == old(self).term_size(),
            final(self).raw_mode() == old(self).raw_mode(),
            final(self).cursor_visible() == old(self).cursor_visible(),
            r is Ok ==> final(self).cursor().0 == old(self).cursor().0
                && final(self).cursor().1 == (if old(self).cursor().1 >= n {
                (old(self).cursor().1 - n) as u16
            } else {
                0u16
            }),
    ;

    /// Clear the screen from the cursor to the bottom; the cursor stays put.
    fn clear_down(&mut self) -> (r: Result<(), ErrorKind>)
        requires
            old(self).inv(),
        ensures
            r matches Err(e) ==> e == ErrorKind::Io,
            final(self).inv(),
            final(self).term_size() == old(self).term_size(),
            final(self).raw_mode() == old(self).raw_mode(),
            final(self).cursor_visible() == old(self).cursor_visible(),
            r is Ok ==> final(self).cursor() == old(self).cursor(),
    ;

    /// Scroll the visible region up by `n` lines; the cursor stays put.
    fn scroll_up(&mut self, n: u16) -> (r: Result<(), ErrorKind>)
        requires
            old(self).inv(),
        ensures
            r matches Err(e) ==> e == ErrorKind::Io,
            final(self).inv(),
            final(self).term_size() == old(self).term_size(),
            final(self).raw_mode() == old(self).raw_mode(),
            final(self).cursor_visible() == old(self).cursor_visible(),
            r is Ok ==> final(self).cursor() == old(self).cursor(),
    ;

    /// Turn raw input mode on.
    fn enable_raw_mode(&mut self) -> (r: Result<(), ErrorKind>)
        requires
            old(self).inv(),
        ensures
            r matches Err(e) ==> e == ErrorKind::Io,
            final(self).inv(),
            final(self).term_size() == old(self).term_size(),
            final(self).cursor_visible() == old(self).cursor_visible(),
            final(self).cursor() == old(self).cursor(),
            r is Ok ==> final(self).raw_mode(),
    ;

    /// Turn raw input mode off.
    fn disable_raw_mode(&mut self) -> (r: Result<(), ErrorKind>)
        requires
            old(self).inv(),
        ensures
            r matches Err(e) ==> e == ErrorKind::Io,
            final(self).inv(),
            final(self).term_size() == old(self).term_size(),
            final(self).cursor_visible() == old(self).cursor_visible(),
            final(self).cursor() == old(self).cursor(),
            r is Ok ==> !final(self).raw_mode(),
    ;

    /// Hide the cursor.
    fn hide_cursor(&mut self) -> (r: Result<(), ErrorKind>)
        requires
            old(self).inv(),
        ensures
            r matches Err(e) ==> e == ErrorKind::Io,
            final(self).inv(),
            final(self).term_size() == old(self).term_size(),
            final(self).raw_mode() == old(self).raw_mode(),
            final(self).cursor() == old(self).cursor(),
            r is Ok ==> !final(self).cursor_visible(),
    ;

    /// Show the cursor.
    fn show_cursor(&mut self) -> (r: Result<(), ErrorKind>)
        requires
            old(self).inv(),
        ensures
            r matches Err(e) ==> e == ErrorKind::Io,
            final(self).inv(),
            final(self).term_size() == old(self).term_size(),
            final(self).raw_mode() == old(self).raw_mode(),
            final(self).cursor() == old(self).cursor(),
            r is Ok ==> final(self).cursor_visible(),
    ;

    /// Write text on the current line. The text must not contain a line
    /// break; writing never leaves the current row.
    fn write_text(&mut self, s: &str) -> (r: Result<(), ErrorKind>)
        requires
            old(self).inv(),
            forall|i: int| 0 <= i < s@.len() ==> s@[i] != '\n',
        ensures
            r matches Err(e) ==> e == ErrorKind::Io,
            final(self).inv(),
            final(self).term_size() == old(self).term_size(),
            final(self).raw_mode() == old(self).raw_mode(),
            final(self).cursor_visible() == old(self).cursor_visible(),
            r is Ok ==> final(self).cursor().1 == old(self).cursor().1,
    ;

    /// Write a single character on the current line; no line breaks.
    fn write_char(&mut self, c: char) -> (r: Result<(), ErrorKind>)
        requires
            old(self).inv(),
            c != '\n',
        ensures
            r matches Err(e) ==> e == ErrorKind::Io,
            final(self).inv(),
            final(self).term_size() == old(self).term_size(),
            final(self).raw_mode() == old(self).raw_mode(),
            final(self).cursor_visible() == old(self).cursor_visible(),
            r is Ok ==> final(self).cursor().1 == old(self).cursor().1,
    ;

    /// Set the foreground colour for subsequent writes.
    fn set_fg(&mut self, color: Color) -> (r: Result<(), ErrorKind>)
        requires
            old(self).inv(),
        ensures
            r matches Err(e) ==> e == ErrorKind::Io,
            final(self).inv(),
            final(self).term_size() == old(self).term_size(),
            final(self).raw_mode() == old(self).raw_mode(),
            final(self).cursor_visible() == old(self).cursor_visible(),
            r is Ok ==> final(self).cursor() == old(self).cursor(),
    ;

    /// Flush any buffered output to the terminal.
    fn flush(&mut self) -> (r: Result<(), ErrorKind>)
        requires
            old(self).inv(),
        ensures
            r matches Err(e) ==> e == ErrorKind::Io,
            final(self).inv(),
            final(self).term_size() == old(self).term_size(),
            final(self).raw_mode() == old(self).raw_mode(),
            final(self).cursor_visible() == old(self).cursor_visible(),
            final(self).cursor() == old(self).cursor(),
    ;
}

/// An in-memory backend that never fails.
///
/// It tracks the abstract terminal state exactly and keeps an append-only log
/// of every character written and of every raw-mode and cursor-visibility
/// request, so tests can observe what a session did to the terminal.
pub struct MemoryBackend {
    pub width: u16,
    pub height: u16,
    pub col: u16,
    pub row: u16,
    pub raw: bool,
    pub visible: bool,
    /// Every character written, in order.
    pub written: Vec<char>,
    /// Every raw-mode request, in order (`true` = enable).
    pub raw_log: Vec<bool>,
    /// Every cursor-visibility request, in order (`true` = show).
    pub visibility_log: Vec<bool>,
    /// Total lines scrolled away.
    pub scrolled: u64,
}

impl MemoryBackend {
    pub fn new(width: u16, height: u16) -> (b: MemoryBackend)
        requires
            1 <= width,
            1 <= height,
        ensures
            b.inv(),
            b.term_size() == (Size { width, height }),
            b.cursor() == (0u16, 0u16),
            !b.raw_mode(),
            b.cursor_visible(),
            b.written@.len() == 0,
            b.raw_log@.len() == 0,
            b.visibility_log@.len() == 0,
    {
        MemoryBackend {
            width,
            height,
            col: 0,
            row: 0,
            raw: false,
            visible: true,
            written: Vec::new(),
            raw_log: Vec::new(),
            visibility_log: Vec::new(),
            scrolled: 0,
        }
    }
}

impl Backend for MemoryBackend {
    closed spec fn inv(&self) -> bool {
        &&& 1 <= self.width
        &&& 1 <= self.height
        &&& self.col < self.width
        &&& self.row < self.height
    }

    closed spec fn raw_mode(&self) -> bool {
        self.raw
    }

    closed spec fn cursor_visible(&self) -> bool {
        self.visible
    }

    closed spec fn cursor(&self) -> (u16, u16) {
        (self.col, self.row)
    }

    closed spec fn term_size(&self) -> Size {
        Size { width: self.width, height: self.height }
    }

    proof fn inv_properties(&self) {
    }

    fn size(&self) -> (r: Result<Size, ErrorKind>) {
        Ok(Size { width: self.width, height: self.height })
    }

    fn get_cursor_pos(&self) -> (r: Result<(u16, u16), ErrorKind>) {
        Ok((self.col, self.row))
    }

    fn move_cursor_to(&mut self, col: u16, row: u16) -> (r: Result<(), ErrorKind>) {
        self.col = col;
        self.row = row;
        Ok(())
    }

    fn move_cursor_up(&mut self, n: u16) -> (r: Result<(), ErrorKind>) {
        if self.row >= n {
            self.row = self.row - n;
        } else {
            self.row = 0;
        }
        Ok(())
    }

    fn clear_down(&mut self) -> (r: Result<(), ErrorKind>) {
        Ok(())
    }

    fn scroll_up(&mut self, n: u16) -> (r: Result<(), ErrorKind>) {
        if self.scrolled <= u64::MAX - n as u64 {
            self.scrolled = self.scrolled + n as u64;
        }
        Ok(())
    }

    fn enable_raw_mode(&mut self) -> (r: Result<(), ErrorKind>) {
        self.raw = true;
        self.raw_log.push(true);
        Ok(())
    }

    fn disable_raw_mode(&mut self) -> (r: Result<(), ErrorKind>) {
        self.raw = false;
        self.raw_log.push(false);
        Ok(())
    }

    fn hide_cursor(&mut self) -> (r: Result<(), ErrorKind>) {
        self.visible = false;
        self.visibility_log.push(false);
        Ok(())
    }

    fn show_cursor(&mut self) -> (r: Result<(), ErrorKind>) {
        self.visible = true;
        self.visibility_log.push(true);
        Ok(())
    }

    fn write_text(&mut self, s: &str) -> (r: Result<(), ErrorKind>) {
        let n = s.unicode_len();
        let mut i: usize = 0;
        while i < n
            invariant
                n == s@.len(),
                i <= n,
                self.width == old(self).width,
                self.height == old(self).height,
                self.col == old(self).col,
                self.row == old(self).row,
                self.raw == old(self).raw,
                self.visible == old(self).visible,
            decreases n - i,
        {
            let c = s.get_char(i);
            self.written.push(c);
            i = i + 1;
        }
        if self.col < self.width - 1 {
            let advance = n < (self.width - 1 - self.col) as usize;
            if advance {
                self.col = self.col + n as u16;
            } else {
                self.col = self.width - 1;
            }
        }
        Ok(())
    }

    fn write_char(&mut self, c: char) -> (r: Result<(), ErrorKind>) {
        self.written.push(c);
        if self.col < self.width - 1 {
            self.col = self.col + 1;
        }
        Ok(())
    }

    fn set_fg(&mut self, color: Color) -> (r: Result<(), ErrorKind>) {
        Ok(())
    }

    fn flush(&mut self) -> (r: Result<(), ErrorKind>) {
        Ok(())
    }
}

} // verus!
