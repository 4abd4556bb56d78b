use vstd::prelude::*;
use crate::backend::Backend;
use crate::error::ErrorKind;
use crate::events::{KeyCode, KeyEvent};
use crate::layout::Layout;
use crate::widget::{Widget, WidgetSpec};

verus! {

/// Character filter that lets every character through.
pub fn no_filter(c: char) -> (r: Option<char>)
    ensures
        r == Some(c),
{
    Some(c)
}

pub open spec fn is_dec_digit(c: char) -> bool {
    ||| c == '0'
    ||| c == '1'
    ||| c == '2'
    ||| c == '3'
    ||| c == '4'
    ||| c == '5'
    ||| c == '6'
    ||| c == '7'
    ||| c == '8'
    ||| c == '9'
}

pub open spec fn digit_val(c: char) -> int {
    if c == '0' {
        0
    } else if c == '1' {
        1
    } else if c == '2' {
        2
    } else if c == '3' {
        3
    } else if c == '4' {
        4
    } else if c == '5' {
        5
    } else if c == '6' {
        6
    } else if c == '7' {
        7
    } else if c == '8' {
        8
    } else if c == '9' {
        9
    } else {
        arbitrary()
    }
}

pub open spec fn digit_char(d: int) -> char {
    if d == 0 {
        '0'
    } else if d == 1 {
        '1'
    } else if d == 2 {
        '2'
    } else if d == 3 {
        '3'
    } else if d == 4 {
        '4'
    } else if d == 5 {
        '5'
    } else if d == 6 {
        '6'
    } else if d == 7 {
        '7'
    } else if d == 8 {
        '8'
    } else {
        '9'
    }
}

/// The decimal digit sequence of a non-negative number, most significant first.
pub open spec fn spec_decimal(n: int) -> Seq<char>
    decreases n,
{
    if n < 10 {
        seq![digit_char(n)]
    } else {
        spec_decimal(n / 10).push(digit_char(n % 10))
    }
}

pub proof fn lemma_decimal_all_digits(n: int)
    requires
        0 <= n,
    ensures
        spec_decimal(n).len() >= 1,
        forall|i: int| 0 <= i < spec_decimal(n).len() ==> is_dec_digit(#[trigger] spec_decimal(n)[i]),
    decreases n,
{
    if n >= 10 {
        lemma_decimal_all_digits(n / 10);
    }
}

fn exec_digit_char(d: usize) -> (c: char)
    requires
        d < 10,
    ensures
        c == digit_char(d as int),
{
    if d == 0 {
        '0'
    } else if d == 1 {
        '1'
    } else if d == 2 {
        '2'
    } else if d == 3 {
        '3'
    } else if d == 4 {
        '4'
    } else if d == 5 {
        '5'
    } else if d == 6 {
        '6'
    } else if d == 7 {
        '7'
    } else if d == 8 {
        '8'
    } else {
        '9'
    }
}

fn exec_digit_val(c: char) -> (r: Option<usize>)
    ensures
        is_dec_digit(c) ==> r == Some(digit_val(c) as usize),
        !is_dec_digit(c) ==> r is None,
{
    if c == '0' {
        Some(0)
    } else if c == '1' {
        Some(1)
    } else if c == '2' {
        Some(2)
    } else if c == '3' {
        Some(3)
    } else if c == '4' {
        Some(4)
    } else if c == '5' {
        Some(5)
    } else if c == '6' {
        Some(6)
    } else if c == '7' {
        Some(7)
    } else if c == '8' {
        Some(8)
    } else if c == '9' {
        Some(9)
    } else {
        None
    }
}

/// The decimal digits of `n`, most significant first.
pub fn usize_digits(n: usize) -> (v: Vec<char>)
    ensures
        v@ == spec_decimal(n as int),
        v@.len() >= 1,
        forall|i: int| 0 <= i < v@.len() ==> is_dec_digit(#[trigger] v@[i]),
    decreases n,
{
    proof {
        lemma_decimal_all_digits(n as int);
    }
    if n < 10 {
        let mut v: Vec<char> = Vec::new();
        v.push(exec_digit_char(n));
        proof {
            assert(v@ =~= spec_decimal(n as int));
        }
        v
    } else {
        let mut v = usize_digits(n / 10);
        v.push(exec_digit_char(n % 10));
        proof {
            assert(v@ =~= spec_decimal(n as int));
        }
        v
    }
}

pub open spec fn all_digits(s: Seq<char>) -> bool {
    forall|i: int| 0 <= i < s.len() ==> is_dec_digit(#[trigger] s[i])
}

/// The numeric value of a digit sequence, most significant first.
pub open spec fn digits_val(s: Seq<char>) -> int
    decreases s.len(),
{
    if s.len() == 0 {
        0
    } else {
        digits_val(s.drop_last()) * 10 + digit_val(s.last())
    }
}

proof fn lemma_digits_val_nonneg(s: Seq<char>)
    requires
        all_digits(s),
    ensures
        digits_val(s) >= 0,
    decreases s.len(),
{
    if s.len() > 0 {
        assert(all_digits(s.drop_last()));
        lemma_digits_val_nonneg(s.drop_last());
    }
}

proof fn lemma_digits_val_prefix(s: Seq<char>, i: int)
    requires
        all_digits(s),
        0 <= i <= s.len(),
    ensures
        digits_val(s) >= digits_val(s.take(i)),
    decreases s.len() - i,
{
    if i < s.len() {
        lemma_digits_val_prefix(s, i + 1);
        assert(s.take(i + 1).drop_last() =~= s.take(i));
        assert(all_digits(s.take(i)));
        lemma_digits_val_nonneg(s.take(i));
        assert(digits_val(s.take(i + 1)) == digits_val(s.take(i)) * 10 + digit_val(
            s.take(i + 1).last(),
        ));
    } else {
        assert(s.take(i) =~= s);
    }
}

/// Parse a digit string as a decimal number. Returns the value exactly when
/// the input is a non-empty string of decimal digits whose value fits.
pub fn parse_usize(chars: &Vec<char>) -> (r: Option<usize>)
    ensures
        r matches Some(v) ==> chars@.len() > 0 && all_digits(chars@) && v == digits_val(chars@),
        r is None ==> chars@.len() == 0 || !all_digits(chars@) || digits_val(chars@) > usize::MAX,
{
    if chars.len() == 0 {
        return None;
    }
    let ghost s = chars@;
    let mut acc: usize = 0;
    let mut i: usize = 0;
    while i < chars.len()
        invariant
            chars@ == s,
            0 <= i <= s.len(),
            all_digits(s.take(i as int)),
            acc == digits_val(s.take(i as int)),
        decreases s.len() - i,
    {
        let c = chars[i];
        let d = match exec_digit_val(c) {
            Some(d) => d,
            None => {
                return None;
            },
        };
        let big = match acc.checked_mul(10) {
            Some(b) => b,
            None => {
                proof {
                    assert(s.take(i as int + 1).drop_last() =~= s.take(i as int));
                    assert(digits_val(s.take(i as int + 1)) > usize::MAX);
                    if all_digits(s) {
                        lemma_digits_val_prefix(s, i as int + 1);
                    }
                }
                return None;
            },
        };
        let next = match big.checked_add(d) {
            Some(x) => x,
            None => {
                proof {
                    assert(s.take(i as int + 1).drop_last() =~= s.take(i as int));
                    assert(digits_val(s.take(i as int + 1)) > usize::MAX);
                    if all_digits(s) {
                        lemma_digits_val_prefix(s, i as int + 1);
                    }
                }
                return None;
            },
        };
        proof {
            assert(s.take(i as int + 1).drop_last() =~= s.take(i as int));
            assert(all_digits(s.take(i as int + 1)));
        }
        acc = next;
        i = i + 1;
    }
    proof {
        assert(s.take(s.len() as int) =~= s);
    }
    Some(acc)
}

pub open spec fn no_line_breaks(s: Seq<char>) -> bool {
    forall|i: int| 0 <= i < s.len() ==> s[i] != '\n'
}

/// Write up to `max` characters of `s`'s first line at the current cursor
/// position; the cursor never leaves its row.
#[verifier::loop_isolation(false)]
pub fn write_line_capped<B: Backend>(b: &mut B, s: &str, max: usize) -> (r: Result<(), ErrorKind>)
    requires
        old(b).inv(),
    ensures
        r matches Err(e) ==> e == ErrorKind::Io,
        final(b).inv(),
        final(b).term_size() == old(b).term_size(),
        final(b).raw_mode() == old(b).raw_mode(),
        final(b).cursor_visible() == old(b).cursor_visible(),
        r is Ok ==> final(b).cursor().1 == old(b).cursor().1,
{
    let len = s.unicode_len();
    let mut i: usize = 0;
    while i < len && i < max
        invariant
            b.inv(),
            b.term_size() == old(b).term_size(),
            b.raw_mode() == old(b).raw_mode(),
            b.cursor_visible() == old(b).cursor_visible(),
            b.cursor().1 == old(b).cursor().1,
        decreases len - i,
    {
        let c = s.get_char(i);
        if c == '\n' {
            return Ok(());
        }
        b.write_char(c)?;
        i = i + 1;
    }
    Ok(())
}

/// The column where a widget's first line starts: the layout's indent plus its
/// line offset, kept inside the rectangle.
pub open spec fn spec_start_col(layout: Layout) -> u16 {
    if layout.offset_x + layout.line_offset < layout.width - 1 {
        (layout.offset_x + layout.line_offset) as u16
    } else {
        (layout.width - 1) as u16
    }
}

pub fn start_col(layout: Layout) -> (c: u16)
    requires
        layout.wf(),
    ensures
        c == spec_start_col(layout),
        c < layout.width,
{
    let total = layout.offset_x as u32 + layout.line_offset as u32;
    if total < layout.width as u32 - 1 {
        total as u16
    } else {
        layout.width - 1
    }
}

/// A single line of plain text, truncated to the available width.
#[derive(Clone, Debug)]
pub struct Text {
    text: String,
}

impl Text {
    pub closed spec fn chars(&self) -> Seq<char> {
        self.text@
    }

    pub fn new(text: String) -> (t: Text)
        requires
            no_line_breaks(text@),
        ensures
            t.wf(),
            t.chars() == text@,
    {
        Text { text }
    }

    pub fn text(&self) -> (s: &String)
        ensures
            s@ == self.chars(),
    {
        &self.text
    }
}

impl WidgetSpec for Text {
    closed spec fn wf(&self) -> bool {
        no_line_breaks(self.text@)
    }

    open spec fn spec_height(&self, layout: Layout) -> u16 {
        1
    }

    proof fn height_bounds(&self, layout: Layout) {
    }

    proof fn height_ignores_position(&self, a: Layout, b: Layout) {
    }
}

impl<B: Backend> Widget<B> for Text {
    fn height(&self, layout: Layout) -> (h: u16) {
        1
    }

    fn render(&self, layout: Layout, b: &mut B) -> (r: Result<(), ErrorKind>) {
        let start = start_col(layout);
        b.move_cursor_to(start, layout.offset_y)?;
        let avail = (layout.width - 1 - start) as usize;
        let len = self.text.as_str().unicode_len();
        let k = if len < avail {
            len
        } else {
            avail
        };
        let piece = self.text.as_str().substring_char(0, k);
        b.write_text(piece)?;
        Ok(())
    }

    fn handle_key(&mut self, key: KeyEvent) -> (changed: bool) {
        false
    }

    fn cursor_pos(&self, layout: Layout) -> (pos: (u16, u16)) {
        (start_col(layout), 0)
    }
}

/// A single-line editable text input with a movable insertion point.
#[derive(Clone, Debug)]
pub struct StringInput {
    value: Vec<char>,
    at: usize,
    digits_only: bool,
}

impl StringInput {
    pub closed spec fn chars(&self) -> Seq<char> {
        self.value@
    }

    pub closed spec fn cursor_at(&self) -> int {
        self.at as int
    }

    pub closed spec fn digits_restricted(&self) -> bool {
        self.digits_only
    }

    /// An empty input. When `digits_only` is set, only decimal digits are
    /// accepted from the keyboard.
    pub fn new(digits_only: bool) -> (s: StringInput)
        ensures
            s.wf(),
            s.chars().len() == 0,
            s.digits_restricted() == digits_only,
    {
        StringInput { value: Vec::new(), at: 0, digits_only }
    }

    pub fn value_chars(&self) -> (v: &Vec<char>)
        ensures
            v@ == self.chars(),
    {
        &self.value
    }

    /// How one key event edits a line input: the new text, the new insertion
    /// point, and whether anything changed.
    pub open spec fn edit_step(
        chars: Seq<char>,
        at: int,
        digits_only: bool,
        key: KeyEvent,
    ) -> (Seq<char>, int, bool) {
        match key.code {
            KeyCode::Char(c) => if c == '\n' || (digits_only && !is_dec_digit(c)) {
                (chars, at, false)
            } else {
                (chars.insert(at, c), at + 1, true)
            },
            KeyCode::Backspace => if at > 0 {
                (chars.remove(at - 1), at - 1, true)
            } else {
                (chars, at, false)
            },
            KeyCode::Delete => if at < chars.len() {
                (chars.remove(at), at, true)
            } else {
                (chars, at, false)
            },
            KeyCode::Left => if at > 0 {
                (chars, at - 1, true)
            } else {
                (chars, at, false)
            },
            KeyCode::Right => if at < chars.len() {
                (chars, at + 1, true)
            } else {
                (chars, at, false)
            },
            KeyCode::Home => if at > 0 {
                (chars, 0int, true)
            } else {
                (chars, at, false)
            },
            KeyCode::End => if at < chars.len() {
                (chars, chars.len() as int, true)
            } else {
                (chars, at, false)
            },
            _ => (chars, at, false),
        }
    }

    /// Consume one editing key, exactly as [`edit_step`](Self::edit_step)
    /// says.
    pub fn handle_edit_key(&mut self, key: KeyEvent) -> (changed: bool)
        requires
            old(self).wf(),
        ensures
            final(self).wf(),
            final(self).digits_restricted() == old(self).digits_restricted(),
            final(self).chars() == Self::edit_step(
                old(self).chars(),
                old(self).cursor_at(),
                old(self).digits_restricted(),
                key,
            ).0,
            final(self).cursor_at() == Self::edit_step(
                old(self).chars(),
                old(self).cursor_at(),
                old(self).digits_restricted(),
                key,
            ).1,
            changed == Self::edit_step(
                old(self).chars(),
                old(self).cursor_at(),
                old(self).digits_restricted(),
                key,
            ).2,
            !changed ==> *final(self) == *old(self),
    {
        match key.code {
            KeyCode::Char(c) => {
                if c == '\n' {
                    return false;
                }
                if self.digits_only {
                    match exec_digit_val(c) {
                        Some(_) => {},
                        None => {
                            return false;
                        },
                    }
                }
                self.value.insert(self.at, c);
                let len = self.value.len();
                self.at = self.at + 1;
                true
            },
            KeyCode::Backspace => {
                if self.at > 0 {
                    self.at = self.at - 1;
                    self.value.remove(self.at);
                    true
                } else {
                    false
                }
            },
            KeyCode::Delete => {
                if self.at < self.value.len() {
                    self.value.remove(self.at);
                    true
                } else {
                    false
                }
            },
            KeyCode::Left => {
                if self.at > 0 {
                    self.at = self.at - 1;
                    true
                } else {
                    false
                }
            },
            KeyCode::Right => {
                if self.at < self.value.len() {
                    self.at = self.at + 1;
                    true
                } else {
                    false
                }
            },
            KeyCode::Home => {
                if self.at > 0 {
                    self.at = 0;
                    true
                } else {
                    false
                }
            },
            KeyCode::End => {
                if self.at < self.value.len() {
                    self.at = self.value.len();
                    true
                } else {
                    false
                }
            },
            _ => false,
        }
    }

    /// Replace the whole value; the insertion point moves to its end.
    pub fn set_value(&mut self, value: Vec<char>)
        requires
            no_line_breaks(value@),
            old(self).digits_restricted() ==> all_digits(value@),
        ensures
            final(self).wf(),
            final(self).chars() == value@,
            final(self).digits_restricted() == old(self).digits_restricted(),
    {
        self.at = value.len();
        self.value = value;
    }
}

impl WidgetSpec for StringInput {
    closed spec fn wf(&self) -> bool {
        &&& self.at <= self.value@.len()
        &&& no_line_breaks(self.value@)
        &&& (self.digits_only ==> all_digits(self.value@))
    }

    open spec fn spec_height(&self, layout: Layout) -> u16 {
        1
    }

    proof fn height_bounds(&self, layout: Layout) {
    }

    proof fn height_ignores_position(&self, a: Layout, b: Layout) {
    }
}

impl<B: Backend> Widget<B> for StringInput {
    fn height(&self, layout: Layout) -> (h: u16) {
        1
    }

    fn render(&self, layout: Layout, b: &mut B) -> (r: Result<(), ErrorKind>) {
        let start = start_col(layout);
        b.move_cursor_to(start, layout.offset_y)?;
        let avail = (layout.width - 1 - start) as usize;
        let k = if self.value.len() < avail {
            self.value.len()
        } else {
            avail
        };
        let mut i: usize = 0;
        while i < k
            invariant
                self.wf(),
                k <= self.value@.len(),
                b.inv(),
                b.term_size() == old(b).term_size(),
                b.raw_mode() == old(b).raw_mode(),
                b.cursor_visible() == old(b).cursor_visible(),
                b.cursor().1 == layout.offset_y,
            decreases k - i,
        {
            let c = self.value[i];
            b.write_char(c)?;
            i = i + 1;
        }
        Ok(())
    }

    fn handle_key(&mut self, key: KeyEvent) -> (changed: bool) {
        self.handle_edit_key(key)
    }

    fn cursor_pos(&self, layout: Layout) -> (pos: (u16, u16)) {
        let start = start_col(layout);
        if self.at < (layout.width - 1 - start) as usize {
            (start + self.at as u16, 0)
        } else {
            (layout.width - 1, 0)
        }
    }
}

/// The lowercase form of an ASCII letter; other characters pass through.
pub open spec fn fold_lower(c: char) -> char {
    if c == 'A' { 'a' } else if c == 'B' { 'b' } else if c == 'C' { 'c' } else if c == 'D' {
        'd'
    } else if c == 'E' { 'e' } else if c == 'F' { 'f' } else if c == 'G' { 'g' } else if c == 'H' {
        'h'
    } else if c == 'I' { 'i' } else if c == 'J' { 'j' } else if c == 'K' { 'k' } else if c == 'L' {
        'l'
    } else if c == 'M' { 'm' } else if c == 'N' { 'n' } else if c == 'O' { 'o' } else if c == 'P' {
        'p'
    } else if c == 'Q' { 'q' } else if c == 'R' { 'r' } else if c == 'S' { 's' } else if c == 'T' {
        't'
    } else if c == 'U' { 'u' } else if c == 'V' { 'v' } else if c == 'W' { 'w' } else if c == 'X' {
        'x'
    } else if c == 'Y' { 'y' } else if c == 'Z' { 'z' } else {
        c
    }
}

pub fn lower_ascii(c: char) -> (r: char)
    ensures
        r == fold_lower(c),
{
    match c {
        'A' => 'a',
        'B' => 'b',
        'C' => 'c',
        'D' => 'd',
        'E' => 'e',
        'F' => 'f',
        'G' => 'g',
        'H' => 'h',
        'I' => 'i',
        'J' => 'j',
        'K' => 'k',
        'L' => 'l',
        'M' => 'm',
        'N' => 'n',
        'O' => 'o',
        'P' => 'p',
        'Q' => 'q',
        'R' => 'r',
        'S' => 's',
        'T' => 't',
        'U' => 'u',
        'V' => 'v',
        'W' => 'w',
        'X' => 'x',
        'Y' => 'y',
        'Z' => 'z',
        _ => c,
    }
}

/// The uppercase form of an ASCII letter; other characters pass through.
pub open spec fn fold_upper(c: char) -> char {
    if c == 'a' { 'A' } else if c == 'b' { 'B' } else if c == 'c' { 'C' } else if c == 'd' {
        'D'
    } else if c == 'e' { 'E' } else if c == 'f' { 'F' } else if c == 'g' { 'G' } else if c == 'h' {
        'H'
    } else if c == 'i' { 'I' } else if c == 'j' { 'J' } else if c == 'k' { 'K' } else if c == 'l' {
        'L'
    } else if c == 'm' { 'M' } else if c == 'n' { 'N' } else if c == 'o' { 'O' } else if c == 'p' {
        'P'
    } else if c == 'q' { 'Q' } else if c == 'r' { 'R' } else if c == 's' { 'S' } else if c == 't' {
        'T'
    } else if c == 'u' { 'U' } else if c == 'v' { 'V' } else if c == 'w' { 'W' } else if c == 'x' {
        'X'
    } else if c == 'y' { 'Y' } else if c == 'z' { 'Z' } else {
        c
    }
}

pub fn upper_ascii(c: char) -> (r: char)
    ensures
        r == fold_upper(c),
{
    match c {
        'a' => 'A',
        'b' => 'B',
        'c' => 'C',
        'd' => 'D',
        'e' => 'E',
        'f' => 'F',
        'g' => 'G',
        'h' => 'H',
        'i' => 'I',
        'j' => 'J',
        'k' => 'K',
        'l' => 'L',
        'm' => 'M',
        'n' => 'N',
        'o' => 'O',
        'p' => 'P',
        'q' => 'Q',
        'r' => 'R',
        's' => 'S',
        't' => 'T',
        'u' => 'U',
        'v' => 'V',
        'w' => 'W',
        'x' => 'X',
        'y' => 'Y',
        'z' => 'Z',
        _ => c,
    }
}

/// A one-character input that only accepts characters from a fixed set,
/// folding ASCII uppercase to lowercase first.
#[derive(Clone, Debug)]
pub struct CharInput {
    value: Option<char>,
    allowed: Vec<char>,
}

impl CharInput {
    pub closed spec fn spec_value(&self) -> Option<char> {
        self.value
    }

    pub closed spec fn spec_allowed(&self) -> Seq<char> {
        self.allowed@
    }

    pub fn new(allowed: Vec<char>) -> (s: CharInput)
        requires
            no_line_breaks(allowed@),
        ensures
            s.wf(),
            s.spec_value() is None,
            s.spec_allowed() == allowed@,
    {
        CharInput { value: None, allowed }
    }

    pub fn value(&self) -> (v: Option<char>)
        ensures
            v == self.spec_value(),
    {
        self.value
    }

    /// How one key event changes a key input: typed characters are folded to
    /// lowercase and kept only when allowed; backspace clears.
    pub open spec fn char_step(
        value: Option<char>,
        allowed: Seq<char>,
        key: KeyEvent,
    ) -> (Option<char>, bool) {
        match key.code {
            KeyCode::Char(c) => if allowed.contains(fold_lower(c)) {
                (Some(fold_lower(c)), true)
            } else {
                (value, false)
            },
            KeyCode::Backspace => if value is Some {
                (None::<char>, true)
            } else {
                (value, false)
            },
            _ => (value, false),
        }
    }

    /// Consume one key, exactly as [`char_step`](Self::char_step) says.
    #[verifier::loop_isolation(false)]
    pub fn handle_input_key(&mut self, key: KeyEvent) -> (changed: bool)
        requires
            old(self).wf(),
        ensures
            final(self).wf(),
            final(self).spec_allowed() == old(self).spec_allowed(),
            final(self).spec_value() == Self::char_step(
                old(self).spec_value(),
                old(self).spec_allowed(),
                key,
            ).0,
            changed == Self::char_step(old(self).spec_value(), old(self).spec_allowed(), key).1,
            !changed ==> *final(self) == *old(self),
    {
        match key.code {
            KeyCode::Char(c) => {
                let folded = lower_ascii(c);
                let mut i: usize = 0;
                while i < self.allowed.len()
                    invariant
                        old(self).wf(),
                        *self == *old(self),
                        0 <= i <= self.allowed@.len(),
                        forall|k: int| 0 <= k < i ==> self.allowed@[k] != folded,
                    decreases self.allowed@.len() - i,
                {
                    if self.allowed[i] == folded {
                        proof {
                            assert(old(self).spec_allowed()[i as int] == folded);
                            assert(old(self).spec_allowed().contains(folded));
                        }
                        self.value = Some(folded);
                        return true;
                    }
                    i = i + 1;
                }
                proof {
                    assert(!old(self).spec_allowed().contains(folded));
                }
                false
            },
            KeyCode::Backspace => {
                if self.value.is_some() {
                    self.value = None;
                    true
                } else {
                    false
                }
            },
            _ => false,
        }
    }

    /// A held value was accepted through the filter, so it is one of the
    /// allowed characters.
    pub proof fn value_allowed(&self)
        requires
            self.wf(),
        ensures
            self.spec_value() matches Some(c) ==> self.spec_allowed().contains(c),
    {
    }

    pub fn clear_value(&mut self)
        requires
            old(self).wf(),
        ensures
            final(self).wf(),
            final(self).spec_value() is None,
            final(self).spec_allowed() == old(self).spec_allowed(),
    {
        self.value = None;
    }
}

impl WidgetSpec for CharInput {
    closed spec fn wf(&self) -> bool {
        &&& no_line_breaks(self.allowed@)
        &&& (self.value matches Some(c) ==> self.allowed@.contains(c))
    }

    open spec fn spec_height(&self, layout: Layout) -> u16 {
        1
    }

    proof fn height_bounds(&self, layout: Layout) {
    }

    proof fn height_ignores_position(&self, a: Layout, b: Layout) {
    }
}

impl<B: Backend> Widget<B> for CharInput {
    fn height(&self, layout: Layout) -> (h: u16) {
        1
    }

    fn render(&self, layout: Layout, b: &mut B) -> (r: Result<(), ErrorKind>) {
        let start = start_col(layout);
        b.move_cursor_to(start, layout.offset_y)?;
        match self.value {
            Some(c) => {
                assert(self.allowed@.contains(c));
                b.write_char(c)?;
            },
            None => {},
        }
        Ok(())
    }

    fn handle_key(&mut self, key: KeyEvent) -> (changed: bool) {
        self.handle_input_key(key)
    }

    fn cursor_pos(&self, layout: Layout) -> (pos: (u16, u16)) {
        let start = start_col(layout);
        let occupied: u16 = if self.value.is_some() {
            1
        } else {
            0
        };
        if (start as u32 + occupied as u32) < layout.width as u32 - 1 {
            (start + occupied, 0)
        } else {
            (layout.width - 1, 0)
        }
    }
}

} // verus!

