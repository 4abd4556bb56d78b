use vstd::prelude::*;
use crate::backend::{Backend, Color};
use crate::choice::{get_sep_str, Choice, ChoiceList};
use crate::error::ErrorKind;
use crate::events::{EventSource, KeyEvent};
use crate::input::{Input, Prompt, Validation};
use crate::layout::Layout;
use crate::question::{Answer, ListItem, Options, Question, QuestionKind};
use crate::select::{List, ListSpec, Select};
use crate::widget::{Widget, WidgetSpec};
use crate::widgets::{
    is_dec_digit,
    no_line_breaks,
    parse_usize,
    start_col,
    usize_digits,
    write_line_capped,
    StringInput,
    Text,
};

verus! {

/// A numbered list of choices: every selectable entry carries its displayed
/// number (0-based; shown 1-based) next to its label.
#[derive(Debug)]
pub struct Rawlist {
    pub choices: ChoiceList<(usize, String)>,
}

impl Default for Rawlist {
    fn default() -> (r: Rawlist)
        ensures
            r.choices.spec_choices().len() == 0,
            r.choices.spec_default() is None,
            r.choices.spec_page_size() == 15,
            r.choices.spec_should_loop(),
            r.wf(),
    {
        Rawlist { choices: Default::default() }
    }
}

impl ListSpec for Rawlist {
    /// Numbers stay below the list's length, and the default, if set, points
    /// at a selectable entry — the builder's obligations.
    open spec fn wf(&self) -> bool {
        &&& self.choices.page_wf()
        &&& (self.choices.spec_default() matches Some(d) ==> d < self.choices.spec_choices().len()
            && self.choices.spec_choices()[d as int] is Choice)
        &&& forall|i: int|
            0 <= i < self.choices.spec_choices().len() ==> (
            #[trigger] self.choices.spec_choices()[i] matches Choice::Choice(p) ==> p.0
                < self.choices.spec_choices().len())
    }

    open spec fn spec_len(&self) -> usize {
        self.choices.spec_choices().len() as usize
    }

    open spec fn spec_selectable(&self, i: int) -> bool {
        self.choices.spec_choices()[i] is Choice
    }

    open spec fn spec_page_size(&self) -> usize {
        self.choices.spec_page_size()
    }

    open spec fn spec_should_loop(&self) -> bool {
        self.choices.spec_should_loop()
    }

    open spec fn spec_height_at(&self, i: int) -> u16 {
        1
    }

    proof fn list_bounds(&self) {
    }

    fn len(&self) -> (n: usize) {
        self.choices.len()
    }

    fn is_selectable(&self, i: usize) -> (r: bool) {
        !self.choices.get(i).is_separator()
    }

    fn page_size(&self) -> (p: usize) {
        self.choices.page_size()
    }

    fn should_loop(&self) -> (b: bool) {
        self.choices.should_loop()
    }

    fn height_at(&self, i: usize) -> (h: u16) {
        1
    }
}

impl<B: Backend> List<B> for Rawlist {
    /// One list row: `  3) label` for an entry (highlighted when hovered),
    /// dimmed text for a separator.
    fn render_item(&self, i: usize, hovered: bool, layout: Layout, b: &mut B) -> (r: Result<
        (),
        ErrorKind,
    >) {
        let n = self.choices.len();
        b.move_cursor_to(layout.offset_x, layout.offset_y)?;
        match self.choices.get(i) {
            Choice::Choice(p) => {
                proof {
                    assert((self.choices.spec_choices()[i as int] matches Choice::Choice(q) ==> q.0
                        < self.choices.spec_choices().len()));
                    assert(p.0 < self.choices.spec_choices().len());
                }
                if hovered {
                    b.set_fg(Color::DarkCyan)?;
                }
                proof {
                    reveal_strlit("  ");
                }
                b.write_text("  ")?;
                let digits = usize_digits(p.0 + 1);
                let mut k: usize = 0;
                while k < digits.len()
                    invariant
                        b.inv(),
                        b.term_size() == old(b).term_size(),
                        b.raw_mode() == old(b).raw_mode(),
                        b.cursor_visible() == old(b).cursor_visible(),
                        b.cursor().1 == layout.offset_y,
                        forall|j: int| 0 <= j < digits@.len() ==> is_dec_digit(#[trigger] digits@[j]),
                    decreases digits@.len() - k,
                {
                    b.write_char(digits[k])?;
                    k = k + 1;
                }
                proof {
                    reveal_strlit(") ");
                }
                b.write_text(") ")?;
                let used = start_col(layout);
                let avail = (layout.width - 1 - used) as usize;
                write_line_capped(b, p.1.as_str(), avail)?;
                if hovered {
                    b.set_fg(Color::Reset)?;
                }
                Ok(())
            },
            sep => {
                b.set_fg(Color::DarkGrey)?;
                proof {
                    reveal_strlit("   ");
                }
                b.write_text("   ")?;
                let used = start_col(layout);
                let avail = (layout.width - 1 - used) as usize;
                write_line_capped(b, get_sep_str(sep), avail)?;
                b.set_fg(Color::Reset)
            },
        }
    }
}

/// The running widget of a rawlist question: the message line, the numbered
/// list, and an `Answer:` line where the picked number can also be typed.
struct RawlistPrompt {
    message: Text,
    list: Select<Rawlist>,
    input: StringInput,
}

impl RawlistPrompt {
    /// The hover either references a selectable entry or is parked on the
    /// "nothing valid picked" sentinel.
    spec fn hover_wf(&self) -> bool {
        self.list.spec_at() < self.list.spec_list().spec_len()
            ==> self.list.spec_list().spec_selectable(self.list.spec_at() as int)
    }

    /// The picked entry as the prompt's output value.
    fn finish_index(self, index: usize) -> (r: ListItem)
        requires
            self.list.spec_list().wf(),
            index < self.list.spec_list().spec_len(),
            self.list.spec_list().spec_selectable(index as int),
        ensures
            r.index == index,
            self.list.spec_list().choices.spec_choices()[index as int] matches Choice::Choice(p)
                && r.name == p.1,
    {
        let rl = self.list.into_inner();
        match rl.choices.get(index) {
            Choice::Choice(p) => ListItem { index, name: p.1.clone() },
            _ => unreached(),
        }
    }
}

impl WidgetSpec for RawlistPrompt {
    closed spec fn wf(&self) -> bool {
        &&& self.message.wf()
        &&& self.list.wf()
        &&& self.input.wf()
        &&& self.input.digits_restricted()
        &&& self.hover_wf()
    }

    closed spec fn spec_height(&self, layout: Layout) -> u16 {
        (2 + self.list.spec_height(layout)) as u16
    }

    proof fn height_bounds(&self, layout: Layout) {
        self.list.height_bounds(layout);
        crate::select::lemma_select_height_bound(&self.list, layout);
    }

    proof fn height_ignores_position(&self, a: Layout, b: Layout) {
        self.list.height_ignores_position(a, b);
    }
}

impl<B: Backend> Widget<B> for RawlistPrompt {
    fn height(&self, layout: Layout) -> (h: u16) {
        proof {
            crate::select::lemma_select_height_bound(&self.list, layout);
        }
        2 + <Select<Rawlist> as Widget<B>>::height(&self.list, layout)
    }

    fn render(&self, layout: Layout, b: &mut B) -> (r: Result<(), ErrorKind>) {
        proof {
            crate::select::lemma_select_height_bound(&self.list, layout);
            self.list.height_bounds(layout);
        }
        <Text as Widget<B>>::render(&self.message, layout, b)?;
        let list_row = layout.offset_y + 1;
        b.move_cursor_to(layout.offset_x, list_row)?;
        let list_layout = Layout { offset_y: list_row, ..layout };
        proof {
            self.list.height_ignores_position(layout, list_layout);
        }
        <Select<Rawlist> as Widget<B>>::render(&self.list, list_layout, b)?;
        let h_list = <Select<Rawlist> as Widget<B>>::height(&self.list, list_layout);
        let answer_row = list_row + h_list;
        b.move_cursor_to(0, answer_row)?;
        proof {
            reveal_strlit("  Answer: ");
        }
        b.write_text("  Answer: ")?;
        let input_offset: u16 = if layout.width > 10 {
            10
        } else {
            layout.width - 1
        };
        let input_layout = Layout { line_offset: input_offset, offset_y: answer_row, ..layout };
        <StringInput as Widget<B>>::render(&self.input, input_layout, b)?;
        Ok(())
    }

    fn handle_key(&mut self, key: KeyEvent) -> (changed: bool) {
        if self.input.handle_edit_key(key) {
            let len = self.list.list().len();
            let target: usize = match parse_usize(self.input.value_chars()) {
                Some(n) => {
                    if 1 <= n && n <= len {
                        match find_numbered(self.list.list(), n - 1) {
                            Some(pos) => pos,
                            None => len,
                        }
                    } else {
                        len
                    }
                },
                None => len,
            };
            self.list.set_at(target);
            true
        } else if self.list.handle_nav_key(key) {
            let at = self.list.get_at();
            let nn = self.list.list().choices.len();
            match self.list.list().choices.get(at) {
                Choice::Choice(p) => {
                    proof {
                        assert((self.list.spec_list().choices.spec_choices()[at as int]
                            matches Choice::Choice(q) ==> q.0
                            < self.list.spec_list().choices.spec_choices().len()));
                        assert(p.0 < self.list.spec_list().choices.spec_choices().len());
                    }
                    let number = p.0 + 1;
                    let digits = usize_digits(number);
                    proof {
                        assert forall|j: int| 0 <= j < digits@.len() implies #[trigger] digits@[j]
                            != '\n' by {
                            assert(is_dec_digit(digits@[j]));
                        }
                    }
                    self.input.set_value(digits);
                },
                _ => {
                    proof {
                        assert(false);
                    }
                },
            }
            true
        } else {
            false
        }
    }

    fn cursor_pos(&self, layout: Layout) -> (pos: (u16, u16)) {
        proof {
            crate::select::lemma_select_height_bound(&self.list, layout);
            self.list.height_bounds(layout);
        }
        let input_offset: u16 = if layout.width > 10 {
            10
        } else {
            layout.width - 1
        };
        let input_layout = Layout { line_offset: input_offset, ..layout };
        let col = <StringInput as Widget<B>>::cursor_pos(&self.input, input_layout).0;
        let h_list = <Select<Rawlist> as Widget<B>>::height(&self.list, layout);
        (col, 1 + h_list)
    }
}

/// The position of the entry numbered `n0`, searched from position `n0` on
/// (entries can only sit at or after their own number, since separators push
/// them down).
#[verifier::loop_isolation(false)]
fn find_numbered(rl: &Rawlist, n0: usize) -> (r: Option<usize>)
    requires
        rl.wf(),
        n0 < rl.spec_len(),
    ensures
        match r {
            Some(pos) => n0 <= pos < rl.spec_len() && (rl.choices.spec_choices()[pos as int]
                matches Choice::Choice(p) && p.0 == n0),
            None => forall|j: int|
                n0 <= j < rl.spec_len() ==> !(#[trigger] rl.choices.spec_choices()[j]
                    matches Choice::Choice(p) && p.0 == n0),
        },
{
    let len = rl.choices.len();
    let mut i: usize = n0;
    while i < len
        invariant
            rl.wf(),
            len == rl.spec_len(),
            n0 <= i <= len,
            forall|j: int|
                n0 <= j < i ==> !(#[trigger] rl.choices.spec_choices()[j] matches Choice::Choice(p)
                    && p.0 == n0),
        decreases len - i,
    {
        match rl.choices.get(i) {
            Choice::Choice(p) => {
                if p.0 == n0 {
                    return Some(i);
                }
            },
            _ => {},
        }
        i = i + 1;
    }
    None
}

impl<B: Backend> Prompt<B> for RawlistPrompt {
    type ValidateErr = Text;

    type Output = ListItem;

    closed spec fn spec_has_default(&self) -> bool {
        self.list.spec_list().choices.spec_default() is Some
    }

    closed spec fn can_finish(&self) -> bool {
        self.list.spec_at() < self.list.spec_list().spec_len()
    }

    /// Submission is valid exactly when the hover sits on a real entry: a
    /// typed number that matched no entry parks the hover on the sentinel.
    fn validate(&mut self) -> (r: Result<Validation, Text>) {
        let len = self.list.list().len();
        if self.list.get_at() >= len {
            proof {
                reveal_strlit("Please enter a valid index");
            }
            let msg = String::from_str("Please enter a valid index");
            Err(Text::new(msg))
        } else {
            Ok(Validation::Finish)
        }
    }

    fn finish(self) -> (out: ListItem) {
        let at = self.list.get_at();
        self.finish_index(at)
    }

    fn has_default(&self) -> (r: bool) {
        self.list.list().choices.default_index().is_some()
    }

    fn finish_default(self) -> (out: ListItem) {
        proof {
            assert(self.list.spec_list().wf());
        }
        let n = self.list.list().choices.len();
        let d = match self.list.list().choices.default_index() {
            Some(d) => d,
            None => unreached(),
        };
        proof {
            assert(d < n);
        }
        self.finish_index(d)
    }
}

/// Ask a rawlist question: run the list under the given message on the given
/// backend, echo the picked label, and yield it as the answer.
impl Rawlist {
    pub fn ask<B: Backend, E: EventSource>(self, message: String, backend: B, events: &mut E) -> (res: (
        Result<Answer, ErrorKind>,
        B,
    ))
        requires
            self.wf(),
            no_line_breaks(message@),
            backend.inv(),
        ensures
            res.0 matches Ok(a) ==> a is ListItem,
            res.0 != Err::<Answer, ErrorKind>(ErrorKind::Io) ==> !res.1.raw_mode(),
    {
        let mut list = Select::new(self);
        proof {
            assert(list.spec_list().wf());
        }
        let n = list.list().choices.len();
        let d = list.list().choices.default_index();
        match d {
            Some(d) => {
                proof {
                    assert(d < n);
                }
                list.set_at(d);
            },
            None => {},
        }
        let prompt = RawlistPrompt { message: Text::new(message), list, input: StringInput::new(true) };
        let (r, mut b) = Input::new(prompt, backend).run(events);
        match r {
            Ok(item) => {
                let echoed = echo_answer(&mut b, &item.name);
                match echoed {
                    Ok(()) => (Ok(Answer::ListItem(item)), b),
                    Err(e) => (Err(e), b),
                }
            },
            Err(e) => (Err(e), b),
        }
    }
}

/// Echo a finished answer's label in the answer colour.
fn echo_answer<B: Backend>(b: &mut B, name: &String) -> (r: Result<(), ErrorKind>)
    requires
        old(b).inv(),
    ensures
        r matches Err(e) ==> e == ErrorKind::Io,
        final(b).inv(),
        final(b).raw_mode() == old(b).raw_mode(),
        final(b).cursor_visible() == old(b).cursor_visible(),
{
    b.set_fg(Color::DarkCyan)?;
    proof {
        b.inv_properties();
    }
    let w = b.size()?.width;
    write_line_capped(b, name.as_str(), (w - 1) as usize)?;
    b.set_fg(Color::Reset)?;
    b.flush()
}

/// The builder for a rawlist question.
pub struct RawlistBuilder {
    opts: Options,
    list: Rawlist,
    choice_count: usize,
}

/// How many selectable entries a run of choices contains.
pub open spec fn count_items(cs: Seq<Choice<String>>) -> int
    decreases cs.len(),
{
    if cs.len() == 0 {
        0
    } else {
        count_items(cs.drop_last()) + if cs.last() is Choice {
            1int
        } else {
            0int
        }
    }
}

/// The same run of choices with its selectable entries numbered
/// consecutively, starting at `counter`.
pub open spec fn numbered(cs: Seq<Choice<String>>, counter: int) -> Seq<Choice<(usize, String)>>
    decreases cs.len(),
{
    if cs.len() == 0 {
        Seq::empty()
    } else {
        numbered(cs.drop_last(), counter).push(
            match cs.last() {
                Choice::Choice(s) => Choice::Choice(
                    ((counter + count_items(cs.drop_last())) as usize, s),
                ),
                Choice::Separator(s) => Choice::Separator(s),
                Choice::DefaultSeparator => Choice::DefaultSeparator,
            },
        )
    }
}

impl RawlistBuilder {
    /// The builder numbers its entries consecutively from zero.
    pub open spec fn wf(&self) -> bool {
        &&& self.spec_list().choices.page_wf()
        &&& self.spec_count() <= self.spec_list().choices.spec_choices().len()
        &&& forall|i: int|
            0 <= i < self.spec_list().choices.spec_choices().len() ==> (
            #[trigger] self.spec_list().choices.spec_choices()[i] matches Choice::Choice(p) ==> p.0
                < self.spec_count())
    }

    pub closed spec fn spec_list(&self) -> Rawlist {
        self.list
    }

    pub closed spec fn spec_opts(&self) -> Options {
        self.opts
    }

    pub closed spec fn spec_count(&self) -> usize {
        self.choice_count
    }

    /// Set the entry the hover starts on. The index must reference a
    /// selectable entry for the built question to be well formed.
    pub fn default(self, default: usize) -> (r: RawlistBuilder)
        ensures
            r.spec_list().choices.spec_default() == Some(default),
            r.spec_list().choices.spec_choices() == self.spec_list().choices.spec_choices(),
            r.spec_list().choices.spec_page_size() == self.spec_list().choices.spec_page_size(),
            r.spec_list().choices.spec_should_loop() == self.spec_list().choices.spec_should_loop(),
            r.spec_count() == self.spec_count(),
            r.spec_opts() == self.spec_opts(),
            r.wf() == self.wf(),
    {
        let mut this = self;
        this.list.choices.set_default(default);
        this
    }

    /// Append a separator with the given text.
    pub fn separator(self, text: String) -> (r: RawlistBuilder)
        ensures
            r.spec_list().choices.spec_choices() == self.spec_list().choices.spec_choices().push(
                Choice::Separator(text),
            ),
            r.spec_list().choices.spec_default() == self.spec_list().choices.spec_default(),
            r.spec_list().choices.spec_page_size() == self.spec_list().choices.spec_page_size(),
            r.spec_list().choices.spec_should_loop() == self.spec_list().choices.spec_should_loop(),
            r.spec_count() == self.spec_count(),
            r.spec_opts() == self.spec_opts(),
            self.wf() ==> r.wf(),
    {
        let mut this = self;
        this.list.choices.push(Choice::Separator(text));
        this
    }

    /// Append a horizontal-rule separator.
    pub fn default_separator(self) -> (r: RawlistBuilder)
        ensures
            r.spec_list().choices.spec_choices() == self.spec_list().choices.spec_choices().push(
                Choice::DefaultSeparator,
            ),
            r.spec_list().choices.spec_default() == self.spec_list().choices.spec_default(),
            r.spec_list().choices.spec_page_size() == self.spec_list().choices.spec_page_size(),
            r.spec_list().choices.spec_should_loop() == self.spec_list().choices.spec_should_loop(),
            r.spec_count() == self.spec_count(),
            r.spec_opts() == self.spec_opts(),
            self.wf() ==> r.wf(),
    {
        let mut this = self;
        this.list.choices.push(Choice::DefaultSeparator);
        this
    }

    /// Append one selectable entry; it takes the next number.
    pub fn choice(self, choice: String) -> (r: RawlistBuilder)
        requires
            self.wf(),
        ensures
            r.spec_list().choices.spec_choices() == self.spec_list().choices.spec_choices().push(
                Choice::Choice((self.spec_count(), choice)),
            ),
            r.spec_list().choices.spec_default() == self.spec_list().choices.spec_default(),
            r.spec_list().choices.spec_page_size() == self.spec_list().choices.spec_page_size(),
            r.spec_list().choices.spec_should_loop() == self.spec_list().choices.spec_should_loop(),
            r.spec_count() == self.spec_count() + 1,
            r.spec_opts() == self.spec_opts(),
            r.wf(),
    {
        let mut this = self;
        this.list.choices.push(Choice::Choice((this.choice_count, choice)));
        let grown = this.list.choices.len();
        proof {
            assert(this.choice_count < grown);
        }
        this.choice_count = this.choice_count + 1;
        this
    }

    /// Append a run of choices; selectable ones take consecutive numbers.
    pub fn choices(self, choices: Vec<Choice<String>>) -> (r: RawlistBuilder)
        requires
            self.wf(),
        ensures
            r.wf(),
            r.spec_count() == self.spec_count() + count_items(choices@),
            r.spec_list().choices.spec_choices() == self.spec_list().choices.spec_choices()
                + numbered(choices@, self.spec_count() as int),
            r.spec_list().choices.spec_default() == self.spec_list().choices.spec_default(),
            r.spec_list().choices.spec_page_size() == self.spec_list().choices.spec_page_size(),
            r.spec_list().choices.spec_should_loop() == self.spec_list().choices.spec_should_loop(),
            r.spec_opts() == self.spec_opts(),
    {
        let ghost orig = choices@;
        let ghost base = self.spec_list().choices.spec_choices();
        let ghost base_count = self.spec_count() as int;
        let mut this = self;
        let mut rest = choices;
        let total = rest.len();
        let mut k: usize = 0;
        while rest.len() > 0
            invariant
                this.wf(),
                total == orig.len(),
                k + rest@.len() == orig.len(),
                rest@ == orig.skip(k as int),
                this.spec_opts() == self.spec_opts(),
                this.spec_list().choices.spec_default() == self.spec_list().choices.spec_default(),
                this.spec_list().choices.spec_page_size() == self.spec_list().choices.spec_page_size(),
                this.spec_list().choices.spec_should_loop()
                    == self.spec_list().choices.spec_should_loop(),
                this.spec_count() == base_count + count_items(orig.take(k as int)),
                this.spec_list().choices.spec_choices() == base + numbered(
                    orig.take(k as int),
                    base_count,
                ),
            decreases rest@.len(),
        {
            let c = rest.remove(0);
            proof {
                assert(c == orig[k as int]);
                assert(orig.take(k as int + 1).drop_last() =~= orig.take(k as int));
                assert(rest@ =~= orig.skip(k as int + 1));
                lemma_count_items_nonneg(orig.take(k as int));
            }
            match c {
                Choice::Choice(s) => {
                    this = this.choice(s);
                },
                Choice::Separator(s) => {
                    this = this.separator(s);
                },
                Choice::DefaultSeparator => {
                    this = this.default_separator();
                },
            }
            proof {
                assert(this.spec_list().choices.spec_choices() =~= base + numbered(
                    orig.take(k as int + 1),
                    base_count,
                ));
            }
            k = k + 1;
        }
        proof {
            assert(orig.take(orig.len() as int) =~= orig);
        }
        this
    }

    /// The maximum rows the list may take before it scrolls: at least five,
    /// small enough for row arithmetic on a 16-bit terminal.
    pub fn page_size(self, page_size: usize) -> (r: RawlistBuilder)
        requires
            5 <= page_size <= 4096,
        ensures
            r.spec_list().choices.spec_page_size() == page_size,
            r.spec_list().choices.spec_choices() == self.spec_list().choices.spec_choices(),
            r.spec_list().choices.spec_default() == self.spec_list().choices.spec_default(),
            r.spec_list().choices.spec_should_loop() == self.spec_list().choices.spec_should_loop(),
            r.spec_count() == self.spec_count(),
            r.spec_opts() == self.spec_opts(),
            self.wf() ==> r.wf(),
    {
        let mut this = self;
        this.list.choices.set_page_size(page_size);
        this
    }

    /// Whether navigation wraps past the ends.
    pub fn should_loop(self, should_loop: bool) -> (r: RawlistBuilder)
        ensures
            r.spec_list().choices.spec_should_loop() == should_loop,
            r.spec_list().choices.spec_choices() == self.spec_list().choices.spec_choices(),
            r.spec_list().choices.spec_default() == self.spec_list().choices.spec_default(),
            r.spec_list().choices.spec_page_size() == self.spec_list().choices.spec_page_size(),
            r.spec_count() == self.spec_count(),
            r.spec_opts() == self.spec_opts(),
            self.wf() ==> r.wf(),
    {
        let mut this = self;
        this.list.choices.set_should_loop(should_loop);
        this
    }

    /// Consume the builder, returning the question. A default set with
    /// [`default`](Self::default) must reference a selectable entry.
    pub fn build(self) -> (q: Question)
        requires
            self.wf(),
            self.spec_list().choices.spec_default() matches Some(d) ==> d
                < self.spec_list().choices.spec_choices().len()
                && self.spec_list().choices.spec_choices()[d as int] is Choice,
        ensures
            q.opts == self.spec_opts(),
            q.kind matches QuestionKind::Rawlist(l) && l == self.spec_list(),
            (q.kind matches QuestionKind::Rawlist(l) ==> l.wf()),
    {
        Question::new(self.opts, QuestionKind::Rawlist(self.list))
    }
}

proof fn lemma_count_items_nonneg(cs: Seq<Choice<String>>)
    ensures
        0 <= count_items(cs) <= cs.len(),
    decreases cs.len(),
{
    if cs.len() > 0 {
        lemma_count_items_nonneg(cs.drop_last());
    }
}

impl Question {
    /// Start building a rawlist question under the given name.
    pub fn rawlist(name: String) -> (b: RawlistBuilder)
        ensures
            b.wf(),
            b.spec_opts().name == name,
            b.spec_count() == 0,
            b.spec_list().choices.spec_choices().len() == 0,
            b.spec_list().choices.spec_default() is None,
    {
        RawlistBuilder { opts: Options::new(name), list: Default::default(), choice_count: 0 }
    }
}

} // verus!
