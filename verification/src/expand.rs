use vstd::prelude::*;
use crate::backend::{Backend, Color};
use crate::choice::{get_sep_str, Choice, ChoiceList};
use crate::error::ErrorKind;
use crate::events::{EventSource, KeyEvent};
use crate::input::{Input, Prompt, Validation};
use crate::layout::Layout;
use crate::question::{Answer, ExpandItem, Options, Question, QuestionKind};
use crate::select::{List, ListSpec, Select};
use crate::widget::{Widget, WidgetSpec};
use crate::widgets::{fold_lower, lower_ascii, no_line_breaks, start_col, write_line_capped, CharInput, Text};

verus! {

/// Whether some selectable entry carries the shortcut key `c`.
pub open spec fn has_key(choices: Seq<Choice<ExpandItem>>, c: char) -> bool {
    exists|i: int|
        0 <= i < choices.len() && ((#[trigger] choices[i]) matches Choice::Choice(item) && item.key
            == c)
}

/// An expandable-choice prompt: entries are picked by a shortcut key; the key
/// `h` expands the collapsed prompt into the full list instead.
#[derive(Debug)]
pub struct Expand {
    pub choices: ChoiceList<ExpandItem>,
    pub selected: Option<char>,
    pub default: char,
}

impl Default for Expand {
    /// An empty prompt whose default is the help key itself.
    fn default() -> (e: Expand)
        ensures
            e.choices.spec_choices().len() == 0,
            e.default == 'h',
            e.selected is None,
            e.wf(),
    {
        Expand { choices: Default::default(), selected: None, default: 'h' }
    }
}

impl ListSpec for Expand {
    /// `h` is reserved for help, every label is a single line, and the
    /// default key, unless it is `h`, belongs to some entry.
    open spec fn wf(&self) -> bool {
        &&& self.choices.page_wf()
        &&& forall|i: int|
            0 <= i < self.choices.spec_choices().len() ==> (
            #[trigger] self.choices.spec_choices()[i] matches Choice::Choice(item) ==> item.key
                != 'h' && item.key != '\n')
        &&& (self.default == 'h' || has_key(self.choices.spec_choices(), self.default))
        &&& self.choices.spec_choices().len() < usize::MAX
    }

    /// The trailing entry is the built-in help choice.
    open spec fn spec_len(&self) -> usize {
        (self.choices.spec_choices().len() + 1) as usize
    }

    /// Every row of an expand list is selectable, separators included.
    open spec fn spec_selectable(&self, i: int) -> bool {
        true
    }

    open spec fn spec_page_size(&self) -> usize {
        self.choices.spec_page_size()
    }

    open spec fn spec_should_loop(&self) -> bool {
        self.choices.spec_should_loop()
    }

    open spec fn spec_height_at(&self, i: int) -> u16 {
        1
    }

    proof fn list_bounds(&self) {
    }

    fn len(&self) -> (n: usize) {
        proof {
            assert(self.choices.spec_choices().len() < usize::MAX);
        }
        self.choices.len() + 1
    }

    fn is_selectable(&self, i: usize) -> (r: bool) {
        true
    }

    fn page_size(&self) -> (p: usize) {
        self.choices.page_size()
    }

    fn should_loop(&self) -> (b: bool) {
        self.choices.should_loop()
    }

    fn height_at(&self, i: usize) -> (h: u16) {
        1
    }
}

impl Expand {
    /// One entry row: `  k) label`, highlighted when its key is the one
    /// currently typed.
    fn render_choice<B: Backend>(&self, key: char, name: &String, layout: Layout, b: &mut B) -> (r:
        Result<(), ErrorKind>)
        requires
            key != '\n',
            layout.wf(),
            old(b).inv(),
            old(b).term_size().width == layout.width,
            old(b).term_size().height == layout.height,
            old(b).cursor().1 == layout.offset_y,
        ensures
            r matches Err(e) ==> e == ErrorKind::Io,
            final(b).inv(),
            final(b).term_size() == old(b).term_size(),
            final(b).raw_mode() == old(b).raw_mode(),
            final(b).cursor_visible() == old(b).cursor_visible(),
            r is Ok ==> final(b).cursor().1 == layout.offset_y,
    {
        let hovered = match self.selected {
            Some(c) => c == key,
            None => false,
        };
        if hovered {
            b.set_fg(Color::DarkCyan)?;
        }
        proof {
            reveal_strlit("  ");
        }
        b.write_text("  ")?;
        b.write_char(key)?;
        proof {
            reveal_strlit(") ");
        }
        b.write_text(") ")?;
        let used = start_col(layout);
        let avail = (layout.width - 1 - used) as usize;
        write_line_capped(b, name.as_str(), avail)?;
        if hovered {
            b.set_fg(Color::Reset)?;
        }
        Ok(())
    }
}

impl<B: Backend> List<B> for Expand {
    fn render_item(&self, i: usize, hovered: bool, layout: Layout, b: &mut B) -> (r: Result<
        (),
        ErrorKind,
    >) {
        b.move_cursor_to(layout.offset_x, layout.offset_y)?;
        if i == self.choices.len() {
            let help = String::from_str("Help, list all options");
            return self.render_choice('h', &help, layout, b);
        }
        match self.choices.get(i) {
            Choice::Choice(item) => {
                self.render_choice(item.key, &item.name, layout, b)
            },
            sep => {
                b.set_fg(Color::DarkGrey)?;
                proof {
                    reveal_strlit("   ");
                }
                b.write_text("   ")?;
                let used = start_col(layout);
                let avail = (layout.width - 1 - used) as usize;
                write_line_capped(b, get_sep_str(sep), avail)?;
                b.set_fg(Color::Reset)
            },
        }
    }
}

/// The running widget of an expand question: collapsed, it shows the message,
/// the key hint and the typed key (plus an echo line naming the typed key);
/// expanded, it shows the full list over an `Answer:` line.
struct ExpandPrompt {
    message: Text,
    hint: Vec<char>,
    list: Select<Expand>,
    input: CharInput,
    expanded: bool,
}

impl ExpandPrompt {
    /// Every key the input accepts is the help key or one of the entries'.
    spec fn keys_wf(&self) -> bool {
        forall|c: char|
            self.input.spec_allowed().contains(c) ==> c == 'h' || has_key(
                self.list.spec_list().choices.spec_choices(),
                c,
            )
    }

    /// The key the prompt would act on right now: the typed one, or the
    /// default.
    spec fn current_key(&self) -> char {
        match self.input.spec_value() {
            Some(c) => c,
            None => self.list.spec_list().default,
        }
    }

    /// The first entry carrying key `c`, as the prompt's output value.
    #[verifier::loop_isolation(false)]
    fn finish_with(self, c: char) -> (r: ExpandItem)
        requires
            has_key(self.list.spec_list().choices.spec_choices(), c),
        ensures
            r.key == c,
            exists|i: int|
                0 <= i < self.list.spec_list().choices.spec_choices().len() && ((
                #[trigger] self.list.spec_list().choices.spec_choices()[i])
                    matches Choice::Choice(item) && item.key == c && item.name == r.name),
    {
        let ex = self.list.into_inner();
        let len = ex.choices.len();
        let ghost cs = ex.choices.spec_choices();
        let mut i: usize = 0;
        while i < len
            invariant
                len == cs.len(),
                cs == ex.choices.spec_choices(),
                has_key(cs, c),
                0 <= i <= len,
                forall|j: int|
                    0 <= j < i ==> !((#[trigger] cs[j]) matches Choice::Choice(item) && item.key
                        == c),
            decreases len - i,
        {
            match ex.choices.get(i) {
                Choice::Choice(item) => {
                    if item.key == c {
                        let out = ExpandItem { key: item.key, name: item.name.clone() };
                        proof {
                            assert(0 <= i < cs.len() && (cs[i as int] matches Choice::Choice(it)
                                && it.key == c && it.name == out.name));
                        }
                        return out;
                    }
                },
                _ => {},
            }
            i = i + 1;
        }
        proof {
            assert(false);
        }
        unreached()
    }
}

impl WidgetSpec for ExpandPrompt {
    closed spec fn wf(&self) -> bool {
        &&& self.message.wf()
        &&& self.list.wf()
        &&& self.input.wf()
        &&& no_line_breaks(self.hint@)
        &&& self.keys_wf()
        &&& !self.input.spec_allowed().contains('\n')
    }

    closed spec fn spec_height(&self, layout: Layout) -> u16 {
        if self.expanded {
            (2 + self.list.spec_height(layout)) as u16
        } else if self.input.spec_value() is Some {
            2
        } else {
            1
        }
    }

    proof fn height_bounds(&self, layout: Layout) {
        if self.expanded {
            crate::select::lemma_select_height_bound(&self.list, layout);
        }
    }

    proof fn height_ignores_position(&self, a: Layout, b: Layout) {
    }
}

impl<B: Backend> Widget<B> for ExpandPrompt {
    fn height(&self, layout: Layout) -> (h: u16) {
        if self.expanded {
            proof {
                crate::select::lemma_select_height_bound(&self.list, layout);
            }
            2 + <Select<Expand> as Widget<B>>::height(&self.list, layout)
        } else if self.input.value().is_some() {
            2
        } else {
            1
        }
    }

    fn render(&self, layout: Layout, b: &mut B) -> (r: Result<(), ErrorKind>) {
        // First line: the message, the key hint, and the typed key.
        let start = start_col(layout);
        b.move_cursor_to(start, layout.offset_y)?;
        let avail = (layout.width - 1 - start) as usize;
        write_line_capped(b, self.message.text().as_str(), avail)?;
        b.write_char(' ')?;
        let mut k: usize = 0;
        while k < self.hint.len()
            invariant
                self.wf(),
                b.inv(),
                b.term_size() == old(b).term_size(),
                b.raw_mode() == old(b).raw_mode(),
                b.cursor_visible() == old(b).cursor_visible(),
                b.cursor().1 == layout.offset_y,
            decreases self.hint@.len() - k,
        {
            b.write_char(self.hint[k])?;
            k = k + 1;
        }
        b.write_char(' ')?;
        match self.input.value() {
            Some(c) => {
                proof {
                    self.input.value_allowed();
                }
                b.write_char(c)?;
            },
            None => {},
        }
        if self.expanded {
            proof {
                crate::select::lemma_select_height_bound(&self.list, layout);
                self.list.height_bounds(layout);
            }
            let list_row = layout.offset_y + 1;
            b.move_cursor_to(layout.offset_x, list_row)?;
            let list_layout = Layout { offset_y: list_row, ..layout };
            proof {
                self.list.height_ignores_position(layout, list_layout);
            }
            <Select<Expand> as Widget<B>>::render(&self.list, list_layout, b)?;
            let h_list = <Select<Expand> as Widget<B>>::height(&self.list, list_layout);
            let answer_row = list_row + h_list;
            b.move_cursor_to(0, answer_row)?;
            proof {
                reveal_strlit("  Answer: ");
            }
            b.write_text("  Answer: ")?;
            match self.input.value() {
                Some(c) => {
                    proof {
                        self.input.value_allowed();
                    }
                    b.write_char(c)?;
                },
                None => {},
            }
            Ok(())
        } else {
            match self.input.value() {
                Some(c) => {
                    // Echo what the typed key means on a second line.
                    let echo_row = layout.offset_y + 1;
                    b.move_cursor_to(0, echo_row)?;
                    b.set_fg(Color::DarkCyan)?;
                    proof {
                        reveal_strlit(">> ");
                    }
                    b.write_text(">> ")?;
                    b.set_fg(Color::Reset)?;
                    let name = if c == 'h' {
                        String::from_str("Help, list all options")
                    } else {
                        proof {
                            self.input.value_allowed();
                        }
                        let ex = self.list.list();
                        match find_key(ex, c) {
                            Some(i) => {
                                match ex.choices.get(i) {
                                    Choice::Choice(item) => item.name.clone(),
                                    _ => unreached(),
                                }
                            },
                            None => unreached(),
                        }
                    };
                    let avail2 = (layout.width - 1) as usize;
                    write_line_capped(b, name.as_str(), avail2)?;
                    Ok(())
                },
                None => Ok(()),
            }
        }
    }

    fn handle_key(&mut self, key: KeyEvent) -> (changed: bool) {
        if self.input.handle_input_key(key) {
            let v = self.input.value();
            let ex = self.list.list_mut();
            ex.selected = v;
            proof {
                assert(self.list.spec_list().wf());
            }
            true
        } else if self.expanded {
            self.list.handle_nav_key(key)
        } else {
            false
        }
    }

    fn cursor_pos(&self, layout: Layout) -> (pos: (u16, u16)) {
        if self.expanded {
            proof {
                crate::select::lemma_select_height_bound(&self.list, layout);
            }
            let h_list = <Select<Expand> as Widget<B>>::height(&self.list, layout);
            let col: u16 = if layout.width > 11 {
                11
            } else {
                layout.width - 1
            };
            (col, 1 + h_list)
        } else {
            (start_col(layout), 0)
        }
    }
}

/// The position of the first entry carrying key `c`.
#[verifier::loop_isolation(false)]
fn find_key(ex: &Expand, c: char) -> (r: Option<usize>)
    ensures
        match r {
            Some(i) => i < ex.choices.spec_choices().len() && (ex.choices.spec_choices()[i as int]
                matches Choice::Choice(item) && item.key == c),
            None => !has_key(ex.choices.spec_choices(), c),
        },
{
    let len = ex.choices.len();
    let mut i: usize = 0;
    while i < len
        invariant
            len == ex.choices.spec_choices().len(),
            0 <= i <= len,
            forall|j: int|
                0 <= j < i ==> !((#[trigger] ex.choices.spec_choices()[j])
                    matches Choice::Choice(item) && item.key == c),
        decreases len - i,
    {
        match ex.choices.get(i) {
            Choice::Choice(item) => {
                if item.key == c {
                    return Some(i);
                }
            },
            _ => {},
        }
        i = i + 1;
    }
    None
}

impl<B: Backend> Prompt<B> for ExpandPrompt {
    type ValidateErr = Text;

    type Output = ExpandItem;

    /// Escape accepts the default key whenever it is a real entry, not help.
    closed spec fn spec_has_default(&self) -> bool {
        self.list.spec_list().default != 'h'
    }

    closed spec fn can_finish(&self) -> bool {
        self.current_key() != 'h' && has_key(
            self.list.spec_list().choices.spec_choices(),
            self.current_key(),
        )
    }

    /// The help key expands the list and keeps the session going; any other
    /// key, typed or defaulted, finishes the prompt.
    fn validate(&mut self) -> (r: Result<Validation, Text>) {
        let c = match self.input.value() {
            Some(c) => c,
            None => self.list.list().default,
        };
        if c == 'h' {
            self.expanded = true;
            self.input.clear_value();
            let ex = self.list.list_mut();
            ex.selected = None;
            Ok(Validation::Continue)
        } else {
            proof {
                self.input.value_allowed();
            }
            Ok(Validation::Finish)
        }
    }

    fn finish(self) -> (out: ExpandItem) {
        let c = match self.input.value() {
            Some(c) => c,
            None => self.list.list().default,
        };
        self.finish_with(c)
    }

    fn has_default(&self) -> (r: bool) {
        self.list.list().default != 'h'
    }

    fn finish_default(self) -> (out: ExpandItem) {
        let c = self.list.list().default;
        self.finish_with(c)
    }
}

impl Expand {
    /// Ask an expand question: run the collapsed prompt under the message,
    /// echo the picked label, and yield the picked entry as the answer.
    pub fn ask<B: Backend, E: EventSource>(self, message: String, backend: B, events: &mut E) -> (res: (
        Result<Answer, ErrorKind>,
        B,
    ))
        requires
            self.wf(),
            no_line_breaks(message@),
            backend.inv(),
        ensures
            res.0 matches Ok(a) ==> a is ExpandItem,
            res.0 != Err::<Answer, ErrorKind>(ErrorKind::Io) ==> !res.1.raw_mode(),
    {
        // The keys the prompt accepts: each entry's, plus `h` for help.
        let len = self.choices.len();
        let ghost cs = self.choices.spec_choices();
        let mut allowed: Vec<char> = Vec::new();
        let mut hint: Vec<char> = Vec::new();
        hint.push('(');
        let mut i: usize = 0;
        while i < len
            invariant
                self.wf(),
                cs == self.choices.spec_choices(),
                len == cs.len(),
                0 <= i <= len,
                forall|k: int|
                    0 <= k < allowed@.len() ==> (#[trigger] allowed@[k]) != '\n' && has_key(
                        cs,
                        allowed@[k],
                    ),
                no_line_breaks(hint@),
            decreases len - i,
        {
            match self.choices.get(i) {
                Choice::Choice(item) => {
                    let k = item.key;
                    proof {
                        assert(cs[i as int] matches Choice::Choice(it) && it.key == k);
                        assert(has_key(cs, k));
                    }
                    allowed.push(k);
                    let hc = if k == self.default {
                        crate::widgets::upper_ascii(k)
                    } else {
                        k
                    };
                    proof {
                        assert(hc != '\n');
                    }
                    hint.push(hc);
                },
                _ => {},
            }
            i = i + 1;
        }
        allowed.push('h');
        if self.default == 'h' {
            hint.push('H');
        } else {
            hint.push('h');
        }
        hint.push(')');
        let prompt = ExpandPrompt {
            message: Text::new(message),
            hint,
            list: Select::new(self),
            input: CharInput::new(allowed),
            expanded: false,
        };
        let (r, mut b) = Input::new(prompt, backend).run(events);
        match r {
            Ok(item) => {
                let echoed = echo_expand(&mut b, &item.name);
                match echoed {
                    Ok(()) => (Ok(Answer::ExpandItem(item)), b),
                    Err(e) => (Err(e), b),
                }
            },
            Err(e) => (Err(e), b),
        }
    }
}

/// Echo a finished answer's label in the answer colour.
fn echo_expand<B: Backend>(b: &mut B, name: &String) -> (r: Result<(), ErrorKind>)
    requires
        old(b).inv(),
    ensures
        r matches Err(e) ==> e == ErrorKind::Io,
        final(b).inv(),
        final(b).raw_mode() == old(b).raw_mode(),
        final(b).cursor_visible() == old(b).cursor_visible(),
{
    b.set_fg(Color::DarkCyan)?;
    proof {
        b.inv_properties();
    }
    let w = b.size()?.width;
    write_line_capped(b, name.as_str(), (w - 1) as usize)?;
    b.set_fg(Color::Reset)?;
    b.flush()
}

// --- The builder ------------------------------------------------------------

#[verifier::external_type_specification]
#[verifier::external_body]
pub struct ExFxHasher(fxhash::FxHasher);

#[verifier::external_type_specification]
#[verifier::external_body]
#[verifier::reject_recursive_types(H)]
pub struct ExBuildHasherDefault<H>(std::hash::BuildHasherDefault<H>);

/// Relies on `HashSet::default` (here with fxhash's `FxBuildHasher`): a fresh
/// set is empty.
#[verifier::external_body]
fn key_set_new() -> (s: fxhash::FxHashSet<char>)
    ensures
        s@ == Set::<char>::empty(),
{
    fxhash::FxHashSet::default()
}

/// Relies on `HashSet::insert` with fxhash's `FxHasher`, which hashes
/// deterministically: afterwards the set holds exactly the old keys plus this
/// one.
#[verifier::external_body]
fn key_set_insert(s: &mut fxhash::FxHashSet<char>, c: char)
    ensures
        final(s)@ == old(s)@.insert(c),
{
    s.insert(c);
}

/// Relies on `HashSet::contains` with fxhash's deterministic `FxHasher`.
#[verifier::external_body]
fn key_set_contains(s: &fxhash::FxHashSet<char>, c: char) -> (r: bool)
    ensures
        r == s@.contains(c),
{
    s.contains(&c)
}

/// Appending an entry can only add that entry's key.
proof fn lemma_has_key_push(cs: Seq<Choice<ExpandItem>>, x: Choice<ExpandItem>, c: char)
    ensures
        has_key(cs.push(x), c) <==> (has_key(cs, c) || (x matches Choice::Choice(it) && it.key
            == c)),
{
    let s2 = cs.push(x);
    if has_key(cs, c) {
        let i = choose|i: int|
            0 <= i < cs.len() && (((#[trigger] cs[i]) matches Choice::Choice(item) && item.key
                == c));
        assert(s2[i] == cs[i]);
        assert(has_key(s2, c));
    }
    if x matches Choice::Choice(it) && it.key == c {
        assert(s2[cs.len() as int] == x);
        assert(has_key(s2, c));
    }
    if has_key(s2, c) {
        let i = choose|i: int|
            0 <= i < s2.len() && (((#[trigger] s2[i]) matches Choice::Choice(item) && item.key
                == c));
        if i < cs.len() {
            assert(cs[i] == s2[i]);
            assert(has_key(cs, c));
        } else {
            assert(s2[i] == x);
        }
    }
}


/// The folded keys of a run of entries.
pub open spec fn keys_of(cs: Seq<Choice<ExpandItem>>) -> Set<char>
    decreases cs.len(),
{
    if cs.len() == 0 {
        Set::empty()
    } else {
        match cs.last() {
            Choice::Choice(item) => keys_of(cs.drop_last()).insert(fold_lower(item.key)),
            Choice::Separator(_) => keys_of(cs.drop_last()),
            Choice::DefaultSeparator => keys_of(cs.drop_last()),
        }
    }
}

/// The same run of entries with every key folded to lowercase.
pub open spec fn folded_run(cs: Seq<Choice<ExpandItem>>) -> Seq<Choice<ExpandItem>>
    decreases cs.len(),
{
    if cs.len() == 0 {
        Seq::empty()
    } else {
        folded_run(cs.drop_last()).push(
            match cs.last() {
                Choice::Choice(item) => Choice::Choice(
                    ExpandItem { key: fold_lower(item.key), name: item.name },
                ),
                Choice::Separator(t) => Choice::Separator(t),
                Choice::DefaultSeparator => Choice::DefaultSeparator,
            },
        )
    }
}

proof fn lemma_keys_of_contains(cs: Seq<Choice<ExpandItem>>, c: char)
    ensures
        keys_of(cs).contains(c) <==> exists|j: int|
            0 <= j < cs.len() && ((#[trigger] cs[j]) matches Choice::Choice(item) && fold_lower(
                item.key,
            ) == c),
    decreases cs.len(),
{
    if cs.len() > 0 {
        lemma_keys_of_contains(cs.drop_last(), c);
        let n = cs.len() - 1;
        if keys_of(cs).contains(c) {
            if cs.last() matches Choice::Choice(item) && fold_lower(item.key) == c {
                assert(cs[n] == cs.last());
            } else {
                let j = choose|j: int|
                    0 <= j < cs.drop_last().len() && (((#[trigger] cs.drop_last()[j])
                        matches Choice::Choice(item) && fold_lower(item.key) == c));
                assert(cs[j] == cs.drop_last()[j]);
            }
        }
        if exists|j: int|
            0 <= j < cs.len() && ((#[trigger] cs[j]) matches Choice::Choice(item) && fold_lower(
                item.key,
            ) == c) {
            let j = choose|j: int|
                0 <= j < cs.len() && (((#[trigger] cs[j]) matches Choice::Choice(item)
                    && fold_lower(item.key) == c));
            if j < n {
                assert(cs.drop_last()[j] == cs[j]);
            }
        }
    }
}

/// The builder for an expand question. It keeps the keys seen so far in a
/// hash set so that a duplicate or reserved key is ruled out up front.
pub struct ExpandBuilder {
    opts: Options,
    expand: Expand,
    keys: fxhash::FxHashSet<char>,
}

impl ExpandBuilder {
    pub closed spec fn spec_expand(&self) -> Expand {
        self.expand
    }

    pub closed spec fn spec_opts(&self) -> Options {
        self.opts
    }

    pub closed spec fn spec_keys(&self) -> Set<char> {
        self.keys@
    }

    /// Every entry's key is a typable, unreserved character the key set also
    /// holds, and every key in the set belongs to some entry.
    pub open spec fn wf(&self) -> bool {
        &&& self.spec_expand().choices.page_wf()
        &&& forall|i: int|
            0 <= i < self.spec_expand().choices.spec_choices().len() ==> (
            #[trigger] self.spec_expand().choices.spec_choices()[i] matches Choice::Choice(item)
                ==> item.key != 'h' && item.key != '\n')
        &&& forall|c: char|
            self.spec_keys().contains(c) ==> has_key(self.spec_expand().choices.spec_choices(), c)
    }

    /// Whether some entry already uses this key (after case folding). What
    /// [`choice`](Self::choice) demands of a fresh key can only be learned by
    /// asking here first.
    pub fn has_choice_key(&self, key: char) -> (r: bool)
        ensures
            r == self.spec_keys().contains(fold_lower(key)),
    {
        key_set_contains(&self.keys, lower_ascii(key))
    }

    /// Set the key Escape accepts. It must belong to one of the entries (or
    /// be `h`) for the built question to be well formed.
    pub fn default(self, default: char) -> (r: ExpandBuilder)
        ensures
            r.spec_expand().default == default,
            r.spec_expand().choices == self.spec_expand().choices,
            r.spec_expand().selected == self.spec_expand().selected,
            r.spec_opts() == self.spec_opts(),
            r.spec_keys() == self.spec_keys(),
            self.wf() ==> r.wf(),
    {
        let mut this = self;
        this.expand.default = default;
        proof {
            if self.wf() {
                assert(this.spec_expand().choices == self.spec_expand().choices);
                assert forall|i: int|
                    0 <= i < this.spec_expand().choices.spec_choices().len() implies (
                #[trigger] this.spec_expand().choices.spec_choices()[i]
                    matches Choice::Choice(item) ==> item.key != 'h' && item.key != '\n') by {
                    assert(this.spec_expand().choices.spec_choices()[i]
                        == self.spec_expand().choices.spec_choices()[i]);
                }
                assert forall|c: char| this.spec_keys().contains(c) implies has_key(
                    this.spec_expand().choices.spec_choices(),
                    c,
                ) by {
                    assert(self.spec_keys().contains(c));
                    assert(has_key(self.spec_expand().choices.spec_choices(), c));
                }
            }
        }
        this
    }

    /// Append a separator with the given text.
    pub fn separator(self, text: String) -> (r: ExpandBuilder)
        ensures
            r.spec_expand().choices.spec_choices() == self.spec_expand().choices.spec_choices().push(
                Choice::Separator(text),
            ),
            r.spec_expand().choices.spec_page_size() == self.spec_expand().choices.spec_page_size(),
            r.spec_expand().choices.spec_should_loop()
                == self.spec_expand().choices.spec_should_loop(),
            r.spec_expand().choices.spec_default() == self.spec_expand().choices.spec_default(),
            r.spec_expand().default == self.spec_expand().default,
            r.spec_expand().selected == self.spec_expand().selected,
            r.spec_opts() == self.spec_opts(),
            r.spec_keys() == self.spec_keys(),
            self.wf() ==> r.wf(),
    {
        let mut this = self;
        let ghost cs = this.expand.choices.spec_choices();
        this.expand.choices.push(Choice::Separator(text));
        proof {
            if self.wf() {
                let ghost cs2 = this.spec_expand().choices.spec_choices();
                assert forall|c: char| this.spec_keys().contains(c) implies has_key(cs2, c) by {
                    assert(self.spec_keys().contains(c));
                    assert(has_key(cs, c));
                    lemma_has_key_push(cs, cs2.last(), c);
                }
            }
        }
        this
    }

    /// Append a horizontal-rule separator.
    pub fn default_separator(self) -> (r: ExpandBuilder)
        ensures
            r.spec_expand().choices.spec_choices() == self.spec_expand().choices.spec_choices().push(
                Choice::DefaultSeparator,
            ),
            r.spec_expand().choices.spec_page_size() == self.spec_expand().choices.spec_page_size(),
            r.spec_expand().choices.spec_should_loop()
                == self.spec_expand().choices.spec_should_loop(),
            r.spec_expand().choices.spec_default() == self.spec_expand().choices.spec_default(),
            r.spec_expand().default == self.spec_expand().default,
            r.spec_expand().selected == self.spec_expand().selected,
            r.spec_opts() == self.spec_opts(),
            r.spec_keys() == self.spec_keys(),
            self.wf() ==> r.wf(),
    {
        let mut this = self;
        let ghost cs = this.expand.choices.spec_choices();
        this.expand.choices.push(Choice::DefaultSeparator);
        proof {
            if self.wf() {
                let ghost cs2 = this.spec_expand().choices.spec_choices();
                assert forall|c: char| this.spec_keys().contains(c) implies has_key(cs2, c) by {
                    assert(self.spec_keys().contains(c));
                    assert(has_key(cs, c));
                    lemma_has_key_push(cs, Choice::DefaultSeparator, c);
                }
            }
        }
        this
    }

    /// Append one entry under the given shortcut key, folded to lowercase.
    /// `h` is reserved for help and a key can only be used once.
    pub fn choice(self, key: char, name: String) -> (r: ExpandBuilder)
        requires
            self.wf(),
            fold_lower(key) != 'h',
            fold_lower(key) != '\n',
            !self.spec_keys().contains(fold_lower(key)),
        ensures
            r.wf(),
            r.spec_expand().choices.spec_choices() == self.spec_expand().choices.spec_choices().push(
                Choice::Choice(ExpandItem { key: fold_lower(key), name }),
            ),
            r.spec_expand().choices.spec_page_size() == self.spec_expand().choices.spec_page_size(),
            r.spec_expand().choices.spec_should_loop()
                == self.spec_expand().choices.spec_should_loop(),
            r.spec_expand().default == self.spec_expand().default,
            r.spec_expand().selected == self.spec_expand().selected,
            r.spec_opts() == self.spec_opts(),
            r.spec_keys() == self.spec_keys().insert(fold_lower(key)),
    {
        let mut this = self;
        let k = lower_ascii(key);
        let ghost cs = this.expand.choices.spec_choices();
        key_set_insert(&mut this.keys, k);
        this.expand.choices.push(Choice::Choice(ExpandItem { key: k, name }));
        proof {
            let ghost cs2 = this.spec_expand().choices.spec_choices();
            assert forall|c: char| this.spec_keys().contains(c) implies has_key(cs2, c) by {
                if c != k {
                    assert(self.spec_keys().contains(c));
                    assert(has_key(cs, c));
                }
                lemma_has_key_push(cs, cs2.last(), c);
            }
        }
        this
    }

    /// Append a run of entries and separators; entry keys are folded to
    /// lowercase and must be fresh, typable and unreserved, like
    /// [`choice`](Self::choice)'s.
    pub fn choices(self, choices: Vec<Choice<ExpandItem>>) -> (r: ExpandBuilder)
        requires
            self.wf(),
            forall|j: int|
                0 <= j < choices@.len() ==> ((#[trigger] choices@[j]) matches Choice::Choice(item)
                    ==> fold_lower(item.key) != 'h' && fold_lower(item.key) != '\n'
                    && !self.spec_keys().contains(fold_lower(item.key))),
            forall|j1: int, j2: int|
                0 <= j1 < j2 < choices@.len() ==> !((#[trigger] choices@[j1])
                    matches Choice::Choice(a) && (#[trigger] choices@[j2])
                    matches Choice::Choice(b) && fold_lower(a.key) == fold_lower(b.key)),
        ensures
            r.wf(),
            r.spec_expand().choices.spec_choices() == self.spec_expand().choices.spec_choices()
                + folded_run(choices@),
            r.spec_keys() == self.spec_keys().union(keys_of(choices@)),
            r.spec_expand().choices.spec_page_size() == self.spec_expand().choices.spec_page_size(),
            r.spec_expand().choices.spec_should_loop()
                == self.spec_expand().choices.spec_should_loop(),
            r.spec_expand().default == self.spec_expand().default,
            r.spec_expand().selected == self.spec_expand().selected,
            r.spec_opts() == self.spec_opts(),
    {
        let ghost orig = choices@;
        let mut this = self;
        let mut rest = choices;
        let total = rest.len();
        let mut k: usize = 0;
        while rest.len() > 0
            invariant
                this.wf(),
                total == orig.len(),
                k + rest@.len() == orig.len(),
                rest@ == orig.skip(k as int),
                this.spec_opts() == self.spec_opts(),
                this.spec_expand().default == self.spec_expand().default,
                this.spec_expand().selected == self.spec_expand().selected,
                this.spec_expand().choices.spec_page_size()
                    == self.spec_expand().choices.spec_page_size(),
                this.spec_expand().choices.spec_should_loop()
                    == self.spec_expand().choices.spec_should_loop(),
                this.spec_expand().choices.spec_choices()
                    == self.spec_expand().choices.spec_choices() + folded_run(orig.take(k as int)),
                this.spec_keys() == self.spec_keys().union(keys_of(orig.take(k as int))),
                forall|j: int|
                    0 <= j < orig.len() ==> ((#[trigger] orig[j]) matches Choice::Choice(item)
                        ==> fold_lower(item.key) != 'h' && fold_lower(item.key) != '\n'
                        && !self.spec_keys().contains(fold_lower(item.key))),
                forall|j1: int, j2: int|
                    0 <= j1 < j2 < orig.len() ==> !((#[trigger] orig[j1])
                        matches Choice::Choice(a) && (#[trigger] orig[j2])
                        matches Choice::Choice(b) && fold_lower(a.key) == fold_lower(b.key)),
            decreases rest@.len(),
        {
            let c = rest.remove(0);
            proof {
                assert(c == orig[k as int]);
                assert(orig.take(k as int + 1).drop_last() =~= orig.take(k as int));
                assert(rest@ =~= orig.skip(k as int + 1));
            }
            match c {
                Choice::Choice(item) => {
                    proof {
                        // The key is fresh: it is not among the keys the
                        // builder started with, and not among those of the
                        // entries already appended.
                        lemma_keys_of_contains(orig.take(k as int), fold_lower(item.key));
                        if keys_of(orig.take(k as int)).contains(fold_lower(item.key)) {
                            let j = choose|j: int|
                                0 <= j < orig.take(k as int).len() && (((#[trigger] orig.take(
                                    k as int,
                                )[j]) matches Choice::Choice(a) && fold_lower(a.key) == fold_lower(
                                    item.key,
                                )));
                            assert(orig[j] == orig.take(k as int)[j]);
                            assert(false);
                        }
                    }
                    this = this.choice(item.key, item.name);
                },
                Choice::Separator(t) => {
                    this = this.separator(t);
                },
                Choice::DefaultSeparator => {
                    this = this.default_separator();
                },
            }
            proof {
                assert(this.spec_expand().choices.spec_choices()
                    =~= self.spec_expand().choices.spec_choices() + folded_run(
                    orig.take(k as int + 1),
                ));
                assert(this.spec_keys() =~= self.spec_keys().union(keys_of(orig.take(k as int + 1))));
            }
            k = k + 1;
        }
        proof {
            assert(orig.take(orig.len() as int) =~= orig);
        }
        this
    }

    /// The maximum rows the list may take before it scrolls.
    pub fn page_size(self, page_size: usize) -> (r: ExpandBuilder)
        requires
            5 <= page_size <= 4096,
        ensures
            r.spec_expand().choices.spec_page_size() == page_size,
            r.spec_expand().choices.spec_choices() == self.spec_expand().choices.spec_choices(),
            r.spec_expand().default == self.spec_expand().default,
            r.spec_opts() == self.spec_opts(),
            r.spec_keys() == self.spec_keys(),
            self.wf() ==> r.wf(),
    {
        let mut this = self;
        this.expand.choices.set_page_size(page_size);
        this
    }

    /// Whether navigation wraps past the ends.
    pub fn should_loop(self, should_loop: bool) -> (r: ExpandBuilder)
        ensures
            r.spec_expand().choices.spec_should_loop() == should_loop,
            r.spec_expand().choices.spec_choices() == self.spec_expand().choices.spec_choices(),
            r.spec_expand().choices.spec_page_size() == self.spec_expand().choices.spec_page_size(),
            r.spec_expand().default == self.spec_expand().default,
            r.spec_opts() == self.spec_opts(),
            r.spec_keys() == self.spec_keys(),
            self.wf() ==> r.wf(),
    {
        let mut this = self;
        this.expand.choices.set_should_loop(should_loop);
        this
    }

    /// Consume the builder, returning the question. The default key must be
    /// `h` or one of the entries' keys, and the list must not be degenerate.
    pub fn build(self) -> (q: Question)
        requires
            self.wf(),
            self.spec_expand().default == 'h' || self.spec_keys().contains(
                self.spec_expand().default,
            ),
            self.spec_expand().choices.spec_choices().len() < usize::MAX,
        ensures
            q.opts == self.spec_opts(),
            q.kind matches QuestionKind::Expand(e) && e == self.spec_expand(),
            (q.kind matches QuestionKind::Expand(e) ==> e.wf()),
    {
        Question::new(self.opts, QuestionKind::Expand(self.expand))
    }
}

impl Question {
    /// Start building an expand question under the given name.
    pub fn expand(name: String) -> (b: ExpandBuilder)
        ensures
            b.wf(),
            b.spec_opts().name == name,
            b.spec_expand().choices.spec_choices().len() == 0,
            b.spec_expand().default == 'h',
            b.spec_keys() == Set::<char>::empty(),
    {
        ExpandBuilder { opts: Options::new(name), expand: Default::default(), keys: key_set_new() }
    }
}

} // verus!
