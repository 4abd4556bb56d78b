use vstd::prelude::*;
use crate::backend::{Backend, Color, Size};
use crate::error::ErrorKind;
use crate::events::{EventSource, KeyCode, KeyEvent};
use crate::layout::Layout;
use crate::symbols;
use crate::widget::{Widget, WidgetSpec};

verus! {

/// What a prompt answers when the user submits it.
#[derive(Clone, Copy, Debug, PartialEq, Eq, Structural)]
pub enum Validation {
    /// The prompt is complete; extract its value and stop.
    Finish,
    /// Keep editing; re-render without an error.
    Continue,
}

/// The contract of a root widget: a widget with submission semantics.
///
/// Beyond rendering, a prompt decides when it may be submitted (`validate`),
/// whether it carries a default that Escape can accept, and how its final
/// value is extracted once the session ends.
pub trait Prompt<B: Backend>: Widget<B> {
    /// The widget shown under the prompt when validation fails.
    /// It is always a single line tall.
    type ValidateErr: Widget<B>;

    /// The value a completed session yields.
    type Output;

    /// Whether Escape may finish the prompt with a default value.
    spec fn spec_has_default(&self) -> bool;

    /// States from which `finish` may extract a value.
    spec fn can_finish(&self) -> bool;

    /// Decide whether the current state may be submitted. Called whenever the
    /// user presses Enter; an `Err` is shown inline and the session goes on.
    fn validate(&mut self) -> (r: Result<Validation, Self::ValidateErr>)
        requires
            old(self).wf(),
        ensures
            final(self).wf(),
            (r matches Ok(v) && v == Validation::Finish) ==> final(self).can_finish(),
            r matches Err(e) ==> e.wf() && (forall|l: Layout|
                l.wf() ==> #[trigger] e.spec_height(l) == 1),
    ;

    /// Extract the value. Only called after `validate` reported `Finish`.
    fn finish(self) -> Self::Output
        requires
            self.wf(),
            self.can_finish(),
    ;

    /// Whether the prompt has a default value Escape can accept.
    fn has_default(&self) -> (r: bool)
        requires
            self.wf(),
        ensures
            r == self.spec_has_default(),
    ;

    /// Extract the default value. Only called when `has_default` holds and
    /// the user pressed Escape.
    fn finish_default(self) -> Self::Output
        requires
            self.wf(),
            self.spec_has_default(),
    ;
}

/// The abstract state of the terminal-state guard: its own two flags together
/// with the two backend flags it owns for the session.
pub struct GuardState {
    pub enabled: bool,
    pub hide_cursor: bool,
    pub raw: bool,
    pub visible: bool,
}

/// What releasing the guard does: a no-op when it is not enabled, otherwise
/// raw mode goes off and the cursor is shown again if the session hid it.
pub open spec fn release_model(g: GuardState) -> GuardState {
    if !g.enabled {
        g
    } else {
        GuardState {
            enabled: false,
            hide_cursor: g.hide_cursor,
            raw: false,
            visible: if g.hide_cursor {
                true
            } else {
                g.visible
            },
        }
    }
}

/// Releasing the guard twice in a row is the same as releasing it once: the
/// second release is a no-op and cannot double-toggle raw mode or cursor
/// visibility.
pub proof fn lemma_release_idempotent(g: GuardState)
    ensures
        release_model(release_model(g)) == release_model(g),
{
}

/// Scoped ownership of raw-mode and cursor-visibility state on the backend.
///
/// `init` marks the guard enabled, optionally hides the cursor, then enables
/// raw mode. `reset` undoes that and is idempotent: when the guard is not
/// enabled it does nothing at all. The runner calls `reset` on every exit
/// path, normal or failing, and a failure of `reset` itself on an already
/// failing path is swallowed so terminal restoration never masks the original
/// failure.
pub struct TerminalState<B: Backend> {
    backend: B,
    hide_cursor: bool,
    enabled: bool,
}

impl<B: Backend> TerminalState<B> {
    pub closed spec fn bk(&self) -> B {
        self.backend
    }

    pub closed spec fn is_enabled(&self) -> bool {
        self.enabled
    }

    pub closed spec fn wants_hidden(&self) -> bool {
        self.hide_cursor
    }

    pub open spec fn model(&self) -> GuardState {
        GuardState {
            enabled: self.is_enabled(),
            hide_cursor: self.wants_hidden(),
            raw: self.bk().raw_mode(),
            visible: self.bk().cursor_visible(),
        }
    }

    pub fn new(backend: B, hide_cursor: bool) -> (ts: TerminalState<B>)
        ensures
            ts.bk() == backend,
            !ts.is_enabled(),
            ts.wants_hidden() == hide_cursor,
    {
        TerminalState { backend, enabled: false, hide_cursor }
    }

    /// Hand the backend back, ending the guard's ownership.
    pub fn into_backend(self) -> (b: B)
        ensures
            b == self.bk(),
    {
        self.backend
    }

    /// Acquire the terminal: mark enabled, hide the cursor if asked, enable
    /// raw mode.
    pub fn init(&mut self) -> (r: Result<(), ErrorKind>)
        requires
            old(self).bk().inv(),
        ensures
            r matches Err(e) ==> e == ErrorKind::Io,
            final(self).bk().inv(),
            final(self).is_enabled(),
            final(self).wants_hidden() == old(self).wants_hidden(),
            final(self).bk().term_size() == old(self).bk().term_size(),
            final(self).bk().cursor() == old(self).bk().cursor(),
            r is Ok ==> final(self).bk().raw_mode(),
            (r is Ok && old(self).wants_hidden()) ==> !final(self).bk().cursor_visible(),
            !old(self).wants_hidden() ==> final(self).bk().cursor_visible()
                == old(self).bk().cursor_visible(),
    {
        self.enabled = true;
        if self.hide_cursor {
            self.backend.hide_cursor()?;
        }
        self.backend.enable_raw_mode()
    }

    /// Release the terminal. A no-op when the guard is not enabled, so a
    /// second release never double-toggles anything.
    pub fn reset(&mut self) -> (r: Result<(), ErrorKind>)
        requires
            old(self).bk().inv(),
        ensures
            r matches Err(e) ==> e == ErrorKind::Io,
            final(self).bk().inv(),
            final(self).wants_hidden() == old(self).wants_hidden(),
            final(self).bk().term_size() == old(self).bk().term_size(),
            final(self).bk().cursor() == old(self).bk().cursor(),
            !final(self).is_enabled(),
            !old(self).is_enabled() ==> r is Ok && *final(self) == *old(self),
            r is Ok ==> final(self).model() == release_model(old(self).model()),
    {
        if !self.enabled {
            return Ok(());
        }
        self.enabled = false;
        if self.hide_cursor {
            self.backend.show_cursor()?;
        }
        self.backend.disable_raw_mode()
    }
}

/// How far the screen must scroll so that content of the given height,
/// starting at `base_row`, stays fully visible with one row to spare.
pub open spec fn spec_scroll_dist(base_row: u16, height: u16, terminal_height: u16) -> int {
    if base_row + height >= terminal_height {
        base_row + height + 1 - terminal_height
    } else {
        0
    }
}

/// Where the content's first row sits after the scrollback adjustment.
pub open spec fn spec_adjusted_base(base_row: u16, height: u16, terminal_height: u16) -> int {
    base_row - spec_scroll_dist(base_row, height, terminal_height)
}

/// Scrollback bound: whenever content would overflow the screen, the
/// adjustment brings its base row back on screen, with the whole content
/// visible, and never above the top row.
pub proof fn lemma_scrollback_bound(base_row: u16, height: u16, terminal_height: u16)
    requires
        height < terminal_height,
        base_row + height > terminal_height,
    ensures
        spec_adjusted_base(base_row, height, terminal_height) + height <= terminal_height,
        0 <= spec_adjusted_base(base_row, height, terminal_height),
        spec_adjusted_base(base_row, height, terminal_height) <= base_row,
{
}

/// The scrollback computation: returns `(distance, new_base_row)` such that
/// scrolling up by `distance` and moving the base row up by the same amount
/// leaves all `height + 1` content rows on screen.
pub fn scroll_adjustment(base_row: u16, height: u16, terminal_height: u16) -> (r: (u16, u16))
    requires
        height < terminal_height,
        base_row < terminal_height,
    ensures
        r.0 == spec_scroll_dist(base_row, height, terminal_height),
        r.1 == spec_adjusted_base(base_row, height, terminal_height),
        r.1 + height < terminal_height,
        r.1 <= base_row,
        r.0 == 0 ==> r.1 == base_row,
{
    let sum = base_row as u32 + height as u32;
    if sum >= terminal_height as u32 {
        let dist32 = sum + 1 - terminal_height as u32;
        assert(dist32 <= base_row);
        let dist = dist32 as u16;
        (dist, base_row - dist)
    } else {
        (0, base_row)
    }
}

/// How the runner routes one key event, in priority order.
#[derive(Clone, Copy, Debug, PartialEq, Eq, Structural)]
pub enum EventClass {
    /// Ctrl-C: run the exit sequence, terminate with `Interrupted`.
    Interrupt,
    /// The end-of-input sentinel: exit sequence, terminate with `Eof`.
    EndOfInput,
    /// Escape while the prompt has a default: finish on the default path.
    AcceptDefault,
    /// Enter: ask the prompt to validate.
    Submit,
    /// Anything else: delegate to the prompt's key handler.
    Delegate,
}

pub open spec fn spec_classify(e: KeyEvent, has_default: bool) -> EventClass {
    if e.code == KeyCode::Char('c') && e.modifiers.control {
        EventClass::Interrupt
    } else if e.code == KeyCode::Null {
        EventClass::EndOfInput
    } else if e.code == KeyCode::Esc && has_default {
        EventClass::AcceptDefault
    } else if e.code == KeyCode::Enter {
        EventClass::Submit
    } else {
        EventClass::Delegate
    }
}

pub fn classify_event(e: KeyEvent, has_default: bool) -> (c: EventClass)
    ensures
        c == spec_classify(e, has_default),
{
    match e.code {
        KeyCode::Char(ch) => {
            if ch == 'c' && e.modifiers.control {
                EventClass::Interrupt
            } else {
                EventClass::Delegate
            }
        },
        KeyCode::Null => EventClass::EndOfInput,
        KeyCode::Esc => {
            if has_default {
                EventClass::AcceptDefault
            } else {
                EventClass::Delegate
            }
        },
        KeyCode::Enter => EventClass::Submit,
        _ => EventClass::Delegate,
    }
}

/// The runner's phase.
#[derive(Clone, Copy, Debug, PartialEq, Eq, Structural)]
pub enum RunnerPhase {
    Running,
    Finished,
    Interrupted,
    OutOfInput,
}

/// What one validation attempt reported, seen abstractly.
#[derive(Clone, Copy, Debug, PartialEq, Eq, Structural)]
pub enum ValidationOutcome {
    Finish,
    Continue,
    Fail,
}

/// The runner's state machine, one key event at a time. `v` is what the
/// prompt's validation answers if this event submits.
pub open spec fn runner_step(
    p: RunnerPhase,
    e: KeyEvent,
    has_default: bool,
    v: ValidationOutcome,
) -> RunnerPhase {
    if p != RunnerPhase::Running {
        p
    } else {
        match spec_classify(e, has_default) {
            EventClass::Interrupt => RunnerPhase::Interrupted,
            EventClass::EndOfInput => RunnerPhase::OutOfInput,
            EventClass::AcceptDefault => RunnerPhase::Finished,
            EventClass::Submit => if v == ValidationOutcome::Finish {
                RunnerPhase::Finished
            } else {
                RunnerPhase::Running
            },
            EventClass::Delegate => RunnerPhase::Running,
        }
    }
}

/// The phase after a whole sequence of key events, each paired with the
/// validation outcome the prompt would report at that point.
pub open spec fn runner_trace(
    p: RunnerPhase,
    steps: Seq<(KeyEvent, ValidationOutcome)>,
    has_default: bool,
) -> RunnerPhase
    decreases steps.len(),
{
    if steps.len() == 0 {
        p
    } else {
        runner_trace(runner_step(p, steps[0].0, has_default, steps[0].1), steps.skip(1), has_default)
    }
}

/// Validation loop: a prompt whose validation never reports `Finish` keeps
/// the runner in `Running`, however many times Enter is pressed.
pub proof fn lemma_validation_never_finishes(
    steps: Seq<(KeyEvent, ValidationOutcome)>,
    has_default: bool,
)
    requires
        forall|i: int| 0 <= i < steps.len() ==> (#[trigger] steps[i]).0.code == KeyCode::Enter,
        forall|i: int| 0 <= i < steps.len() ==> (#[trigger] steps[i]).1 != ValidationOutcome::Finish,
    ensures
        runner_trace(RunnerPhase::Running, steps, has_default) == RunnerPhase::Running,
    decreases steps.len(),
{
    if steps.len() > 0 {
        assert(spec_classify(steps[0].0, has_default) == EventClass::Submit);
        assert forall|i: int| 0 <= i < steps.skip(1).len() implies (#[trigger] steps.skip(1)[i]).0.code
            == KeyCode::Enter && steps.skip(1)[i].1 != ValidationOutcome::Finish by {
            assert(steps.skip(1)[i] == steps[i + 1]);
        }
        lemma_validation_never_finishes(steps.skip(1), has_default);
    }
}

/// Only a validation that reports `Finish`, or Escape on a prompt with a
/// default, ever moves the runner from `Running` into `Finished`.
pub proof fn lemma_finish_needs_validation(
    p: RunnerPhase,
    e: KeyEvent,
    has_default: bool,
    v: ValidationOutcome,
)
    requires
        p != RunnerPhase::Finished,
        runner_step(p, e, has_default, v) == RunnerPhase::Finished,
    ensures
        spec_classify(e, has_default) == EventClass::AcceptDefault || (spec_classify(e, has_default)
            == EventClass::Submit && v == ValidationOutcome::Finish),
{
}

/// Two guard wrappers around the same session: the guard flags and the
/// backend's raw-mode, visibility and size are untouched.
pub open spec fn same_session<B: Backend>(a: TerminalState<B>, b: TerminalState<B>) -> bool {
    &&& b.is_enabled() == a.is_enabled()
    &&& b.wants_hidden() == a.wants_hidden()
    &&& b.bk().term_size() == a.bk().term_size()
    &&& b.bk().raw_mode() == a.bk().raw_mode()
    &&& b.bk().cursor_visible() == a.bk().cursor_visible()
}

/// The terminal has been handed back the way the session found it: raw mode
/// is off, and the cursor is visible again if the session hid it, untouched
/// otherwise.
pub open spec fn restored<B: Backend>(b0: B, hide: bool, b1: B) -> bool {
    &&& !b1.raw_mode()
    &&& (hide ==> b1.cursor_visible())
    &&& (!hide ==> b1.cursor_visible() == b0.cursor_visible())
}

/// The ui runner. It renders and processes events with the help of a type
/// that implements [`Prompt`].
///
/// See [`run`](Input::run) for more information.
pub struct Input<P, B: Backend> {
    prompt: P,
    backend: TerminalState<B>,
    base_row: u16,
    size: Size,
}

impl<P: Prompt<B>, B: Backend> Input<P, B> {
    pub closed spec fn guard(&self) -> TerminalState<B> {
        self.backend
    }

    pub closed spec fn core_wf(&self) -> bool {
        &&& self.prompt.wf()
        &&& self.backend.bk().inv()
    }

    pub closed spec fn wf(&self) -> bool {
        &&& self.core_wf()
        &&& self.size == self.backend.bk().term_size()
        &&& 1 <= self.size.width
        &&& 1 <= self.size.height
        &&& self.base_row < self.size.height
    }

    spec fn spec_layout(&self) -> Layout {
        Layout {
            line_offset: 0,
            offset_x: 0,
            offset_y: self.base_row,
            width: self.size.width,
            height: self.size.height,
        }
    }

    fn layout(&self) -> (l: Layout)
        requires
            self.wf(),
        ensures
            l == self.spec_layout(),
            l.wf(),
    {
        Layout {
            line_offset: 0,
            offset_x: 0,
            offset_y: self.base_row,
            width: self.size.width,
            height: self.size.height,
        }
    }

    /// Refresh `size` from the backend and keep `base_row` on screen.
    fn refresh_size(&mut self) -> (r: Result<(), ErrorKind>)
        requires
            old(self).core_wf(),
        ensures
            r matches Err(e) ==> e == ErrorKind::Io,
            final(self).core_wf(),
            final(self).prompt == old(self).prompt,
            final(self).backend == old(self).backend,
            r is Ok ==> final(self).wf(),
    {
        let s = self.backend.backend.size()?;
        proof {
            self.backend.backend.inv_properties();
        }
        self.size = s;
        if self.base_row >= self.size.height {
            self.base_row = self.size.height - 1;
        }
        Ok(())
    }

    /// Scroll the terminal just enough that `height + 1` rows starting at
    /// `base_row` fit on screen, and return the adjusted base row.
    fn adjust_scrollback(&mut self, height: u16) -> (r: Result<u16, ErrorKind>)
        requires
            old(self).wf(),
            height < old(self).size.height,
        ensures
            r matches Err(e) ==> e == ErrorKind::Io,
            final(self).wf(),
            final(self).prompt == old(self).prompt,
            final(self).base_row == old(self).base_row,
            final(self).size == old(self).size,
            same_session(old(self).backend, final(self).backend),
            r matches Ok(nb) ==> nb == spec_adjusted_base(
                old(self).base_row,
                height,
                old(self).size.height,
            ) && nb + height < old(self).size.height,
    {
        let (dist, nb) = scroll_adjustment(self.base_row, height, self.size.height);
        if dist > 0 {
            self.backend.backend.scroll_up(dist)?;
            self.backend.backend.move_cursor_up(dist)?;
        }
        Ok(nb)
    }

    /// Move to the base row and clear everything below it.
    fn clear(&mut self) -> (r: Result<(), ErrorKind>)
        requires
            old(self).wf(),
        ensures
            r matches Err(e) ==> e == ErrorKind::Io,
            final(self).wf(),
            final(self).prompt == old(self).prompt,
            final(self).base_row == old(self).base_row,
            final(self).size == old(self).size,
            same_session(old(self).backend, final(self).backend),
            r is Ok ==> final(self).backend.bk().cursor() == (0u16, old(self).base_row),
    {
        proof {
            self.backend.backend.inv_properties();
        }
        self.backend.backend.move_cursor_to(0, self.base_row)?;
        self.backend.backend.clear_down()
    }

    /// Adjust the scrollback for the given height, then park the cursor on
    /// the line just past it.
    fn goto_last_line(&mut self, height: u16) -> (r: Result<(), ErrorKind>)
        requires
            old(self).wf(),
            height < old(self).size.height,
        ensures
            r matches Err(e) ==> e == ErrorKind::Io,
            final(self).wf(),
            final(self).prompt == old(self).prompt,
            final(self).size == old(self).size,
            same_session(old(self).backend, final(self).backend),
            r is Ok ==> final(self).base_row + height < final(self).size.height
                && final(self).backend.bk().cursor() == (
            0u16,
            (final(self).base_row + height) as u16,
            ),
    {
        let nb = self.adjust_scrollback(height)?;
        self.base_row = nb;
        self.backend.backend.move_cursor_to(0, self.base_row + height)
    }

    /// Park the cursor where the prompt asked for it (unless hidden), then
    /// flush buffered output.
    fn flush(&mut self) -> (r: Result<(), ErrorKind>)
        requires
            old(self).wf(),
            old(self).base_row + old(self).prompt.spec_height(old(self).spec_layout())
                <= old(self).size.height,
        ensures
            r matches Err(e) ==> e == ErrorKind::Io,
            final(self).wf(),
            final(self).prompt == old(self).prompt,
            final(self).base_row == old(self).base_row,
            final(self).size == old(self).size,
            same_session(old(self).backend, final(self).backend),
    {
        if !self.backend.hide_cursor {
            let l = self.layout();
            proof {
                self.prompt.height_bounds(l);
            }
            let pos = self.prompt.cursor_pos(l);
            self.backend.backend.move_cursor_to(pos.0, self.base_row + pos.1)?;
        }
        self.backend.backend.flush()
    }

    /// One full render pass: refresh the size, adjust the scrollback for the
    /// prompt's current height, clear from the base row down, draw the
    /// prompt, park the cursor, flush.
    fn render(&mut self) -> (r: Result<(), ErrorKind>)
        requires
            old(self).core_wf(),
        ensures
            r matches Err(e) ==> e == ErrorKind::Io,
            final(self).core_wf(),
            final(self).prompt == old(self).prompt,
            same_session(old(self).backend, final(self).backend),
            r is Ok ==> final(self).wf(),
    {
        self.refresh_size()?;
        let l = self.layout();
        let h = self.prompt.height(l);
        proof {
            self.prompt.height_bounds(l);
        }
        if h >= self.size.height {
            return Err(ErrorKind::Io);
        }
        let nb = self.adjust_scrollback(h - 1)?;
        self.base_row = nb;
        self.clear()?;
        let l2 = self.layout();
        proof {
            self.prompt.height_ignores_position(l, l2);
        }
        self.prompt.render(l2, &mut self.backend.backend)?;
        self.flush()
    }

    /// Render a one-line validation error just under the prompt, scrolled
    /// into view, prefixed with a failure glyph.
    fn print_error(&mut self, err: &P::ValidateErr) -> (r: Result<(), ErrorKind>)
        requires
            old(self).core_wf(),
            err.wf(),
            forall|l: Layout| l.wf() ==> #[trigger] err.spec_height(l) == 1,
        ensures
            r matches Err(e) ==> e == ErrorKind::Io,
            final(self).core_wf(),
            final(self).prompt == old(self).prompt,
            same_session(old(self).backend, final(self).backend),
            r is Ok ==> final(self).wf(),
    {
        self.refresh_size()?;
        let l = self.layout();
        let h = self.prompt.height(l);
        proof {
            self.prompt.height_bounds(l);
        }
        if h >= self.size.height {
            return Err(ErrorKind::Io);
        }
        // Scroll so that the prompt plus the error line below it fit: the
        // combined content is `h + 1` rows tall.
        let nb = self.adjust_scrollback(h)?;
        self.base_row = nb;
        let err_row = self.base_row + h;
        self.backend.backend.move_cursor_to(0, err_row)?;
        self.backend.backend.set_fg(Color::Red)?;
        self.backend.backend.write_char(symbols::CROSS)?;
        self.backend.backend.write_char(' ')?;
        self.backend.backend.set_fg(Color::Reset)?;
        let line_offset: u16 = if self.size.width > 2 {
            2
        } else {
            self.size.width - 1
        };
        let l2 = Layout {
            line_offset,
            offset_x: 0,
            offset_y: err_row,
            width: self.size.width,
            height: self.size.height,
        };
        err.render(l2, &mut self.backend.backend)?;
        let l3 = self.layout();
        proof {
            self.prompt.height_ignores_position(l, l3);
        }
        self.flush()
    }

    /// The exit sequence: park the cursor past the prompt and release the
    /// terminal-state guard.
    fn exit(&mut self) -> (r: Result<(), ErrorKind>)
        requires
            old(self).core_wf(),
        ensures
            r matches Err(e) ==> e == ErrorKind::Io,
            final(self).core_wf(),
            final(self).backend.wants_hidden() == old(self).backend.wants_hidden(),
            r is Ok ==> final(self).backend.model() == release_model(old(self).backend.model()),
    {
        self.refresh_size()?;
        let l = self.layout();
        let h = self.prompt.height(l);
        let h_eff = if h < self.size.height {
            h
        } else {
            self.size.height - 1
        };
        self.goto_last_line(h_eff)?;
        self.backend.reset()
    }

    /// Tear down after a fatal error: release the guard, swallowing any
    /// error it produces so restoration never masks the original failure.
    fn abort(self, e: ErrorKind) -> (res: (Result<P::Output, ErrorKind>, B))
        requires
            self.backend.bk().inv(),
            e == ErrorKind::Io,
        ensures
            res.0 == Err::<P::Output, ErrorKind>(e),
            res.1.inv(),
    {
        let mut this = self;
        let _ = this.backend.reset();
        let Input { backend: ts, .. } = this;
        let TerminalState { backend: b, .. } = ts;
        (Err(e), b)
    }

    /// Clear the rendered region, release the guard, and extract the value:
    /// the submitted one after Enter, the default one after Escape.
    fn finish(self, pressed_enter: bool) -> (res: (Result<P::Output, ErrorKind>, B))
        requires
            self.wf(),
            self.guard().is_enabled(),
            pressed_enter ==> self.prompt.can_finish(),
            !pressed_enter ==> self.prompt.spec_has_default(),
        ensures
            res.0 matches Err(e) ==> e == ErrorKind::Io,
            res.0 is Ok ==> restored(self.guard().bk(), self.guard().wants_hidden(), res.1),
            res.1.inv(),
    {
        let mut this = self;
        match this.clear() {
            Ok(()) => {},
            Err(e) => {
                return this.abort(e);
            },
        }
        match this.backend.reset() {
            Ok(()) => {},
            Err(e) => {
                let Input { backend: ts, .. } = this;
                let TerminalState { backend: b, .. } = ts;
                return (Err(e), b);
            },
        }
        let Input { prompt, backend: ts, .. } = this;
        let TerminalState { backend: b, .. } = ts;
        let out = if pressed_enter {
            prompt.finish()
        } else {
            prompt.finish_default()
        };
        (Ok(out), b)
    }

    /// Acquire the guard, record the cursor row as the initial base row, and
    /// render for the first time.
    fn init(&mut self) -> (r: Result<(), ErrorKind>)
        requires
            old(self).core_wf(),
        ensures
            r matches Err(e) ==> e == ErrorKind::Io,
            final(self).core_wf(),
            final(self).backend.is_enabled(),
            final(self).backend.wants_hidden() == old(self).backend.wants_hidden(),
            !old(self).backend.wants_hidden() ==> final(self).backend.bk().cursor_visible()
                == old(self).backend.bk().cursor_visible(),
            r is Ok ==> final(self).wf() && final(self).backend.bk().raw_mode(),
    {
        self.backend.init()?;
        let pos = self.backend.backend.get_cursor_pos()?;
        self.base_row = pos.1;
        self.render()
    }

    /// Run the ui with the given event source. It returns when the user
    /// submits the prompt with Enter, accepts its default with Escape,
    /// cancels with Ctrl-C (`Interrupted`), or the events run out (`Eof`).
    ///
    /// The backend is handed back alongside the result. Unless the session
    /// ends with an I/O failure, the terminal is restored on every path: raw
    /// mode is off again and a cursor this session hid is visible again.
    #[verifier::loop_isolation(false)]
    pub fn run<E: EventSource>(self, events: &mut E) -> (res: (
        Result<P::Output, ErrorKind>,
        B,
    ))
        requires
            self.core_wf(),
            !self.guard().is_enabled(),
        ensures
            res.0 != Err::<P::Output, ErrorKind>(ErrorKind::Io) ==> restored(
                self.guard().bk(),
                self.guard().wants_hidden(),
                res.1,
            ),
            res.1.inv(),
    {
        let ghost b0 = self.backend.bk();
        let ghost hide0 = self.backend.wants_hidden();
        let mut this = self;
        match this.init() {
            Ok(()) => {},
            Err(e) => {
                return this.abort(e);
            },
        }
        loop
            invariant
                this.wf(),
                this.backend.is_enabled(),
                this.backend.wants_hidden() == hide0,
                !hide0 ==> this.backend.bk().cursor_visible() == b0.cursor_visible(),
            decreases events.events_left(),
        {
            let ev = match events.next_event() {
                Ok(ev) => ev,
                Err(e) => {
                    return this.abort(e);
                },
            };
            let hd = this.prompt.has_default();
            match classify_event(ev, hd) {
                EventClass::Interrupt => {
                    match this.exit() {
                        Ok(()) => {},
                        Err(e) => {
                            return this.abort(e);
                        },
                    }
                    let Input { backend: ts, .. } = this;
                    let TerminalState { backend: b, .. } = ts;
                    return (Err(ErrorKind::Interrupted), b);
                },
                EventClass::EndOfInput => {
                    match this.exit() {
                        Ok(()) => {},
                        Err(e) => {
                            return this.abort(e);
                        },
                    }
                    let Input { backend: ts, .. } = this;
                    let TerminalState { backend: b, .. } = ts;
                    return (Err(ErrorKind::Eof), b);
                },
                EventClass::AcceptDefault => {
                    return this.finish(false);
                },
                EventClass::Submit => {
                    match this.prompt.validate() {
                        Ok(Validation::Finish) => {
                            return this.finish(true);
                        },
                        Ok(Validation::Continue) => {
                            match this.render() {
                                Ok(()) => {},
                                Err(e) => {
                                    return this.abort(e);
                                },
                            }
                        },
                        Err(err_widget) => {
                            match this.print_error(&err_widget) {
                                Ok(()) => {},
                                Err(e) => {
                                    return this.abort(e);
                                },
                            }
                        },
                    }
                },
                EventClass::Delegate => {
                    let handled = this.prompt.handle_key(ev);
                    if handled {
                        match this.render() {
                            Ok(()) => {},
                            Err(e) => {
                                return this.abort(e);
                            },
                        }
                    }
                },
            }
        }
    }
}

impl<P: Prompt<B>, B: Backend> Input<P, B> {
    /// Creates a new runner over the given prompt and backend. The backend is
    /// owned for the session and handed back by [`run`](Input::run).
    pub fn new(prompt: P, backend: B) -> (i: Input<P, B>)
        requires
            prompt.wf(),
            backend.inv(),
        ensures
            i.core_wf(),
            !i.guard().is_enabled(),
            !i.guard().wants_hidden(),
            i.guard().bk() == backend,
    {
        Input {
            prompt,
            backend: TerminalState::new(backend, false),
            base_row: 0,
            size: Size { width: 1, height: 1 },
        }
    }

    /// Hides the cursor while running the input.
    pub fn hide_cursor(self) -> (i: Self)
        ensures
            i.guard().wants_hidden(),
            i.guard().is_enabled() == self.guard().is_enabled(),
            i.guard().bk() == self.guard().bk(),
            i.core_wf() == self.core_wf(),
    {
        let mut this = self;
        this.backend.hide_cursor = true;
        this
    }
}

} // verus!
