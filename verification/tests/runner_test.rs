use discourse_ui::backend::{Backend, MemoryBackend};
use discourse_ui::error::ErrorKind;
use discourse_ui::events::{KeyCode, KeyEvent, KeyModifiers, ScriptedEvents};
use discourse_ui::input::{Input, Prompt, TerminalState, Validation};
use discourse_ui::layout::Layout;
use discourse_ui::symbols;
use discourse_ui::widget::{Widget, WidgetSpec};
use discourse_ui::widgets::Text;

/// A one-line prompt whose validation fails a scripted number of times and
/// then accepts; its output is how often validation ran.
struct ScriptPrompt {
    fails_left: u32,
    validations: u32,
}

// The specification-side items are ghost; the stubs below are never run.
impl WidgetSpec for ScriptPrompt {
    fn wf(&self) -> bool {
        true
    }

    fn spec_height(&self, _: Layout) -> u16 {
        1
    }

    fn height_bounds(&self, _: Layout) {}

    fn height_ignores_position(&self, _: Layout, _: Layout) {}
}

impl Widget<MemoryBackend> for ScriptPrompt {
    fn height(&self, _layout: Layout) -> u16 {
        1
    }

    fn render(&self, layout: Layout, b: &mut MemoryBackend) -> Result<(), ErrorKind> {
        b.move_cursor_to(0, layout.offset_y)?;
        b.write_text("?")
    }

    fn handle_key(&mut self, _key: KeyEvent) -> bool {
        false
    }

    fn cursor_pos(&self, _layout: Layout) -> (u16, u16) {
        (1, 0)
    }
}

impl Prompt<MemoryBackend> for ScriptPrompt {
    type ValidateErr = Text;
    type Output = u32;

    fn spec_has_default(&self) -> bool {
        false
    }

    fn can_finish(&self) -> bool {
        true
    }

    fn validate(&mut self) -> Result<Validation, Text> {
        self.validations += 1;
        if self.fails_left > 0 {
            self.fails_left -= 1;
            Err(Text::new(String::from("still not valid")))
        } else {
            Ok(Validation::Finish)
        }
    }

    fn finish(self) -> u32 {
        self.validations
    }

    fn has_default(&self) -> bool {
        false
    }

    fn finish_default(self) -> u32 {
        unreachable!()
    }
}

fn key(code: KeyCode) -> KeyEvent {
    KeyEvent::new(code)
}

fn ctrl_c() -> KeyEvent {
    KeyEvent {
        code: KeyCode::Char('c'),
        modifiers: KeyModifiers { control: true, shift: false, alt: false },
    }
}

fn cross_count(b: &MemoryBackend) -> usize {
    b.written.iter().filter(|c| **c == symbols::CROSS).count()
}

#[test]
fn one_failed_validation_then_normal_completion() {
    // An unhandled key, then Enter (validation fails once), then Enter again
    // (validation accepts): exactly one error render, then completion.
    let prompt = ScriptPrompt { fails_left: 1, validations: 0 };
    let backend = MemoryBackend::new(40, 12);
    let mut events = ScriptedEvents::new(vec![
        key(KeyCode::Char('x')),
        key(KeyCode::Enter),
        key(KeyCode::Enter),
    ]);
    let (res, b) = Input::new(prompt, backend).run(&mut events);
    assert_eq!(res.unwrap(), 2);
    assert_eq!(cross_count(&b), 1);
    assert!(!b.raw);
    assert_eq!(b.raw_log, vec![true, false]);
}

#[test]
fn failing_validation_never_finishes() {
    // A prompt that always rejects never completes, however often Enter is
    // pressed; the session ends only because the input runs out.
    let prompt = ScriptPrompt { fails_left: u32::MAX, validations: 0 };
    let backend = MemoryBackend::new(40, 12);
    let mut events = ScriptedEvents::new(vec![
        key(KeyCode::Enter),
        key(KeyCode::Enter),
        key(KeyCode::Enter),
        key(KeyCode::Enter),
    ]);
    let (res, b) = Input::new(prompt, backend).run(&mut events);
    assert_eq!(res.unwrap_err(), ErrorKind::Eof);
    assert_eq!(cross_count(&b), 4);
    assert!(!b.raw);
}

#[test]
fn ctrl_c_interrupts_and_restores_the_terminal() {
    let prompt = ScriptPrompt { fails_left: 0, validations: 0 };
    let backend = MemoryBackend::new(40, 12);
    let mut events = ScriptedEvents::new(vec![ctrl_c()]);
    let (res, b) = Input::new(prompt, backend).run(&mut events);
    assert_eq!(res.unwrap_err(), ErrorKind::Interrupted);
    assert!(!b.raw);
    assert_eq!(b.raw_log, vec![true, false]);
}

#[test]
fn exhausted_events_end_the_session_with_eof() {
    let prompt = ScriptPrompt { fails_left: 0, validations: 0 };
    let backend = MemoryBackend::new(40, 12);
    let mut events = ScriptedEvents::new(vec![]);
    let (res, b) = Input::new(prompt, backend).run(&mut events);
    assert_eq!(res.unwrap_err(), ErrorKind::Eof);
    assert!(!b.raw);
}

#[test]
fn hidden_cursor_is_shown_again_on_completion() {
    let prompt = ScriptPrompt { fails_left: 0, validations: 0 };
    let backend = MemoryBackend::new(40, 12);
    let mut events = ScriptedEvents::new(vec![key(KeyCode::Enter)]);
    let (res, b) = Input::new(prompt, backend).hide_cursor().run(&mut events);
    assert_eq!(res.unwrap(), 1);
    assert!(b.visible);
    assert_eq!(b.visibility_log, vec![false, true]);
}

#[test]
fn releasing_the_guard_twice_does_not_double_toggle() {
    let backend = MemoryBackend::new(40, 12);
    let mut guard = TerminalState::new(backend, true);
    guard.init().unwrap();
    guard.reset().unwrap();
    guard.reset().unwrap();
    guard.reset().unwrap();
    let b = guard.into_backend();
    // One hide on acquire, one show on the first release; the later releases
    // were no-ops on both the visibility and the raw-mode state.
    assert_eq!(b.raw_log, vec![true, false]);
    assert_eq!(b.visibility_log, vec![false, true]);
    assert!(!b.raw);
    assert!(b.visible);
}
