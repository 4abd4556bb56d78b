use vstd::prelude::*;
use crate::error::ErrorKind;

verus! {

/// A logical key, independent of any terminal driver.
#[derive(Clone, Copy, Debug, PartialEq, Eq, Structural)]
pub enum KeyCode {
    /// A printable character.
    Char(char),
    Enter,
    Esc,
    Backspace,
    Delete,
    Left,
    Right,
    Up,
    Down,
    Home,
    End,
    PageUp,
    PageDown,
    Tab,
    /// The sentinel that an event source yields once its input is exhausted.
    Null,
}

/// The modifier keys held while a key was pressed.
#[derive(Clone, Copy, Debug, PartialEq, Eq, Structural)]
pub struct KeyModifiers {
    pub control: bool,
    pub shift: bool,
    pub alt: bool,
}

impl KeyModifiers {
    pub fn empty() -> (m: KeyModifiers)
        ensures
            m == (KeyModifiers { control: false, shift: false, alt: false }),
    {
        KeyModifiers { control: false, shift: false, alt: false }
    }
}

/// One key press, as the runner consumes it.
#[derive(Clone, Copy, Debug, PartialEq, Eq, Structural)]
pub struct KeyEvent {
    pub code: KeyCode,
    pub modifiers: KeyModifiers,
}

impl KeyEvent {
    pub fn new(code: KeyCode) -> (e: KeyEvent)
        ensures
            e.code == code,
            !e.modifiers.control,
            !e.modifiers.shift,
            !e.modifiers.alt,
    {
        KeyEvent { code, modifiers: KeyModifiers::empty() }
    }
}

/// The lazy, pull-based sequence of key events that drives a session.
///
/// Pulling the next event blocks until one is available; it is the only
/// suspension point in the system. An implementation signals that its input is
/// exhausted by returning a `KeyCode::Null` event, and may fail with an I/O
/// error on any pull. Nothing is promised about which events come out except
/// that input eventually runs out: `events_left` falls with every real event,
/// which is what lets the runner's loop be checked for termination.
pub trait EventSource {
    /// An upper bound on how many more real events the source can yield
    /// before it signals end of input.
    spec fn events_left(&self) -> u64;

    fn next_event(&mut self) -> (r: Result<KeyEvent, ErrorKind>)
        ensures
            r matches Err(e) ==> e == ErrorKind::Io,
            (r matches Ok(e) && e.code != KeyCode::Null) ==> final(self).events_left() < old(
                self,
            ).events_left(),
    ;
}

/// An event source that replays a fixed script of key events, then reports
/// end of input forever. Used to drive a session without a real terminal.
pub struct ScriptedEvents {
    events: Vec<KeyEvent>,
    at: usize,
}

impl ScriptedEvents {
    pub closed spec fn remaining(&self) -> Seq<KeyEvent> {
        if self.at <= self.events@.len() {
            self.events@.skip(self.at as int)
        } else {
            Seq::empty()
        }
    }

    pub fn new(events: Vec<KeyEvent>) -> (s: ScriptedEvents)
        ensures
            s.remaining() == events@,
    {
        let s = ScriptedEvents { events, at: 0 };
        proof {
            assert(s.remaining() =~= s.events@);
        }
        s
    }
}

impl EventSource for ScriptedEvents {
    closed spec fn events_left(&self) -> u64 {
        self.remaining().len() as u64
    }

    fn next_event(&mut self) -> (r: Result<KeyEvent, ErrorKind>)
        ensures
            old(self).remaining().len() > 0 ==> r == Ok::<KeyEvent, ErrorKind>(
                old(self).remaining()[0],
            ) && final(self).remaining() == old(self).remaining().skip(1),
            old(self).remaining().len() == 0 ==> (r matches Ok(e) && e.code == KeyCode::Null)
                && final(self).remaining().len() == 0,
    {
        if self.at < self.events.len() {
            let ghost n = self.events@.len();
            let e = self.events[self.at];
            self.at = self.at + 1;
            proof {
                assert(n <= usize::MAX);
                assert(old(self).remaining()[0] == old(self).events@[old(self).at as int]);
                assert(self.remaining() =~= old(self).remaining().skip(1));
            }
            Ok(e)
        } else {
            Ok(KeyEvent::new(KeyCode::Null))
        }
    }
}

} // verus!
