use vstd::prelude::*;

verus! {

/// How a prompt session can fail or be cut short.
///
/// `Io` is fatal and unwinds the runner at once. `Interrupted` and `Eof` are
/// clean early terminations: the exit sequence still runs before either is
/// returned. A validation failure is never one of these; it is handled inside
/// the runner's event loop and shown inline.
#[derive(Clone, Copy, Debug, PartialEq, Eq, Structural)]
pub enum ErrorKind {
    /// The backend terminal rejected a read, write or control call.
    Io,
    /// The user asked to cancel (Ctrl-C).
    Interrupted,
    /// The key-event source ran out of input.
    Eof,
}

} // verus!
