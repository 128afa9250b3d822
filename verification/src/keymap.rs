//! From what the terminal reports to what the browser does about it.

use vstd::prelude::*;

verus! {

/// A key, as far as the browser tells keys apart.
#[derive(Clone, Copy, Debug, PartialEq, Eq, Structural)]
pub enum Key {
    /// A key that stands for a character.
    Char(char),
    /// Any other key.
    Other,
}

/// One event from the terminal.
#[derive(Clone, Copy, Debug, PartialEq, Eq, Structural)]
pub enum Input {
    /// A key was pressed.
    Key(Key),
    /// Anything else: the mouse, a change of the terminal's size.
    Other,
}

/// What the browser does about an event.
#[derive(Clone, Copy, Debug, PartialEq, Eq, Structural)]
pub enum Command {
    /// Leave the loop.
    Quit,
    /// Select the following entry.
    Next,
    /// Select the entry before.
    Previous,
    /// Change nothing.
    Stay,
}

/// Whether the loop goes on.
#[derive(Clone, Copy, Debug, PartialEq, Eq, Structural)]
pub enum Phase {
    Running,
    Terminated,
}

/// The key bindings: `q` quits, `j` selects the following entry, `k` the
/// entry before. Every other key, and every event that is no key, changes
/// nothing.
pub open spec fn command_of(input: Input) -> Command {
    match input {
        Input::Key(Key::Char('q')) => Command::Quit,
        Input::Key(Key::Char('j')) => Command::Next,
        Input::Key(Key::Char('k')) => Command::Previous,
        _ => Command::Stay,
    }
}

/// The phase that follows `phase` once `command` is carried out: a running
/// loop ends on `Quit` and on nothing else, and a loop that has ended stays
/// so.
pub open spec fn phase_after(phase: Phase, command: Command) -> Phase {
    match (phase, command) {
        (Phase::Running, Command::Quit) => Phase::Terminated,
        (Phase::Running, _) => Phase::Running,
        (Phase::Terminated, _) => Phase::Terminated,
    }
}

impl Command {
    /// Looks up what the browser does about `input`.
    pub fn for_input(input: Input) -> (command: Command)
        ensures
            command == command_of(input),
    {
        match input {
            Input::Key(Key::Char(c)) => {
                if c == 'q' {
                    Command::Quit
                } else if c == 'j' {
                    Command::Next
                } else if c == 'k' {
                    Command::Previous
                } else {
                    Command::Stay
                }
            },
            _ => Command::Stay,
        }
    }
}

impl Phase {
    /// Gives the phase that follows this one once `command` is carried out.
    pub fn after(self, command: Command) -> (next: Phase)
        ensures
            next == phase_after(self, command),
    {
        match (self, command) {
            (Phase::Running, Command::Quit) => Phase::Terminated,
            (Phase::Running, _) => Phase::Running,
            (Phase::Terminated, _) => Phase::Terminated,
        }
    }
}

} // verus!
