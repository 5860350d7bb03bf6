//! The commands of a review session and the keys that give them.

use vstd::prelude::*;

verus! {

/// What the user can ask of a session.
#[derive(Clone, Copy, Debug, PartialEq, Eq, Structural)]
pub enum Command {
    /// Go to the entry before the current one; stays on the first.
    MovePrevious,
    /// Go to the entry after the current one; stays on the last.
    MoveNext,
    /// Give the current entry the next label of the cycle.
    CycleLabel,
    /// Go to the first entry without a label, or to the last entry when
    /// every entry has one.
    JumpToNextUnlabelled,
    /// End the session.
    Quit,
}

/// The keys that the bindings tell apart.
#[derive(Clone, Copy, Debug, PartialEq, Eq, Structural)]
pub enum Key {
    Left,
    Right,
    Up,
    Tab,
    Char(char),
    /// Any key that has no binding.
    Other,
}

/// What happened to a key.
#[derive(Clone, Copy, Debug, PartialEq, Eq, Structural)]
pub enum KeyKind {
    Press,
    Repeat,
    Release,
}

/// One event of the input source.
#[derive(Clone, Copy, Debug, PartialEq, Eq, Structural)]
pub enum Event {
    Key {
        key: Key,
        kind: KeyKind,
        /// Whether the control modifier was held.
        control: bool,
    },
    /// Anything that is not a key: a resize, the mouse, a paste.
    Other,
}

/// The command bound to an event, if any.
///
/// Only key presses are bound. The arrow keys and the tab key give their
/// command whatever modifiers are held; `c` quits only together with control.
pub open spec fn binding(event: Event) -> Option<Command> {
    match event {
        Event::Key { key, kind: KeyKind::Press, control } => match key {
            Key::Char(c) => if c == 'c' && control {
                Some(Command::Quit)
            } else {
                None
            },
            Key::Left => Some(Command::MovePrevious),
            Key::Right => Some(Command::MoveNext),
            Key::Up => Some(Command::CycleLabel),
            Key::Tab => Some(Command::JumpToNextUnlabelled),
            Key::Other => None,
        },
        _ => None,
    }
}

/// Maps an event to the command bound to it; `None` for an event to ignore.
pub fn command_for(event: Event) -> (command: Option<Command>)
    ensures
        command == binding(event),
{
    match event {
        Event::Key { key, kind: KeyKind::Press, control } => match key {
            Key::Char(c) => {
                if c == 'c' && control {
                    Some(Command::Quit)
                } else {
                    None
                }
            },
            Key::Left => Some(Command::MovePrevious),
            Key::Right => Some(Command::MoveNext),
            Key::Up => Some(Command::CycleLabel),
            Key::Tab => Some(Command::JumpToNextUnlabelled),
            Key::Other => None,
        },
        _ => None,
    }
}

/// The commands in the order in which the legend lists them.
pub open spec fn legend_order() -> Seq<Command> {
    seq![
        Command::MovePrevious,
        Command::MoveNext,
        Command::CycleLabel,
        Command::JumpToNextUnlabelled,
        Command::Quit,
    ]
}

/// The commands to list in the legend, in order. The same for every session.
pub fn legend() -> (commands: Vec<Command>)
    ensures
        commands@ == legend_order(),
{
    let mut commands: Vec<Command> = Vec::new();
    commands.push(Command::MovePrevious);
    commands.push(Command::MoveNext);
    commands.push(Command::CycleLabel);
    commands.push(Command::JumpToNextUnlabelled);
    commands.push(Command::Quit);
    assert(commands@ =~= legend_order());
    commands
}

impl Command {
    /// The name of the key that gives this command, as the legend shows it.
    pub open spec fn key_hint_text(self) -> Seq<char> {
        match self {
            Command::MovePrevious => " \u{2190} "@,
            Command::MoveNext => " \u{2192} "@,
            Command::CycleLabel => " \u{2191} "@,
            Command::JumpToNextUnlabelled => " TAB "@,
            Command::Quit => " Ctrl-C "@,
        }
    }

    /// What this command does, as the legend says it.
    pub open spec fn description_text(self) -> Seq<char> {
        match self {
            Command::MovePrevious => " Previous example"@,
            Command::MoveNext => " Next example"@,
            Command::CycleLabel => " Next label"@,
            Command::JumpToNextUnlabelled => " Skip to first unlabelled"@,
            Command::Quit => " Save and exit"@,
        }
    }

    /// The name of the key that gives this command: an arrow, `TAB` or
    /// `Ctrl-C`, with a space on either side.
    pub fn key_hint(self) -> (hint: &'static str)
        ensures
            hint@ == self.key_hint_text(),
    {
        match self {
            Command::MovePrevious => " \u{2190} ",
            Command::MoveNext => " \u{2192} ",
            Command::CycleLabel => " \u{2191} ",
            Command::JumpToNextUnlabelled => " TAB ",
            Command::Quit => " Ctrl-C ",
        }
    }

    /// A few words on what this command does.
    pub fn description(self) -> (text: &'static str)
        ensures
            text@ == self.description_text(),
    {
        match self {
            Command::MovePrevious => " Previous example",
            Command::MoveNext => " Next example",
            Command::CycleLabel => " Next label",
            Command::JumpToNextUnlabelled => " Skip to first unlabelled",
            Command::Quit => " Save and exit",
        }
    }
}

} // verus!
