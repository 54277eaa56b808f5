use vstd::prelude::*;
use crate::types::{Action, Screen};

verus! {

/// A key the user pressed, as far as the program tells keys apart.
#[derive(PartialEq, Eq, Structural, Clone, Copy, Debug)]
pub enum Key {
    Char(char),
    Esc,
    Left,
    Right,
    Up,
    Down,
    Other,
}

/// What a key asks for.
#[derive(PartialEq, Eq, Structural, Clone, Copy, Debug)]
pub enum Command {
    /// Leave the program.
    Quit,
    /// Carry out the action.
    Act(Action),
    /// Fetch all subscriptions anew, then go back to the channels.
    Refresh,
    /// Show all channels or only those with new videos.
    ToggleFilter,
    /// Put the selected video's link on the clipboard.
    CopyLink,
    /// Nothing.
    Nothing,
}

/// The command of a key on a screen, and whether the screen is drawn
/// afterwards.
pub open spec fn command_of(key: Key, screen: Screen) -> (Command, bool) {
    match key {
        Key::Char('q') => match screen {
            Screen::Channels => (Command::Quit, false),
            Screen::Videos => (Command::Act(Action::Leave), true),
        },
        Key::Esc | Key::Char('h') | Key::Left => match screen {
            Screen::Channels => (Command::Nothing, true),
            Screen::Videos => (Command::Act(Action::Leave), true),
        },
        Key::Char('j') | Key::Down => (Command::Act(Action::Down), true),
        Key::Char('k') | Key::Up => (Command::Act(Action::Up), true),
        Key::Char('n') => (Command::Act(Action::NextChannel), true),
        Key::Char('p') => (Command::Act(Action::PrevChannel), true),
        Key::Char('f') => match screen {
            Screen::Channels => (Command::Nothing, true),
            Screen::Videos => (Command::Act(Action::SetVideoFav), true),
        },
        Key::Char('\n') | Key::Char('l') | Key::Right | Key::Char('o') => match screen {
            Screen::Channels => (Command::Act(Action::Enter), true),
            Screen::Videos => (Command::Act(Action::Open), true),
        },
        Key::Char('m') => (Command::Act(Action::Mark(true)), true),
        Key::Char('M') => (Command::Act(Action::Mark(false)), true),
        Key::Char('r') => (Command::Refresh, false),
        Key::Char('t') => (Command::ToggleFilter, true),
        Key::Char('c') => match screen {
            Screen::Channels => (Command::Nothing, false),
            Screen::Videos => (Command::CopyLink, false),
        },
        _ => (Command::Nothing, false),
    }
}

/// The keys of the usage table that name one action for the whole
/// program do the same on every screen: 'r' fetches new videos, 't' shows
/// or hides the channels without unseen videos, 'j' and 'k' move like the
/// arrow keys, 'm' and 'M' mark and unmark. 'l', 'o' and Enter enter a
/// channel and open a video, Esc and 'h' go back from the videos, 'c'
/// copies a video's link and does nothing among the channels, 'q' quits
/// from the channels, and no key quits from the videos screen.
pub proof fn law_keys_on_every_screen(screen: Screen, key: Key)
    ensures
        command_of(Key::Char('r'), screen) == (Command::Refresh, false),
        command_of(Key::Char('r'), Screen::Channels) == command_of(Key::Char('r'), Screen::Videos),
        command_of(Key::Char('t'), screen).0 == Command::ToggleFilter,
        command_of(Key::Char('j'), screen) == command_of(Key::Down, screen),
        command_of(Key::Char('k'), screen) == command_of(Key::Up, screen),
        command_of(Key::Down, screen).0 == Command::Act(Action::Down),
        command_of(Key::Up, screen).0 == Command::Act(Action::Up),
        command_of(Key::Char('m'), screen).0 == Command::Act(Action::Mark(true)),
        command_of(Key::Char('M'), screen).0 == Command::Act(Action::Mark(false)),
        command_of(key, Screen::Videos).0 != Command::Quit,
        command_of(Key::Char('l'), screen) == command_of(Key::Char('\n'), screen),
        command_of(Key::Char('o'), screen) == command_of(Key::Char('\n'), screen),
        command_of(Key::Char('\n'), Screen::Channels).0 == Command::Act(Action::Enter),
        command_of(Key::Char('\n'), Screen::Videos).0 == Command::Act(Action::Open),
        command_of(Key::Esc, Screen::Videos).0 == Command::Act(Action::Leave),
        command_of(Key::Char('h'), screen) == command_of(Key::Esc, screen),
        command_of(Key::Char('c'), Screen::Videos).0 == Command::CopyLink,
        command_of(Key::Char('c'), Screen::Channels).0 == Command::Nothing,
        command_of(Key::Char('q'), Screen::Channels).0 == Command::Quit,
{
}

/// The command of a key on a screen, and whether to draw afterwards.
pub fn command_for(key: Key, screen: Screen) -> (r: (Command, bool))
    ensures
        r == command_of(key, screen),
{
    match key {
        Key::Char('q') => match screen {
            Screen::Channels => (Command::Quit, false),
            Screen::Videos => (Command::Act(Action::Leave), true),
        },
        Key::Esc | Key::Char('h') | Key::Left => match screen {
            Screen::Channels => (Command::Nothing, true),
            Screen::Videos => (Command::Act(Action::Leave), true),
        },
        Key::Char('j') | Key::Down => (Command::Act(Action::Down), true),
        Key::Char('k') | Key::Up => (Command::Act(Action::Up), true),
        Key::Char('n') => (Command::Act(Action::NextChannel), true),
        Key::Char('p') => (Command::Act(Action::PrevChannel), true),
        Key::Char('f') => match screen {
            Screen::Channels => (Command::Nothing, true),
            Screen::Videos => (Command::Act(Action::SetVideoFav), true),
        },
        Key::Char('\n') | Key::Char('l') | Key::Right | Key::Char('o') => match screen {
            Screen::Channels => (Command::Act(Action::Enter), true),
            Screen::Videos => (Command::Act(Action::Open), true),
        },
        Key::Char('m') => (Command::Act(Action::Mark(true)), true),
        Key::Char('M') => (Command::Act(Action::Mark(false)), true),
        Key::Char('r') => (Command::Refresh, false),
        Key::Char('t') => (Command::ToggleFilter, true),
        Key::Char('c') => match screen {
            Screen::Channels => (Command::Nothing, false),
            Screen::Videos => (Command::CopyLink, false),
        },
        _ => (Command::Nothing, false),
    }
}

/// Whether the status updates are read on this tick: only when the
/// countdown has run out.
pub fn polls_status(countdown: u8) -> (r: bool)
    ensures
        r == (countdown == 0),
{
    countdown == 0
}

/// The countdown after a tick: four ticks of rest after updates were read,
/// else one less, down to none.
pub fn next_countdown(countdown: u8, changed: bool) -> (r: u8)
    ensures
        countdown == 0 && changed ==> r == 4,
        countdown == 0 && !changed ==> r == 0,
        countdown > 0 ==> r == countdown - 1,
{
    if countdown == 0 {
        if changed {
            4
        } else {
            0
        }
    } else {
        countdown - 1
    }
}

} // verus!
