use tyt::input::{command_for, next_countdown, polls_status, Command, Key};
use tyt::types::{Action, Screen};

#[test]
fn quit_only_from_the_channels() {
    assert_eq!(command_for(Key::Char('q'), Screen::Channels), (Command::Quit, false));
    assert_eq!(command_for(Key::Char('q'), Screen::Videos), (Command::Act(Action::Leave), true));
}

#[test]
fn movement_keys() {
    for screen in [Screen::Channels, Screen::Videos] {
        assert_eq!(command_for(Key::Char('j'), screen), (Command::Act(Action::Down), true));
        assert_eq!(command_for(Key::Down, screen), (Command::Act(Action::Down), true));
        assert_eq!(command_for(Key::Char('k'), screen), (Command::Act(Action::Up), true));
        assert_eq!(command_for(Key::Up, screen), (Command::Act(Action::Up), true));
        assert_eq!(command_for(Key::Char('n'), screen), (Command::Act(Action::NextChannel), true));
        assert_eq!(command_for(Key::Char('p'), screen), (Command::Act(Action::PrevChannel), true));
    }
}

#[test]
fn enter_or_open() {
    for key in [Key::Char('\n'), Key::Char('l'), Key::Right, Key::Char('o')] {
        assert_eq!(command_for(key, Screen::Channels), (Command::Act(Action::Enter), true));
        assert_eq!(command_for(key, Screen::Videos), (Command::Act(Action::Open), true));
    }
    for key in [Key::Esc, Key::Char('h'), Key::Left] {
        assert_eq!(command_for(key, Screen::Channels), (Command::Nothing, true));
        assert_eq!(command_for(key, Screen::Videos), (Command::Act(Action::Leave), true));
    }
}

#[test]
fn marking_and_other_keys() {
    assert_eq!(command_for(Key::Char('m'), Screen::Videos), (Command::Act(Action::Mark(true)), true));
    assert_eq!(command_for(Key::Char('M'), Screen::Videos), (Command::Act(Action::Mark(false)), true));
    assert_eq!(command_for(Key::Char('f'), Screen::Videos), (Command::Act(Action::SetVideoFav), true));
    assert_eq!(command_for(Key::Char('f'), Screen::Channels), (Command::Nothing, true));
    assert_eq!(command_for(Key::Char('r'), Screen::Videos), (Command::Refresh, false));
    assert_eq!(command_for(Key::Char('t'), Screen::Channels), (Command::ToggleFilter, true));
    assert_eq!(command_for(Key::Char('c'), Screen::Videos), (Command::CopyLink, false));
    assert_eq!(command_for(Key::Char('c'), Screen::Channels), (Command::Nothing, false));
    assert_eq!(command_for(Key::Char('x'), Screen::Channels), (Command::Nothing, false));
    assert_eq!(command_for(Key::Other, Screen::Videos), (Command::Nothing, false));
}

#[test]
fn status_countdown() {
    assert!(polls_status(0));
    assert!(!polls_status(3));
    assert_eq!(next_countdown(0, true), 4);
    assert_eq!(next_countdown(0, false), 0);
    assert_eq!(next_countdown(4, false), 3);
    assert_eq!(next_countdown(1, true), 0);
}
