use vstd::prelude::*;

use crate::app::{Action, InputMode};

verus! {

/// A key press, as the input layer hands it to the engine.
#[derive(Debug, Clone, Copy, PartialEq, Eq)]
pub enum Key {
    Char(char),
    Left,
    Right,
    Up,
    Down,
    Enter,
    Esc,
    Backspace,
    /// Any key that no command is bound to.
    Other,
}

/// The command bound to `key` in `mode`, with `shift` held or not, when no
/// overlay intercepts it.
pub open spec fn bound_action(mode: InputMode, key: Key, shift: bool) -> Option<Action> {
    match mode {
        InputMode::Normal => if shift {
            match key {
                Key::Left | Key::Char('H') => Some(Action::MoveTaskLeft),
                Key::Right | Key::Char('L') => Some(Action::MoveTaskRight),
                _ => None,
            }
        } else {
            match key {
                Key::Char('q') => Some(Action::Quit),
                Key::Left | Key::Char('h') => Some(Action::MoveLeft),
                Key::Right | Key::Char('l') => Some(Action::MoveRight),
                Key::Up | Key::Char('k') => Some(Action::MoveUp),
                Key::Down | Key::Char('j') => Some(Action::MoveDown),
                Key::Enter => Some(Action::DrillDown),
                Key::Backspace | Key::Esc => Some(Action::GoBack),
                Key::Char('a') => Some(Action::EnterEditMode),
                Key::Char('c') => Some(Action::EnterAddColumnMode),
                Key::Char('d') => Some(Action::DeleteTask),
                Key::Char(' ') => Some(Action::ToggleTodo),
                Key::Char('H') => Some(Action::MoveTaskLeft),
                Key::Char('L') => Some(Action::MoveTaskRight),
                _ => None,
            }
        },
        InputMode::Editing | InputMode::EditingColumn => match key {
            Key::Enter => Some(Action::SubmitTask),
            Key::Esc => Some(Action::ExitEditMode),
            Key::Char(c) => Some(Action::InputChar(c)),
            Key::Backspace => Some(Action::InputBackspace),
            _ => None,
        },
        InputMode::SelectType => match key {
            Key::Char('b') => Some(Action::SelectBoard),
            Key::Char('t') => Some(Action::SelectTodo),
            Key::Char('n') => Some(Action::SelectText),
            Key::Esc => Some(Action::GoBack),
            _ => None,
        },
    }
}

/// The command for a key press: `?` toggles the help overlay except while a
/// text is being typed, any key closes the overlay while it is shown, and
/// otherwise the binding of the mode applies.
pub open spec fn key_action_spec(mode: InputMode, show_help: bool, key: Key, shift: bool) -> Option<
    Action,
> {
    if key == Key::Char('?') && mode != InputMode::Editing {
        Some(Action::ToggleHelp)
    } else if show_help {
        Some(Action::ToggleHelp)
    } else {
        bound_action(mode, key, shift)
    }
}

/// The command for a key press in the given input state.
pub fn key_action(mode: InputMode, show_help: bool, key: Key, shift: bool) -> (r: Option<Action>)
    ensures
        r == key_action_spec(mode, show_help, key, shift),
{
    if matches!(key, Key::Char('?')) && mode != InputMode::Editing {
        return Some(Action::ToggleHelp);
    }
    if show_help {
        return Some(Action::ToggleHelp);
    }
    match mode {
        InputMode::Normal => if shift {
            match key {
                Key::Left | Key::Char('H') => Some(Action::MoveTaskLeft),
                Key::Right | Key::Char('L') => Some(Action::MoveTaskRight),
                _ => None,
            }
        } else {
            match key {
                Key::Char('q') => Some(Action::Quit),
                Key::Left | Key::Char('h') => Some(Action::MoveLeft),
                Key::Right | Key::Char('l') => Some(Action::MoveRight),
                Key::Up | Key::Char('k') => Some(Action::MoveUp),
                Key::Down | Key::Char('j') => Some(Action::MoveDown),
                Key::Enter => Some(Action::DrillDown),
                Key::Backspace | Key::Esc => Some(Action::GoBack),
                Key::Char('a') => Some(Action::EnterEditMode),
                Key::Char('c') => Some(Action::EnterAddColumnMode),
                Key::Char('d') => Some(Action::DeleteTask),
                Key::Char(' ') => Some(Action::ToggleTodo),
                // terminals that swallow the modifier still send the capital letter
                Key::Char('H') => Some(Action::MoveTaskLeft),
                Key::Char('L') => Some(Action::MoveTaskRight),
                _ => None,
            }
        },
        InputMode::Editing | InputMode::EditingColumn => match key {
            Key::Enter => Some(Action::SubmitTask),
            Key::Esc => Some(Action::ExitEditMode),
            Key::Char(c) => Some(Action::InputChar(c)),
            Key::Backspace => Some(Action::InputBackspace),
            _ => None,
        },
        InputMode::SelectType => match key {
            Key::Char('b') => Some(Action::SelectBoard),
            Key::Char('t') => Some(Action::SelectTodo),
            Key::Char('n') => Some(Action::SelectText),
            Key::Esc => Some(Action::GoBack),
            _ => None,
        },
    }
}

} // verus!
