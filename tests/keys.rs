use kanban::app::{Action, InputMode};
use kanban::keys::{key_action, Key};

#[test]
fn normal_mode_bindings() {
    let m = InputMode::Normal;
    assert_eq!(key_action(m, false, Key::Char('q'), false), Some(Action::Quit));
    assert_eq!(key_action(m, false, Key::Left, false), Some(Action::MoveLeft));
    assert_eq!(key_action(m, false, Key::Char('j'), false), Some(Action::MoveDown));
    assert_eq!(key_action(m, false, Key::Enter, false), Some(Action::DrillDown));
    assert_eq!(key_action(m, false, Key::Esc, false), Some(Action::GoBack));
    assert_eq!(key_action(m, false, Key::Char('c'), false), Some(Action::EnterAddColumnMode));
    assert_eq!(key_action(m, false, Key::Char(' '), false), Some(Action::ToggleTodo));
    assert_eq!(key_action(m, false, Key::Char('H'), false), Some(Action::MoveTaskLeft));
    assert_eq!(key_action(m, false, Key::Char('z'), false), None);
    assert_eq!(key_action(m, false, Key::Other, false), None);
}

#[test]
fn shift_moves_tasks() {
    let m = InputMode::Normal;
    assert_eq!(key_action(m, false, Key::Right, true), Some(Action::MoveTaskRight));
    assert_eq!(key_action(m, false, Key::Char('L'), true), Some(Action::MoveTaskRight));
    assert_eq!(key_action(m, false, Key::Up, true), None);
}

#[test]
fn editing_bindings_type_characters() {
    let m = InputMode::Editing;
    assert_eq!(key_action(m, false, Key::Char('q'), false), Some(Action::InputChar('q')));
    assert_eq!(key_action(m, false, Key::Char('?'), false), Some(Action::InputChar('?')));
    assert_eq!(key_action(m, false, Key::Enter, false), Some(Action::SubmitTask));
    assert_eq!(key_action(m, false, Key::Esc, false), Some(Action::ExitEditMode));
    assert_eq!(key_action(m, false, Key::Backspace, false), Some(Action::InputBackspace));
    assert_eq!(key_action(InputMode::EditingColumn, false, Key::Char('x'), false), Some(Action::InputChar('x')));
}

#[test]
fn select_type_bindings() {
    let m = InputMode::SelectType;
    assert_eq!(key_action(m, false, Key::Char('b'), false), Some(Action::SelectBoard));
    assert_eq!(key_action(m, false, Key::Char('t'), false), Some(Action::SelectTodo));
    assert_eq!(key_action(m, false, Key::Char('n'), false), Some(Action::SelectText));
    assert_eq!(key_action(m, false, Key::Esc, false), Some(Action::GoBack));
    assert_eq!(key_action(m, false, Key::Enter, false), None);
}

#[test]
fn help_overlay_takes_every_key() {
    assert_eq!(key_action(InputMode::Normal, false, Key::Char('?'), false), Some(Action::ToggleHelp));
    assert_eq!(key_action(InputMode::Normal, true, Key::Char('q'), false), Some(Action::ToggleHelp));
    assert_eq!(key_action(InputMode::Editing, true, Key::Char('q'), false), Some(Action::ToggleHelp));
}
