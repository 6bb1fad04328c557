use kanban::app::{Action, App, InputMode};
use kanban::model::{Board, Column, Task, TaskContent, TodoItem};
use kanban::path::{get_board_recursive, get_board_ref, get_task_mut_recursive, get_task_ref, PathError};
use kanban::todo::stable_partition;
use kanban::view::{locate_view, ActiveContentRef};

fn type_text(app: &mut App, text: &str) {
    for c in text.chars() {
        app.update(Action::InputChar(c));
    }
}

fn add_task_via_commands(app: &mut App, title: &str) {
    app.update(Action::EnterEditMode);
    type_text(app, title);
    app.update(Action::SubmitTask);
}

fn titles(board: &Board) -> Vec<String> {
    board.columns.iter().map(|c| c.title.clone()).collect()
}

fn item(text: &str, done: bool) -> TodoItem {
    TodoItem { text: text.to_string(), done }
}

fn todo_items(app: &App) -> Vec<(String, bool)> {
    match app.get_active_content() {
        ActiveContentRef::Todo(items) => items.iter().map(|i| (i.text.clone(), i.done)).collect(),
        _ => panic!("no to-do list in view"),
    }
}

fn board_with_columns(names: &[&str]) -> Board {
    let mut b = Board { title: "Main Board".to_string(), columns: Vec::new() };
    for n in names {
        b.push_column(Column::new(n));
    }
    b
}

#[test]
fn new_board_has_three_empty_columns_and_add_task_appends() {
    let mut app = App::new(None);
    assert_eq!(titles(&app.root), vec!["To Do", "In Progress", "Done"]);
    assert!(app.root.columns.iter().all(|c| c.tasks.is_empty()));
    assert_eq!(app.root.title, "Main Board");
    add_task_via_commands(&mut app, "Write spec");
    let col = &app.root.columns[0];
    assert_eq!(col.tasks.len(), 1);
    assert_eq!(col.tasks[0].title, "Write spec");
    assert_eq!(col.tasks[0].description, "");
    assert!(col.tasks[0].content.is_none());
    assert_eq!(app.input_mode, InputMode::Normal);
    assert!(app.input_buffer.is_empty());
    assert!(app.dirty);
}

#[test]
fn select_todo_then_add_item() {
    let mut app = App::new(None);
    add_task_via_commands(&mut app, "Write spec");
    app.update(Action::DrillDown);
    assert_eq!(app.input_mode, InputMode::SelectType);
    assert!(app.path.is_empty());
    app.update(Action::SelectTodo);
    assert_eq!(app.path, vec![(0, 0)]);
    assert_eq!(app.cursor, (0, 0));
    assert_eq!(app.input_mode, InputMode::Normal);
    assert_eq!(app.root.columns[0].tasks[0].content, Some(TaskContent::Todo(Vec::new())));
    add_task_via_commands(&mut app, "step 1");
    assert_eq!(todo_items(&app), vec![("step 1".to_string(), false)]);
}

#[test]
fn toggle_keeps_length() {
    let mut app = App::new(None);
    add_task_via_commands(&mut app, "Write spec");
    app.update(Action::DrillDown);
    app.update(Action::SelectTodo);
    add_task_via_commands(&mut app, "step 1");
    app.update(Action::ToggleTodo);
    assert_eq!(todo_items(&app), vec![("step 1".to_string(), true)]);
    app.update(Action::ToggleTodo);
    assert_eq!(todo_items(&app), vec![("step 1".to_string(), false)]);
}

#[test]
fn move_task_right_between_two_columns() {
    let mut app = App::new(Some(board_with_columns(&["A", "B"])));
    add_task_via_commands(&mut app, "job");
    app.update(Action::MoveTaskRight);
    assert!(app.root.columns[0].tasks.is_empty());
    assert_eq!(app.root.columns[1].tasks.len(), 1);
    assert_eq!(app.root.columns[1].tasks[0].title, "job");
    assert_eq!(app.cursor, (1, 0));
    // no column further right: nothing moves
    app.update(Action::MoveTaskRight);
    assert_eq!(app.root.columns[1].tasks.len(), 1);
    assert_eq!(app.cursor, (1, 0));
    app.update(Action::MoveTaskLeft);
    assert_eq!(app.root.columns[0].tasks.len(), 1);
    assert_eq!(app.cursor, (0, 0));
}

#[test]
fn move_task_lands_at_end_of_destination() {
    let mut app = App::new(Some(board_with_columns(&["A", "B"])));
    add_task_via_commands(&mut app, "a1");
    add_task_via_commands(&mut app, "a2");
    app.update(Action::MoveRight);
    add_task_via_commands(&mut app, "b1");
    app.update(Action::MoveLeft);
    app.update(Action::MoveUp);
    assert_eq!(app.cursor, (0, 0));
    app.move_task_horizontal(1);
    let b: Vec<&str> = app.root.columns[1].tasks.iter().map(|t| t.title.as_str()).collect();
    assert_eq!(b, vec!["b1", "a1"]);
    assert_eq!(app.root.columns[0].tasks.len(), 1);
    assert_eq!(app.cursor, (1, 1));
}

#[test]
fn go_back_restores_cursor_after_deleting_inside() {
    let mut app = App::new(None);
    app.update(Action::MoveRight);
    add_task_via_commands(&mut app, "first");
    add_task_via_commands(&mut app, "outer");
    app.update(Action::MoveDown);
    assert_eq!(app.cursor, (1, 1));
    app.update(Action::DrillDown);
    app.update(Action::SelectBoard);
    assert_eq!(app.path, vec![(1, 1)]);
    assert_eq!(app.cursor, (0, 0));
    add_task_via_commands(&mut app, "inner");
    app.update(Action::DeleteTask);
    match app.get_active_content() {
        ActiveContentRef::Board(b) => {
            assert_eq!(b.title, "New Board");
            assert!(b.columns[0].tasks.is_empty());
        }
        _ => panic!("expected a board in view"),
    }
    app.update(Action::GoBack);
    assert!(app.path.is_empty());
    assert_eq!(app.cursor, (1, 1));
}

#[test]
fn cursor_is_clamped_on_board() {
    let mut app = App::new(None);
    add_task_via_commands(&mut app, "a");
    add_task_via_commands(&mut app, "b");
    app.update(Action::MoveDown);
    app.update(Action::MoveDown);
    app.update(Action::MoveDown);
    assert_eq!(app.cursor, (0, 1));
    app.update(Action::MoveRight);
    // the next column is empty: row clamps to 0
    assert_eq!(app.cursor, (1, 0));
    app.update(Action::MoveRight);
    app.update(Action::MoveRight);
    assert_eq!(app.cursor, (2, 0));
    app.update(Action::MoveLeft);
    app.update(Action::MoveLeft);
    app.update(Action::MoveLeft);
    assert_eq!(app.cursor, (0, 0));
    app.update(Action::MoveUp);
    assert_eq!(app.cursor, (0, 0));
}

#[test]
fn cursor_out_of_range_is_pulled_back() {
    let mut app = App::new(None);
    app.cursor = (9, 9);
    app.move_cursor(0, 0);
    assert_eq!(app.cursor, (2, 0));
    app.move_cursor(i32::MIN, i32::MAX);
    assert_eq!(app.cursor, (0, 0));
}

#[test]
fn cursor_is_clamped_on_todo_list() {
    let mut app = App::new(None);
    add_task_via_commands(&mut app, "list");
    app.update(Action::DrillDown);
    app.update(Action::SelectTodo);
    add_task_via_commands(&mut app, "x");
    add_task_via_commands(&mut app, "y");
    app.update(Action::MoveRight);
    assert_eq!(app.cursor, (0, 0));
    app.update(Action::MoveDown);
    app.update(Action::MoveDown);
    assert_eq!(app.cursor, (0, 1));
    app.cursor = (5, 1);
    app.update(Action::MoveUp);
    assert_eq!(app.cursor, (0, 0));
}

#[test]
fn moves_are_ignored_outside_normal_mode() {
    let mut app = App::new(None);
    app.update(Action::EnterEditMode);
    app.update(Action::MoveRight);
    assert_eq!(app.cursor, (0, 0));
    app.update(Action::ExitEditMode);
    app.update(Action::ToggleHelp);
    app.update(Action::MoveRight);
    assert_eq!(app.cursor, (0, 0));
    app.update(Action::ToggleHelp);
    app.update(Action::MoveRight);
    assert_eq!(app.cursor, (1, 0));
}

#[test]
fn todo_entries_stay_partitioned() {
    let mut app = App::new(None);
    add_task_via_commands(&mut app, "list");
    app.update(Action::DrillDown);
    app.update(Action::SelectTodo);
    for t in ["a", "b", "c"] {
        add_task_via_commands(&mut app, t);
    }
    app.toggle_todo_item(0);
    assert_eq!(
        todo_items(&app),
        vec![("b".to_string(), false), ("c".to_string(), false), ("a".to_string(), true)]
    );
    app.add_todo_item("d".to_string());
    assert_eq!(
        todo_items(&app),
        vec![
            ("b".to_string(), false),
            ("c".to_string(), false),
            ("d".to_string(), false),
            ("a".to_string(), true)
        ]
    );
    app.toggle_todo_item(1);
    assert_eq!(
        todo_items(&app),
        vec![
            ("b".to_string(), false),
            ("d".to_string(), false),
            ("c".to_string(), true),
            ("a".to_string(), true)
        ]
    );
    app.toggle_todo_item(3);
    assert_eq!(
        todo_items(&app),
        vec![
            ("b".to_string(), false),
            ("d".to_string(), false),
            ("a".to_string(), false),
            ("c".to_string(), true)
        ]
    );
    // an index past the end changes nothing
    app.toggle_todo_item(4);
    assert_eq!(todo_items(&app).len(), 4);
}

#[test]
fn stable_partition_keeps_group_order() {
    let mut items = vec![item("1", true), item("2", false), item("3", true), item("4", false)];
    stable_partition(&mut items);
    let order: Vec<&str> = items.iter().map(|i| i.text.as_str()).collect();
    assert_eq!(order, vec!["2", "4", "1", "3"]);
    let mut empty: Vec<TodoItem> = Vec::new();
    stable_partition(&mut empty);
    assert!(empty.is_empty());
}

#[test]
fn delete_todo_entry_steps_back_only_at_end() {
    let mut app = App::new(None);
    add_task_via_commands(&mut app, "list");
    app.update(Action::DrillDown);
    app.update(Action::SelectTodo);
    for t in ["a", "b", "c"] {
        add_task_via_commands(&mut app, t);
    }
    app.cursor = (0, 1);
    app.update(Action::DeleteTask);
    assert_eq!(todo_items(&app), vec![("a".to_string(), false), ("c".to_string(), false)]);
    assert_eq!(app.cursor, (0, 1));
    app.update(Action::DeleteTask);
    assert_eq!(todo_items(&app), vec![("a".to_string(), false)]);
    assert_eq!(app.cursor, (0, 0));
    app.update(Action::DeleteTask);
    assert!(todo_items(&app).is_empty());
    assert_eq!(app.cursor, (0, 0));
}

#[test]
fn delete_task_on_board_adjusts_row() {
    let mut app = App::new(None);
    add_task_via_commands(&mut app, "a");
    add_task_via_commands(&mut app, "b");
    app.cursor = (0, 1);
    app.delete_item();
    assert_eq!(app.root.columns[0].tasks.len(), 1);
    assert_eq!(app.root.columns[0].tasks[0].title, "a");
    assert_eq!(app.cursor, (0, 0));
    app.delete_item();
    assert!(app.root.columns[0].tasks.is_empty());
    assert_eq!(app.cursor, (0, 0));
    // nothing selected: nothing happens
    app.dirty = false;
    app.delete_item();
    assert!(!app.dirty);
}

#[test]
fn text_content_opens_for_editing() {
    let mut app = App::new(None);
    add_task_via_commands(&mut app, "notes");
    app.update(Action::DrillDown);
    app.update(Action::SelectText);
    assert_eq!(app.path, vec![(0, 0)]);
    assert_eq!(app.input_mode, InputMode::Editing);
    assert!(app.input_buffer.is_empty());
    type_text(&mut app, "  hello ");
    app.update(Action::SubmitTask);
    // text is stored whole, not trimmed
    assert_eq!(app.root.columns[0].tasks[0].content, Some(TaskContent::Text("  hello ".to_string())));
    assert_eq!(app.input_mode, InputMode::Normal);
    app.update(Action::GoBack);
    assert!(app.path.is_empty());
    app.update(Action::DrillDown);
    assert_eq!(app.input_mode, InputMode::Editing);
    assert_eq!(app.input_buffer, "  hello ");
    assert_eq!(app.path, vec![(0, 0)]);
}

#[test]
fn submitted_titles_are_trimmed_and_blank_ones_dropped() {
    let mut app = App::new(None);
    add_task_via_commands(&mut app, "  padded\t");
    assert_eq!(app.root.columns[0].tasks[0].title, "padded");
    add_task_via_commands(&mut app, "   ");
    assert_eq!(app.root.columns[0].tasks.len(), 1);
    assert_eq!(app.input_mode, InputMode::Normal);
}

#[test]
fn add_column_through_commands() {
    let mut app = App::new(None);
    app.update(Action::EnterAddColumnMode);
    assert_eq!(app.input_mode, InputMode::EditingColumn);
    type_text(&mut app, " Later ");
    app.update(Action::SubmitTask);
    assert_eq!(titles(&app.root), vec!["To Do", "In Progress", "Done", "Later"]);
    app.update(Action::EnterAddColumnMode);
    type_text(&mut app, "  ");
    app.update(Action::SubmitTask);
    assert_eq!(app.root.columns.len(), 4);
}

#[test]
fn input_buffer_editing() {
    let mut app = App::new(None);
    app.update(Action::EnterEditMode);
    type_text(&mut app, "ab");
    app.update(Action::InputBackspace);
    assert_eq!(app.input_buffer, "a");
    app.update(Action::InputBackspace);
    app.update(Action::InputBackspace);
    assert_eq!(app.input_buffer, "");
    type_text(&mut app, "x");
    app.update(Action::ExitEditMode);
    assert_eq!(app.input_buffer, "");
    assert_eq!(app.input_mode, InputMode::Normal);
    assert!(app.root.columns[0].tasks.is_empty());
}

#[test]
fn select_type_is_dismissed_by_go_back() {
    let mut app = App::new(None);
    add_task_via_commands(&mut app, "t");
    app.update(Action::DrillDown);
    assert_eq!(app.input_mode, InputMode::SelectType);
    app.update(Action::GoBack);
    assert_eq!(app.input_mode, InputMode::Normal);
    assert!(app.root.columns[0].tasks[0].content.is_none());
}

#[test]
fn help_is_dismissed_before_going_back() {
    let mut app = App::new(None);
    add_task_via_commands(&mut app, "t");
    app.update(Action::DrillDown);
    app.update(Action::SelectBoard);
    app.update(Action::ToggleHelp);
    assert!(app.show_help);
    app.update(Action::GoBack);
    assert!(!app.show_help);
    assert_eq!(app.path.len(), 1);
    app.update(Action::GoBack);
    assert!(app.path.is_empty());
}

#[test]
fn binding_content_needs_select_type_mode() {
    let mut app = App::new(None);
    add_task_via_commands(&mut app, "t");
    app.initialize_content(TaskContent::Text(String::new()));
    assert!(app.root.columns[0].tasks[0].content.is_none());
    assert!(app.path.is_empty());
}

#[test]
fn quit_sets_flag_and_update_reports_dirty() {
    let mut app = App::new(None);
    assert!(!app.update(Action::MoveDown));
    app.update(Action::EnterEditMode);
    type_text(&mut app, "t");
    assert!(app.update(Action::SubmitTask));
    app.mark_saved();
    assert!(!app.dirty);
    assert!(!app.update(Action::Quit));
    assert!(app.should_quit);
}

#[test]
fn breadcrumbs_follow_the_path() {
    let mut app = App::new(None);
    assert_eq!(app.get_breadcrumbs(), vec!["Main Board".to_string()]);
    add_task_via_commands(&mut app, "Project");
    app.update(Action::DrillDown);
    app.update(Action::SelectBoard);
    add_task_via_commands(&mut app, "Notes");
    app.update(Action::DrillDown);
    app.update(Action::SelectText);
    assert_eq!(
        app.get_breadcrumbs(),
        vec!["Main Board".to_string(), "Project".to_string(), "Notes".to_string()]
    );
}

#[test]
fn path_resolution_reaches_the_drilled_task() {
    let mut app = App::new(None);
    add_task_via_commands(&mut app, "outer");
    app.update(Action::DrillDown);
    app.update(Action::SelectBoard);
    app.update(Action::MoveRight);
    add_task_via_commands(&mut app, "skip");
    add_task_via_commands(&mut app, "inner");
    app.update(Action::MoveDown);
    app.update(Action::DrillDown);
    app.update(Action::SelectTodo);
    assert_eq!(app.path, vec![(0, 0), (1, 1)]);
    let task = get_task_ref(&app.root, &app.path).unwrap();
    assert_eq!(task.title, "inner");
    let inner = get_board_ref(&app.root, &app.path[..1]).unwrap();
    assert_eq!(inner.title, "New Board");
    let t = get_task_mut_recursive(&mut app.root, &[(0, 0), (1, 1)]).unwrap();
    t.title = "renamed".to_string();
    assert_eq!(get_task_ref(&app.root, &[(0, 0), (1, 1)]).unwrap().title, "renamed");
    let b = get_board_recursive(&mut app.root, &[(0, 0)]).unwrap();
    b.title = "Sub".to_string();
    assert_eq!(app.get_breadcrumbs(), vec!["Main Board", "outer", "renamed"]);
    assert_eq!(get_board_ref(&app.root, &[(0, 0)]).unwrap().title, "Sub");
}

#[test]
fn path_errors_are_reported() {
    let mut root = Board::default();
    let mut t = Task::new("leaf", "d");
    t.content = Some(TaskContent::Text("x".to_string()));
    root.push_task(0, t);
    assert_eq!(get_board_ref(&root, &[(5, 0)]).err(), Some(PathError::IndexOutOfRange));
    assert_eq!(get_board_ref(&root, &[(0, 3)]).err(), Some(PathError::IndexOutOfRange));
    assert_eq!(get_board_ref(&root, &[(0, 0)]).err(), Some(PathError::NotABoard));
    assert_eq!(get_task_ref(&root, &[]).err(), Some(PathError::EmptyPath));
    assert_eq!(get_task_ref(&root, &[(0, 0), (0, 0)]).err(), Some(PathError::NotABoard));
    assert_eq!(get_task_mut_recursive(&mut root, &[(1, 0)]).err(), Some(PathError::IndexOutOfRange));
    assert!(get_board_recursive(&mut root, &[(0, 0)]).is_err());
    assert_eq!(get_board_ref(&root, &[]).unwrap().title, "Main Board");
    assert_eq!(get_task_ref(&root, &[(0, 0)]).unwrap().description, "d");
}

#[test]
fn stale_path_shows_nearest_board() {
    let mut app = App::new(None);
    add_task_via_commands(&mut app, "list");
    app.update(Action::DrillDown);
    app.update(Action::SelectTodo);
    // the list is in view; an extra step beyond it is not walked
    app.path.push((0, 0));
    assert!(matches!(app.get_active_content(), ActiveContentRef::Todo(_)));
    let (_, depth) = locate_view(&app.root, &app.path);
    assert_eq!(depth, 1);
    // a step out of range stops the walk at the board reached
    app.path = vec![(7, 7)];
    match app.get_active_content() {
        ActiveContentRef::Board(b) => assert_eq!(b.title, "Main Board"),
        _ => panic!("expected the root board"),
    }
    add_task_via_commands(&mut app, "added at root");
    assert_eq!(app.root.columns[0].tasks.len(), 2);
    // drilling from a stale path drops the stale steps first
    app.cursor = (0, 1);
    app.update(Action::DrillDown);
    app.update(Action::SelectTodo);
    assert_eq!(app.path, vec![(0, 1)]);
}

#[test]
fn empty_task_shows_empty_view() {
    let mut app = App::new(None);
    add_task_via_commands(&mut app, "t");
    app.path.push((0, 0));
    assert!(matches!(app.get_active_content(), ActiveContentRef::Empty));
    app.update(Action::EnterEditMode);
    assert_eq!(app.input_mode, InputMode::Normal);
}

#[test]
fn new_tasks_get_distinct_version_four_ids() {
    let a = Task::new("a", "");
    let b = Task::new("b", "");
    assert_ne!(a.id, b.id);
    assert_eq!((a.id >> 76) & 0xf, 4);
    assert_eq!((a.id >> 62) & 0x3, 2);
}

#[test]
fn loaded_board_is_used() {
    let app = App::new(Some(board_with_columns(&["Only"])));
    assert_eq!(titles(&app.root), vec!["Only"]);
    assert_eq!(app.cursor, (0, 0));
    assert!(!app.dirty);
}

#[test]
fn board_edit_helpers() {
    let mut b = board_with_columns(&["A", "B"]);
    b.push_task(0, Task::new("x", ""));
    b.push_task(0, Task::new("y", ""));
    b.move_task(0, 0, 1);
    assert_eq!(b.columns[0].tasks[0].title, "y");
    assert_eq!(b.columns[1].tasks[0].title, "x");
    let t = b.remove_task(1, 0);
    assert_eq!(t.title, "x");
    assert!(b.columns[1].tasks.is_empty());
    b.set_task_content(0, 0, TaskContent::Todo(vec![item("k", true)]));
    let task = &mut b.columns[0].tasks[0];
    task.push_todo("n".to_string());
    assert_eq!(task.content, Some(TaskContent::Todo(vec![item("n", false), item("k", true)])));
    task.toggle_todo(1);
    assert_eq!(task.content, Some(TaskContent::Todo(vec![item("n", false), item("k", false)])));
    task.remove_todo(0);
    assert_eq!(task.content, Some(TaskContent::Todo(vec![item("k", false)])));
}

#[test]
fn commands_run_while_help_is_shown() {
    let mut app = App::new(Some(board_with_columns(&["A", "B"])));
    add_task_via_commands(&mut app, "first");
    add_task_via_commands(&mut app, "second");
    app.show_help = true;
    app.move_task_horizontal(1);
    assert_eq!(app.root.columns[1].tasks.len(), 1);
    assert_eq!(app.root.columns[1].tasks[0].title, "first");
    assert_eq!(app.cursor, (1, 0));
    app.delete_item();
    assert!(app.root.columns[1].tasks.is_empty());
    app.cursor = (0, 0);
    app.handle_drill_down();
    assert_eq!(app.input_mode, InputMode::SelectType);
    app.initialize_content(TaskContent::Todo(Vec::new()));
    assert_eq!(app.path, vec![(0, 0)]);
    assert_eq!(app.cursor, (0, 0));
    assert_eq!(app.root.columns[0].tasks[0].content, Some(TaskContent::Todo(Vec::new())));
}

#[test]
fn delete_and_toggle_outside_normal_mode() {
    let mut app = App::new(None);
    add_task_via_commands(&mut app, "list");
    app.update(Action::DrillDown);
    app.update(Action::SelectTodo);
    add_task_via_commands(&mut app, "x");
    add_task_via_commands(&mut app, "y");
    app.input_mode = InputMode::Editing;
    app.toggle_todo();
    assert_eq!(todo_items(&app), vec![("y".to_string(), false), ("x".to_string(), true)]);
    app.delete_item();
    assert_eq!(todo_items(&app), vec![("x".to_string(), true)]);
}

#[test]
fn move_and_drill_need_normal_mode() {
    let mut app = App::new(Some(board_with_columns(&["A", "B"])));
    add_task_via_commands(&mut app, "t");
    app.input_mode = InputMode::Editing;
    app.move_task_horizontal(1);
    assert_eq!(app.root.columns[0].tasks.len(), 1);
    app.handle_drill_down();
    assert_eq!(app.input_mode, InputMode::Editing);
}

#[test]
fn toggle_past_the_end_changes_nothing() {
    let mut app = App::new(None);
    add_task_via_commands(&mut app, "list");
    app.update(Action::DrillDown);
    app.update(Action::SelectTodo);
    add_task_via_commands(&mut app, "a");
    app.mark_saved();
    app.toggle_todo_item(9);
    assert_eq!(todo_items(&app), vec![("a".to_string(), false)]);
    assert!(!app.dirty);
    let task = get_task_mut_recursive(&mut app.root, &[(0, 0)]).unwrap();
    task.content = Some(TaskContent::Todo(vec![item("x", true), item("y", false)]));
    app.toggle_todo_item(2);
    assert_eq!(todo_items(&app), vec![("x".to_string(), true), ("y".to_string(), false)]);
    assert!(!app.dirty);
}

#[test]
fn unicode_white_space_is_trimmed() {
    let mut app = App::new(None);
    add_task_via_commands(&mut app, "\u{3000}\u{a0}wide\u{2003}\u{85}");
    assert_eq!(app.root.columns[0].tasks[0].title, "wide");
    add_task_via_commands(&mut app, "\u{200b}kept\u{200b}");
    assert_eq!(app.root.columns[0].tasks[1].title, "\u{200b}kept\u{200b}");
}
