use vstd::prelude::*;

use crate::model::{
    Board, BoardView, Column, ColumnView, ContentView, Task, TaskContent, TaskView, TodoItemView,
    default_board_view,
};
use crate::path::{Step, get_board_recursive, get_task_mut_recursive};
use crate::text::{pop_char, push_char, trim_of, trimmed};
use crate::todo::{done, is_partitioned, lemma_partition_keeps_texts, texts, lemma_add_keeps_insertion_order, lemma_partition_is_stable, partitioned, undone};
use crate::view::{ActiveContentRef, Viewed, lemma_view_path, locate_view};
use vstd::slice::slice_subrange;

verus! {

broadcast use {crate::path::lemma_board_replaced_view, crate::path::lemma_task_replaced_view};

/// Which commands the engine takes at a given moment.
#[derive(Debug, Clone, Copy, PartialEq, Eq, Structural)]
pub enum InputMode {
    /// Navigation and structural commands.
    Normal,
    /// The input buffer is open for a task title, a to-do entry or a text.
    Editing,
    /// The input buffer is open for the title of a new column.
    EditingColumn,
    /// A kind of content is being chosen for a task that has none.
    SelectType,
}

/// One command of the command surface of the engine.
#[derive(Debug, Clone, Copy, PartialEq, Eq)]
pub enum Action {
    Quit,
    MoveUp,
    MoveDown,
    MoveLeft,
    MoveRight,
    MoveTaskLeft,
    MoveTaskRight,
    DrillDown,
    GoBack,
    EnterEditMode,
    EnterAddColumnMode,
    ExitEditMode,
    InputChar(char),
    InputBackspace,
    SubmitTask,
    DeleteTask,
    ToggleTodo,
    ToggleHelp,
    SelectBoard,
    SelectTodo,
    SelectText,
}

/// The whole state of the engine: the tree, where in it the user is, and the
/// input state.
pub struct App {
    pub root: Board,
    /// The steps taken from the root to the content in view.
    pub path: Vec<Step>,
    /// `(column, row)` on a board, `(0, row)` on a to-do list.
    pub cursor: (usize, usize),
    pub input_mode: InputMode,
    pub input_buffer: String,
    pub should_quit: bool,
    pub show_help: bool,
    /// The tree differs from what was last written out.
    pub dirty: bool,
}

/// The mathematical value of the state of the engine.
pub ghost struct AppView {
    pub root: BoardView,
    pub path: Seq<Step>,
    pub cursor: (usize, usize),
    pub input_mode: InputMode,
    pub input_buffer: Seq<char>,
    pub should_quit: bool,
    pub show_help: bool,
    pub dirty: bool,
}

impl View for App {
    type V = AppView;

    open spec fn view(&self) -> AppView {
        AppView {
            root: self.root@,
            path: self.path@,
            cursor: self.cursor,
            input_mode: self.input_mode,
            input_buffer: self.input_buffer@,
            should_quit: self.should_quit,
            show_help: self.show_help,
            dirty: self.dirty,
        }
    }
}

/// `v` clamped to `[0, hi]`.
pub open spec fn clamp(v: int, hi: int) -> int {
    if v < 0 {
        0
    } else if v > hi {
        hi
    } else {
        v
    }
}

/// The last valid row of a list of `n` entries, or 0 when it is empty.
pub open spec fn last_row(n: nat) -> int {
    if n > 0 {
        n - 1
    } else {
        0
    }
}

/// `items` with entry `i` flipped between done and not done.
pub open spec fn flipped_at(items: Seq<TodoItemView>, i: int) -> Seq<TodoItemView> {
    items.update(i, TodoItemView { done: !items[i].done, ..items[i] })
}

/// The titles along a path, walked as `view_at` walks it: one for each task
/// that the walk reaches.
pub open spec fn crumbs(b: BoardView, path: Seq<Step>) -> Seq<Seq<char>>
    decreases path.len(),
{
    if path.len() == 0 {
        Seq::empty()
    } else {
        match b.task_at_step(path[0]) {
            None => Seq::empty(),
            Some(t) => seq![t.title] + match t.content {
                Some(ContentView::Board(nb)) => crumbs(nb, path.drop_first()),
                _ => Seq::empty(),
            },
        }
    }
}

impl AppView {
    /// The content in view.
    pub open spec fn viewed(self) -> Viewed {
        self.root.view_at(self.path)
    }

    /// The path to the content in view: the current path less any steps that
    /// no longer resolve.
    pub open spec fn target(self) -> Seq<Step> {
        self.root.view_path(self.path)
    }

    /// Navigation and structural commands are taken.
    pub open spec fn takes_commands(self) -> bool {
        self.input_mode == InputMode::Normal && !self.show_help
    }

    /// The task whose content is in view, when that content is no board.
    pub open spec fn viewed_task(self) -> TaskView {
        self.root.resolve_task(self.target())->Ok_0
    }

    /// This state with the board in view replaced by `nb`, the tree marked
    /// as changed.
    pub open spec fn with_viewed_board(self, nb: BoardView) -> AppView {
        AppView { root: self.root.with_board_at(self.target(), nb), dirty: true, ..self }
    }

    /// This state with the task in view replaced by `nt`, the tree marked as
    /// changed.
    pub open spec fn with_viewed_task(self, nt: TaskView) -> AppView {
        AppView { root: self.root.with_task_at(self.target(), nt), dirty: true, ..self }
    }

    /// The state after `add_task(title)`, the new task having identifier `id`.
    pub open spec fn after_add_task(self, title: Seq<char>, id: u128) -> AppView {
        let c = self.cursor.0 as int;
        match self.viewed() {
            Viewed::Board(b) => if c < b.columns.len() {
                self.with_viewed_board(
                    b.with_column_tasks(
                        c,
                        b.columns[c].tasks.push(
                            TaskView { id, title, description: Seq::empty(), content: None },
                        ),
                    ),
                )
            } else {
                self
            },
            _ => self,
        }
    }

    /// The state after `add_column(title)`.
    pub open spec fn after_add_column(self, title: Seq<char>) -> AppView {
        match self.viewed() {
            Viewed::Board(b) => self.with_viewed_board(
                BoardView {
                    columns: b.columns.push(ColumnView { title, tasks: Seq::empty() }),
                    ..b
                },
            ),
            _ => self,
        }
    }

    /// The state after `add_todo_item(text)`.
    pub open spec fn after_add_todo_item(self, text: Seq<char>) -> AppView {
        match self.viewed() {
            Viewed::Todo(items) => self.with_viewed_task(
                self.viewed_task().with_content(
                    ContentView::Todo(partitioned(items.push(TodoItemView { text, done: false }))),
                ),
            ),
            _ => self,
        }
    }

    /// The state after `remove_todo_item(i)`.
    pub open spec fn after_remove_todo_item(self, i: int) -> AppView {
        match self.viewed() {
            Viewed::Todo(items) => if 0 <= i < items.len() {
                self.with_viewed_task(
                    self.viewed_task().with_content(ContentView::Todo(items.remove(i))),
                )
            } else {
                self
            },
            _ => self,
        }
    }

    /// The state after `toggle_todo_item(i)`: entry `i` changes group and the
    /// list is reordered; an index past the end changes nothing.
    pub open spec fn after_toggle_todo_item(self, i: int) -> AppView {
        match self.viewed() {
            Viewed::Todo(items) => if 0 <= i < items.len() {
                self.with_viewed_task(
                    self.viewed_task().with_content(ContentView::Todo(partitioned(flipped_at(items, i)))),
                )
            } else {
                self
            },
            _ => self,
        }
    }

    /// The state after `set_text_content(text)`.
    pub open spec fn after_set_text_content(self, text: Seq<char>) -> AppView {
        match self.viewed() {
            Viewed::Text(_) => self.with_viewed_task(
                self.viewed_task().with_content(ContentView::Text(text)),
            ),
            _ => self,
        }
    }

    /// The row that stays selected once entry `r` of a list of `len` entries
    /// is gone: the one before it when it was the last.
    pub open spec fn row_after_removal(r: int, len: int) -> int {
        if r + 1 >= len && r > 0 {
            r - 1
        } else {
            r
        }
    }

    /// The state after `delete_item()`.
    pub open spec fn after_delete_item(self) -> AppView {
        let c = self.cursor.0 as int;
        let r = self.cursor.1 as int;
        match self.viewed() {
            Viewed::Board(b) => if c < b.columns.len() && r < b.columns[c].tasks.len() {
                AppView {
                    cursor: (
                        self.cursor.0,
                        Self::row_after_removal(r, b.columns[c].tasks.len() as int) as usize,
                    ),
                    ..self.with_viewed_board(b.with_column_tasks(c, b.columns[c].tasks.remove(r)))
                }
            } else {
                self
            },
            Viewed::Todo(items) => if r < items.len() {
                AppView {
                    cursor: (self.cursor.0, Self::row_after_removal(r, items.len() as int) as usize),
                    ..self.after_remove_todo_item(r)
                }
            } else {
                self
            },
            _ => self,
        }
    }

    /// The state after `toggle_todo()`.
    pub open spec fn after_toggle_todo(self) -> AppView {
        match self.viewed() {
            Viewed::Todo(items) => if self.cursor.1 < items.len() {
                self.after_toggle_todo_item(self.cursor.1 as int)
            } else {
                self
            },
            _ => self,
        }
    }

    /// The state after `move_task_horizontal(dir)`.
    pub open spec fn after_move_task_horizontal(self, dir: int) -> AppView {
        let c = self.cursor.0 as int;
        let r = self.cursor.1 as int;
        let nc = c + dir;
        if self.input_mode != InputMode::Normal {
            self
        } else {
            match self.viewed() {
                Viewed::Board(b) => if c < b.columns.len() && 0 <= nc < b.columns.len() && r
                    < b.columns[c].tasks.len() {
                    let nb = b.with_task_moved(c, r, nc);
                    AppView {
                        cursor: (nc as usize, (nb.columns[nc].tasks.len() - 1) as usize),
                        ..self.with_viewed_board(nb)
                    }
                } else {
                    self
                },
                _ => self,
            }
        }
    }

    /// The state after `handle_drill_down()`.
    pub open spec fn after_drill_down(self) -> AppView {
        if self.input_mode != InputMode::Normal {
            self
        } else {
            match self.viewed() {
                Viewed::Board(b) => match b.task_at_step(self.cursor) {
                    None => self,
                    Some(t) => match t.content {
                        None => AppView { input_mode: InputMode::SelectType, ..self },
                        Some(ContentView::Text(txt)) => AppView {
                            path: self.target().push(self.cursor),
                            cursor: (0, 0),
                            input_mode: InputMode::Editing,
                            input_buffer: txt,
                            ..self
                        },
                        Some(_) => AppView {
                            path: self.target().push(self.cursor),
                            cursor: (0, 0),
                            ..self
                        },
                    },
                },
                Viewed::Text(txt) => AppView {
                    input_mode: InputMode::Editing,
                    input_buffer: txt,
                    ..self
                },
                _ => self,
            }
        }
    }

    /// The state after `go_back()`.
    pub open spec fn after_go_back(self) -> AppView {
        if self.show_help {
            AppView { show_help: false, ..self }
        } else if self.input_mode == InputMode::SelectType {
            AppView { input_mode: InputMode::Normal, ..self }
        } else if self.path.len() > 0 {
            AppView {
                path: self.path.drop_last(),
                cursor: self.path.last(),
                input_mode: InputMode::Normal,
                input_buffer: Seq::empty(),
                ..self
            }
        } else {
            self
        }
    }

    /// The state after `initialize_content(content)`, where `content` is the
    /// value of the new content.
    pub open spec fn after_initialize_content(self, content: ContentView) -> AppView {
        if self.input_mode != InputMode::SelectType {
            self
        } else {
            let bound = match self.viewed() {
                Viewed::Board(b) => match b.task_at_step(self.cursor) {
                    Some(t) => if t.content is None {
                        self.with_viewed_board(b.with_task(self.cursor, t.with_content(content)))
                    } else {
                        self
                    },
                    None => self,
                },
                _ => self,
            };
            AppView { input_mode: InputMode::Normal, ..bound }.after_drill_down()
        }
    }

    /// The state after `submit_input()`, a task it adds having identifier `id`.
    pub open spec fn after_submit(self, id: u128) -> AppView {
        let line = trim_of(self.input_buffer);
        let closed = |s: AppView| AppView { input_mode: InputMode::Normal, input_buffer: Seq::empty(), ..s };
        if self.input_mode == InputMode::EditingColumn {
            closed(if line.len() > 0 { self.after_add_column(line) } else { self })
        } else if self.input_mode == InputMode::Editing {
            closed(
                match self.viewed() {
                    Viewed::Board(_) => if line.len() > 0 {
                        self.after_add_task(line, id)
                    } else {
                        self
                    },
                    Viewed::Todo(_) => if line.len() > 0 {
                        self.after_add_todo_item(line)
                    } else {
                        self
                    },
                    Viewed::Text(_) => self.after_set_text_content(self.input_buffer),
                    Viewed::Empty => self,
                },
            )
        } else {
            self
        }
    }

    /// The state after `EnterEditMode`.
    pub open spec fn after_enter_edit_mode(self) -> AppView {
        if !self.show_help && (self.viewed() is Board || self.viewed() is Todo) {
            AppView { input_mode: InputMode::Editing, ..self }
        } else {
            self
        }
    }

    /// The state after `EnterAddColumnMode`.
    pub open spec fn after_enter_add_column_mode(self) -> AppView {
        if !self.show_help && self.viewed() is Board {
            AppView { input_mode: InputMode::EditingColumn, ..self }
        } else {
            self
        }
    }

    /// The state after `update(action)`, a task that it adds having
    /// identifier `id`.
    pub open spec fn after(self, action: Action, id: u128) -> AppView {
        match action {
            Action::Quit => AppView { should_quit: true, ..self },
            Action::ToggleHelp => AppView { show_help: !self.show_help, ..self },
            Action::MoveUp => self.after_move_cursor(0, -1),
            Action::MoveDown => self.after_move_cursor(0, 1),
            Action::MoveLeft => self.after_move_cursor(-1, 0),
            Action::MoveRight => self.after_move_cursor(1, 0),
            Action::MoveTaskLeft => self.after_move_task_horizontal(-1),
            Action::MoveTaskRight => self.after_move_task_horizontal(1),
            Action::DrillDown => self.after_drill_down(),
            Action::GoBack => self.after_go_back(),
            Action::EnterEditMode => self.after_enter_edit_mode(),
            Action::EnterAddColumnMode => self.after_enter_add_column_mode(),
            Action::ExitEditMode => AppView {
                input_mode: InputMode::Normal,
                input_buffer: Seq::empty(),
                ..self
            },
            Action::InputChar(c) => AppView { input_buffer: self.input_buffer.push(c), ..self },
            Action::InputBackspace => AppView {
                input_buffer: if self.input_buffer.len() > 0 {
                    self.input_buffer.drop_last()
                } else {
                    self.input_buffer
                },
                ..self
            },
            Action::SubmitTask => self.after_submit(id),
            Action::DeleteTask => self.after_delete_item(),
            Action::ToggleTodo => self.after_toggle_todo(),
            Action::SelectBoard => self.after_initialize_content(ContentView::Board(new_board_view())),
            Action::SelectTodo => self.after_initialize_content(ContentView::Todo(Seq::empty())),
            Action::SelectText => self.after_initialize_content(ContentView::Text(Seq::empty())),
        }
    }

    /// The state after `move_cursor(dx, dy)`.
    pub open spec fn after_move_cursor(self, dx: int, dy: int) -> AppView {
        if !self.takes_commands() {
            self
        } else {
            match self.viewed() {
                Viewed::Board(b) => if b.columns.len() == 0 {
                    self
                } else {
                    let c = clamp(self.cursor.0 + dx, b.columns.len() - 1);
                    let max_r = last_row(b.columns[c].tasks.len());
                    let r = if dx == 0 {
                        clamp(self.cursor.1 + dy, max_r)
                    } else {
                        clamp(self.cursor.1 as int, max_r)
                    };
                    AppView { cursor: (c as usize, r as usize), ..self }
                },
                Viewed::Todo(items) => AppView {
                    cursor: (0, clamp(self.cursor.1 + dy, last_row(items.len())) as usize),
                    ..self
                },
                _ => self,
            }
        }
    }
}

/// The board that choosing the board kind binds to a task.
pub open spec fn new_board_view() -> BoardView {
    BoardView { title: "New Board"@, ..default_board_view() }
}

/// The board that choosing the board kind binds to a task.
fn new_board() -> (r: Board)
    ensures
        r@ == new_board_view(),
{
    let mut b = Board::default();
    b.title = "New Board".to_owned();
    b
}

/// Drilling into a task that holds content extends the path by the step of
/// the cursor, and the extended path resolves from the root to that very task.
pub proof fn lemma_drill_down_reaches_task(s: AppView)
    requires
        s.input_mode == InputMode::Normal,
        s.viewed() is Board,
        s.viewed()->Board_0.task_at_step(s.cursor) matches Some(t) && t.content is Some,
    ensures
        s.after_drill_down().path == s.target().push(s.cursor),
        s.after_drill_down().root == s.root,
        s.after_drill_down().root.resolve_task(s.after_drill_down().path) == Ok::<
            TaskView,
            crate::path::PathError,
        >(s.viewed()->Board_0.task_at_step(s.cursor)->0),
{
    lemma_view_path(s.root, s.path);
    crate::path::lemma_resolve_extended(s.root, s.target(), s.cursor);
}

impl BoardView {
    /// Every length in this board fits a `usize`, as it does for any board
    /// held in memory.
    pub open spec fn fits_usize(self) -> bool {
        &&& self.columns.len() <= usize::MAX
        &&& forall|i: int| 0 <= i < self.columns.len() ==> #[trigger] self.columns[i].tasks.len() <= usize::MAX
    }
}

/// In a to-do view, adding an entry or toggling one (at any index) leaves the
/// list in view partitioned: every entry not done before every entry done,
/// each group in the order it had, with the same entries and texts as
/// before; a toggle at an index past the end changes nothing. On a list
/// that was partitioned, a new entry goes last among those not done and the
/// done entries stay as they were.
pub proof fn lemma_todo_stays_partitioned(s: AppView, text: Seq<char>, i: int)
    requires
        s.viewed() is Todo,
    ensures
        ({
            let items = s.viewed()->Todo_0;
            let added = items.push(TodoItemView { text, done: false });
            let after = s.after_add_todo_item(text).viewed();
            &&& after == Viewed::Todo(partitioned(added))
            &&& is_partitioned(partitioned(added))
            &&& partitioned(added).to_multiset() == added.to_multiset()
            &&& texts(partitioned(added)).to_multiset() == texts(items).push(text).to_multiset()
            &&& undone(partitioned(added)) == undone(added)
            &&& done(partitioned(added)) == done(items)
            &&& is_partitioned(items) ==> partitioned(added) == undone(items).push(
                TodoItemView { text, done: false },
            ) + done(items)
        }),
        0 <= i < s.viewed()->Todo_0.len() ==> ({
            let flipped = flipped_at(s.viewed()->Todo_0, i);
            &&& s.after_toggle_todo_item(i).viewed() == Viewed::Todo(partitioned(flipped))
            &&& is_partitioned(partitioned(flipped))
            &&& partitioned(flipped).len() == s.viewed()->Todo_0.len()
            &&& partitioned(flipped).to_multiset() == flipped.to_multiset()
            &&& texts(partitioned(flipped)).to_multiset() == texts(s.viewed()->Todo_0).to_multiset()
            &&& undone(partitioned(flipped)) == undone(flipped)
            &&& done(partitioned(flipped)) == done(flipped)
        }),
        !(0 <= i < s.viewed()->Todo_0.len()) ==> s.after_toggle_todo_item(i) == s,
{
    let items = s.viewed()->Todo_0;
    let x = TodoItemView { text, done: false };
    lemma_view_path(s.root, s.path);
    let t = s.viewed_task();
    crate::view::lemma_view_after_task_replaced(
        s.root,
        s.path,
        t.with_content(ContentView::Todo(partitioned(items.push(x)))),
    );
    lemma_partition_is_stable(items.push(x));
    assert(items.push(x).drop_last() =~= items);
    if is_partitioned(items) {
        lemma_add_keeps_insertion_order(items, x);
    }
    lemma_partition_keeps_texts(items.push(x));
    assert(texts(items.push(x)) =~= texts(items).push(text));
    if 0 <= i < items.len() {
        let flipped = flipped_at(items, i);
        crate::view::lemma_view_after_task_replaced(
            s.root,
            s.path,
            t.with_content(ContentView::Todo(partitioned(flipped))),
        );
        lemma_partition_is_stable(flipped);
        lemma_partition_keeps_texts(flipped);
        assert(texts(flipped) =~= texts(items));
    }
}

/// Moving the selected task to another column of the board in view changes
/// the tree only inside that board, keeps the number of tasks on it, the
/// tasks themselves (with their identifiers and all they hold) and the
/// identifiers of all tasks in the whole tree, takes the task out of its column, appends
/// it to the destination column, and puts the cursor on it there.
pub proof fn lemma_move_task_conserves_count(s: AppView, dir: int)
    requires
        s.input_mode == InputMode::Normal,
        s.viewed() is Board,
        dir != 0,
        0 <= s.cursor.0 + dir < s.viewed()->Board_0.columns.len(),
        s.cursor.0 < s.viewed()->Board_0.columns.len(),
        s.cursor.1 < s.viewed()->Board_0.columns[s.cursor.0 as int].tasks.len(),
    ensures
        ({
            let b = s.viewed()->Board_0;
            let (c, r) = (s.cursor.0 as int, s.cursor.1 as int);
            let n = s.after_move_task_horizontal(dir);
            let nb = n.root.resolve_board(s.target())->Ok_0;
            &&& n.root.resolve_board(s.target()) is Ok
            &&& n.root == s.root.with_board_at(s.target(), nb)
            &&& crate::edit::board_ids(n.root) == crate::edit::board_ids(s.root)
            &&& crate::edit::total_tasks(nb.columns) == crate::edit::total_tasks(b.columns)
            &&& crate::edit::all_tasks(nb.columns) == crate::edit::all_tasks(b.columns)
            &&& nb.columns[c].tasks == b.columns[c].tasks.remove(r)
            &&& nb.columns[c + dir].tasks == b.columns[c + dir].tasks.push(b.columns[c].tasks[r])
            &&& forall|i: int|
                0 <= i < b.columns.len() && i != c && i != c + dir ==> nb.columns[i] == b.columns[i]
            &&& n.cursor == ((c + dir) as usize, (nb.columns[c + dir].tasks.len() - 1) as usize)
        }),
{
    let b = s.viewed()->Board_0;
    lemma_view_path(s.root, s.path);
    let nb = b.with_task_moved(s.cursor.0 as int, s.cursor.1 as int, s.cursor.0 + dir);
    crate::path::lemma_resolve_replaced(s.root, s.target(), nb);
    crate::edit::lemma_move_task_conserves(b, s.cursor.0 as int, s.cursor.1 as int, s.cursor.0 + dir);
    crate::edit::lemma_move_task_keeps_ids(b, s.cursor.0 as int, s.cursor.1 as int, s.cursor.0 + dir);
    crate::edit::lemma_replaced_board_ids(s.root, s.target(), nb);
    let n = s.root.with_board_at(s.target(), nb);
    assert forall|x: u128| #[trigger] crate::edit::board_ids(n).count(x) == crate::edit::board_ids(s.root).count(x) by {
        broadcast use vstd::multiset::group_multiset_axioms;

        assert(crate::edit::board_ids(n).add(crate::edit::board_ids(b)).count(x)
            == crate::edit::board_ids(s.root).add(crate::edit::board_ids(nb)).count(x));
    }
    assert(crate::edit::board_ids(n) =~= crate::edit::board_ids(s.root));
}

/// `max(1, n)`: how many rows a cursor may address in a list of `n`.
pub open spec fn row_bound(n: nat) -> nat {
    if n > 1 {
        n
    } else {
        1
    }
}

/// After any cursor move that is taken, the cursor addresses a column of the
/// board in view and a row within that column, or 0 when it is empty; on a
/// to-do list it addresses column 0 and an entry, or 0 when there is none.
pub proof fn lemma_move_cursor_in_bounds(s: AppView, dx: int, dy: int)
    requires
        s.viewed() is Board ==> s.viewed()->Board_0.fits_usize(),
        s.viewed() is Todo ==> s.viewed()->Todo_0.len() <= usize::MAX,
    ensures
        s.after_move_cursor(dx, dy).viewed() == s.viewed(),
        s.takes_commands() && s.viewed() is Board && s.viewed()->Board_0.columns.len() > 0 ==> {
            let b = s.viewed()->Board_0;
            let n = s.after_move_cursor(dx, dy);
            &&& n.cursor.0 < b.columns.len()
            &&& n.cursor.1 < row_bound(b.columns[n.cursor.0 as int].tasks.len())
        },
        s.takes_commands() && s.viewed() is Todo ==> {
            let items = s.viewed()->Todo_0;
            let n = s.after_move_cursor(dx, dy);
            &&& n.cursor.0 == 0
            &&& n.cursor.1 < row_bound(items.len())
        },
{
}

/// `v` clamped to `[0, hi]`.
fn clamp_index(v: i128, hi: usize) -> (r: usize)
    ensures
        r == clamp(v as int, hi as int),
{
    if v < 0 {
        0
    } else if v > hi as i128 {
        hi
    } else {
        v as usize
    }
}

impl App {
    /// The engine at the root of `loaded`, or of the default board when
    /// nothing could be loaded.
    pub fn new(loaded: Option<Board>) -> (r: App)
        ensures
            r@.root == (match loaded {
                Some(b) => b@,
                None => default_board_view(),
            }),
            r@.path == Seq::<Step>::empty(),
            r@.cursor == (0usize, 0usize),
            r@.input_mode == InputMode::Normal,
            r@.input_buffer == Seq::<char>::empty(),
            !r@.should_quit,
            !r@.show_help,
            !r@.dirty,
    {
        let root = match loaded {
            Some(b) => b,
            None => Board::default(),
        };
        App {
            root,
            path: Vec::new(),
            cursor: (0, 0),
            input_mode: InputMode::Normal,
            input_buffer: String::new(),
            should_quit: false,
            show_help: false,
            dirty: false,
        }
    }

    /// Records that the tree has been written out.
    pub fn mark_saved(&mut self)
        ensures
            final(self)@ == (AppView { dirty: false, ..old(self)@ }),
    {
        self.dirty = false;
    }

    /// The content in view, as the view resolver finds it.
    pub fn get_active_content(&self) -> (r: ActiveContentRef)
        ensures
            r.viewed() == self@.viewed(),
    {
        locate_view(&self.root, self.path.as_slice()).0
    }

    /// "Main Board", then the title of each task along the current path.
    pub fn get_breadcrumbs(&self) -> (r: Vec<String>)
        ensures
            r@.map_values(|s: String| s@) == seq!["Main Board"@] + crumbs(self@.root, self@.path),
    {
        let mut out: Vec<String> = Vec::new();
        out.push("Main Board".to_owned());
        collect_titles(&self.root, self.path.as_slice(), &mut out);
        out
    }

    /// Moves the cursor by `dx` columns or `dy` rows within what is in view,
    /// clamped to its bounds; a horizontal move clamps the row to the new
    /// column.
    pub fn move_cursor(&mut self, dx: i32, dy: i32)
        ensures
            final(self)@ == old(self)@.after_move_cursor(dx as int, dy as int),
    {
        if self.input_mode != InputMode::Normal || self.show_help {
            return;
        }
        let (view, _) = locate_view(&self.root, self.path.as_slice());
        match view {
            ActiveContentRef::Board(b) => {
                let n = b.columns.len();
                if n == 0 {
                    return;
                }
                let c = clamp_index(self.cursor.0 as i128 + dx as i128, n - 1);
                let len = b.columns[c].tasks.len();
                let max_r: usize = if len > 0 { len - 1 } else { 0 };
                let r = if dx == 0 {
                    clamp_index(self.cursor.1 as i128 + dy as i128, max_r)
                } else {
                    clamp_index(self.cursor.1 as i128, max_r)
                };
                assert(b@.columns[c as int].tasks.len() == len);
                self.cursor = (c, r);
            },
            ActiveContentRef::Todo(items) => {
                let len = items.len();
                let max_r: usize = if len > 0 { len - 1 } else { 0 };
                self.cursor = (0, clamp_index(self.cursor.1 as i128 + dy as i128, max_r));
            },
            _ => {},
        }
    }


    /// Appends a task titled `title`, with no content, to the column under the cursor
    /// of the board in view.
    pub fn add_task(&mut self, title: &str)
        ensures
            exists|id: u128| final(self)@ == old(self)@.after_add_task(title@, id),
    {
        let (view, d) = locate_view(&self.root, self.path.as_slice());
        let c = self.cursor.0;
        let fits = match view {
            ActiveContentRef::Board(b) => c < b.columns.len(),
            _ => false,
        };
        if !fits {
            assert(self@ == old(self)@.after_add_task(title@, 0));
            return;
        }
        proof {
            lemma_view_path(self.root@, self.path@);
        }
        let target = slice_subrange(self.path.as_slice(), 0, d);
        let task = Task::new(title, "");
        let ghost id = task.id;
        proof {
            reveal_strlit("");
            assert(""@ =~= Seq::<char>::empty());
        }
        assert(crate::model::task_view(task) == (TaskView {
            id,
            title: title@,
            description: Seq::empty(),
            content: None,
        }));
        match get_board_recursive(&mut self.root, target) {
            Ok(b) => b.push_task(c, task),
            Err(_) => {},
        }
        self.dirty = true;
        assert(self@ == old(self)@.after_add_task(title@, id));
    }

    /// Appends an empty column titled `title` to the board in view.
    pub fn add_column(&mut self, title: &str)
        ensures
            final(self)@ == old(self)@.after_add_column(title@),
    {
        let (view, d) = locate_view(&self.root, self.path.as_slice());
        if !matches!(view, ActiveContentRef::Board(_)) {
            return;
        }
        proof {
            lemma_view_path(self.root@, self.path@);
        }
        let target = slice_subrange(self.path.as_slice(), 0, d);
        let column = Column::new(title);
        match get_board_recursive(&mut self.root, target) {
            Ok(b) => b.push_column(column),
            Err(_) => {},
        }
        self.dirty = true;
    }

    /// Appends a to-do entry that is not done to the list in view, then moves
    /// the entries that are not done before those that are.
    pub fn add_todo_item(&mut self, text: String)
        ensures
            final(self)@ == old(self)@.after_add_todo_item(text@),
    {
        let (view, d) = locate_view(&self.root, self.path.as_slice());
        if !matches!(view, ActiveContentRef::Todo(_)) {
            return;
        }
        proof {
            lemma_view_path(self.root@, self.path@);
        }
        let target = slice_subrange(self.path.as_slice(), 0, d);
        match get_task_mut_recursive(&mut self.root, target) {
            Ok(t) => t.push_todo(text),
            Err(_) => {},
        }
        self.dirty = true;
    }

    /// Takes entry `index` out of the list in view.
    pub fn remove_todo_item(&mut self, index: usize)
        ensures
            final(self)@ == old(self)@.after_remove_todo_item(index as int),
    {
        let (view, d) = locate_view(&self.root, self.path.as_slice());
        let fits = match view {
            ActiveContentRef::Todo(items) => index < items.len(),
            _ => false,
        };
        if !fits {
            return;
        }
        proof {
            lemma_view_path(self.root@, self.path@);
        }
        let target = slice_subrange(self.path.as_slice(), 0, d);
        match get_task_mut_recursive(&mut self.root, target) {
            Ok(t) => t.remove_todo(index),
            Err(_) => {},
        }
        self.dirty = true;
    }

    /// Flips entry `index` of the list in view between done and not done,
    /// when there is one, then moves the entries that are not done before
    /// those that are.
    pub fn toggle_todo_item(&mut self, index: usize)
        ensures
            final(self)@ == old(self)@.after_toggle_todo_item(index as int),
    {
        let (view, d) = locate_view(&self.root, self.path.as_slice());
        let fits = match view {
            ActiveContentRef::Todo(items) => index < items.len(),
            _ => false,
        };
        if !fits {
            return;
        }
        proof {
            lemma_view_path(self.root@, self.path@);
        }
        let target = slice_subrange(self.path.as_slice(), 0, d);
        match get_task_mut_recursive(&mut self.root, target) {
            Ok(t) => t.toggle_todo(index),
            Err(_) => {},
        }
        self.dirty = true;
    }

    /// Replaces the text in view with `text`.
    pub fn set_text_content(&mut self, text: String)
        ensures
            final(self)@ == old(self)@.after_set_text_content(text@),
    {
        let (view, d) = locate_view(&self.root, self.path.as_slice());
        if !matches!(view, ActiveContentRef::Text(_)) {
            return;
        }
        proof {
            lemma_view_path(self.root@, self.path@);
        }
        let target = slice_subrange(self.path.as_slice(), 0, d);
        match get_task_mut_recursive(&mut self.root, target) {
            Ok(t) => t.set_text(text),
            Err(_) => {},
        }
        self.dirty = true;
    }


    /// Deletes the selected task, with all it holds, from the board in view,
    /// or the selected entry from the list in view; the cursor steps back one
    /// row when the last row went.
    pub fn delete_item(&mut self)
        ensures
            final(self)@ == old(self)@.after_delete_item(),
    {
        let (view, d) = locate_view(&self.root, self.path.as_slice());
        let (c, r) = self.cursor;
        match view {
            ActiveContentRef::Board(b) => {
                if c >= b.columns.len() || r >= b.columns[c].tasks.len() {
                    return;
                }
                let len = b.columns[c].tasks.len();
                proof {
                    lemma_view_path(self.root@, self.path@);
                }
                let target = slice_subrange(self.path.as_slice(), 0, d);
                match get_board_recursive(&mut self.root, target) {
                    Ok(b) => {
                        b.remove_task(c, r);
                    },
                    Err(_) => {},
                }
                self.dirty = true;
                if r + 1 >= len && r > 0 {
                    self.cursor.1 = r - 1;
                }
            },
            ActiveContentRef::Todo(items) => {
                let len = items.len();
                if r >= len {
                    return;
                }
                self.remove_todo_item(r);
                if r + 1 >= len && r > 0 {
                    self.cursor.1 = r - 1;
                }
            },
            _ => {},
        }
    }

    /// Flips the selected entry of the list in view.
    pub fn toggle_todo(&mut self)
        ensures
            final(self)@ == old(self)@.after_toggle_todo(),
    {
        let (view, _) = locate_view(&self.root, self.path.as_slice());
        let selected = match view {
            ActiveContentRef::Todo(items) => self.cursor.1 < items.len(),
            _ => false,
        };
        if selected {
            self.toggle_todo_item(self.cursor.1);
        }
    }

    /// Moves the selected task to the end of the column `dir` steps away and
    /// follows it with the cursor; nothing happens when no column is there.
    pub fn move_task_horizontal(&mut self, dir: i32)
        ensures
            final(self)@ == old(self)@.after_move_task_horizontal(dir as int),
    {
        if self.input_mode != InputMode::Normal {
            return;
        }
        let (view, d) = locate_view(&self.root, self.path.as_slice());
        let (c, r) = self.cursor;
        let nc = c as i128 + dir as i128;
        let fits = match view {
            ActiveContentRef::Board(b) => c < b.columns.len() && 0 <= nc && nc < b.columns.len()
                as i128 && r < b.columns[c].tasks.len(),
            _ => false,
        };
        if !fits {
            return;
        }
        let nc = nc as usize;
        proof {
            lemma_view_path(self.root@, self.path@);
        }
        let target = slice_subrange(self.path.as_slice(), 0, d);
        let mut new_len: usize = 1;
        match get_board_recursive(&mut self.root, target) {
            Ok(b) => {
                b.move_task(c, r, nc);
                assert(b.columns@.len() == b@.columns.len());
                assert(b.columns@[nc as int].tasks@.len() == b@.columns[nc as int].tasks.len());
                new_len = b.columns[nc].tasks.len();
            },
            Err(_) => {},
        }
        self.dirty = true;
        self.cursor = (nc, new_len - 1);
    }

    /// Descends into the selected task of the board in view: a task with no
    /// content asks for a kind, a text opens for editing, and any other
    /// content becomes the view, with the cursor at its start.
    pub fn handle_drill_down(&mut self)
        ensures
            final(self)@ == old(self)@.after_drill_down(),
    {
        if self.input_mode != InputMode::Normal {
            return;
        }
        let (view, d) = locate_view(&self.root, self.path.as_slice());
        match view {
            ActiveContentRef::Board(b) => {
                let (c, r) = self.cursor;
                if c >= b.columns.len() || r >= b.columns[c].tasks.len() {
                    return;
                }
                assert(b@.columns[c as int].tasks[r as int] == crate::model::task_view(
                    b.columns@[c as int].tasks@[r as int],
                ));
                match &b.columns[c].tasks[r].content {
                    None => {
                        self.input_mode = InputMode::SelectType;
                    },
                    Some(content) => {
                        let text = match content {
                            TaskContent::Text(txt) => Some(txt.clone()),
                            _ => None,
                        };
                        proof {
                            lemma_view_path(self.root@, self.path@);
                        }
                        self.path.truncate(d);
                        self.path.push((c, r));
                        self.cursor = (0, 0);
                        if let Some(txt) = text {
                            self.input_mode = InputMode::Editing;
                            self.input_buffer = txt;
                        }
                    },
                }
            },
            ActiveContentRef::Text(txt) => {
                let txt = txt.clone();
                self.input_mode = InputMode::Editing;
                self.input_buffer = txt;
            },
            _ => {},
        }
    }

    /// Dismisses the help overlay, or the choice of a kind, or else climbs
    /// one level and puts the cursor back where it was on the way down.
    pub fn go_back(&mut self)
        ensures
            final(self)@ == old(self)@.after_go_back(),
    {
        if self.show_help {
            self.show_help = false;
            return;
        }
        if self.input_mode == InputMode::SelectType {
            self.input_mode = InputMode::Normal;
            return;
        }
        if let Some(step) = self.path.pop() {
            self.cursor = step;
            self.input_mode = InputMode::Normal;
            self.input_buffer = String::new();
        }
    }

    /// Binds `content` to the selected task, which has none yet, then
    /// descends into it.
    pub fn initialize_content(&mut self, content: TaskContent)
        ensures
            final(self)@ == old(self)@.after_initialize_content(crate::model::content_view(content)),
    {
        if self.input_mode != InputMode::SelectType {
            return;
        }
        let (view, d) = locate_view(&self.root, self.path.as_slice());
        let (c, r) = self.cursor;
        let fits = match view {
            ActiveContentRef::Board(b) => c < b.columns.len() && r < b.columns[c].tasks.len()
                && b.columns[c].tasks[r].content.is_none(),
            _ => false,
        };
        if fits {
            proof {
                lemma_view_path(self.root@, self.path@);
            }
            let target = slice_subrange(self.path.as_slice(), 0, d);
            match get_board_recursive(&mut self.root, target) {
                Ok(b) => b.set_task_content(c, r, content),
                Err(_) => {},
            }
            self.dirty = true;
        }
        self.input_mode = InputMode::Normal;
        self.handle_drill_down();
    }


    /// Commits the input buffer as the view in front of it asks: the title of
    /// a new column, the title of a new task, a new to-do entry (each trimmed,
    /// and only when something is left) or the whole new text; then closes
    /// the buffer.
    pub fn submit_input(&mut self)
        ensures
            exists|id: u128| final(self)@ == old(self)@.after_submit(id),
    {
        if self.input_mode == InputMode::EditingColumn {
            let title = trimmed(&self.input_buffer);
            if !title.as_str().is_empty() {
                self.add_column(title.as_str());
            }
            self.input_buffer = String::new();
            self.input_mode = InputMode::Normal;
            assert(self@ == old(self)@.after_submit(0));
            return;
        }
        if self.input_mode != InputMode::Editing {
            assert(self@ == old(self)@.after_submit(0));
            return;
        }
        let (view, _) = locate_view(&self.root, self.path.as_slice());
        let on_board = matches!(view, ActiveContentRef::Board(_));
        let on_todo = matches!(view, ActiveContentRef::Todo(_));
        let on_text = matches!(view, ActiveContentRef::Text(_));
        let ghost mut id: u128 = 0;
        if on_board {
            let line = trimmed(&self.input_buffer);
            if !line.as_str().is_empty() {
                self.add_task(line.as_str());
                proof {
                    id = choose|id: u128| self@ == old(self)@.after_add_task(line@, id);
                }
            }
        } else if on_todo {
            let line = trimmed(&self.input_buffer);
            if !line.as_str().is_empty() {
                self.add_todo_item(line);
            }
        } else if on_text {
            let text = self.input_buffer.clone();
            self.set_text_content(text);
        }
        self.input_buffer = String::new();
        self.input_mode = InputMode::Normal;
        assert(self@ == old(self)@.after_submit(id));
    }

    /// Carries out one command and tells whether the tree now differs from
    /// what was last written out, so that the caller writes it.
    pub fn update(&mut self, action: Action) -> (r: bool)
        ensures
            exists|id: u128| final(self)@ == old(self)@.after(action, id),
            r == final(self)@.dirty,
    {
        match action {
            Action::Quit => self.should_quit = true,
            Action::ToggleHelp => self.show_help = !self.show_help,
            Action::MoveUp => self.move_cursor(0, -1),
            Action::MoveDown => self.move_cursor(0, 1),
            Action::MoveLeft => self.move_cursor(-1, 0),
            Action::MoveRight => self.move_cursor(1, 0),
            Action::MoveTaskLeft => self.move_task_horizontal(-1),
            Action::MoveTaskRight => self.move_task_horizontal(1),
            Action::DrillDown => self.handle_drill_down(),
            Action::GoBack => self.go_back(),
            Action::EnterEditMode => {
                if !self.show_help {
                    let (view, _) = locate_view(&self.root, self.path.as_slice());
                    if matches!(view, ActiveContentRef::Board(_) | ActiveContentRef::Todo(_)) {
                        self.input_mode = InputMode::Editing;
                    }
                }
            },
            Action::EnterAddColumnMode => {
                if !self.show_help {
                    let (view, _) = locate_view(&self.root, self.path.as_slice());
                    if matches!(view, ActiveContentRef::Board(_)) {
                        self.input_mode = InputMode::EditingColumn;
                    }
                }
            },
            Action::ExitEditMode => {
                self.input_mode = InputMode::Normal;
                self.input_buffer = String::new();
            },
            Action::InputChar(c) => push_char(&mut self.input_buffer, c),
            Action::InputBackspace => {
                pop_char(&mut self.input_buffer);
            },
            Action::SubmitTask => {
                self.submit_input();
                let ghost id = choose|id: u128| self@ == old(self)@.after_submit(id);
                assert(self@ == old(self)@.after(action, id));
                return self.dirty;
            },
            Action::DeleteTask => self.delete_item(),
            Action::ToggleTodo => self.toggle_todo(),
            Action::SelectBoard => {
                let content = TaskContent::Board(new_board());
                assert(crate::model::content_view(content) == ContentView::Board(new_board_view()));
                self.initialize_content(content);
            },
            Action::SelectTodo => {
                let content = TaskContent::Todo(Vec::new());
                assert(crate::model::content_view(content) == ContentView::Todo(Seq::empty())) by {
                    assert(crate::model::todo_view(content->Todo_0@) =~= Seq::<TodoItemView>::empty());
                }
                self.initialize_content(content);
            },
            Action::SelectText => self.initialize_content(TaskContent::Text(String::new())),
        }
        assert(self@ == old(self)@.after(action, 0));
        self.dirty
    }
}

/// Appends to `out` the title of each task that the walk along `path` reaches.
fn collect_titles(board: &Board, path: &[Step], out: &mut Vec<String>)
    ensures
        final(out)@.map_values(|s: String| s@) == old(out)@.map_values(|s: String| s@) + crumbs(
            board@,
            path@,
        ),
    decreases path@.len(),
{
    let ghost start = out@.map_values(|s: String| s@);
    if path.len() == 0 {
        assert(start + Seq::<Seq<char>>::empty() =~= start);
        return;
    }
    let (c, t) = path[0];
    if c >= board.columns.len() || t >= board.columns[c].tasks.len() {
        assert(start + Seq::<Seq<char>>::empty() =~= start);
        return;
    }
    let rest = vstd::slice::slice_subrange(path, 1, path.len());
    assert(rest@ == path@.drop_first());
    let task = &board.columns[c].tasks[t];
    assert(board@.columns[c as int].tasks[t as int] == crate::model::task_view(*task));
    out.push(task.title.clone());
    assert(out@.map_values(|s: String| s@) =~= start + seq![task.title@]);
    match &task.content {
        Some(TaskContent::Board(nb)) => {
            collect_titles(nb, rest, out);
            assert(start + seq![task.title@] + crumbs(nb@, rest@) =~= start + (seq![task.title@]
                + crumbs(nb@, rest@)));
        },
        _ => {
            assert(start + seq![task.title@] =~= start + (seq![task.title@] + Seq::<
                Seq<char>,
            >::empty()));
        },
    }
}

} // verus!
