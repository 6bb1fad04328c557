use vstd::prelude::*;

verus! {

/// A board: a title and an ordered sequence of columns.
#[derive(Debug, PartialEq, Eq)]
pub struct Board {
    pub title: String,
    pub columns: Vec<Column>,
}

/// A named, ordered list of tasks.
#[derive(Debug, PartialEq, Eq)]
pub struct Column {
    pub title: String,
    pub tasks: Vec<Task>,
}

/// A titled unit of work; `content` stays `None` until a kind is chosen.
#[derive(Debug, PartialEq, Eq)]
pub struct Task {
    pub id: u128,
    pub title: String,
    pub description: String,
    pub content: Option<TaskContent>,
}

/// What a task holds once its kind has been chosen.
#[derive(Debug, PartialEq, Eq)]
pub enum TaskContent {
    Board(Board),
    Todo(Vec<TodoItem>),
    Text(String),
}

/// One entry of a to-do list.
#[derive(Debug, PartialEq, Eq)]
pub struct TodoItem {
    pub text: String,
    pub done: bool,
}

/// The mathematical value of a board.
pub ghost struct BoardView {
    pub title: Seq<char>,
    pub columns: Seq<ColumnView>,
}

/// The mathematical value of a column.
pub ghost struct ColumnView {
    pub title: Seq<char>,
    pub tasks: Seq<TaskView>,
}

/// The mathematical value of a task.
pub ghost struct TaskView {
    pub id: u128,
    pub title: Seq<char>,
    pub description: Seq<char>,
    pub content: Option<ContentView>,
}

/// The mathematical value of a task's content.
pub ghost enum ContentView {
    Board(BoardView),
    Todo(Seq<TodoItemView>),
    Text(Seq<char>),
}

/// The mathematical value of a to-do entry.
pub ghost struct TodoItemView {
    pub text: Seq<char>,
    pub done: bool,
}

/// The mathematical value of a board, its nested content included.
pub open spec fn board_view(b: Board) -> BoardView
    decreases b,
{
    BoardView {
        title: b.title@,
        columns: Seq::new(
            b.columns@.len(),
            |i: int|
                if 0 <= i < b.columns@.len() {
                    column_view(b.columns@[i])
                } else {
                    ColumnView { title: Seq::empty(), tasks: Seq::empty() }
                },
        ),
    }
}

/// The mathematical value of a column.
pub open spec fn column_view(c: Column) -> ColumnView
    decreases c,
{
    ColumnView {
        title: c.title@,
        tasks: Seq::new(
            c.tasks@.len(),
            |i: int|
                if 0 <= i < c.tasks@.len() {
                    task_view(c.tasks@[i])
                } else {
                    TaskView { id: 0, title: Seq::empty(), description: Seq::empty(), content: None }
                },
        ),
    }
}

/// The mathematical value of a task.
pub open spec fn task_view(t: Task) -> TaskView
    decreases t,
{
    TaskView {
        id: t.id,
        title: t.title@,
        description: t.description@,
        content: match t.content {
            None => None,
            Some(c) => Some(content_view(c)),
        },
    }
}

/// The mathematical value of a task's content.
pub open spec fn content_view(c: TaskContent) -> ContentView
    decreases c,
{
    match c {
        TaskContent::Board(b) => ContentView::Board(board_view(b)),
        TaskContent::Todo(items) => ContentView::Todo(todo_view(items@)),
        TaskContent::Text(s) => ContentView::Text(s@),
    }
}

/// The mathematical value of a sequence of to-do entries.
pub open spec fn todo_view(items: Seq<TodoItem>) -> Seq<TodoItemView> {
    items.map_values(|it: TodoItem| it@)
}

impl View for TodoItem {
    type V = TodoItemView;

    open spec fn view(&self) -> TodoItemView {
        TodoItemView { text: self.text@, done: self.done }
    }
}

impl View for Board {
    type V = BoardView;

    open spec fn view(&self) -> BoardView {
        board_view(*self)
    }
}

/// Relies on uuid::Uuid::new_v4, read out with Uuid::as_u128: a random
/// identifier whose version nibble is 4 and whose variant bits are `10`.
/// It panics only when the operating system supplies no random bytes.
#[verifier::external_body]
fn fresh_task_id() -> (r: u128)
    ensures
        (r >> 76u128) & 0xfu128 == 4,
        (r >> 62u128) & 0x3u128 == 2,
{
    uuid::Uuid::new_v4().as_u128()
}

/// The board that a fresh tree starts from.
pub open spec fn default_board_view() -> BoardView {
    BoardView {
        title: "Main Board"@,
        columns: seq![
            ColumnView { title: "To Do"@, tasks: Seq::empty() },
            ColumnView { title: "In Progress"@, tasks: Seq::empty() },
            ColumnView { title: "Done"@, tasks: Seq::empty() },
        ],
    }
}

impl Default for Board {
    /// The three-column board titled "Main Board" that a fresh tree starts from.
    fn default() -> (r: Board)
        ensures
            r@ == default_board_view(),
    {
        let mut columns: Vec<Column> = Vec::new();
        columns.push(Column::new("To Do"));
        columns.push(Column::new("In Progress"));
        columns.push(Column::new("Done"));
        let r = Board { title: "Main Board".to_owned(), columns };
        assert(r@.columns =~= default_board_view().columns);
        r
    }
}

impl Column {
    /// An empty column with the given title.
    pub fn new(title: &str) -> (r: Column)
        ensures
            column_view(r) == (ColumnView { title: title@, tasks: Seq::empty() }),
    {
        let r = Column { title: title.to_owned(), tasks: Vec::new() };
        assert(column_view(r).tasks =~= Seq::empty());
        r
    }
}

impl Task {
    /// A new task with a fresh identifier and no content.
    pub fn new(title: &str, description: &str) -> (r: Task)
        ensures
            task_view(r) == (TaskView {
                id: r.id,
                title: title@,
                description: description@,
                content: None,
            }),
    {
        Task {
            id: fresh_task_id(),
            title: title.to_owned(),
            description: description.to_owned(),
            content: None,
        }
    }
}

} // verus!
