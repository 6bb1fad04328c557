use vstd::prelude::*;
use vstd::slice::slice_subrange;

use crate::model::{Board, BoardView, ContentView, Task, TaskContent, TaskView, board_view, task_view};

verus! {

/// One step of a path: a column index, then a task index within that column.
pub type Step = (usize, usize);

/// Why a path does not resolve against a board.
#[derive(Debug, PartialEq, Eq, Clone, Copy)]
pub enum PathError {
    /// A column or task index of some step is out of range.
    IndexOutOfRange,
    /// A step before the last one names a task that holds no nested board.
    NotABoard,
    /// A task was asked for, but the path is empty and names the root board.
    EmptyPath,
}

// ---------------------------------------------------------------------------
// Resolution on the mathematical model.

impl TaskView {
    /// The board the task holds, if it holds one.
    pub open spec fn nested(self) -> Option<BoardView> {
        match self.content {
            Some(ContentView::Board(b)) => Some(b),
            _ => None,
        }
    }

    /// The task with its nested board replaced by `b`.
    pub open spec fn with_nested(self, b: BoardView) -> TaskView {
        TaskView { content: Some(ContentView::Board(b)), ..self }
    }
}

impl BoardView {
    /// The task that a single step names, if both indices are in range.
    pub open spec fn task_at_step(self, s: Step) -> Option<TaskView> {
        if s.0 < self.columns.len() && s.1 < self.columns[s.0 as int].tasks.len() {
            Some(self.columns[s.0 as int].tasks[s.1 as int])
        } else {
            None
        }
    }

    /// This board with the task that `s` names replaced by `t`.
    pub open spec fn with_task(self, s: Step, t: TaskView) -> BoardView {
        let col = self.columns[s.0 as int];
        BoardView {
            columns: self.columns.update(
                s.0 as int,
                crate::model::ColumnView { tasks: col.tasks.update(s.1 as int, t), ..col },
            ),
            ..self
        }
    }

    /// The board reached by descending, step by step, into the nested board
    /// of each task that `path` names. The empty path reaches this board.
    pub open spec fn resolve_board(self, path: Seq<Step>) -> Result<BoardView, PathError>
        decreases path.len(),
    {
        if path.len() == 0 {
            Ok(self)
        } else {
            match self.task_at_step(path[0]) {
                None => Err(PathError::IndexOutOfRange),
                Some(t) => match t.nested() {
                    Some(nb) => nb.resolve_board(path.drop_first()),
                    None => Err(PathError::NotABoard),
                },
            }
        }
    }

    /// The task that the last step of `path` names, reached through the
    /// nested boards of the tasks that the steps before it name.
    pub open spec fn resolve_task(self, path: Seq<Step>) -> Result<TaskView, PathError>
        decreases path.len(),
    {
        if path.len() == 0 {
            Err(PathError::EmptyPath)
        } else {
            match self.task_at_step(path[0]) {
                None => Err(PathError::IndexOutOfRange),
                Some(t) => if path.len() == 1 {
                    Ok(t)
                } else {
                    match t.nested() {
                        Some(nb) => nb.resolve_task(path.drop_first()),
                        None => Err(PathError::NotABoard),
                    }
                },
            }
        }
    }

    /// This tree with the board that `path` resolves to replaced by `nb`.
    pub open spec fn with_board_at(self, path: Seq<Step>, nb: BoardView) -> BoardView
        decreases path.len(),
    {
        if path.len() == 0 {
            nb
        } else {
            let t = self.task_at_step(path[0])->0;
            self.with_task(path[0], t.with_nested(t.nested()->0.with_board_at(path.drop_first(), nb)))
        }
    }

    /// This tree with the task that `path` resolves to replaced by `nt`.
    pub open spec fn with_task_at(self, path: Seq<Step>, nt: TaskView) -> BoardView
        decreases path.len(),
    {
        if path.len() <= 1 {
            self.with_task(path[0], nt)
        } else {
            let t = self.task_at_step(path[0])->0;
            self.with_task(path[0], t.with_nested(t.nested()->0.with_task_at(path.drop_first(), nt)))
        }
    }
}

/// A path that reaches a board, extended by a step that names one of its
/// tasks, resolves to that task.
pub proof fn lemma_resolve_extended(b: BoardView, path: Seq<Step>, s: Step)
    requires
        b.resolve_board(path) is Ok,
        b.resolve_board(path)->Ok_0.task_at_step(s) is Some,
    ensures
        b.resolve_task(path.push(s)) == Ok::<TaskView, PathError>(
            b.resolve_board(path)->Ok_0.task_at_step(s)->0,
        ),
    decreases path.len(),
{
    if path.len() > 0 {
        let nb = b.task_at_step(path[0])->0.nested()->0;
        lemma_resolve_extended(nb, path.drop_first(), s);
        assert(path.push(s).drop_first() =~= path.drop_first().push(s));
    }
}

/// Replacing the board that a path reaches and resolving the path again
/// gives the replacement.
pub proof fn lemma_resolve_replaced(b: BoardView, path: Seq<Step>, nb: BoardView)
    requires
        b.resolve_board(path) is Ok,
    ensures
        b.with_board_at(path, nb).resolve_board(path) == Ok::<BoardView, PathError>(nb),
    decreases path.len(),
{
    if path.len() > 0 {
        let t = b.task_at_step(path[0])->0;
        lemma_resolve_replaced(t.nested()->0, path.drop_first(), nb);
    }
}

// ---------------------------------------------------------------------------
// The same notions on the values themselves, which is what a borrow that
// descends the tree can speak of.

/// The task that a single step names in `b`, if its indices are in range.
pub open spec fn task_at_step(b: Board, s: Step) -> Option<Task> {
    if s.0 < b.columns@.len() && s.1 < b.columns@[s.0 as int].tasks@.len() {
        Some(b.columns@[s.0 as int].tasks@[s.1 as int])
    } else {
        None
    }
}

/// The board that a task holds as its content, if it holds one.
pub open spec fn nested_board(t: Task) -> Option<Board> {
    match t.content {
        Some(TaskContent::Board(nb)) => Some(nb),
        _ => None,
    }
}

/// `n` equals `o` everywhere but at the task that step `s` names, which both
/// boards hold.
pub open spec fn same_except_task(o: Board, n: Board, s: Step) -> bool {
    let c = s.0 as int;
    let t = s.1 as int;
    &&& task_at_step(o, s) is Some
    &&& n.title == o.title
    &&& n.columns@.len() == o.columns@.len()
    &&& forall|i: int| 0 <= i < o.columns@.len() && i != c ==> n.columns@[i] == o.columns@[i]
    &&& n.columns@[c].title == o.columns@[c].title
    &&& n.columns@[c].tasks@.len() == o.columns@[c].tasks@.len()
    &&& forall|j: int|
        0 <= j < o.columns@[c].tasks@.len() && j != t ==> n.columns@[c].tasks@[j]
            == o.columns@[c].tasks@[j]
}

/// `nt` keeps the identifier and the texts of `ot`.
pub open spec fn same_header(ot: Task, nt: Task) -> bool {
    &&& nt.id == ot.id
    &&& nt.title == ot.title
    &&& nt.description == ot.description
}

/// `n` is `o` with the board that `path` resolves to in `o` replaced by `sub`.
pub open spec fn board_replaced(o: Board, n: Board, path: Seq<Step>, sub: Board) -> bool
    decreases path.len(),
{
    if path.len() == 0 {
        n == sub
    } else {
        let ot = o.columns@[path[0].0 as int].tasks@[path[0].1 as int];
        let nt = n.columns@[path[0].0 as int].tasks@[path[0].1 as int];
        &&& same_except_task(o, n, path[0])
        &&& same_header(ot, nt)
        &&& nested_board(ot) is Some
        &&& nested_board(nt) is Some
        &&& board_replaced(nested_board(ot)->0, nested_board(nt)->0, path.drop_first(), sub)
    }
}

/// `n` is `o` with the task that `path` resolves to in `o` replaced by `sub`.
pub open spec fn task_replaced(o: Board, n: Board, path: Seq<Step>, sub: Task) -> bool
    decreases path.len(),
{
    if path.len() == 0 {
        false
    } else {
        let ot = o.columns@[path[0].0 as int].tasks@[path[0].1 as int];
        let nt = n.columns@[path[0].0 as int].tasks@[path[0].1 as int];
        &&& same_except_task(o, n, path[0])
        &&& if path.len() == 1 {
            nt == sub
        } else {
            &&& same_header(ot, nt)
            &&& nested_board(ot) is Some
            &&& nested_board(nt) is Some
            &&& task_replaced(nested_board(ot)->0, nested_board(nt)->0, path.drop_first(), sub)
        }
    }
}

// ---------------------------------------------------------------------------
// From the values to the model.

proof fn lemma_view_with_task(o: Board, n: Board, s: Step)
    requires
        same_except_task(o, n, s),
    ensures
        n@ == o@.with_task(s, task_view(n.columns@[s.0 as int].tasks@[s.1 as int])),
{
    let c = s.0 as int;
    let oc = o.columns@[c];
    let nc = n.columns@[c];
    let target = o@.with_task(s, task_view(nc.tasks@[s.1 as int]));
    assert(crate::model::column_view(nc).tasks =~= target.columns[c].tasks);
    assert(n@.columns =~= target.columns);
}

/// What a board-level replacement means on the model.
pub broadcast proof fn lemma_board_replaced_view(o: Board, n: Board, path: Seq<Step>, sub: Board)
    requires
        #[trigger] board_replaced(o, n, path, sub),
    ensures
        n@ == o@.with_board_at(path, sub@),
        o@.resolve_board(path) is Ok,
    decreases path.len(),
{
    if path.len() > 0 {
        let s = path[0];
        let ot = o.columns@[s.0 as int].tasks@[s.1 as int];
        let nt = n.columns@[s.0 as int].tasks@[s.1 as int];
        lemma_board_replaced_view(nested_board(ot)->0, nested_board(nt)->0, path.drop_first(), sub);
        lemma_view_with_task(o, n, s);
        assert(task_view(nt) == task_view(ot).with_nested(board_view(nested_board(nt)->0)));
    }
}

/// What a task-level replacement means on the model.
pub broadcast proof fn lemma_task_replaced_view(o: Board, n: Board, path: Seq<Step>, sub: Task)
    requires
        #[trigger] task_replaced(o, n, path, sub),
    ensures
        n@ == o@.with_task_at(path, task_view(sub)),
        o@.resolve_task(path) is Ok,
    decreases path.len(),
{
    let s = path[0];
    let ot = o.columns@[s.0 as int].tasks@[s.1 as int];
    let nt = n.columns@[s.0 as int].tasks@[s.1 as int];
    lemma_view_with_task(o, n, s);
    if path.len() > 1 {
        lemma_task_replaced_view(nested_board(ot)->0, nested_board(nt)->0, path.drop_first(), sub);
        assert(task_view(nt) == task_view(ot).with_nested(board_view(nested_board(nt)->0)));
    }
}

// ---------------------------------------------------------------------------
// Executable resolution.

/// Resolves `path` against `board` and lends out the board it reaches; the
/// empty path reaches `board` itself. A failure leaves the tree untouched.
pub fn get_board_ref<'a>(board: &'a Board, path: &[Step]) -> (r: Result<&'a Board, PathError>)
    ensures
        r is Ok ==> board@.resolve_board(path@) == Ok::<BoardView, PathError>(r->Ok_0@),
        r is Err ==> board@.resolve_board(path@) == Err::<BoardView, PathError>(r->Err_0),
    decreases path@.len(),
{
    if path.len() == 0 {
        return Ok(board);
    }
    let (c, t) = path[0];
    if c >= board.columns.len() || t >= board.columns[c].tasks.len() {
        return Err(PathError::IndexOutOfRange);
    }
    let rest = slice_subrange(path, 1, path.len());
    assert(rest@ == path@.drop_first());
    match &board.columns[c].tasks[t].content {
        Some(TaskContent::Board(nb)) => get_board_ref(nb, rest),
        _ => Err(PathError::NotABoard),
    }
}

/// Lends out the board that `path` resolves to, which it must.
fn board_at_mut<'a>(board: &'a mut Board, path: &[Step]) -> (r: &'a mut Board)
    requires
        old(board)@.resolve_board(path@) is Ok,
    ensures
        (*r)@ == old(board)@.resolve_board(path@)->Ok_0,
        board_replaced(*old(board), *final(board), path@, *final(r)),
    decreases path@.len(),
{
    if path.len() == 0 {
        return board;
    }
    let (c, t) = path[0];
    let rest = slice_subrange(path, 1, path.len());
    assert(rest@ == path@.drop_first());
    assert(board@.columns[c as int].tasks[t as int] == task_view(board.columns@[c as int].tasks@[t as int]));
    let task = &mut board.columns[c].tasks[t];
    match &mut task.content {
        Some(TaskContent::Board(nb)) => board_at_mut(nb, rest),
        _ => unreached(),
    }
}

/// Resolves `path` against `board` and lends out, for writing, the board it
/// reaches; the empty path reaches `board` itself. Whatever is written through
/// the result lands at that place of the tree and nowhere else. A failure
/// leaves the tree untouched.
pub fn get_board_recursive<'a>(board: &'a mut Board, path: &[Step]) -> (r: Result<
    &'a mut Board,
    PathError,
>)
    ensures
        r is Ok ==> {
            &&& old(board)@.resolve_board(path@) == Ok::<BoardView, PathError>((*r->Ok_0)@)
            &&& board_replaced(*old(board), *final(board), path@, *final(r->Ok_0))
        },
        r is Err ==> {
            &&& old(board)@.resolve_board(path@) == Err::<BoardView, PathError>(r->Err_0)
            &&& *final(board) == *old(board)
        },
{
    match get_board_ref(board, path) {
        Err(e) => Err(e),
        Ok(_) => Ok(board_at_mut(board, path)),
    }
}

/// Resolves `path` against `board` and lends out the task it names. The
/// empty path names no task.
pub fn get_task_ref<'a>(board: &'a Board, path: &[Step]) -> (r: Result<&'a Task, PathError>)
    ensures
        r is Ok ==> board@.resolve_task(path@) == Ok::<TaskView, PathError>(task_view(*r->Ok_0)),
        r is Err ==> board@.resolve_task(path@) == Err::<TaskView, PathError>(r->Err_0),
    decreases path@.len(),
{
    if path.len() == 0 {
        return Err(PathError::EmptyPath);
    }
    let (c, t) = path[0];
    if c >= board.columns.len() || t >= board.columns[c].tasks.len() {
        return Err(PathError::IndexOutOfRange);
    }
    let task = &board.columns[c].tasks[t];
    if path.len() == 1 {
        return Ok(task);
    }
    let rest = slice_subrange(path, 1, path.len());
    assert(rest@ == path@.drop_first());
    match &task.content {
        Some(TaskContent::Board(nb)) => get_task_ref(nb, rest),
        _ => Err(PathError::NotABoard),
    }
}

/// Lends out the task that `path` resolves to, which it must.
fn task_at_mut<'a>(board: &'a mut Board, path: &[Step]) -> (r: &'a mut Task)
    requires
        old(board)@.resolve_task(path@) is Ok,
    ensures
        task_view(*r) == old(board)@.resolve_task(path@)->Ok_0,
        task_replaced(*old(board), *final(board), path@, *final(r)),
    decreases path@.len(),
{
    let (c, t) = path[0];
    assert(board@.columns[c as int].tasks[t as int] == task_view(board.columns@[c as int].tasks@[t as int]));
    if path.len() == 1 {
        return &mut board.columns[c].tasks[t];
    }
    let rest = slice_subrange(path, 1, path.len());
    assert(rest@ == path@.drop_first());
    let task = &mut board.columns[c].tasks[t];
    match &mut task.content {
        Some(TaskContent::Board(nb)) => task_at_mut(nb, rest),
        _ => unreached(),
    }
}

/// Resolves `path` against `board` and lends out, for writing, the task it
/// names. Whatever is written through the result lands at that place of the
/// tree and nowhere else. A failure leaves the tree untouched.
pub fn get_task_mut_recursive<'a>(board: &'a mut Board, path: &[Step]) -> (r: Result<
    &'a mut Task,
    PathError,
>)
    ensures
        r is Ok ==> {
            &&& old(board)@.resolve_task(path@) == Ok::<TaskView, PathError>(task_view(*r->Ok_0))
            &&& task_replaced(*old(board), *final(board), path@, *final(r->Ok_0))
        },
        r is Err ==> {
            &&& old(board)@.resolve_task(path@) == Err::<TaskView, PathError>(r->Err_0)
            &&& *final(board) == *old(board)
        },
{
    match get_task_ref(board, path) {
        Err(e) => Err(e),
        Ok(_) => Ok(task_at_mut(board, path)),
    }
}

} // verus!
