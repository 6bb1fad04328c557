use vstd::prelude::*;
use vstd::slice::slice_subrange;

use crate::model::{Board, BoardView, ContentView, TaskContent, TaskView, TodoItem, TodoItemView, board_view, todo_view};
use crate::path::{PathError, Step};

verus! {

/// What is in view at the end of a path.
pub ghost enum Viewed {
    Board(BoardView),
    Todo(Seq<TodoItemView>),
    Text(Seq<char>),
    Empty,
}

impl BoardView {
    /// The content in view when `path` is walked from this board: the walk
    /// descends through nested boards and stops at the first task that holds
    /// anything else, at a task with no content, at a step whose indices are
    /// out of range (showing the board reached so far), or at the path's end.
    pub open spec fn view_at(self, path: Seq<Step>) -> Viewed
        decreases path.len(),
    {
        if path.len() == 0 {
            Viewed::Board(self)
        } else {
            match self.task_at_step(path[0]) {
                None => Viewed::Board(self),
                Some(t) => match t.content {
                    Some(ContentView::Board(nb)) => nb.view_at(path.drop_first()),
                    Some(ContentView::Todo(items)) => Viewed::Todo(items),
                    Some(ContentView::Text(s)) => Viewed::Text(s),
                    None => Viewed::Empty,
                },
            }
        }
    }

    /// How many steps of `path` the walk of `view_at` takes.
    pub open spec fn view_depth(self, path: Seq<Step>) -> nat
        decreases path.len(),
    {
        if path.len() == 0 {
            0
        } else {
            match self.task_at_step(path[0]) {
                None => 0,
                Some(t) => match t.content {
                    Some(ContentView::Board(nb)) => 1 + nb.view_depth(path.drop_first()),
                    _ => 1,
                },
            }
        }
    }

    /// The steps of `path` that the walk takes: the path to what is in view.
    pub open spec fn view_path(self, path: Seq<Step>) -> Seq<Step> {
        path.take(self.view_depth(path) as int)
    }
}

/// The kind of content that `t` holds agrees with what is in view.
pub open spec fn shows(t: TaskView, v: Viewed) -> bool {
    match v {
        Viewed::Board(_) => false,
        Viewed::Todo(items) => t.content == Some(ContentView::Todo(items)),
        Viewed::Text(s) => t.content == Some(ContentView::Text(s)),
        Viewed::Empty => t.content is None,
    }
}

/// The walk's steps lead, through the path resolver, to what is in view.
pub proof fn lemma_view_path(b: BoardView, path: Seq<Step>)
    ensures
        b.view_depth(path) <= path.len(),
        b.view_path(path) =~= path.take(b.view_depth(path) as int),
        b.view_at(path) matches Viewed::Board(vb) ==> b.resolve_board(b.view_path(path)) == Ok::<
            BoardView,
            PathError,
        >(vb),
        !(b.view_at(path) is Board) ==> {
            &&& b.view_depth(path) >= 1
            &&& b.resolve_task(b.view_path(path)) is Ok
            &&& shows(b.resolve_task(b.view_path(path))->Ok_0, b.view_at(path))
        },
    decreases path.len(),
{
    if path.len() > 0 {
        if let Some(t) = b.task_at_step(path[0]) {
            let d = b.view_depth(path);
            let vp = b.view_path(path);
            if let Some(ContentView::Board(nb)) = t.content {
                let rest = path.drop_first();
                lemma_view_path(nb, rest);
                assert(d == 1 + nb.view_depth(rest));
                assert(vp[0] == path[0]);
                assert(vp.drop_first() =~= nb.view_path(rest));
                if !(nb.view_at(rest) is Board) {
                    assert(vp.len() > 1);
                }
            } else {
                assert(d == 1);
                assert(vp[0] == path[0]);
                assert(vp.len() == 1);
            }
        } else {
            assert(b.view_path(path) =~= Seq::<Step>::empty());
        }
    }
}

/// Replacing the task in view by one that holds a to-do list or a text puts
/// that content in view.
pub proof fn lemma_view_after_task_replaced(b: BoardView, path: Seq<Step>, nt: TaskView)
    requires
        !(b.view_at(path) is Board),
        nt.content matches Some(c) && !(c is Board),
    ensures
        b.with_task_at(b.view_path(path), nt).view_at(path) == (match nt.content {
            Some(ContentView::Todo(items)) => Viewed::Todo(items),
            Some(ContentView::Text(s)) => Viewed::Text(s),
            _ => Viewed::Empty,
        }),
    decreases path.len(),
{
    lemma_view_path(b, path);
    let vp = b.view_path(path);
    let t = b.task_at_step(path[0])->0;
    let n = b.with_task_at(vp, nt);
    assert(vp[0] == path[0]);
    if let Some(ContentView::Board(nb)) = t.content {
        let rest = path.drop_first();
        lemma_view_path(nb, rest);
        assert(vp.drop_first() =~= nb.view_path(rest));
        lemma_view_after_task_replaced(nb, rest, nt);
        assert(n.task_at_step(path[0]) == Some(t.with_nested(nb.with_task_at(nb.view_path(rest), nt))));
    } else {
        assert(vp.len() == 1);
        assert(n.task_at_step(path[0]) == Some(nt));
    }
}

/// A borrowed view of the content at the end of the current path.
pub enum ActiveContentRef<'a> {
    Board(&'a Board),
    Todo(&'a Vec<TodoItem>),
    Text(&'a String),
    Empty,
}

impl ActiveContentRef<'_> {
    /// What this borrowed content is, on the model.
    pub open spec fn viewed(&self) -> Viewed {
        match *self {
            ActiveContentRef::Board(b) => Viewed::Board(board_view(*b)),
            ActiveContentRef::Todo(items) => Viewed::Todo(todo_view(items@)),
            ActiveContentRef::Text(s) => Viewed::Text(s@),
            ActiveContentRef::Empty => Viewed::Empty,
        }
    }
}

/// Walks `path` from `board` as `view_at` does and returns what is in view,
/// together with the number of steps taken.
pub fn locate_view<'a>(board: &'a Board, path: &[Step]) -> (r: (ActiveContentRef<'a>, usize))
    ensures
        r.0.viewed() == board@.view_at(path@),
        r.1 == board@.view_depth(path@),
    decreases path@.len(),
{
    if path.len() == 0 {
        return (ActiveContentRef::Board(board), 0);
    }
    let (c, t) = path[0];
    if c >= board.columns.len() || t >= board.columns[c].tasks.len() {
        return (ActiveContentRef::Board(board), 0);
    }
    let rest = slice_subrange(path, 1, path.len());
    assert(rest@ == path@.drop_first());
    assert(board@.columns[c as int].tasks[t as int] == crate::model::task_view(
        board.columns@[c as int].tasks@[t as int],
    ));
    match &board.columns[c].tasks[t].content {
        Some(TaskContent::Board(nb)) => {
            let (v, d) = locate_view(nb, rest);
            assert(d < usize::MAX) by {
                lemma_view_path(nb@, rest@);
            }
            (v, d + 1)
        },
        Some(TaskContent::Todo(items)) => (ActiveContentRef::Todo(items), 1),
        Some(TaskContent::Text(s)) => (ActiveContentRef::Text(s), 1),
        None => (ActiveContentRef::Empty, 1),
    }
}

} // verus!
