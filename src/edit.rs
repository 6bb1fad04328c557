use vstd::multiset::Multiset;
use vstd::prelude::*;

use crate::model::{
    Board, BoardView, Column, ColumnView, ContentView, Task, TaskContent, TaskView, TodoItem,
    TodoItemView, column_view, content_view, task_view, todo_view,
};
use crate::path::Step;
use crate::todo::{partitioned, stable_partition};

verus! {

impl BoardView {
    /// This board with the tasks of column `c` replaced by `tasks`.
    pub open spec fn with_column_tasks(self, c: int, tasks: Seq<TaskView>) -> BoardView {
        BoardView { columns: self.columns.update(c, ColumnView { tasks, ..self.columns[c] }), ..self }
    }

    /// This board with task `r` of column `c` taken out and appended to
    /// column `nc`.
    pub open spec fn with_task_moved(self, c: int, r: int, nc: int) -> BoardView {
        let t = self.columns[c].tasks[r];
        let b1 = self.with_column_tasks(c, self.columns[c].tasks.remove(r));
        b1.with_column_tasks(nc, b1.columns[nc].tasks.push(t))
    }
}

impl TaskView {
    /// The task with its content replaced by `content`.
    pub open spec fn with_content(self, content: ContentView) -> TaskView {
        TaskView { content: Some(content), ..self }
    }

    /// The entries of the task's to-do list; meaningful when it holds one.
    pub open spec fn todo_items(self) -> Seq<TodoItemView> {
        self.content->0->Todo_0
    }
}

/// How many tasks the columns hold together.
pub open spec fn total_tasks(columns: Seq<ColumnView>) -> nat
    decreases columns.len(),
{
    if columns.len() == 0 {
        0
    } else {
        total_tasks(columns.drop_last()) + columns.last().tasks.len()
    }
}

/// The tasks that the columns hold together, each with all it holds.
pub open spec fn all_tasks(columns: Seq<ColumnView>) -> Multiset<TaskView>
    decreases columns.len(),
{
    if columns.len() == 0 {
        Multiset::empty()
    } else {
        all_tasks(columns.drop_last()).add(columns.last().tasks.to_multiset())
    }
}

proof fn lemma_all_tasks_update(columns: Seq<ColumnView>, i: int, col: ColumnView)
    requires
        0 <= i < columns.len(),
    ensures
        all_tasks(columns.update(i, col)).add(columns[i].tasks.to_multiset()) =~= all_tasks(
            columns,
        ).add(col.tasks.to_multiset()),
    decreases columns.len(),
{
    broadcast use vstd::multiset::group_multiset_axioms;

    let u = columns.update(i, col);
    let p = columns.drop_last();
    assert(all_tasks(u) == all_tasks(u.drop_last()).add(u.last().tasks.to_multiset()));
    assert(all_tasks(columns) == all_tasks(p).add(columns.last().tasks.to_multiset()));
    if i < columns.len() - 1 {
        assert(u.drop_last() =~= p.update(i, col));
        lemma_all_tasks_update(p, i, col);
        assert(u.last() == columns.last());
        assert forall|x: TaskView|
            #[trigger] all_tasks(u).add(columns[i].tasks.to_multiset()).count(x) == all_tasks(
                columns,
            ).add(col.tasks.to_multiset()).count(x) by {
            assert(all_tasks(p.update(i, col)).add(p[i].tasks.to_multiset()).count(x) == all_tasks(
                p,
            ).add(col.tasks.to_multiset()).count(x));
        }
    } else {
        assert(u.drop_last() =~= p);
    }
}

/// The identifiers of every task in the tree below a board, counted with
/// repetition.
pub open spec fn board_ids(b: BoardView) -> Multiset<u128>
    decreases b, 3nat,
{
    columns_ids(b.columns)
}

/// The identifiers of every task in the tree below some columns.
pub open spec fn columns_ids(columns: Seq<ColumnView>) -> Multiset<u128>
    decreases columns, 2nat,
{
    if columns.len() == 0 {
        Multiset::empty()
    } else {
        columns_ids(columns.drop_last()).add(tasks_ids(columns.last().tasks))
    }
}

/// The identifiers of some tasks and of every task in the trees below them.
pub open spec fn tasks_ids(tasks: Seq<TaskView>) -> Multiset<u128>
    decreases tasks, 1nat,
{
    if tasks.len() == 0 {
        Multiset::empty()
    } else {
        tasks_ids(tasks.drop_last()).add(task_ids(tasks.last()))
    }
}

/// The identifier of a task and those of every task in the tree below it.
pub open spec fn task_ids(t: TaskView) -> Multiset<u128>
    decreases t, 0nat,
{
    Multiset::singleton(t.id).add(
        match t.content {
            Some(ContentView::Board(b)) => board_ids(b),
            _ => Multiset::empty(),
        },
    )
}

proof fn lemma_tasks_ids_concat(a: Seq<TaskView>, b: Seq<TaskView>)
    ensures
        tasks_ids(a + b) =~= tasks_ids(a).add(tasks_ids(b)),
    decreases b.len(),
{
    broadcast use vstd::multiset::group_multiset_axioms;

    if b.len() == 0 {
        assert(a + b =~= a);
    } else {
        lemma_tasks_ids_concat(a, b.drop_last());
        assert((a + b).drop_last() =~= a + b.drop_last());
        assert((a + b).last() == b.last());
    }
}

proof fn lemma_tasks_ids_split(ts: Seq<TaskView>, r: int)
    requires
        0 <= r < ts.len(),
    ensures
        tasks_ids(ts) =~= tasks_ids(ts.subrange(0, r)).add(task_ids(ts[r])).add(
            tasks_ids(ts.subrange(r + 1, ts.len() as int)),
        ),
{
    broadcast use vstd::multiset::group_multiset_axioms;

    let front = ts.subrange(0, r);
    let back = ts.subrange(r + 1, ts.len() as int);
    assert(ts =~= front.push(ts[r]) + back);
    lemma_tasks_ids_concat(front.push(ts[r]), back);
    assert(front.push(ts[r]).drop_last() =~= front);
}

proof fn lemma_tasks_ids_remove(ts: Seq<TaskView>, r: int)
    requires
        0 <= r < ts.len(),
    ensures
        tasks_ids(ts.remove(r)).add(task_ids(ts[r])) =~= tasks_ids(ts),
{
    broadcast use vstd::multiset::group_multiset_axioms;

    lemma_tasks_ids_split(ts, r);
    assert(ts.remove(r) =~= ts.subrange(0, r) + ts.subrange(r + 1, ts.len() as int));
    lemma_tasks_ids_concat(ts.subrange(0, r), ts.subrange(r + 1, ts.len() as int));
}

proof fn lemma_tasks_ids_update(ts: Seq<TaskView>, r: int, t: TaskView)
    requires
        0 <= r < ts.len(),
    ensures
        tasks_ids(ts.update(r, t)).add(task_ids(ts[r])) =~= tasks_ids(ts).add(task_ids(t)),
{
    broadcast use vstd::multiset::group_multiset_axioms;

    let u = ts.update(r, t);
    lemma_tasks_ids_split(ts, r);
    lemma_tasks_ids_split(u, r);
    assert(u.subrange(0, r) =~= ts.subrange(0, r));
    assert(u.subrange(r + 1, u.len() as int) =~= ts.subrange(r + 1, ts.len() as int));
}

proof fn lemma_columns_ids_update(columns: Seq<ColumnView>, i: int, col: ColumnView)
    requires
        0 <= i < columns.len(),
    ensures
        columns_ids(columns.update(i, col)).add(tasks_ids(columns[i].tasks)) =~= columns_ids(
            columns,
        ).add(tasks_ids(col.tasks)),
    decreases columns.len(),
{
    broadcast use vstd::multiset::group_multiset_axioms;

    let u = columns.update(i, col);
    let p = columns.drop_last();
    assert(columns_ids(u) == columns_ids(u.drop_last()).add(tasks_ids(u.last().tasks)));
    assert(columns_ids(columns) == columns_ids(p).add(tasks_ids(columns.last().tasks)));
    if i < columns.len() - 1 {
        assert(u.drop_last() =~= p.update(i, col));
        lemma_columns_ids_update(p, i, col);
        assert(u.last() == columns.last());
        assert forall|x: u128|
            #[trigger] columns_ids(u).add(tasks_ids(columns[i].tasks)).count(x) == columns_ids(
                columns,
            ).add(tasks_ids(col.tasks)).count(x) by {
            assert(columns_ids(p.update(i, col)).add(tasks_ids(p[i].tasks)).count(x)
                == columns_ids(p).add(tasks_ids(col.tasks)).count(x));
        }
    } else {
        assert(u.drop_last() =~= p);
    }
}

/// Moving a task between columns keeps the identifiers of all tasks below
/// the board, counted with repetition.
pub proof fn lemma_move_task_keeps_ids(b: BoardView, c: int, r: int, nc: int)
    requires
        0 <= c < b.columns.len(),
        0 <= nc < b.columns.len(),
        0 <= r < b.columns[c].tasks.len(),
    ensures
        board_ids(b.with_task_moved(c, r, nc)) == board_ids(b),
{
    broadcast use vstd::multiset::group_multiset_axioms;

    let t = b.columns[c].tasks[r];
    let src = b.columns[c].tasks;
    let b1 = b.with_column_tasks(c, src.remove(r));
    let dst = b1.columns[nc].tasks;
    let m = b.with_task_moved(c, r, nc);
    lemma_columns_ids_update(b.columns, c, ColumnView { tasks: src.remove(r), ..b.columns[c] });
    lemma_columns_ids_update(b1.columns, nc, ColumnView { tasks: dst.push(t), ..b1.columns[nc] });
    lemma_tasks_ids_remove(src, r);
    assert(dst.push(t).drop_last() =~= dst);
    assert(tasks_ids(dst.push(t)) == tasks_ids(dst).add(task_ids(t)));
    assert forall|x: u128| #[trigger] columns_ids(m.columns).count(x) == columns_ids(b.columns).count(x) by {
        assert(columns_ids(b1.columns).add(tasks_ids(src)).count(x) == columns_ids(b.columns).add(
            tasks_ids(src.remove(r)),
        ).count(x));
        assert(columns_ids(m.columns).add(tasks_ids(dst)).count(x) == columns_ids(b1.columns).add(
            tasks_ids(dst.push(t)),
        ).count(x));
        assert(tasks_ids(src.remove(r)).add(task_ids(t)).count(x) == tasks_ids(src).count(x));
    }
    assert(columns_ids(m.columns) =~= columns_ids(b.columns));
}

/// Replacing the board that a path reaches changes the identifiers below the
/// root by those below the old board and the new one, and by nothing else.
pub proof fn lemma_replaced_board_ids(root: BoardView, path: Seq<Step>, nb: BoardView)
    requires
        root.resolve_board(path) is Ok,
    ensures
        board_ids(root.with_board_at(path, nb)).add(board_ids(root.resolve_board(path)->Ok_0))
            =~= board_ids(root).add(board_ids(nb)),
    decreases path.len(),
{
    broadcast use vstd::multiset::group_multiset_axioms;

    if path.len() > 0 {
        let s = path[0];
        let (c, r) = (s.0 as int, s.1 as int);
        let t = root.task_at_step(s)->0;
        let inner = t.nested()->0;
        let new_inner = inner.with_board_at(path.drop_first(), nb);
        lemma_replaced_board_ids(inner, path.drop_first(), nb);
        let nt = t.with_nested(new_inner);
        let ts = root.columns[c].tasks;
        lemma_tasks_ids_update(ts, r, nt);
        lemma_columns_ids_update(root.columns, c, ColumnView { tasks: ts.update(r, nt), ..root.columns[c] });
        assert(task_ids(t) == Multiset::singleton(t.id).add(board_ids(inner)));
        assert(task_ids(nt) == Multiset::singleton(t.id).add(board_ids(new_inner)));
        let n = root.with_board_at(path, nb);
        let old_sub = root.resolve_board(path)->Ok_0;
        assert(old_sub == inner.resolve_board(path.drop_first())->Ok_0);
        assert(n == root.with_task(s, nt));
        assert(n.columns == root.columns.update(c, ColumnView { tasks: ts.update(r, nt), ..root.columns[c] }));
        assert forall|x: u128|
            #[trigger] board_ids(n).add(board_ids(old_sub)).count(x) == board_ids(root).add(
                board_ids(nb),
            ).count(x) by {
            assert(columns_ids(n.columns).add(tasks_ids(ts)).count(x) == columns_ids(
                root.columns,
            ).add(tasks_ids(ts.update(r, nt))).count(x));
            assert(tasks_ids(ts.update(r, nt)).add(task_ids(t)).count(x) == tasks_ids(ts).add(
                task_ids(nt),
            ).count(x));
            assert(board_ids(new_inner).add(board_ids(old_sub)).count(x) == board_ids(inner).add(
                board_ids(nb),
            ).count(x));
        }
    }
}

proof fn lemma_total_update(columns: Seq<ColumnView>, i: int, col: ColumnView)
    requires
        0 <= i < columns.len(),
    ensures
        total_tasks(columns.update(i, col)) + columns[i].tasks.len() == total_tasks(columns)
            + col.tasks.len(),
    decreases columns.len(),
{
    let u = columns.update(i, col);
    if i < columns.len() - 1 {
        assert(u.drop_last() =~= columns.drop_last().update(i, col));
        lemma_total_update(columns.drop_last(), i, col);
    } else {
        assert(u.drop_last() =~= columns.drop_last());
    }
}

/// Moving a task to another column keeps the number of tasks on the board and
/// the tasks themselves, each with its identifier and all it holds,
/// takes the task out of the source column alone, appends it to the
/// destination column alone, and leaves every other column as it was.
pub proof fn lemma_move_task_conserves(b: BoardView, c: int, r: int, nc: int)
    requires
        0 <= c < b.columns.len(),
        0 <= nc < b.columns.len(),
        c != nc,
        0 <= r < b.columns[c].tasks.len(),
    ensures
        ({
            let m = b.with_task_moved(c, r, nc);
            &&& total_tasks(m.columns) == total_tasks(b.columns)
            &&& all_tasks(m.columns) == all_tasks(b.columns)
            &&& m.columns.len() == b.columns.len()
            &&& m.columns[c].tasks == b.columns[c].tasks.remove(r)
            &&& m.columns[nc].tasks == b.columns[nc].tasks.push(b.columns[c].tasks[r])
            &&& forall|i: int| 0 <= i < b.columns.len() && i != c && i != nc ==> m.columns[i] == b.columns[i]
        }),
{
    let t = b.columns[c].tasks[r];
    let b1 = b.with_column_tasks(c, b.columns[c].tasks.remove(r));
    lemma_total_update(b.columns, c, ColumnView { tasks: b.columns[c].tasks.remove(r), ..b.columns[c] });
    lemma_total_update(b1.columns, nc, ColumnView { tasks: b1.columns[nc].tasks.push(t), ..b1.columns[nc] });
    broadcast use vstd::multiset::group_multiset_axioms, vstd::seq_lib::to_multiset_build, vstd::seq_lib::to_multiset_remove;

    let m = b.with_task_moved(c, r, nc);
    let src = b.columns[c].tasks;
    let dst = b1.columns[nc].tasks;
    lemma_all_tasks_update(b.columns, c, ColumnView { tasks: src.remove(r), ..b.columns[c] });
    lemma_all_tasks_update(b1.columns, nc, ColumnView { tasks: dst.push(t), ..b1.columns[nc] });
    assert(src.remove(r).to_multiset() == src.to_multiset().remove(t));
    assert(dst.push(t).to_multiset() == dst.to_multiset().insert(t));
    assert(src.to_multiset().count(t) > 0) by {
        assert(src.contains(t));
        vstd::seq_lib::to_multiset_contains(src, t);
    }
    assert forall|x: TaskView| #[trigger] all_tasks(m.columns).count(x) == all_tasks(b.columns).count(x) by {
        assert(all_tasks(b1.columns).add(src.to_multiset()).count(x) == all_tasks(b.columns).add(
            src.to_multiset().remove(t),
        ).count(x));
        assert(all_tasks(m.columns).add(dst.to_multiset()).count(x) == all_tasks(b1.columns).add(
            dst.to_multiset().insert(t),
        ).count(x));
    }
    assert(all_tasks(m.columns) =~= all_tasks(b.columns));
}

proof fn lemma_column_changed(o: Board, n: Board, c: int)
    requires
        0 <= c < o.columns@.len(),
        n.title == o.title,
        n.columns@ == o.columns@.update(c, n.columns@[c]),
        n.columns@[c].title == o.columns@[c].title,
    ensures
        n@ == o@.with_column_tasks(c, column_view(n.columns@[c]).tasks),
{
    assert(n@.columns =~= o@.with_column_tasks(c, column_view(n.columns@[c]).tasks).columns);
}

proof fn lemma_tasks_view_push(o: Column, n: Column, t: Task)
    requires
        n.tasks@ == o.tasks@.push(t),
    ensures
        column_view(n).tasks == column_view(o).tasks.push(task_view(t)),
{
    assert(column_view(n).tasks =~= column_view(o).tasks.push(task_view(t)));
}

proof fn lemma_tasks_view_remove(o: Column, n: Column, r: int)
    requires
        0 <= r < o.tasks@.len(),
        n.tasks@ == o.tasks@.remove(r),
    ensures
        column_view(n).tasks == column_view(o).tasks.remove(r),
{
    assert(column_view(n).tasks =~= column_view(o).tasks.remove(r));
}

impl Board {
    /// Appends `task` to column `c`.
    pub fn push_task(&mut self, c: usize, task: Task)
        requires
            c < old(self).columns@.len(),
        ensures
            final(self)@ == old(self)@.with_column_tasks(
                c as int,
                old(self)@.columns[c as int].tasks.push(task_view(task)),
            ),
    {
        let ghost oc = self.columns@[c as int];
        let ghost t = task;
        self.columns[c].tasks.push(task);
        proof {
            lemma_tasks_view_push(oc, self.columns@[c as int], t);
            lemma_column_changed(*old(self), *self, c as int);
        }
    }

    /// Appends `column` after the last column.
    pub fn push_column(&mut self, column: Column)
        ensures
            final(self)@ == (BoardView {
                columns: old(self)@.columns.push(column_view(column)),
                ..old(self)@
            }),
    {
        let ghost col = column;
        self.columns.push(column);
        assert(self@.columns =~= old(self)@.columns.push(column_view(col)));
    }

    /// Takes task `r` out of column `c` and returns it.
    pub fn remove_task(&mut self, c: usize, r: usize) -> (t: Task)
        requires
            c < old(self).columns@.len(),
            r < old(self).columns@[c as int].tasks@.len(),
        ensures
            task_view(t) == old(self)@.columns[c as int].tasks[r as int],
            final(self)@ == old(self)@.with_column_tasks(
                c as int,
                old(self)@.columns[c as int].tasks.remove(r as int),
            ),
    {
        let ghost oc = self.columns@[c as int];
        let t = self.columns[c].tasks.remove(r);
        proof {
            lemma_tasks_view_remove(oc, self.columns@[c as int], r as int);
            lemma_column_changed(*old(self), *self, c as int);
        }
        t
    }

    /// Takes task `r` out of column `c` and appends it to column `nc`.
    pub fn move_task(&mut self, c: usize, r: usize, nc: usize)
        requires
            c < old(self).columns@.len(),
            nc < old(self).columns@.len(),
            r < old(self).columns@[c as int].tasks@.len(),
        ensures
            final(self)@ == old(self)@.with_task_moved(c as int, r as int, nc as int),
    {
        let t = self.remove_task(c, r);
        assert(self.columns@.len() == self@.columns.len());
        self.push_task(nc, t);
    }

    /// Gives task `r` of column `c` the content `content`.
    pub fn set_task_content(&mut self, c: usize, r: usize, content: TaskContent)
        requires
            c < old(self).columns@.len(),
            r < old(self).columns@[c as int].tasks@.len(),
        ensures
            final(self)@ == old(self)@.with_task(
                (c, r),
                old(self)@.columns[c as int].tasks[r as int].with_content(content_view(content)),
            ),
    {
        let ghost oc = self.columns@[c as int];
        let ghost cv = content_view(content);
        self.columns[c].tasks[r].content = Some(content);
        proof {
            let nc = self.columns@[c as int];
            assert(column_view(nc).tasks =~= column_view(oc).tasks.update(
                r as int,
                task_view(oc.tasks@[r as int]).with_content(cv),
            ));
            lemma_column_changed(*old(self), *self, c as int);
        }
    }
}

impl Task {
    /// Appends a new entry that is not done to the task's to-do list, then
    /// moves the entries that are not done before those that are.
    pub fn push_todo(&mut self, text: String)
        requires
            old(self).content matches Some(TaskContent::Todo(_)),
        ensures
            task_view(*final(self)) == task_view(*old(self)).with_content(
                ContentView::Todo(
                    partitioned(
                        task_view(*old(self)).todo_items().push(
                            TodoItemView { text: text@, done: false },
                        ),
                    ),
                ),
            ),
    {
        if let Some(TaskContent::Todo(items)) = &mut self.content {
            let ghost before = items@;
            let item = TodoItem { text, done: false };
            items.push(item);
            assert(todo_view(items@) =~= todo_view(before).push(item@));
            stable_partition(items);
        }
    }

    /// Takes entry `i` out of the task's to-do list.
    pub fn remove_todo(&mut self, i: usize)
        requires
            old(self).content matches Some(TaskContent::Todo(items)) && i < items@.len(),
        ensures
            task_view(*final(self)) == task_view(*old(self)).with_content(
                ContentView::Todo(task_view(*old(self)).todo_items().remove(i as int)),
            ),
    {
        if let Some(TaskContent::Todo(items)) = &mut self.content {
            let ghost before = items@;
            items.remove(i);
            assert(todo_view(items@) =~= todo_view(before).remove(i as int));
        }
    }

    /// Flips entry `i` of the task's to-do list between done and not done,
    /// then moves the entries that are not done before those that are.
    pub fn toggle_todo(&mut self, i: usize)
        requires
            old(self).content matches Some(TaskContent::Todo(items)) && i < items@.len(),
        ensures
            ({
                let items = task_view(*old(self)).todo_items();
                task_view(*final(self)) == task_view(*old(self)).with_content(
                    ContentView::Todo(
                        partitioned(
                            items.update(
                                i as int,
                                TodoItemView { done: !items[i as int].done, ..items[i as int] },
                            ),
                        ),
                    ),
                )
            }),
    {
        if let Some(TaskContent::Todo(items)) = &mut self.content {
            let ghost before = items@;
            let flipped = !items[i].done;
            items[i].done = flipped;
            assert(todo_view(items@) =~= todo_view(before).update(
                i as int,
                TodoItemView { done: flipped, ..todo_view(before)[i as int] },
            ));
            stable_partition(items);
        }
    }

    /// Replaces the task's text with `text`.
    pub fn set_text(&mut self, text: String)
        requires
            old(self).content matches Some(TaskContent::Text(_)),
        ensures
            task_view(*final(self)) == task_view(*old(self)).with_content(ContentView::Text(text@)),
    {
        self.content = Some(TaskContent::Text(text));
    }
}

} // verus!
