use vstd::prelude::*;

use crate::model::{TodoItem, TodoItemView, todo_view};

verus! {

/// The entries of `s` that are not done, in their order in `s`.
pub open spec fn undone(s: Seq<TodoItemView>) -> Seq<TodoItemView>
    decreases s.len(),
{
    if s.len() == 0 {
        Seq::empty()
    } else if !s.last().done {
        undone(s.drop_last()).push(s.last())
    } else {
        undone(s.drop_last())
    }
}

/// The entries of `s` that are done, in their order in `s`.
pub open spec fn done(s: Seq<TodoItemView>) -> Seq<TodoItemView>
    decreases s.len(),
{
    if s.len() == 0 {
        Seq::empty()
    } else if s.last().done {
        done(s.drop_last()).push(s.last())
    } else {
        done(s.drop_last())
    }
}

/// `s` reordered so that every entry that is not done comes before every
/// entry that is done, each group in its order in `s`.
pub open spec fn partitioned(s: Seq<TodoItemView>) -> Seq<TodoItemView> {
    undone(s) + done(s)
}

/// No entry that is done comes before one that is not.
pub open spec fn is_partitioned(s: Seq<TodoItemView>) -> bool {
    forall|i: int, j: int| 0 <= i < j < s.len() && #[trigger] s[i].done ==> #[trigger] s[j].done
}

proof fn lemma_groups(s: Seq<TodoItemView>)
    ensures
        forall|i: int| 0 <= i < undone(s).len() ==> !(#[trigger] undone(s)[i]).done,
        forall|i: int| 0 <= i < done(s).len() ==> (#[trigger] done(s)[i]).done,
        undone(s).len() + done(s).len() == s.len(),
    decreases s.len(),
{
    if s.len() > 0 {
        lemma_groups(s.drop_last());
    }
}

proof fn lemma_groups_of_concat(a: Seq<TodoItemView>, b: Seq<TodoItemView>)
    ensures
        undone(a + b) == undone(a) + undone(b),
        done(a + b) == done(a) + done(b),
    decreases b.len(),
{
    if b.len() == 0 {
        assert(a + b =~= a);
        assert(undone(a) + undone(b) =~= undone(a));
        assert(done(a) + done(b) =~= done(a));
    } else {
        assert((a + b).drop_last() =~= a + b.drop_last());
        lemma_groups_of_concat(a, b.drop_last());
        if b.last().done {
            assert(done(a) + done(b) =~= (done(a) + done(b.drop_last())).push(b.last()));
        } else {
            assert(undone(a) + undone(b) =~= (undone(a) + undone(b.drop_last())).push(b.last()));
        }
    }
}

proof fn lemma_groups_of_uniform(s: Seq<TodoItemView>, d: bool)
    requires
        forall|i: int| 0 <= i < s.len() ==> (#[trigger] s[i]).done == d,
    ensures
        d ==> done(s) == s && undone(s) == Seq::<TodoItemView>::empty(),
        !d ==> undone(s) == s && done(s) == Seq::<TodoItemView>::empty(),
    decreases s.len(),
{
    if s.len() > 0 {
        lemma_groups_of_uniform(s.drop_last(), d);
        assert(s.drop_last().push(s.last()) =~= s);
    }
}

proof fn lemma_groups_multiset(s: Seq<TodoItemView>)
    ensures
        partitioned(s).to_multiset() == s.to_multiset(),
    decreases s.len(),
{
    broadcast use vstd::seq_lib::lemma_multiset_commutative, vstd::seq_lib::to_multiset_build;

    if s.len() == 0 {
        assert(partitioned(s) =~= s);
    } else {
        let p = s.drop_last();
        lemma_groups_multiset(p);
        assert(p.push(s.last()) =~= s);
        assert(undone(p).to_multiset().add(done(p).to_multiset()) == p.to_multiset());
        if s.last().done {
            assert(partitioned(s).to_multiset() =~= undone(p).to_multiset().add(
                done(p).to_multiset().insert(s.last()),
            ));
        } else {
            assert(partitioned(s).to_multiset() =~= undone(p).to_multiset().insert(s.last()).add(
                done(p).to_multiset(),
            ));
        }
    }
}

/// The texts of the entries, in order.
pub open spec fn texts(s: Seq<TodoItemView>) -> Seq<Seq<char>> {
    s.map_values(|it: TodoItemView| it.text)
}

/// Reordering keeps the texts of the entries, counted with repetition.
pub proof fn lemma_partition_keeps_texts(s: Seq<TodoItemView>)
    ensures
        texts(partitioned(s)).to_multiset() == texts(s).to_multiset(),
    decreases s.len(),
{
    broadcast use vstd::seq_lib::lemma_multiset_commutative, vstd::seq_lib::to_multiset_build;

    if s.len() == 0 {
        assert(texts(partitioned(s)) =~= texts(s));
    } else {
        let p = s.drop_last();
        let x = s.last();
        lemma_partition_keeps_texts(p);
        assert(p.push(x) =~= s);
        assert(texts(s) =~= texts(p).push(x.text));
        assert(texts(partitioned(p)) =~= texts(undone(p)) + texts(done(p)));
        assert(texts(partitioned(s)) =~= texts(undone(s)) + texts(done(s)));
        if x.done {
            assert(texts(done(s)) =~= texts(done(p)).push(x.text));
            assert(texts(partitioned(s)).to_multiset() =~= texts(undone(p)).to_multiset().add(
                texts(done(p)).to_multiset().insert(x.text),
            ));
        } else {
            assert(texts(undone(s)) =~= texts(undone(p)).push(x.text));
            assert(texts(partitioned(s)).to_multiset() =~= texts(undone(p)).to_multiset().insert(
                x.text,
            ).add(texts(done(p)).to_multiset()));
        }
    }
}

/// Reordering keeps both groups as they were, keeps the same entries, and
/// leaves no done entry before an entry that is not done.
pub proof fn lemma_partition_is_stable(s: Seq<TodoItemView>)
    ensures
        is_partitioned(partitioned(s)),
        partitioned(s).to_multiset() == s.to_multiset(),
        undone(partitioned(s)) == undone(s),
        done(partitioned(s)) == done(s),
        partitioned(s).len() == s.len(),
{
    lemma_groups_multiset(s);
    lemma_groups(s);
    lemma_groups_of_concat(undone(s), done(s));
    lemma_groups_of_uniform(undone(s), false);
    lemma_groups_of_uniform(done(s), true);
    assert(undone(s) + Seq::<TodoItemView>::empty() =~= undone(s));
    assert(Seq::<TodoItemView>::empty() + done(s) =~= done(s));
    let p = partitioned(s);
    assert forall|i: int, j: int| 0 <= i < j < p.len() && #[trigger] p[i].done implies #[trigger] p[j].done by {
        if j < undone(s).len() {
            assert(!undone(s)[i].done);
        } else {
            assert(p[j] == done(s)[j - undone(s).len()]);
        }
    }
}

/// A list that is already partitioned is its own reordering.
pub proof fn lemma_partitioned_fixed(s: Seq<TodoItemView>)
    requires
        is_partitioned(s),
    ensures
        partitioned(s) == s,
    decreases s.len(),
{
    if s.len() > 0 {
        let p = s.drop_last();
        assert(is_partitioned(p));
        lemma_partitioned_fixed(p);
        lemma_groups(p);
        if s.last().done {
            assert(partitioned(s) =~= partitioned(p).push(s.last()));
        } else {
            // nothing before the last entry is done, so the done group is empty
            assert forall|i: int| 0 <= i < p.len() implies !(#[trigger] p[i]).done by {
                assert(s[i] == p[i]);
                assert(s[s.len() - 1] == s.last());
            }
            lemma_groups_of_uniform(p, false);
            assert(partitioned(s) =~= p.push(s.last()));
        }
    }
}

/// Appending an entry that is not done to a partitioned list and reordering
/// puts the entry last among those not done and keeps the done ones after it.
pub proof fn lemma_add_keeps_insertion_order(s: Seq<TodoItemView>, x: TodoItemView)
    requires
        is_partitioned(s),
        !x.done,
    ensures
        partitioned(s.push(x)) == undone(s).push(x) + done(s),
        undone(partitioned(s.push(x))) == undone(s).push(x),
        done(partitioned(s.push(x))) == done(s),
{
    assert(s.push(x).drop_last() =~= s);
    lemma_partition_is_stable(s.push(x));
}

/// Moves the entries that are not done before those that are done, keeping
/// the order within each group.
pub fn stable_partition(items: &mut Vec<TodoItem>)
    ensures
        todo_view(final(items)@) == partitioned(todo_view(old(items)@)),
{
    let mut rest: Vec<TodoItem> = Vec::new();
    std::mem::swap(items, &mut rest);
    let ghost orig = todo_view(rest@);
    let mut open_items: Vec<TodoItem> = Vec::new();
    let mut done_items: Vec<TodoItem> = Vec::new();
    while rest.len() > 0
        invariant
            rest@.len() <= orig.len(),
            todo_view(rest@) == orig.skip(orig.len() - rest@.len()),
            todo_view(open_items@) == undone(orig.take(orig.len() - rest@.len())),
            todo_view(done_items@) == done(orig.take(orig.len() - rest@.len())),
        decreases rest@.len(),
    {
        let ghost k = orig.len() - rest@.len();
        let ghost before = rest@;
        let item = rest.remove(0);
        assert(todo_view(before)[0] == item@);
        assert(orig.take(k + 1).drop_last() =~= orig.take(k));
        assert forall|i: int| 0 <= i < rest@.len() implies todo_view(rest@)[i] == orig.skip(k + 1)[i] by {
            assert(rest@[i] == before[i + 1]);
            assert(todo_view(before)[i + 1] == orig.skip(k)[i + 1]);
        }
        assert(todo_view(rest@) =~= orig.skip(k + 1));
        if item.done {
            done_items.push(item);
            assert(todo_view(done_items@) =~= todo_view(done_items@.drop_last()).push(item@));
        } else {
            open_items.push(item);
            assert(todo_view(open_items@) =~= todo_view(open_items@.drop_last()).push(item@));
        }
    }
    assert(orig.take(orig.len() as int) =~= orig);
    let ghost a = open_items@;
    let ghost b = done_items@;
    open_items.append(&mut done_items);
    assert(todo_view(open_items@) =~= todo_view(a) + todo_view(b));
    *items = open_items;
}

} // verus!
