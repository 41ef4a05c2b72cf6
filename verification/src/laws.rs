//! What holds of every graph: how construction, release and traversal
//! relate to each other.

use vstd::prelude::*;
use crate::function::{Kind, Unary, backward_of, forward_of};
use crate::model::GraphView;
use crate::operation::CallRecord;

verus! {

/// A traversal from a leaf is a no-op: a leaf has no producer and no
/// ancestors, so the graph after the traversal is the graph before it.
pub proof fn leaf_traversal_changes_nothing<T, U: Fn(Unary, &T) -> T, M: Fn(&T, &T) -> T>(
    pre: GraphView<T>,
    post: GraphView<T>,
    v: int,
    unary: &U,
    times: &M,
)
    requires
        pre.has_variable(v),
        pre.vars[v].is_leaf(),
        pre.backpropagated(post, v, unary, times),
    ensures
        pre.producer(v) is None,
        pre.ancestors(v) == Seq::<int>::empty(),
        post == pre,
{
    dead_end_traversal_changes_nothing(pre, post, v, unary, times);
}

/// A traversal from a variable without a resolvable producer, be it a leaf
/// or a variable whose producer was released, changes nothing.
pub proof fn dead_end_traversal_changes_nothing<T, U: Fn(Unary, &T) -> T, M: Fn(&T, &T) -> T>(
    pre: GraphView<T>,
    post: GraphView<T>,
    v: int,
    unary: &U,
    times: &M,
)
    requires
        pre.producer(v) is None,
        pre.backpropagated(post, v, unary, times),
    ensures
        pre.ancestors(v) == Seq::<int>::empty(),
        post == pre,
{
    assert(post.vars =~= pre.vars);
}

/// A later call, on the same operation or on another, alters nothing that
/// an earlier call produced: the earlier output keeps its data, its gradient
/// and its creator tag, and the tag still resolves to the record of the
/// earlier call, with the earlier input.
pub proof fn later_call_keeps_earlier_output<T, U: Fn(Unary, &T) -> T>(
    pre: GraphView<T>,
    mid: GraphView<T>,
    post: GraphView<T>,
    first_op: int,
    first_input: int,
    first_out: int,
    second_op: int,
    second_input: int,
    second_out: int,
    unary: &U,
)
    requires
        pre.wf(),
        mid.wf(),
        pre.called(mid, first_op, first_input, first_out, unary),
        mid.called(post, second_op, second_input, second_out, unary),
    ensures
        post.vars[first_out] == mid.vars[first_out],
        post.producer(first_out) == mid.producer(first_out),
        post.producer(first_out) == Some(
            CallRecord {
                owner: first_op as usize,
                kind: pre.ops[first_op].unwrap().kind,
                input: first_input as usize,
                output: first_out as usize,
            },
        ),
{
}

/// Once an operation is released, the creator tag of everything it
/// produced no longer resolves: a traversal that reaches such a variable
/// finds a dead end there. Tags of other operations resolve as before.
pub proof fn released_producer_is_dead_end<T>(
    pre: GraphView<T>,
    post: GraphView<T>,
    op: int,
    v: int,
)
    requires
        pre.wf(),
        pre.released(post, op),
    ensures
        pre.producer(v) matches Some(rec) && rec.owner == op ==> post.producer(v) is None
            && post.ancestors(v) == Seq::<int>::empty(),
        pre.producer(v) matches Some(rec) && rec.owner != op ==> post.producer(v)
            == pre.producer(v),
        pre.producer(v) is None ==> post.producer(v) is None,
{
}

/// The lineage of a variable follows producers: each variable but the last
/// has a producer whose input is the next variable, and the last has none.
/// So a traversal ends exactly at the first leaf or released producer.
pub proof fn lineage_follows_producers<T>(g: GraphView<T>, v: int)
    requires
        g.wf(),
    ensures
        forall|k: int|
            0 <= k < g.ancestors(v).len() ==> ((#[trigger] g.producer(g.lineage(v)[k])) matches Some(
                rec,
            ) && rec.input == g.lineage(v)[k + 1]),
        g.producer(g.lineage(v).last()) is None,
    decreases v,
{
    match g.producer(v) {
        Some(rec) => {
            g.lemma_producer(v);
            let u = rec.input as int;
            lineage_follows_producers(g, u);
            assert forall|k: int| 0 <= k < g.ancestors(v).len() implies ((#[trigger] g.producer(
                g.lineage(v)[k],
            )) matches Some(r) && r.input == g.lineage(v)[k + 1]) by {
                if k > 0 {
                    assert(g.lineage(v)[k] == g.lineage(u)[k - 1]);
                }
            }
        },
        None => {},
    }
}

/// A traversal visits each variable at most once: along a lineage the
/// handles strictly decrease, so no variable occurs twice.
pub proof fn lineage_has_no_repeats<T>(g: GraphView<T>, v: int)
    ensures
        forall|i: int, j: int|
            0 <= i < j < g.lineage(v).len() ==> g.lineage(v)[j] < g.lineage(v)[i],
        forall|i: int, j: int|
            0 <= i < g.lineage(v).len() && 0 <= j < g.lineage(v).len() && i != j ==> g.lineage(
                v,
            )[i] != g.lineage(v)[j],
{
    g.lemma_ancestors_descend(v);
    let path = g.lineage(v);
    assert forall|i: int, j: int| 0 <= i < j < path.len() implies path[j] < path[i] by {
        assert(path[j] == g.ancestors(v)[j - 1]);
    }
    assert forall|i: int, j: int|
        0 <= i < path.len() && 0 <= j < path.len() && i != j implies path[i] != path[j] by {
        assert(i < j || j < i);
    }
}

/// What forward construction records is what the traversal walks: after a
/// call, the lineage of the output is the output followed by the lineage of
/// the input, and the lineage of every older variable is as it was.
pub proof fn call_extends_lineage<T, U: Fn(Unary, &T) -> T>(
    pre: GraphView<T>,
    post: GraphView<T>,
    op: int,
    input: int,
    out: int,
    unary: &U,
)
    requires
        pre.wf(),
        pre.called(post, op, input, out, unary),
    ensures
        post.producer(out) == Some(
            CallRecord {
                owner: op as usize,
                kind: pre.ops[op].unwrap().kind,
                input: input as usize,
                output: out as usize,
            },
        ),
        post.lineage(out) == seq![out] + pre.lineage(input),
        forall|w: int| 0 <= w < out ==> post.lineage(w) == pre.lineage(w),
{
    assert forall|w: int| 0 <= w < out implies post.ancestors(w) == pre.ancestors(w)
        && post.producer(w) == pre.producer(w) by {
        lemma_call_keeps_ancestors(pre, post, op, input, out, unary, w);
    }
}

/// A call changes neither the producer nor the ancestors of a variable that
/// existed before it.
proof fn lemma_call_keeps_ancestors<T, U: Fn(Unary, &T) -> T>(
    pre: GraphView<T>,
    post: GraphView<T>,
    op: int,
    input: int,
    out: int,
    unary: &U,
    w: int,
)
    requires
        pre.wf(),
        pre.called(post, op, input, out, unary),
        0 <= w < out,
    ensures
        post.producer(w) == pre.producer(w),
        post.ancestors(w) == pre.ancestors(w),
    decreases w,
{
    assert(pre.variable_wf(w));
    match pre.vars[w].creator {
        Some(tag) => {
            let r = tag.record() as int;
            assert(post.has_operation(pre.records[r].owner as int) == pre.has_operation(
                pre.records[r].owner as int,
            ));
        },
        None => {},
    }
    match pre.producer(w) {
        Some(rec) => {
            if rec.input < w {
                lemma_call_keeps_ancestors(pre, post, op, input, out, unary, rec.input as int);
            }
        },
        None => {},
    }
}

/// As long as an operation has not been called again, the traversal uses
/// for its output the input that the operation itself remembers: the
/// gradient it stores is one that the operation's own derivative rule gives
/// by hand.
pub proof fn traversal_uses_remembered_input<T>(g: GraphView<T>, v: int)
    requires
        g.wf(),
        g.producer(v) matches Some(rec) && g.ops[rec.owner as int].unwrap().output == Some(
            v as usize,
        ),
    ensures
        g.remembered_input(g.producer(v).unwrap().owner as int) == Some(
            g.producer(v).unwrap().input,
        ),
        g.ops[g.producer(v).unwrap().owner as int].unwrap().kind == g.producer(v).unwrap().kind,
{
    let owner = g.producer(v).unwrap().owner as int;
    assert(g.operation_wf(owner));
    assert(g.record_wf(g.ops[owner].unwrap().record.unwrap() as int));
}

/// A traversal overwrites and never accumulates: what it leaves in the
/// ancestors does not depend on the gradients they held before. Two graphs
/// that differ only in the earlier gradients of the ancestors of `v` have
/// the same outcomes of a traversal from `v`.
pub proof fn traversal_ignores_earlier_gradients<T, U: Fn(Unary, &T) -> T, M: Fn(&T, &T) -> T>(
    pre: GraphView<T>,
    other: GraphView<T>,
    post: GraphView<T>,
    v: int,
    unary: &U,
    times: &M,
)
    requires
        pre.same_structure(other),
        forall|w: int|
            0 <= w < pre.vars.len() && !pre.ancestors(v).contains(w) ==> (
            #[trigger] other.vars[w]).grad == pre.vars[w].grad,
        pre.backpropagated(post, v, unary, times),
    ensures
        other.backpropagated(post, v, unary, times),
{
    pre.lemma_same_structure_same_ancestors(other, v);
    assert forall|k: int| 0 <= k < other.ancestors(v).len() implies #[trigger] other.edge_at(
        post,
        v,
        k,
        unary,
        times,
    ) by {
        assert(pre.edge_at(post, v, k, unary, times));
        pre.lemma_ancestors_descend(v);
        pre.lemma_same_structure_same_ancestors(other, pre.lineage(v)[k]);
        assert(other.vars[pre.lineage(v)[k + 1]].data == pre.vars[pre.lineage(v)[k + 1]].data);
    }
    assert forall|w: int| 0 <= w < other.vars.len() implies (#[trigger] post.vars[w]).data
        == other.vars[w].data && post.vars[w].creator == other.vars[w].creator by {
        assert(other.vars[w].data == pre.vars[w].data);
    }
}

/// All variables of a lineage have one shape.
pub proof fn lineage_has_one_shape<T>(g: GraphView<T>, v: int)
    requires
        g.wf(),
        g.has_variable(v),
    ensures
        forall|j: int|
            0 <= j < g.ancestors(v).len() ==> g.has_variable(#[trigger] g.ancestors(v)[j])
                && g.vars[g.ancestors(v)[j]].data.len() == g.vars[v].data.len(),
    decreases v,
{
    match g.producer(v) {
        Some(rec) => {
            g.lemma_producer(v);
            let u = rec.input as int;
            lineage_has_one_shape(g, u);
            assert forall|j: int| 0 <= j < g.ancestors(v).len() implies g.has_variable(
                #[trigger] g.ancestors(v)[j],
            ) && g.vars[g.ancestors(v)[j]].data.len() == g.vars[v].data.len() by {
                if j > 0 {
                    assert(g.ancestors(v)[j] == g.ancestors(u)[j - 1]);
                }
            }
        },
        None => {},
    }
}

/// After a traversal every ancestor holds a gradient that is
/// element-aligned with its data, which has the shape of the data the
/// traversal started from.
pub proof fn traversal_aligns_gradients<T, U: Fn(Unary, &T) -> T, M: Fn(&T, &T) -> T>(
    pre: GraphView<T>,
    post: GraphView<T>,
    v: int,
    unary: &U,
    times: &M,
)
    requires
        pre.wf(),
        pre.has_variable(v),
        pre.backpropagated(post, v, unary, times),
    ensures
        forall|j: int|
            0 <= j < pre.ancestors(v).len() ==> (#[trigger] post.vars[pre.ancestors(
                v,
            )[j]]).grad.len() == pre.vars[v].data.len(),
{
    lineage_has_one_shape(pre, v);
    assert forall|j: int| 0 <= j < pre.ancestors(v).len() implies (#[trigger] post.vars[pre.ancestors(
        v,
    )[j]]).grad.len() == pre.vars[v].data.len() by {
        assert(pre.edge_at(post, v, j, unary, times));
    }
}

/// Zero-length data round-trips: the forward map of empty data is empty,
/// the gradient passed down for an empty input is empty, a variable with
/// empty data always counts as seeded, and after a traversal from it every
/// ancestor holds an empty gradient.
pub proof fn empty_data_round_trips<T, U: Fn(Unary, &T) -> T, M: Fn(&T, &T) -> T>(
    pre: GraphView<T>,
    post: GraphView<T>,
    v: int,
    unary: &U,
    times: &M,
)
    requires
        pre.wf(),
        pre.has_variable(v),
        pre.vars[v].data.len() == 0,
    ensures
        pre.vars[v].is_seeded(),
        forall|kind: Kind, y: Seq<T>| #[trigger]
            forward_of(unary, kind, pre.vars[v].data, y) ==> y.len() == 0,
        forall|kind: Kind, gy: Seq<T>, gx: Seq<T>| #[trigger]
            backward_of(unary, times, kind, pre.vars[v].data, gy, gx) ==> gx.len() == 0,
        pre.backpropagated(post, v, unary, times) ==> forall|j: int|
            0 <= j < pre.ancestors(v).len() ==> (#[trigger] post.vars[pre.ancestors(
                v,
            )[j]]).grad.len() == 0,
{
    assert(pre.variable_wf(v));
    if pre.backpropagated(post, v, unary, times) {
        traversal_aligns_gradients(pre, post, v, unary, times);
    }
}

} // verus!
