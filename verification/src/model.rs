//! The mathematical model of a computation graph: what its tables hold,
//! when they are sound, and how construction, release and traversal change
//! them.

use vstd::prelude::*;
use crate::function::{Unary, backward_of, forward_of};
use crate::operation::{CallRecord, Operation};
use crate::variable::{GradientFunction, VariableView};

verus! {

/// The mathematical content of a [`crate::graph::Graph`].
pub struct GraphView<T> {
    pub vars: Seq<VariableView<T>>,
    pub ops: Seq<Option<Operation>>,
    pub records: Seq<CallRecord>,
}

impl<T> GraphView<T> {
    /// `v` names a variable.
    pub open spec fn has_variable(self, v: int) -> bool {
        0 <= v < self.vars.len()
    }

    /// `op` names an operation instance that exists.
    pub open spec fn has_operation(self, op: int) -> bool {
        0 <= op < self.ops.len() && self.ops[op] is Some
    }

    /// The variable that the operation `op` remembers as the input of its
    /// last call.
    pub open spec fn remembered_input(self, op: int) -> Option<usize> {
        if self.has_operation(op) {
            self.ops[op].unwrap().input
        } else {
            None
        }
    }

    /// What a creator tag resolves to: the record it names, if that record
    /// is of the tag's kind and the operation that owns it still exists.
    pub open spec fn resolve(self, tag: GradientFunction) -> Option<CallRecord> {
        if tag.record() < self.records.len() {
            let rec = self.records[tag.record() as int];
            if rec.kind == tag.kind() && self.has_operation(rec.owner as int) {
                Some(rec)
            } else {
                None
            }
        } else {
            None
        }
    }

    /// The record of the call that produced `v`, if `v` has a creator tag
    /// and the tag resolves.
    pub open spec fn producer(self, v: int) -> Option<CallRecord> {
        if self.has_variable(v) {
            match self.vars[v].creator {
                Some(tag) => self.resolve(tag),
                None => None,
            }
        } else {
            None
        }
    }

    /// The variable at `v` is sound: its data has a length that an array can
    /// have, its gradient is empty or element-aligned, and its creator tag
    /// names the record of the call that produced it.
    pub open spec fn variable_wf(self, v: int) -> bool {
        let var = self.vars[v];
        &&& var.data.len() <= isize::MAX
        &&& (var.grad.len() == 0 || var.is_seeded())
        &&& var.creator matches Some(tag) ==> {
            &&& tag.record() < self.records.len()
            &&& self.records[tag.record() as int].output == v
            &&& self.records[tag.record() as int].kind == tag.kind()
        }
    }

    /// The record at `r` is sound: its owner is a slot of the operation
    /// table, its input is older than its output, both have one shape, the
    /// output carries the tag of this record, and the owner, while it
    /// exists, is of the record's kind.
    pub open spec fn record_wf(self, r: int) -> bool {
        let rec = self.records[r];
        &&& rec.owner < self.ops.len()
        &&& rec.input < rec.output < self.vars.len()
        &&& self.vars[rec.output as int].data.len() == self.vars[rec.input as int].data.len()
        &&& self.vars[rec.output as int].creator == Some(GradientFunction::of(rec.kind, r as usize))
        &&& self.ops[rec.owner as int] matches Some(op) ==> op.kind == rec.kind
    }

    /// The operation slot at `o` is sound: an instance that has been called
    /// remembers the input and output of its last call and the record that
    /// captured them; one that has not been called remembers nothing.
    pub open spec fn operation_wf(self, o: int) -> bool {
        self.ops[o] matches Some(op) ==> match op.record {
            Some(r) => {
                &&& r < self.records.len()
                &&& op.input is Some
                &&& op.output is Some
                &&& self.records[r as int] == (CallRecord {
                    owner: o as usize,
                    kind: op.kind,
                    input: op.input.unwrap(),
                    output: op.output.unwrap(),
                })
            },
            None => op.input is None && op.output is None,
        }
    }

    /// The invariant of the graph: every place in a table is a machine
    /// word, and every variable, record and operation slot is sound.
    pub open spec fn wf(self) -> bool {
        &&& self.vars.len() <= usize::MAX
        &&& self.ops.len() <= usize::MAX
        &&& self.records.len() <= usize::MAX
        &&& forall|v: int| 0 <= v < self.vars.len() ==> #[trigger] self.variable_wf(v)
        &&& forall|r: int| 0 <= r < self.records.len() ==> #[trigger] self.record_wf(r)
        &&& forall|o: int| 0 <= o < self.ops.len() ==> #[trigger] self.operation_wf(o)
    }

    /// `post` differs from this graph in nothing but gradients: the tables
    /// have the same sizes, every variable has the same data and creator,
    /// and operations and records are the same.
    pub open spec fn same_structure(self, post: GraphView<T>) -> bool {
        &&& post.vars.len() == self.vars.len()
        &&& forall|w: int|
            0 <= w < self.vars.len() ==> (#[trigger] post.vars[w]).data == self.vars[w].data
                && post.vars[w].creator == self.vars[w].creator
        &&& post.ops == self.ops
        &&& post.records == self.records
    }

    /// `post` is this graph with the gradient of `v` replaced by `grad`, and
    /// nothing else changed.
    pub open spec fn regraded(self, post: GraphView<T>, v: int, grad: Seq<T>) -> bool {
        &&& self.has_variable(v)
        &&& self.same_structure(post)
        &&& post.vars[v].grad == grad
        &&& forall|w: int| 0 <= w < self.vars.len() && w != v ==> #[trigger] post.vars[w] == self.vars[w]
    }

    /// `post` is this graph after the operation `op` was released: its slot
    /// is empty, and nothing else changed.
    pub open spec fn released(self, post: GraphView<T>, op: int) -> bool {
        &&& self.has_operation(op)
        &&& post.vars == self.vars
        &&& post.records == self.records
        &&& post.ops == self.ops.update(op, None)
    }

    /// Replacing a gradient by an element-aligned one keeps the invariant.
    pub proof fn lemma_regraded_wf(self, post: GraphView<T>, v: int, grad: Seq<T>)
        requires
            self.wf(),
            self.regraded(post, v, grad),
            grad.len() == self.vars[v].data.len(),
        ensures
            post.wf(),
    {
        assert forall|w: int| 0 <= w < post.vars.len() implies #[trigger] post.variable_wf(w) by {
            assert(self.variable_wf(w));
        }
        assert forall|r: int| 0 <= r < post.records.len() implies #[trigger] post.record_wf(r) by {
            assert(self.record_wf(r));
        }
        assert forall|o: int| 0 <= o < post.ops.len() implies #[trigger] post.operation_wf(o) by {
            assert(self.operation_wf(o));
        }
    }

    /// The variables that a traversal from `v` writes to, nearest first: the
    /// input of the call that produced `v`, then the input of the call that
    /// produced that one, and so on, as long as the producer exists.
    pub open spec fn ancestors(self, v: int) -> Seq<int>
        decreases v,
    {
        match self.producer(v) {
            Some(rec) => if rec.input < v {
                seq![rec.input as int] + self.ancestors(rec.input as int)
            } else {
                Seq::empty()
            },
            None => Seq::empty(),
        }
    }

    /// The variables that a traversal from `v` visits, in the order of the
    /// visits: `v`, then its ancestors.
    pub open spec fn lineage(self, v: int) -> Seq<int> {
        seq![v] + self.ancestors(v)
    }

    /// `post` is this graph after one transition of the traversal took
    /// `current` from the work list and put `next` on it.
    ///
    /// A leaf, or a variable whose producer no longer exists, is a dead
    /// end: nothing changes and nothing is put on the list. Otherwise the
    /// gradient of the producer's input is replaced by what the producer's
    /// derivative rule gives for the gradient of `current`, nothing else
    /// changes, and the input goes on the list.
    pub open spec fn stepped<U: Fn(Unary, &T) -> T, M: Fn(&T, &T) -> T>(
        self,
        post: GraphView<T>,
        current: int,
        next: Option<usize>,
        unary: &U,
        times: &M,
    ) -> bool {
        match self.producer(current) {
            None => next is None && post == self,
            Some(rec) => {
                &&& next == Some(rec.input)
                &&& self.regraded(post, rec.input as int, post.vars[rec.input as int].grad)
                &&& backward_of(
                    unary,
                    times,
                    rec.kind,
                    self.vars[rec.input as int].data,
                    self.vars[current].grad,
                    post.vars[rec.input as int].grad,
                )
            },
        }
    }

    /// In `post`, the gradient of `parent` is what the derivative rule of
    /// the call that produced `child` from `parent` gives for the gradient
    /// of `child`.
    pub open spec fn edge_holds<U: Fn(Unary, &T) -> T, M: Fn(&T, &T) -> T>(
        self,
        post: GraphView<T>,
        child: int,
        parent: int,
        unary: &U,
        times: &M,
    ) -> bool {
        backward_of(
            unary,
            times,
            self.producer(child).unwrap().kind,
            self.vars[parent].data,
            post.vars[child].grad,
            post.vars[parent].grad,
        )
    }

    /// `post` is this graph after a traversal from `v`.
    ///
    /// Only gradients change, and only those of the ancestors of `v`. Along
    /// the lineage of `v`, the gradient of each variable after the first is
    /// what the derivative rule of the call that links it to its
    /// predecessor gives for the predecessor's gradient.
    pub open spec fn backpropagated<U: Fn(Unary, &T) -> T, M: Fn(&T, &T) -> T>(
        self,
        post: GraphView<T>,
        v: int,
        unary: &U,
        times: &M,
    ) -> bool {
        &&& self.same_structure(post)
        &&& forall|w: int|
            0 <= w < self.vars.len() && !self.ancestors(v).contains(w) ==> (
            #[trigger] post.vars[w]).grad == self.vars[w].grad
        &&& forall|k: int|
            0 <= k < self.ancestors(v).len() ==> #[trigger] self.edge_at(post, v, k, unary, times)
    }

    /// The `k`-th edge of the lineage of `v` holds in `post`: see
    /// [`GraphView::edge_holds`].
    pub open spec fn edge_at<U: Fn(Unary, &T) -> T, M: Fn(&T, &T) -> T>(
        self,
        post: GraphView<T>,
        v: int,
        k: int,
        unary: &U,
        times: &M,
    ) -> bool {
        let path = self.lineage(v);
        self.edge_holds(post, path[k], path[k + 1], unary, times)
    }

    /// Under the invariant, the producer of a variable consumed an older
    /// variable of the same shape.
    pub proof fn lemma_producer(self, v: int)
        requires
            self.wf(),
            self.producer(v) is Some,
        ensures
            self.producer(v).unwrap().output == v,
            self.producer(v).unwrap().input < v,
            self.has_variable(self.producer(v).unwrap().input as int),
            self.vars[self.producer(v).unwrap().input as int].data.len()
                == self.vars[v].data.len(),
    {
        let tag = self.vars[v].creator.unwrap();
        assert(self.variable_wf(v));
        assert(self.record_wf(tag.record() as int));
    }

    /// Every ancestor of `v` is a variable older than `v`, and each ancestor
    /// is older than the one before it: no variable occurs twice in a
    /// lineage.
    pub proof fn lemma_ancestors_descend(self, v: int)
        ensures
            forall|j: int|
                0 <= j < self.ancestors(v).len() ==> 0 <= #[trigger] self.ancestors(v)[j] < v,
            forall|i: int, j: int|
                0 <= i < j < self.ancestors(v).len() ==> self.ancestors(v)[j] < self.ancestors(
                    v,
                )[i],
        decreases v,
    {
        match self.producer(v) {
            Some(rec) => {
                if rec.input < v {
                    let u = rec.input as int;
                    self.lemma_ancestors_descend(u);
                    let rest = self.ancestors(u);
                    assert forall|j: int| 0 <= j < self.ancestors(v).len() implies 0
                        <= #[trigger] self.ancestors(v)[j] < v by {
                        if j > 0 {
                            assert(self.ancestors(v)[j] == rest[j - 1]);
                        }
                    }
                    assert forall|i: int, j: int|
                        0 <= i < j < self.ancestors(v).len() implies self.ancestors(v)[j]
                        < self.ancestors(v)[i] by {
                        assert(self.ancestors(v)[j] == rest[j - 1]);
                        if i > 0 {
                            assert(self.ancestors(v)[i] == rest[i - 1]);
                        }
                    }
                }
            },
            None => {},
        }
    }

    /// Graphs that differ only in gradients resolve every tag alike, so
    /// every variable has the same producer and the same ancestors in both.
    pub proof fn lemma_same_structure_same_ancestors(self, post: GraphView<T>, v: int)
        requires
            self.same_structure(post),
        ensures
            post.producer(v) == self.producer(v),
            post.ancestors(v) == self.ancestors(v),
        decreases v,
    {
        match self.producer(v) {
            Some(rec) => {
                if rec.input < v {
                    self.lemma_same_structure_same_ancestors(post, rec.input as int);
                }
            },
            None => {},
        }
    }

    /// `post` is this graph after `op` was called on `input` and produced the
    /// new variable `out`.
    ///
    /// Every variable that existed keeps its data, gradient and creator. The
    /// new variable holds an output of the operation's forward map on the
    /// input's data, has an empty gradient and carries the tag of the new
    /// record. The operation remembers `input`, `out` and the new record. No
    /// other operation and no earlier record changes.
    pub open spec fn called<U: Fn(Unary, &T) -> T>(
        self,
        post: GraphView<T>,
        op: int,
        input: int,
        out: int,
        unary: &U,
    ) -> bool {
        let kind = self.ops[op].unwrap().kind;
        let place = self.records.len() as usize;
        &&& self.has_operation(op)
        &&& self.has_variable(input)
        &&& out == self.vars.len()
        &&& post.vars.len() == self.vars.len() + 1
        &&& forall|w: int| 0 <= w < self.vars.len() ==> #[trigger] post.vars[w] == self.vars[w]
        &&& forward_of(unary, kind, self.vars[input].data, post.vars[out].data)
        &&& post.vars[out].grad.len() == 0
        &&& post.vars[out].creator == Some(GradientFunction::of(kind, place))
        &&& post.records == self.records.push(
            CallRecord { owner: op as usize, kind, input: input as usize, output: out as usize },
        )
        &&& post.ops == self.ops.update(
            op,
            Some(
                Operation {
                    kind,
                    input: Some(input as usize),
                    output: Some(out as usize),
                    record: Some(place),
                },
            ),
        )
    }
}

} // verus!
