//! The arena that holds a computation graph, the protocol that builds it and
//! the traversal that propagates gradients through it.

use vstd::prelude::*;
use crate::function::{
    Kind, Unary, backward, backward_of, forward, forward_defined, times_total, unary_total,
};
use crate::model::GraphView;
use crate::operation::{CallRecord, Operation};
use crate::variable::{GradientFunction, Variable, VariableView};

verus! {

/// Why the graph refused a request.
#[derive(Clone, Copy, Debug, PartialEq, Eq)]
pub enum GraphError {
    /// The handle names no variable of this graph.
    UnknownVariable,
    /// The handle names no operation of this graph, or one that was released.
    UnknownOperation,
    /// A gradient is not element-aligned with the data it belongs to.
    ShapeMismatch,
    /// The operation has not been called, so it remembers no input.
    NotCalled,
}

/// A computation graph.
///
/// Variables, operation instances and call records live in three tables and
/// are named by their places in them. A variable's handle and an operation's
/// handle stay valid for the life of the graph. Releasing an operation
/// empties its slot; the records of its calls then resolve to nothing.
pub struct Graph<T> {
    vars: Vec<Variable<T>>,
    ops: Vec<Option<Operation>>,
    records: Vec<CallRecord>,
}

impl<T> View for Graph<T> {
    type V = GraphView<T>;

    closed spec fn view(&self) -> GraphView<T> {
        GraphView {
            vars: Seq::new(self.vars@.len(), |i: int| self.vars@[i]@),
            ops: self.ops@,
            records: self.records@,
        }
    }
}

impl<T> Graph<T> {
    /// An empty graph.
    pub fn new() -> (g: Graph<T>)
        ensures
            g@.wf(),
            g@.vars.len() == 0,
            g@.ops.len() == 0,
            g@.records.len() == 0,
    {
        Graph { vars: Vec::new(), ops: Vec::new(), records: Vec::new() }
    }

    /// Adds a leaf that holds `data` and returns its handle.
    pub fn variable(&mut self, data: Vec<T>) -> (v: usize)
        requires
            old(self)@.wf(),
            data.len() <= isize::MAX,
        ensures
            final(self)@.wf(),
            v == old(self)@.vars.len(),
            final(self)@.vars.len() == old(self)@.vars.len() + 1,
            forall|w: int|
                0 <= w < old(self)@.vars.len() ==> #[trigger] final(self)@.vars[w] == old(
                    self,
                )@.vars[w],
            final(self)@.vars[v as int] == (VariableView {
                data: data@,
                grad: Seq::empty(),
                creator: None,
            }),
            final(self)@.ops == old(self)@.ops,
            final(self)@.records == old(self)@.records,
    {
        let v = self.vars.len();
        self.vars.push(Variable::new(data));
        proof {
            assert(self.vars@.len() == self.vars.len());
            let pre = old(self)@;
            let post = self@;
            assert forall|w: int| 0 <= w < post.vars.len() implies #[trigger] post.variable_wf(
                w,
            ) by {
                if w < pre.vars.len() {
                    assert(pre.variable_wf(w));
                }
            }
            assert forall|r: int| 0 <= r < post.records.len() implies #[trigger] post.record_wf(
                r,
            ) by {
                assert(pre.record_wf(r));
            }
            assert forall|o: int| 0 <= o < post.ops.len() implies #[trigger] post.operation_wf(
                o,
            ) by {
                assert(pre.operation_wf(o));
            }
        }
        v
    }

    /// Adds an operation instance of `kind` that has not been called and
    /// returns its handle.
    pub fn operation(&mut self, kind: Kind) -> (op: usize)
        requires
            old(self)@.wf(),
        ensures
            final(self)@.wf(),
            op == old(self)@.ops.len(),
            final(self)@.ops == old(self)@.ops.push(Some(Operation::new(kind))),
            final(self)@.vars == old(self)@.vars,
            final(self)@.records == old(self)@.records,
    {
        let op = self.ops.len();
        self.ops.push(Some(Operation::new(kind)));
        proof {
            assert(self.ops@.len() == self.ops.len());
            let pre = old(self)@;
            let post = self@;
            assert forall|w: int| 0 <= w < post.vars.len() implies #[trigger] post.variable_wf(
                w,
            ) by {
                assert(pre.variable_wf(w));
            }
            assert forall|r: int| 0 <= r < post.records.len() implies #[trigger] post.record_wf(
                r,
            ) by {
                assert(pre.record_wf(r));
            }
            assert forall|o: int| 0 <= o < post.ops.len() implies #[trigger] post.operation_wf(
                o,
            ) by {
                if o < pre.ops.len() {
                    assert(pre.operation_wf(o));
                }
            }
        }
        op
    }

    /// Calls the operation `op` on the variable `input`: the one instruction
    /// that builds the graph.
    ///
    /// Computes the output with the forward map of the operation's kind, has
    /// the operation remember first the input and then the output, captures
    /// both in a new call record, attaches the tag of that record to the
    /// output, and returns the output's handle.
    ///
    /// Fails with `UnknownOperation` exactly when `op` names no existing
    /// operation, and otherwise with `UnknownVariable` exactly when `input`
    /// names no variable. A failed call changes nothing.
    pub fn call<U: Fn(Unary, &T) -> T>(&mut self, op: usize, input: usize, unary: &U) -> (r: Result<
        usize,
        GraphError,
    >)
        requires
            old(self)@.wf(),
            old(self)@.has_operation(op as int) && old(self)@.has_variable(input as int)
                ==> forward_defined(
                unary,
                old(self)@.ops[op as int].unwrap().kind,
                old(self)@.vars[input as int].data,
            ),
        ensures
            final(self)@.wf(),
            r is Ok <==> old(self)@.has_operation(op as int) && old(self)@.has_variable(input as int),
            r is Err ==> final(self)@ == old(self)@,
            r == Err::<usize, GraphError>(GraphError::UnknownOperation) <==> !old(
                self,
            )@.has_operation(op as int),
            r == Err::<usize, GraphError>(GraphError::UnknownVariable) <==> old(
                self,
            )@.has_operation(op as int) && !old(self)@.has_variable(input as int),
            r matches Ok(out) ==> old(self)@.called(final(self)@, op as int, input as int, out as int, unary),
    {
        if op >= self.ops.len() {
            return Err(GraphError::UnknownOperation);
        }
        let mut instance = match self.ops[op] {
            Some(instance) => instance,
            None => {
                return Err(GraphError::UnknownOperation);
            },
        };
        if input >= self.vars.len() {
            return Err(GraphError::UnknownVariable);
        }
        let kind = instance.kind;
        proof {
            assert(self@.variable_wf(input as int));
        }
        let mut output = Variable::new(forward(kind, &self.vars[input].data, unary));
        let out = self.vars.len();
        instance.update_input(input);
        instance.update_output(out);
        match instance.get_creator(op, &mut self.records) {
            Some(tag) => output.set_creator(tag),
            None => {},
        }
        self.vars.push(output);
        self.ops[op] = Some(instance);
        proof {
            assert(self.vars@.len() == self.vars.len());
            assert(self.records@.len() == self.records.len());
            let pre = old(self)@;
            let post = self@;
            let place = pre.records.len() as int;
            assert forall|w: int| 0 <= w < post.vars.len() implies #[trigger] post.variable_wf(
                w,
            ) by {
                if w < pre.vars.len() {
                    assert(pre.variable_wf(w));
                }
            }
            assert forall|r: int| 0 <= r < post.records.len() implies #[trigger] post.record_wf(
                r,
            ) by {
                if r < place {
                    assert(pre.record_wf(r));
                }
            }
            assert forall|o: int| 0 <= o < post.ops.len() implies #[trigger] post.operation_wf(
                o,
            ) by {
                assert(pre.operation_wf(o));
            }
        }
        Ok(out)
    }

    /// The number of variables.
    pub fn len(&self) -> (n: usize)
        ensures
            n == self@.vars.len(),
    {
        self.vars.len()
    }

    /// The variable that `v` names, if it names one.
    pub fn get(&self, v: usize) -> (var: Option<&Variable<T>>)
        ensures
            var is Some <==> self@.has_variable(v as int),
            var matches Some(x) ==> x@ == self@.vars[v as int],
    {
        if v < self.vars.len() {
            Some(&self.vars[v])
        } else {
            None
        }
    }

    /// The operation instance that `op` names, if it exists.
    pub fn instance(&self, op: usize) -> (state: Option<Operation>)
        ensures
            state == if self@.has_operation(op as int) {
                self@.ops[op as int]
            } else {
                None
            },
    {
        if op < self.ops.len() {
            self.ops[op]
        } else {
            None
        }
    }

    /// Resolves a creator tag: the record it names, or `None` when the
    /// producer no longer exists or the tag names no record of this graph.
    pub fn resolve(&self, tag: GradientFunction) -> (rec: Option<CallRecord>)
        ensures
            rec == self@.resolve(tag),
    {
        let place = tag.record();
        if place >= self.records.len() {
            return None;
        }
        let rec = self.records[place];
        if rec.kind == tag.kind() && rec.owner < self.ops.len() && self.ops[rec.owner].is_some() {
            Some(rec)
        } else {
            None
        }
    }

    /// Seeds the gradient of `v`.
    ///
    /// Fails with `UnknownVariable` exactly when `v` names no variable, and
    /// otherwise with `ShapeMismatch` exactly when `grad` is not
    /// element-aligned with the variable's data. A failed call changes
    /// nothing; a successful one changes the gradient of `v` and nothing
    /// else.
    pub fn seed(&mut self, v: usize, grad: Vec<T>) -> (r: Result<(), GraphError>)
        requires
            old(self)@.wf(),
        ensures
            final(self)@.wf(),
            r is Ok <==> old(self)@.has_variable(v as int) && grad@.len() == old(
                self,
            )@.vars[v as int].data.len(),
            r is Err ==> final(self)@ == old(self)@,
            r == Err::<(), GraphError>(GraphError::UnknownVariable) <==> !old(self)@.has_variable(
                v as int,
            ),
            r == Err::<(), GraphError>(GraphError::ShapeMismatch) <==> old(self)@.has_variable(
                v as int,
            ) && grad@.len() != old(self)@.vars[v as int].data.len(),
            r is Ok ==> old(self)@.regraded(final(self)@, v as int, grad@),
    {
        if v >= self.vars.len() {
            return Err(GraphError::UnknownVariable);
        }
        if grad.len() != self.vars[v].data.len() {
            return Err(GraphError::ShapeMismatch);
        }
        self.vars[v].grad = grad;
        proof {
            old(self)@.lemma_regraded_wf(self@, v as int, grad@);
        }
        Ok(())
    }

    /// Releases the operation instance `op`: its slot is emptied, and every
    /// tag that names a record of one of its calls resolves to nothing from
    /// now on.
    ///
    /// Fails with `UnknownOperation`, and changes nothing, exactly when `op`
    /// names no existing operation.
    pub fn release(&mut self, op: usize) -> (r: Result<(), GraphError>)
        requires
            old(self)@.wf(),
        ensures
            final(self)@.wf(),
            r is Ok <==> old(self)@.has_operation(op as int),
            r is Err ==> final(self)@ == old(self)@,
            r is Err ==> r == Err::<(), GraphError>(GraphError::UnknownOperation),
            r is Ok ==> old(self)@.released(final(self)@, op as int),
    {
        if op >= self.ops.len() || self.ops[op].is_none() {
            return Err(GraphError::UnknownOperation);
        }
        self.ops[op] = None;
        proof {
            let pre = old(self)@;
            let post = self@;
            assert forall|w: int| 0 <= w < post.vars.len() implies #[trigger] post.variable_wf(
                w,
            ) by {
                assert(pre.variable_wf(w));
            }
            assert forall|r: int| 0 <= r < post.records.len() implies #[trigger] post.record_wf(
                r,
            ) by {
                assert(pre.record_wf(r));
            }
            assert forall|o: int| 0 <= o < post.ops.len() implies #[trigger] post.operation_wf(
                o,
            ) by {
                assert(pre.operation_wf(o));
            }
        }
        Ok(())
    }

    /// The gradient that the operation `op` passes down for the upstream
    /// gradient `gy`, by the derivative rule of its kind at the input it
    /// remembers from its last call. The graph is not changed.
    ///
    /// Fails with `UnknownOperation` exactly when `op` names no existing
    /// operation, otherwise with `NotCalled` exactly when the operation
    /// remembers no input, and otherwise with `ShapeMismatch` exactly when
    /// `gy` is not element-aligned with the data of the remembered input.
    pub fn backward_through<U: Fn(Unary, &T) -> T, M: Fn(&T, &T) -> T>(
        &self,
        op: usize,
        gy: &Vec<T>,
        unary: &U,
        times: &M,
    ) -> (r: Result<Vec<T>, GraphError>)
        requires
            self@.wf(),
            unary_total(unary),
            times_total(times),
        ensures
            r == Err::<Vec<T>, GraphError>(GraphError::UnknownOperation) <==> !self@.has_operation(
                op as int,
            ),
            r == Err::<Vec<T>, GraphError>(GraphError::NotCalled) <==> self@.has_operation(
                op as int,
            ) && self@.ops[op as int].unwrap().input is None,
            r == Err::<Vec<T>, GraphError>(GraphError::ShapeMismatch) <==> (self@.remembered_input(
                op as int,
            ) matches Some(x) && gy@.len() != self@.vars[x as int].data.len()),
            r is Ok <==> (self@.remembered_input(op as int) matches Some(x) && gy@.len()
                == self@.vars[x as int].data.len()),
            r matches Ok(gx) ==> (self@.remembered_input(op as int) matches Some(x) && backward_of(
                unary,
                times,
                self@.ops[op as int].unwrap().kind,
                self@.vars[x as int].data,
                gy@,
                gx@,
            )),
    {
        if op >= self.ops.len() {
            return Err(GraphError::UnknownOperation);
        }
        let instance = match self.ops[op] {
            Some(instance) => instance,
            None => {
                return Err(GraphError::UnknownOperation);
            },
        };
        let x = match instance.input {
            Some(x) => x,
            None => {
                return Err(GraphError::NotCalled);
            },
        };
        proof {
            assert(self@.operation_wf(op as int));
            assert(self@.record_wf(instance.record.unwrap() as int));
            assert(self@.variable_wf(x as int));
        }
        match backward(instance.kind, &self.vars[x].data, gy, unary, times) {
            Ok(gx) => Ok(gx),
            Err(_) => Err(GraphError::ShapeMismatch),
        }
    }

    /// One transition of the traversal: processes the variable `current`
    /// that was taken from the work list and returns the variable to put on
    /// it, if there is one.
    ///
    /// A leaf is a dead end, and so is a variable whose creator tag does not
    /// resolve because its producer no longer exists: nothing changes and
    /// nothing is returned. Otherwise the derivative rule of the producing
    /// call turns the gradient of `current` into the gradient of the call's
    /// input, which overwrites the one stored there, and the input is
    /// returned.
    ///
    /// Fails with `UnknownVariable` exactly when `current` names no
    /// variable, and with `ShapeMismatch` exactly when `current` has a
    /// producer but its gradient is not element-aligned with its data. A
    /// failed call changes nothing.
    pub fn step<U: Fn(Unary, &T) -> T, M: Fn(&T, &T) -> T>(
        &mut self,
        current: usize,
        unary: &U,
        times: &M,
    ) -> (r: Result<Option<usize>, GraphError>)
        requires
            old(self)@.wf(),
            unary_total(unary),
            times_total(times),
        ensures
            final(self)@.wf(),
            r is Ok <==> old(self)@.has_variable(current as int) && (old(self)@.producer(
                current as int,
            ) is None || old(self)@.vars[current as int].is_seeded()),
            r is Err ==> final(self)@ == old(self)@,
            r == Err::<Option<usize>, GraphError>(GraphError::UnknownVariable) <==> !old(
                self,
            )@.has_variable(current as int),
            r == Err::<Option<usize>, GraphError>(GraphError::ShapeMismatch) <==> old(
                self,
            )@.producer(current as int) is Some && !old(self)@.vars[current as int].is_seeded(),
            r matches Ok(next) ==> old(self)@.stepped(
                final(self)@,
                current as int,
                next,
                unary,
                times,
            ),
    {
        if current >= self.vars.len() {
            return Err(GraphError::UnknownVariable);
        }
        let tag = match self.vars[current].creator {
            Some(tag) => tag,
            None => {
                return Ok(None);
            },
        };
        let rec = match self.resolve(tag) {
            Some(rec) => rec,
            None => {
                return Ok(None);
            },
        };
        proof {
            self@.lemma_producer(current as int);
            assert(self@.variable_wf(rec.input as int));
        }
        let gx = match backward(
            rec.kind,
            &self.vars[rec.input].data,
            &self.vars[current].grad,
            unary,
            times,
        ) {
            Ok(gx) => gx,
            Err(_) => {
                return Err(GraphError::ShapeMismatch);
            },
        };
        self.vars[rec.input].grad = gx;
        proof {
            old(self)@.lemma_regraded_wf(self@, rec.input as int, gx@);
        }
        Ok(Some(rec.input))
    }

    /// Propagates the gradient of `v` to its ancestors.
    ///
    /// The work list starts with `v` alone. Each turn takes a variable from
    /// it and makes one transition ([`Graph::step`]), until the list is
    /// empty. The traversal follows creator tags only, so it visits the
    /// lineage of `v` in order, each variable once, and ends at the first
    /// leaf or at the first variable whose producer no longer exists.
    ///
    /// Afterwards each ancestor holds the gradient that the derivative rule
    /// of the call linking it to its successor gives for the successor's
    /// gradient; an earlier gradient of an ancestor is overwritten. Nothing
    /// else changes: in particular a traversal from a leaf, or from a
    /// variable whose producer was released, changes nothing at all.
    ///
    /// Fails with `UnknownVariable` exactly when `v` names no variable, and
    /// with `ShapeMismatch` exactly when `v` has a producer but its gradient
    /// has not been seeded element-aligned with its data. A failed call
    /// changes nothing.
    pub fn backward<U: Fn(Unary, &T) -> T, M: Fn(&T, &T) -> T>(
        &mut self,
        v: usize,
        unary: &U,
        times: &M,
    ) -> (r: Result<(), GraphError>)
        requires
            old(self)@.wf(),
            unary_total(unary),
            times_total(times),
        ensures
            final(self)@.wf(),
            r is Ok <==> old(self)@.has_variable(v as int) && (old(self)@.producer(v as int) is None
                || old(self)@.vars[v as int].is_seeded()),
            r is Err ==> final(self)@ == old(self)@,
            r == Err::<(), GraphError>(GraphError::UnknownVariable) <==> !old(self)@.has_variable(
                v as int,
            ),
            r == Err::<(), GraphError>(GraphError::ShapeMismatch) <==> old(self)@.producer(
                v as int,
            ) is Some && !old(self)@.vars[v as int].is_seeded(),
            r is Ok ==> old(self)@.backpropagated(final(self)@, v as int, unary, times),
            r is Ok && old(self)@.producer(v as int) is None ==> final(self)@ == old(self)@,
    {
        if v >= self.vars.len() {
            return Err(GraphError::UnknownVariable);
        }
        let ghost pre = self@;
        let ghost anc = pre.ancestors(v as int);
        let ghost path = pre.lineage(v as int);
        let ghost mut k: int = 0;
        let mut stack: Vec<usize> = Vec::new();
        stack.push(v);
        proof {
            pre.lemma_ancestors_descend(v as int);
        }
        while stack.len() > 0
            invariant
                pre == old(self)@,
                pre.wf(),
                self@.wf(),
                unary_total(unary),
                times_total(times),
                pre.has_variable(v as int),
                anc == pre.ancestors(v as int),
                path == pre.lineage(v as int),
                pre.same_structure(self@),
                0 <= k <= anc.len(),
                stack@.len() <= 1,
                stack@.len() == 0 ==> k == anc.len(),
                stack@.len() == 1 ==> stack@[0] == path[k] && pre.ancestors(path[k]) =~= anc.skip(k),
                k == 0 ==> self@ == pre,
                k > 0 ==> self@.vars[path[k]].is_seeded(),
                k > 0 || stack@.len() == 0 ==> !(pre.producer(v as int) is Some
                    && !pre.vars[v as int].is_seeded()),
                forall|j: int| 0 <= j < anc.len() ==> 0 <= #[trigger] anc[j] < v,
                forall|i: int, j: int| 0 <= i < j < anc.len() ==> anc[j] < anc[i],
                forall|w: int|
                    0 <= w < pre.vars.len() && !anc.take(k).contains(w) ==> (
                    #[trigger] self@.vars[w]).grad == pre.vars[w].grad,
                forall|j: int|
                    0 <= j < k ==> #[trigger] pre.edge_at(self@, v as int, j, unary, times),
            decreases stack@.len() + anc.len() - k,
        {
            let current = stack.pop().unwrap();
            let ghost before = self@;
            proof {
                pre.lemma_same_structure_same_ancestors(before, current as int);
            }
            match self.step(current, unary, times) {
                Err(e) => {
                    return Err(e);
                },
                Ok(None) => {},
                Ok(Some(next)) => {
                    stack.push(next);
                    proof {
                        pre.lemma_producer(current as int);
                        assert(anc.skip(k)[0] == next);
                        assert(anc.skip(k + 1) =~= anc.skip(k).skip(1));
                        assert forall|w: int|
                            0 <= w < pre.vars.len() && !anc.take(k + 1).contains(w) implies (
                        #[trigger] self@.vars[w]).grad == pre.vars[w].grad by {
                            assert(anc.take(k + 1)[k] == next);
                            if anc.take(k).contains(w) {
                                let i = choose|i: int|
                                    0 <= i < anc.take(k).len() && anc.take(k)[i] == w;
                                assert(anc.take(k + 1)[i] == w);
                            }
                        }
                        assert forall|j: int| 0 <= j < k + 1 implies #[trigger] pre.edge_at(
                            self@,
                            v as int,
                            j,
                            unary,
                            times,
                        ) by {
                            if j < k {
                                assert(pre.edge_at(before, v as int, j, unary, times));
                            }
                        }
                        assert(pre.same_structure(self@)) by {
                            assert forall|w: int| 0 <= w < pre.vars.len() implies (
                            #[trigger] self@.vars[w]).data == pre.vars[w].data
                                && self@.vars[w].creator == pre.vars[w].creator by {
                                assert(before.vars[w].data == pre.vars[w].data);
                            }
                        }
                        k = k + 1;
                    }
                },
            }
        }
        Ok(())
    }
}

} // verus!
