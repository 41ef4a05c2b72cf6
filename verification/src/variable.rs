//! Graph nodes and the tags that link a node to its producer.

use vstd::prelude::*;
use crate::function::Kind;

verus! {

/// A creator tag: names the kind of operation that produced a variable and
/// the record of the one call that produced it.
///
/// The tag does not own the record. The number it carries is a place in the
/// graph's table of call records, and whether the producer still exists is
/// decided when the tag is resolved.
#[derive(Clone, Copy, Debug, PartialEq, Eq)]
pub enum GradientFunction {
    Square(usize),
    Exp(usize),
}

impl GradientFunction {
    /// The kind of operation that the tag names.
    pub open spec fn kind_spec(self) -> Kind {
        match self {
            GradientFunction::Square(_) => Kind::Square,
            GradientFunction::Exp(_) => Kind::Exp,
        }
    }

    /// The place of the call record that the tag refers to.
    pub open spec fn record_spec(self) -> usize {
        match self {
            GradientFunction::Square(r) => r,
            GradientFunction::Exp(r) => r,
        }
    }

    /// The tag of `kind` for the call record at place `record`.
    pub open spec fn of_spec(kind: Kind, record: usize) -> GradientFunction {
        match kind {
            Kind::Square => GradientFunction::Square(record),
            Kind::Exp => GradientFunction::Exp(record),
        }
    }

    /// The kind of operation that the tag names.
    #[verifier::when_used_as_spec(kind_spec)]
    pub fn kind(self) -> (k: Kind)
        ensures
            k == self.kind_spec(),
    {
        match self {
            GradientFunction::Square(_) => Kind::Square,
            GradientFunction::Exp(_) => Kind::Exp,
        }
    }

    /// The place of the call record that the tag refers to.
    #[verifier::when_used_as_spec(record_spec)]
    pub fn record(self) -> (r: usize)
        ensures
            r == self.record_spec(),
    {
        match self {
            GradientFunction::Square(r) => r,
            GradientFunction::Exp(r) => r,
        }
    }

    /// The tag of `kind` for the call record at place `record`.
    #[verifier::when_used_as_spec(of_spec)]
    pub fn of(kind: Kind, record: usize) -> (tag: GradientFunction)
        ensures
            tag == GradientFunction::of_spec(kind, record),
            tag.kind() == kind,
            tag.record() == record,
    {
        match kind {
            Kind::Square => GradientFunction::Square(record),
            Kind::Exp => GradientFunction::Exp(record),
        }
    }
}

/// A graph node: numeric data, a gradient, and the tag of its producer.
///
/// The gradient is empty until it is seeded or computed. A variable without
/// a creator is a leaf.
#[derive(Debug)]
pub struct Variable<T> {
    pub data: Vec<T>,
    pub grad: Vec<T>,
    pub creator: Option<GradientFunction>,
}

/// The mathematical content of a [`Variable`].
pub struct VariableView<T> {
    pub data: Seq<T>,
    pub grad: Seq<T>,
    pub creator: Option<GradientFunction>,
}

impl<T> VariableView<T> {
    /// A variable without a creator.
    pub open spec fn is_leaf(self) -> bool {
        self.creator is None
    }

    /// The gradient is element-aligned with the data.
    pub open spec fn is_seeded(self) -> bool {
        self.grad.len() == self.data.len()
    }
}

impl<T> View for Variable<T> {
    type V = VariableView<T>;

    open spec fn view(&self) -> VariableView<T> {
        VariableView { data: self.data@, grad: self.grad@, creator: self.creator }
    }
}

impl<T> Variable<T> {
    /// A leaf that holds `data`, with an empty gradient.
    pub fn new(data: Vec<T>) -> (v: Variable<T>)
        ensures
            v@ == (VariableView { data: data@, grad: Seq::empty(), creator: None }),
            v.data == data,
    {
        Variable { data, grad: Vec::new(), creator: None }
    }

    /// Attaches the tag of the producer. Data and gradient stay as they are.
    pub fn set_creator(&mut self, func: GradientFunction)
        ensures
            final(self)@ == (VariableView { creator: Some(func), ..old(self)@ }),
            final(self).data == old(self).data,
            final(self).grad == old(self).grad,
    {
        self.creator = Some(func);
    }
}

} // verus!
