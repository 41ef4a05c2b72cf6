//! Operation instances and the records of their calls.

use vstd::prelude::*;
use crate::function::Kind;
use crate::variable::GradientFunction;

verus! {

/// What one call of an operation captured: the operation that was called,
/// its kind, the variable it consumed and the variable it produced.
///
/// A record belongs to the operation that made it and exists as long as
/// that operation does.
#[derive(Clone, Copy, Debug, PartialEq, Eq)]
pub struct CallRecord {
    pub owner: usize,
    pub kind: Kind,
    pub input: usize,
    pub output: usize,
}

/// An operation instance: one differentiable transform, with what it
/// remembers of its last call.
///
/// `input` and `output` are the variables of the last call and `record` is
/// the place of that call's record; all three are absent until the first
/// call.
#[derive(Clone, Copy, Debug, PartialEq, Eq)]
pub struct Operation {
    pub kind: Kind,
    pub input: Option<usize>,
    pub output: Option<usize>,
    pub record: Option<usize>,
}

impl Operation {
    /// An instance of `kind` that has not been called.
    pub open spec fn fresh(kind: Kind) -> Operation {
        Operation { kind, input: None, output: None, record: None }
    }

    /// An instance of `kind` that has not been called.
    #[verifier::when_used_as_spec(fresh)]
    pub fn new(kind: Kind) -> (op: Operation)
        ensures
            op == Operation::fresh(kind),
    {
        Operation { kind, input: None, output: None, record: None }
    }

    /// Remembers `input` as the variable the operation was called with.
    pub fn update_input(&mut self, input: usize)
        ensures
            *final(self) == (Operation { input: Some(input), ..*old(self) }),
    {
        self.input = Some(input);
    }

    /// Remembers `output` as the variable the operation produced.
    pub fn update_output(&mut self, output: usize)
        ensures
            *final(self) == (Operation { output: Some(output), ..*old(self) }),
    {
        self.output = Some(output);
    }

    /// Captures the remembered call in a new record at the end of `records`
    /// and returns the tag that names it. `owner` is the place of this
    /// instance in the graph.
    ///
    /// The instance keeps the record's place; the tag only refers to it.
    /// Without a remembered call there is nothing to capture: the result is
    /// `None` and nothing changes.
    pub fn get_creator(&mut self, owner: usize, records: &mut Vec<CallRecord>) -> (tag: Option<
        GradientFunction,
    >)
        ensures
            tag is Some <==> old(self).input is Some && old(self).output is Some,
            tag is None ==> *final(self) == *old(self) && final(records)@ == old(records)@,
            tag is Some ==> {
                &&& tag == Some(GradientFunction::of(old(self).kind, old(records)@.len() as usize))
                &&& *final(self) == (Operation {
                    record: Some(old(records)@.len() as usize),
                    ..*old(self)
                })
                &&& final(records)@ == old(records)@.push(
                    CallRecord {
                        owner,
                        kind: old(self).kind,
                        input: old(self).input.unwrap(),
                        output: old(self).output.unwrap(),
                    },
                )
            },
    {
        match (self.input, self.output) {
            (Some(input), Some(output)) => {
                let place = records.len();
                records.push(CallRecord { owner, kind: self.kind, input, output });
                self.record = Some(place);
                Some(GradientFunction::of(self.kind, place))
            },
            _ => None,
        }
    }
}

} // verus!
