//! Differentiable operations: their kinds, forward maps and local
//! derivative rules.

use vstd::prelude::*;
use crate::elementwise::{map_elements, zip_elements};

verus! {

/// The scalar maps that the host arithmetic supplies.
///
/// The engine never computes on a scalar itself: it hands one of these names
/// and an element to the host's closure and stores what comes back.
#[derive(Clone, Copy, Debug, PartialEq, Eq)]
pub enum Unary {
    /// `x` to `x * x`.
    Square,
    /// `x` to `e^x`.
    Exp,
    /// `x` to `2 * x`.
    Double,
}

/// The kinds of operation the engine knows.
#[derive(Clone, Copy, Debug, PartialEq, Eq, Structural)]
pub enum Kind {
    /// Element-wise square.
    Square,
    /// Element-wise exponential.
    Exp,
}

impl Kind {
    /// The scalar map that the operation applies to each element.
    pub open spec fn primitive_spec(self) -> Unary {
        match self {
            Kind::Square => Unary::Square,
            Kind::Exp => Unary::Exp,
        }
    }

    /// The derivative of the operation's scalar map: `2x` for the square,
    /// `e^x` for the exponential.
    pub open spec fn derivative_spec(self) -> Unary {
        match self {
            Kind::Square => Unary::Double,
            Kind::Exp => Unary::Exp,
        }
    }

    /// The scalar map that the operation applies to each element.
    #[verifier::when_used_as_spec(primitive_spec)]
    pub fn primitive(self) -> (p: Unary)
        ensures
            p == self.primitive_spec(),
    {
        match self {
            Kind::Square => Unary::Square,
            Kind::Exp => Unary::Exp,
        }
    }

    /// The derivative of the operation's scalar map.
    #[verifier::when_used_as_spec(derivative_spec)]
    pub fn derivative(self) -> (p: Unary)
        ensures
            p == self.derivative_spec(),
    {
        match self {
            Kind::Square => Unary::Double,
            Kind::Exp => Unary::Exp,
        }
    }
}

/// The scalar maps accept every scalar.
pub open spec fn unary_total<T, U: Fn(Unary, &T) -> T>(unary: &U) -> bool {
    forall|p: Unary, x: T| #[trigger] unary.requires((p, &x))
}

/// The scalar product accepts every pair of scalars.
pub open spec fn times_total<T, M: Fn(&T, &T) -> T>(times: &M) -> bool {
    forall|a: T, b: T| #[trigger] times.requires((&a, &b))
}

/// The scalar map of `kind` accepts every element of `x`.
pub open spec fn forward_defined<T, U: Fn(Unary, &T) -> T>(unary: &U, kind: Kind, x: Seq<T>) -> bool {
    forall|i: int| 0 <= i < x.len() ==> unary.requires((kind.primitive(), &#[trigger] x[i]))
}

/// The derivative of the scalar map of `kind` accepts every element of `x`.
pub open spec fn derivative_defined<T, U: Fn(Unary, &T) -> T>(
    unary: &U,
    kind: Kind,
    x: Seq<T>,
) -> bool {
    forall|i: int| 0 <= i < x.len() ==> unary.requires((kind.derivative(), &#[trigger] x[i]))
}

/// The scalar product accepts every derivative of the scalar map of `kind`
/// at an element of `x`, paired with the element of `gy` at the same place.
pub open spec fn product_defined<T, U: Fn(Unary, &T) -> T, M: Fn(&T, &T) -> T>(
    unary: &U,
    times: &M,
    kind: Kind,
    x: Seq<T>,
    gy: Seq<T>,
) -> bool {
    forall|i: int, d: T|
        0 <= i < x.len() && #[trigger] unary.ensures((kind.derivative(), &x[i]), d)
            ==> times.requires((&d, &gy[i]))
}

/// `y` is an output of the forward map of `kind` on `x`: it has the shape of
/// `x`, and `y[i]` is a value of the kind's scalar map at `x[i]`.
pub open spec fn forward_of<T, U: Fn(Unary, &T) -> T>(
    unary: &U,
    kind: Kind,
    x: Seq<T>,
    y: Seq<T>,
) -> bool {
    &&& y.len() == x.len()
    &&& forall|i: int|
        0 <= i < x.len() ==> unary.ensures((kind.primitive(), &x[i]), #[trigger] y[i])
}

/// `gx` is a value of the local derivative rule of `kind` at the scalar `x`
/// for the upstream gradient `gy`: the derivative at `x`, times `gy`.
pub open spec fn local_gradient<T, U: Fn(Unary, &T) -> T, M: Fn(&T, &T) -> T>(
    unary: &U,
    times: &M,
    kind: Kind,
    x: T,
    gy: T,
    gx: T,
) -> bool {
    exists|d: T| #[trigger] unary.ensures((kind.derivative(), &x), d) && times.ensures((&d, &gy), gx)
}

/// `gx` is a gradient that the operation of `kind`, called on `input`, passes
/// down for the upstream gradient `gy`: all three have one shape, and element
/// by element `gx[i]` is the derivative at `input[i]` times `gy[i]`.
pub open spec fn backward_of<T, U: Fn(Unary, &T) -> T, M: Fn(&T, &T) -> T>(
    unary: &U,
    times: &M,
    kind: Kind,
    input: Seq<T>,
    gy: Seq<T>,
    gx: Seq<T>,
) -> bool {
    &&& gy.len() == input.len()
    &&& gx.len() == input.len()
    &&& forall|i: int|
        0 <= i < input.len() ==> #[trigger] local_gradient(unary, times, kind, input[i], gy[i], gx[i])
}

/// The shapes of an upstream gradient and of the input it is meant for
/// differ.
#[derive(Clone, Copy, Debug, PartialEq, Eq)]
pub struct ShapeMismatch;

/// The forward map of `kind`: applies the kind's scalar map to every element
/// of `x`.
pub fn forward<T, U: Fn(Unary, &T) -> T>(kind: Kind, x: &Vec<T>, unary: &U) -> (y: Vec<T>)
    requires
        x.len() <= isize::MAX,
        forward_defined(unary, kind, x@),
    ensures
        forward_of(unary, kind, x@, y@),
{
    let p = kind.primitive();
    let apply = |v: &T| -> (r: T)
        requires
            unary.requires((p, v)),
        ensures
            unary.ensures((p, v), r),
        { unary(p, v) };
    map_elements(x, apply)
}

/// The local derivative rule of `kind`: the gradient with respect to `input`
/// for the upstream gradient `gy`, which is, element by element, the
/// derivative of the kind's scalar map at `input[i]` times `gy[i]`.
///
/// Fails exactly when `gy` is not element-aligned with `input`.
pub fn backward<T, U: Fn(Unary, &T) -> T, M: Fn(&T, &T) -> T>(
    kind: Kind,
    input: &Vec<T>,
    gy: &Vec<T>,
    unary: &U,
    times: &M,
) -> (r: Result<Vec<T>, ShapeMismatch>)
    requires
        input.len() <= isize::MAX,
        derivative_defined(unary, kind, input@),
        gy.len() == input.len() ==> product_defined(unary, times, kind, input@, gy@),
    ensures
        r is Ok <==> gy.len() == input.len(),
        r matches Ok(gx) ==> backward_of(unary, times, kind, input@, gy@, gx@),
{
    if gy.len() != input.len() {
        return Err(ShapeMismatch);
    }
    let p = kind.derivative();
    let slope = |v: &T| -> (r: T)
        requires
            unary.requires((p, v)),
        ensures
            unary.ensures((p, v), r),
        { unary(p, v) };
    let scale = |a: &T, b: &T| -> (r: T)
        requires
            times.requires((a, b)),
        ensures
            times.ensures((a, b), r),
        { times(a, b) };
    let d = map_elements(input, slope);
    let gx = zip_elements(&d, gy, scale);
    proof {
        assert forall|i: int| 0 <= i < input.len() implies #[trigger] local_gradient(
            unary,
            times,
            kind,
            input@[i],
            gy@[i],
            gx@[i],
        ) by {
            assert(unary.ensures((p, &input@[i]), d@[i]));
            assert(times.ensures((&d@[i], &gy@[i]), gx@[i]));
        }
    }
    Ok(gx)
}

} // verus!
