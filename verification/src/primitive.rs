//! Operations that the engine asks its embedding to perform.
//!
//! Rounded arithmetic on encoded numbers is not computed here: it is handed
//! in as a function value. A [`Primitive`] pairs such a function value with
//! the mathematical function that it computes, so that everything built on
//! it can say exactly which value it returns.

use vstd::prelude::*;

verus! {

/// One instruction of rounded arithmetic on encoded numbers.
#[derive(Clone, Copy, Debug)]
pub enum Op<T> {
    /// The sum of the two operands.
    Add(T, T),
    /// The first operand less the second.
    Sub(T, T),
    /// The product of the two operands.
    Mul(T, T),
    /// The square root of the operand.
    Sqrt(T),
}

/// Whether a function value behaves as a mathematical function: it may be
/// called on every argument, and no argument has two results.
pub open spec fn is_function<A, R, F: Fn(A) -> R>(f: F) -> bool {
    &&& forall|a: A| #[trigger] call_requires(f, (a,))
    &&& forall|a: A, r1: R, r2: R|
        #[trigger] call_ensures(f, (a,), r1) && #[trigger] call_ensures(f, (a,), r2) ==> r1 == r2
}

/// Whether a function value computes `model`: it may be called on every
/// argument and returns nothing but the model's value.
pub open spec fn computes<A, R, F: Fn(A) -> R>(f: F, model: spec_fn(A) -> R) -> bool {
    &&& forall|a: A| #[trigger] call_requires(f, (a,))
    &&& forall|a: A, r: R| #[trigger] call_ensures(f, (a,), r) ==> r == model(a)
}

/// The result that a function value has on an argument.
pub open spec fn result_of<A, R, F: Fn(A) -> R>(f: F, a: A) -> R {
    choose|r: R| call_ensures(f, (a,), r)
}

/// A function value together with the function that it computes.
#[verifier::reject_recursive_types(A)]
#[verifier::reject_recursive_types(R)]
#[verifier::reject_recursive_types(F)]
pub struct Primitive<A, R, F: Fn(A) -> R> {
    call: F,
    model: Ghost<spec_fn(A) -> R>,
}

/// Rounded arithmetic on words of type `T`.
pub type Arithmetic<T, F> = Primitive<Op<T>, T, F>;

impl<A, R, F: Fn(A) -> R> Primitive<A, R, F> {
    #[verifier::type_invariant]
    spec fn conforms(&self) -> bool {
        computes(self.call, self.model@)
    }

    /// The value of the primitive on an argument.
    pub closed spec fn value(&self, a: A) -> R {
        (self.model@)(a)
    }

    /// Wraps a function value. Its model is whatever the function value
    /// returns.
    pub fn new(call: F) -> (p: Self)
        requires
            is_function(call),
        ensures
            forall|a: A| #[trigger] p.value(a) == result_of(call, a),
    {
        Self::with_model(call, Ghost(|a: A| result_of(call, a)))
    }

    /// Wraps a function value that is known to compute `model`.
    pub fn with_model(call: F, Ghost(model): Ghost<spec_fn(A) -> R>) -> (p: Self)
        requires
            computes(call, model),
        ensures
            forall|a: A| #[trigger] p.value(a) == model(a),
    {
        Primitive { call, model: Ghost(model) }
    }

    /// Performs the operation on an argument.
    pub fn apply(&self, a: A) -> (r: R)
        ensures
            r == self.value(a),
    {
        proof {
            use_type_invariant(self);
        }
        (self.call)(a)
    }
}

} // verus!
