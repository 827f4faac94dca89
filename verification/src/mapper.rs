//! The capability: what a pipeline applies to each item.

use vstd::prelude::*;

verus! {

/// Mapper is a type that can map values from `In` to `Out`, and may keep
/// state between calls. Every function and closure from `In` to `Out` is one.
///
/// A pool gives each worker a duplicate of its own, so a capability with
/// state sees only the calls that its own worker serves.
pub trait Mapper<In> {
    /// The output type.
    type Out;

    /// The states in which `apply` may be called, on any input. Where an
    /// implementation says nothing, every state is one.
    open spec fn ready(&self) -> bool {
        true
    }

    /// Whether applying to `v` in the state `self` may give `out` and leave
    /// the state `after`. Where an implementation says nothing, anything may
    /// come of it.
    open spec fn yields(&self, v: In, out: Self::Out, after: &Self) -> bool {
        true
    }

    /// Run the mapping function converting `In` to `Out`. It is called only
    /// in a state that is ready, and leaves one.
    fn apply(&mut self, v: In) -> (out: Self::Out)
        requires
            old(self).ready(),
        ensures
            final(self).ready(),
            old(self).yields(v, out, final(self)),
    ;
}

/// Some state of the capability may answer `out` to `v`.
pub open spec fn may_give<In, M: Mapper<In>>(v: In, out: M::Out) -> bool {
    exists|m: M, after: M| #[trigger] m.yields(v, out, &after)
}

/// The capability is pure and computes `f`: whatever state it is in, it
/// answers `f(v)` to `v`.
pub open spec fn computes<In, M: Mapper<In>>(f: spec_fn(In) -> M::Out) -> bool {
    forall|m: M, v: In, out: M::Out, after: M| #[trigger] m.yields(v, out, &after) ==> out == f(v)
}

/// Every duplicate of a capability that is ready is ready.
pub open spec fn duplicable<In, M: Mapper<In> + Clone>() -> bool {
    forall|m: M, duplicate: M|
        m.ready() && #[trigger] cloned::<M>(m, duplicate) ==> duplicate.ready()
}

impl<A, B, F> Mapper<A> for F where F: FnMut(A) -> B {
    type Out = B;

    open spec fn ready(&self) -> bool {
        forall|v: A| call_requires(*self, (v,))
    }

    open spec fn yields(&self, v: A, out: B, after: &Self) -> bool {
        call_ensures(*self, (v,), out)
    }

    fn apply(&mut self, x: A) -> (out: B) {
        self(x)
    }
}

} // verus!
