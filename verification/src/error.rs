//! Calling a value handler that may report a runtime error.
//!
//! An operator takes either a plain closure or one returning a `Result`;
//! both are called through `call_with_err`, which gives a `Result` either
//! way.
use vstd::prelude::*;

verus! {

/// A handler returning a `Result`: its error is the runtime error.
pub trait NextWithErr<Item, Output, E>: Sized {
    /// The handler may be called with `v`.
    spec fn can_call(&self, v: Item) -> bool;

    /// `r` is a possible result of calling the handler with `v`.
    spec fn gives(&self, v: Item, r: Result<Output, E>) -> bool;

    /// Call the handler.
    fn call_with_err(&mut self, v: Item) -> (r: Result<Output, E>)
        requires
            old(self).can_call(v),
        ensures
            old(self).gives(v, r),
    ;
}

/// A plain handler: it never reports an error.
pub trait NextWithoutErr<Item, Output>: Sized {
    /// The handler may be called with `v`.
    spec fn can_call(&self, v: Item) -> bool;

    /// `r` is a possible result of calling the handler with `v`.
    spec fn gives(&self, v: Item, r: Output) -> bool;

    /// Call the handler; its result is always `Ok`.
    fn call_with_err<E>(&mut self, v: Item) -> (r: Result<Output, E>)
        requires
            old(self).can_call(v),
        ensures
            r matches Ok(u) && old(self).gives(v, u),
    ;
}

impl<T, U, F> NextWithoutErr<T, U> for F where F: Fn(T) -> U {
    open spec fn can_call(&self, v: T) -> bool {
        call_requires(*self, (v,))
    }

    open spec fn gives(&self, v: T, r: U) -> bool {
        call_ensures(*self, (v,), r)
    }

    fn call_with_err<E>(&mut self, v: T) -> (r: Result<U, E>) {
        Ok((*self)(v))
    }
}

impl<T, U, E, F> NextWithErr<T, U, E> for F where F: Fn(T) -> Result<U, E> {
    open spec fn can_call(&self, v: T) -> bool {
        call_requires(*self, (v,))
    }

    open spec fn gives(&self, v: T, r: Result<U, E>) -> bool {
        call_ensures(*self, (v,), r)
    }

    fn call_with_err(&mut self, v: T) -> (r: Result<U, E>) {
        (*self)(v)
    }
}

/// The handler of an operator: a plain closure, or one that may report a
/// runtime error.
pub enum OnNextClousre<N, NE> {
    Next(N),
    NextWithErr(NE),
}

impl<N, NE> OnNextClousre<N, NE> {
    /// Call the handler: a plain closure's result is wrapped in `Ok`, the
    /// other's is returned as it is.
    pub fn call_with_err<T, U, E>(&self, v: T) -> (r: Result<U, E>) where
        N: Fn(T) -> U,
        NE: Fn(T) -> Result<U, E>,

        requires
            match self {
                OnNextClousre::Next(n) => call_requires(*n, (v,)),
                OnNextClousre::NextWithErr(ne) => call_requires(*ne, (v,)),
            },
        ensures
            match self {
                OnNextClousre::Next(n) => r matches Ok(u) && call_ensures(*n, (v,), u),
                OnNextClousre::NextWithErr(ne) => call_ensures(*ne, (v,), r),
            },
    {
        match self {
            OnNextClousre::Next(n) => Ok(n(v)),
            OnNextClousre::NextWithErr(ne) => ne(v),
        }
    }
}

} // verus!
