//! Callable wrappers used by operators.
use vstd::prelude::*;

verus! {

/// A function wrapped so that it can be called through `RxFn`.
pub struct RxFnWrapper<T>(pub T);

impl<F> RxFnWrapper<F> {
    /// Wrap `f`.
    pub fn new(f: F) -> (r: Self)
        ensures
            r.0 == f,
    {
        RxFnWrapper(f)
    }
}

/// Something that can be called with the tuple of arguments `Args`.
pub trait RxFn<Args>: Sized {
    type Output;

    /// It may be called with `args`.
    spec fn can_call(&self, args: Args) -> bool;

    /// `out` is a possible result of calling it with `args`.
    spec fn gives(&self, args: Args, out: Self::Output) -> bool;

    /// Call it with `args`.
    fn call(&self, args: Args) -> (r: Self::Output)
        requires
            self.can_call(args),
        ensures
            self.gives(args, r),
    ;
}

impl<F, A, R> RxFn<(A,)> for RxFnWrapper<F> where F: Fn(A) -> R {
    type Output = R;

    open spec fn can_call(&self, args: (A,)) -> bool {
        call_requires(self.0, args)
    }

    open spec fn gives(&self, args: (A,), out: R) -> bool {
        call_ensures(self.0, args, out)
    }

    fn call(&self, args: (A,)) -> (r: R) {
        (self.0)(args.0)
    }
}

} // verus!
