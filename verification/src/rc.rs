//! Values shared between several owners on one thread.
use vstd::prelude::*;
use vstd::cell::invcell::InvCell;
use vstd::predicate::Predicate;
use std::rc::Rc;

verus! {

/// `Rc::clone`: a new handle on the same allocation, so it refers to the
/// same value.
#[verifier::external_body]
fn rc_clone<T>(rc: &Rc<T>) -> (r: Rc<T>)
    ensures
        r == *rc,
{
    rc.clone()
}

/// A value shared by several owners on one thread, which each may replace;
/// every value it holds has the property `P`.
pub struct MutRc<T, P> {
    cell: Rc<InvCell<T, P>>,
}

impl<T, P: Predicate<T>> MutRc<T, P> {
    /// The property every value held has.
    pub closed spec fn property(&self) -> P {
        self.cell.predicate()
    }

    /// `v` has the property of the values held.
    pub open spec fn allows(&self, v: T) -> bool {
        self.property().predicate(v)
    }

    /// Share `v`, which has the property `property`.
    pub fn new(v: T, Ghost(property): Ghost<P>) -> (r: Self)
        requires
            property.predicate(v),
        ensures
            r.property() == property,
    {
        MutRc { cell: Rc::new(InvCell::new(v, Ghost(property))) }
    }

    /// Put `v` in place of the value held, and return that value.
    pub fn replace(&self, v: T) -> (old: T)
        requires
            self.allows(v),
        ensures
            self.allows(old),
    {
        self.cell.replace(v)
    }
}

impl<T, P: Predicate<T>> Clone for MutRc<T, P> {
    /// Another handle on the same value.
    fn clone(&self) -> (r: Self)
        ensures
            r == *self,
    {
        MutRc { cell: rc_clone(&self.cell) }
    }
}

} // verus!
