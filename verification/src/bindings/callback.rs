//! A press handler in the form in which it is handed to a platform.
use std::sync::Arc;
use vstd::prelude::*;

verus! {

/// A handler without arguments that can be shared between the view that
/// registered it and the platform that calls it.
pub struct Callback<F> {
    pub f: Arc<F>,
}

impl<F: Fn()> Callback<F> {
    /// Wraps `f` for sharing.
    pub fn new(f: F) -> (c: Callback<F>)
        ensures
            *c.f == f,
    {
        Callback { f: Arc::new(f) }
    }

    /// Calls the handler once.
    pub fn call(&self)
        requires
            call_requires(*self.f, ()),
        ensures
            call_ensures(*self.f, (), ()),
    {
        (*self.f)()
    }
}

} // verus!
