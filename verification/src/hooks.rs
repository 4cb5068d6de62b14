//! Hooks: a replaceable function, where each replacement may wrap the one before it.
use vstd::prelude::*;
use std::sync::Arc;

verus! {

/// Wrapper for storing a stack of dynamic functions. Use [`Hook::set`] to push a new function
/// onto the stack.
pub struct Hook<F: ?Sized>(pub Arc<F>);

impl<F: ?Sized> Hook<F> {
    /// Sets the function in the hook using a function that takes the hook's previous function
    /// for the new function to optionally call.
    pub fn set<P: FnOnce(Arc<F>) -> Arc<F>>(&mut self, provider: P)
        requires
            call_requires(provider, (old(self).0,)),
        ensures
            call_ensures(provider, (old(self).0,), final(self).0),
    {
        let prev = self.0.clone();
        self.0 = provider(prev);
    }
}

impl<F: ?Sized> Clone for Hook<F> {
    fn clone(&self) -> (r: Self)
        ensures
            r.0 == self.0,
    {
        Hook(self.0.clone())
    }
}

impl<F: ?Sized> std::ops::Deref for Hook<F> {
    type Target = Arc<F>;

    fn deref(&self) -> (r: &Arc<F>)
        ensures
            *r == self.0,
    {
        &self.0
    }
}

} // verus!
