//! A wrapper that names a long poll, so that the moment it is given up can be
//! reported.

use vstd::prelude::*;
use vstd::string::*;

verus! {

/// Inspect when a future gets dropped: the future, and the name under which
/// its end is reported.
pub struct InspectDrop<F> {
    inner: F,
    id: String,
}

/// Wraps `inner` under the name `id`.
pub fn inspect_drop<F>(inner: F, id: String) -> (watched: InspectDrop<F>)
    ensures
        watched.inner() == inner,
        watched.id() == id@,
{
    InspectDrop { inner, id }
}

impl<F> InspectDrop<F> {
    /// What is wrapped.
    pub closed spec fn inner(&self) -> F {
        self.inner
    }

    /// The name under which the end of the wrapper is reported.
    pub closed spec fn id(&self) -> Seq<char> {
        self.id@
    }

    /// Access to what is wrapped, to drive it. The name stays.
    pub fn inner_mut(&mut self) -> (inner: &mut F)
        ensures
            *inner == old(self).inner(),
            final(self).inner() == *final(inner),
            final(self).id() == old(self).id(),
    {
        &mut self.inner
    }

    /// The line that reports the end of the wrapper: `Dropping`, a space, and
    /// the name.
    pub fn notice(&self) -> (line: String)
        ensures
            line@ == "Dropping "@ + self.id(),
    {
        String::from_str("Dropping ").concat(self.id.as_str())
    }
}

} // verus!
