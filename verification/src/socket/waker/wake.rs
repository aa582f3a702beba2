//! The waking of tasks.
//!
//! To the proofs a waker is no more than the task that it wakes: two wakers are equal when
//! they wake the same one. What waking does to a task is out of their sight, so which
//! tasks have been woken is kept in a [`WakeLog`].

use core::task::Waker;

use vstd::prelude::*;

verus! {

/// A handle for waking up a task.
#[verifier::external_type_specification]
#[verifier::external_body]
pub struct ExWaker(core::task::Waker);

/// Which wakers have been woken, in this order.
///
/// The log is there for the proofs alone. Nothing but [`wake`] adds to it, and it sees only
/// the wakes that are made through it: of a wake that is noted in another log, or in none, it
/// says nothing.
pub struct WakeLog {
    woken: Ghost<Seq<Waker>>,
}

impl View for WakeLog {
    type V = Seq<Waker>;

    closed spec fn view(&self) -> Seq<Waker> {
        self.woken@
    }
}

impl WakeLog {
    /// Create a log in which nothing has been woken.
    pub fn new() -> (log: WakeLog)
        ensures
            log@ == Seq::<Waker>::empty(),
    {
        WakeLog { woken: Ghost(Seq::empty()) }
    }
}

/// Calls the `clone` of [`Waker`]. Trusted: the clone wakes the same task.
#[verifier::external_body]
pub(crate) fn clone(waker: &Waker) -> (copy: Waker)
    ensures
        copy == *waker,
{
    waker.clone()
}

/// Calls [`Waker::wake`], which uses the waker up. Trusted: after the call the waker has
/// been woken once more than the log says, and the log takes note of that.
#[verifier::external_body]
pub(crate) fn wake(waker: Waker, log: &mut WakeLog)
    ensures
        final(log)@ == old(log)@.push(waker),
{
    waker.wake()
}

} // verus!
