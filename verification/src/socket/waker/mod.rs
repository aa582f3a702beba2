//! A place for a waker.

mod wake;

use core::task::Waker;

use vstd::prelude::*;

use wake::WakeLog;

verus! {

/// A place for one waker, which is woken once.
pub struct WakerRegistration {
    waker: Option<Waker>,
    log: WakeLog,
}

impl WakerRegistration {
    /// The waker that is registered.
    pub closed spec fn registered(&self) -> Option<Waker> {
        self.waker
    }

    /// The wakers that have been woken here.
    pub closed spec fn woken(&self) -> Seq<Waker> {
        self.log@
    }

    /// Create a registration without a waker.
    pub fn new() -> (registration: WakerRegistration)
        ensures
            registration.registered() is None,
            registration.woken() == Seq::<Waker>::empty(),
    {
        WakerRegistration { waker: None, log: WakeLog::new() }
    }

    /// Register a waker. Overwrites the previous waker, if any.
    pub fn register(&mut self, waker: &Waker)
        ensures
            final(self).registered() == Some(*waker),
            final(self).woken() == old(self).woken(),
    {
        self.waker = Some(wake::clone(waker));
    }

    /// Wake the registered waker, if any.
    pub fn wake(&mut self)
        ensures
            final(self).registered() is None,
            final(self).woken() == (match old(self).registered() {
                Some(waker) => old(self).woken().push(waker),
                None => old(self).woken(),
            }),
    {
        if let Some(waker) = self.waker.take() {
            wake::wake(waker, &mut self.log);
        }
    }
}

} // verus!
