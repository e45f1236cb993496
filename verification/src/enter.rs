//! Evidence that a thread is inside a session.

use vstd::prelude::*;

verus! {

/// Evidence that the thread has been reserved for driving a session. It is
/// handed out when a session begins and given back when it ends.
#[derive(Debug)]
pub struct Enter {
    _p: (),
}

/// The error of a session entry while the thread is already inside a
/// session.
#[derive(Debug)]
pub struct EnterError {
    _a: (),
}

/// The context given to the code that sets a session up.
#[derive(Debug)]
pub struct Context {
    enter: Enter,
}

impl Enter {
    pub(crate) fn new() -> (e: Self) {
        Enter { _p: () }
    }
}

impl EnterError {
    pub(crate) fn new() -> (e: Self) {
        EnterError { _a: () }
    }

    /// A description of the error.
    pub fn message(&self) -> (s: &'static str)
        ensures
            s@ == "attempted to run an executor while another executor is already running"@,
    {
        "attempted to run an executor while another executor is already running"
    }
}

impl Context {
    /// The evidence held by this context.
    pub closed spec fn proof_of_entry(&self) -> Enter {
        self.enter
    }

    pub(crate) fn new(enter: Enter) -> (ctx: Self)
        ensures
            ctx.proof_of_entry() == enter,
    {
        Context { enter }
    }

    /// Returns the evidence that the thread is inside a session, to pass
    /// it to code that asks for it.
    pub fn enter(&self) -> (e: &Enter)
        ensures
            *e == self.proof_of_entry(),
    {
        &self.enter
    }

    pub(crate) fn into_enter(self) -> (e: Enter)
        ensures
            e == self.proof_of_entry(),
    {
        self.enter
    }
}

} // verus!
