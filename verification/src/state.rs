//! Application state and its initialisation at start-up.
use vstd::prelude::*;
use crate::address::{Address, AddressView};

verus! {

/// What a process keeps between messages. Each state type says what a
/// fresh state is for a process with address `our`.
pub trait State: Sized {
    /// The fresh state of the process with address `our`.
    spec fn fresh(our: AddressView) -> Self;

    /// Creates the fresh state of the process with address `our`.
    fn new(our: Address) -> (s: Self)
        ensures
            s == Self::fresh(our@),
    ;
}

/// The state of receiver C.
#[derive(Debug, Clone, Copy, PartialEq, Eq, Structural)]
pub struct AppState {
    pub counter: u64,
}

/// The state of the requester: a counter of completed callbacks.
#[derive(Debug, Clone, Copy, PartialEq, Eq, Structural)]
pub struct ProcessState {
    pub counter: u64,
}

impl State for AppState {
    open spec fn fresh(our: AddressView) -> Self {
        AppState { counter: 0 }
    }

    fn new(our: Address) -> (s: Self) {
        AppState { counter: 0 }
    }
}

impl State for ProcessState {
    open spec fn fresh(our: AddressView) -> Self {
        ProcessState { counter: 0 }
    }

    fn new(our: Address) -> (s: Self) {
        ProcessState { counter: 0 }
    }
}

/// The state a process starts with, and what it writes to its persisted
/// storage at start-up.
#[derive(Debug, PartialEq, Eq)]
pub struct Startup<S> {
    /// The state the process runs with.
    pub state: S,
    /// The state to persist, where it is not `state` itself.
    pub persist: Option<S>,
}

impl<S> Startup<S> {
    /// The state that is written to persisted storage at start-up.
    pub open spec fn persisted(self) -> S {
        match self.persist {
            Some(p) => p,
            None => self.state,
        }
    }
}

/// Chooses the start-up state: a state loaded from storage is kept when
/// there is one, and otherwise the process starts fresh. Either way a fresh
/// state is built and persisted, replacing what storage held.
pub fn startup_state<S: State>(our: Address, loaded: Option<S>) -> (r: Startup<S>)
    ensures
        r.persisted() == S::fresh(our@),
        r.state == (match loaded {
            Some(s) => s,
            None => S::fresh(our@),
        }),
{
    let fresh = S::new(our);
    match loaded {
        Some(s) => Startup { state: s, persist: Some(fresh) },
        None => Startup { state: fresh, persist: None },
    }
}

} // verus!
