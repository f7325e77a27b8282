//! The runtime's own state: starting, running, stopping, stopped or failed, with the last error.
use vstd::prelude::*;

use crate::text::owned;

verus! {

/// Where the runtime is.
#[derive(Clone, Copy, Debug, PartialEq, Eq, Default, Structural)]
pub enum RuntimeState {
    Starting,
    Running,
    Stopping,
    #[default]
    Stopped,
    Failed,
}

/// The runtime's state and the error that last failed it.
#[derive(Clone, Debug, PartialEq, Eq)]
pub struct RuntimeStatus {
    pub state: RuntimeState,
    pub last_error: Option<String>,
}

/// A status as plain values: the state and the last error's text.
pub open spec fn status_view(s: RuntimeStatus) -> (RuntimeState, Option<Seq<char>>) {
    (s.state, s.last_error.deep_view())
}

/// The status after moving to `state`; starting to run clears the last error.
pub open spec fn after_transition(s: (RuntimeState, Option<Seq<char>>), state: RuntimeState, clear_error: bool) -> (
    RuntimeState,
    Option<Seq<char>>,
) {
    (state, if clear_error {
        None
    } else {
        s.1
    })
}

impl Default for RuntimeStatus {
    fn default() -> (r: Self)
        ensures
            r.state == RuntimeState::Stopped,
            r.last_error is None,
    {
        RuntimeStatus { state: RuntimeState::Stopped, last_error: None }
    }
}

impl RuntimeStatus {
    /// A runtime in `initial` with no error.
    pub fn new(initial: RuntimeState) -> (r: Self)
        ensures
            r.state == initial,
            r.last_error is None,
    {
        RuntimeStatus { state: initial, last_error: None }
    }

    /// Running, with the last error cleared.
    pub fn start(&mut self)
        ensures
            status_view(*final(self)) == after_transition(status_view(*old(self)), RuntimeState::Running, true),
    {
        self.state = RuntimeState::Running;
        self.last_error = None;
    }

    /// Starting; the last error stays.
    pub fn mark_starting(&mut self)
        ensures
            status_view(*final(self)) == after_transition(status_view(*old(self)), RuntimeState::Starting, false),
    {
        self.state = RuntimeState::Starting;
    }

    /// Stopping; the last error stays.
    pub fn mark_stopping(&mut self)
        ensures
            status_view(*final(self)) == after_transition(status_view(*old(self)), RuntimeState::Stopping, false),
    {
        self.state = RuntimeState::Stopping;
    }

    /// Stopped; the last error stays.
    pub fn stop(&mut self)
        ensures
            status_view(*final(self)) == after_transition(status_view(*old(self)), RuntimeState::Stopped, false),
    {
        self.state = RuntimeState::Stopped;
    }

    /// Failed with `error`.
    pub fn fail(&mut self, error: &str)
        ensures
            final(self).state == RuntimeState::Failed,
            final(self).last_error.deep_view() == Some(error@),
    {
        self.state = RuntimeState::Failed;
        self.last_error = Some(owned(error));
    }

    pub fn state(&self) -> (r: RuntimeState)
        ensures
            r == self.state,
    {
        self.state
    }

    /// A copy of this status.
    pub fn copy(&self) -> (r: Self)
        ensures
            r == *self,
    {
        let last_error = match &self.last_error {
            Some(e) => Some(e.clone()),
            None => None,
        };
        RuntimeStatus { state: self.state, last_error }
    }
}

/// Repeating a transition changes nothing: starting twice is starting once, and so for every
/// other transition.
pub proof fn law_transitions_idempotent(s: (RuntimeState, Option<Seq<char>>), state: RuntimeState, clear_error: bool)
    ensures
        after_transition(after_transition(s, state, clear_error), state, clear_error) == after_transition(
            s,
            state,
            clear_error,
        ),
{
}

/// Starting clears an earlier failure; the other transitions keep its message.
pub proof fn law_start_clears_failure(s: (RuntimeState, Option<Seq<char>>), state: RuntimeState)
    ensures
        after_transition(s, RuntimeState::Running, true).1 is None,
        after_transition(s, state, false).1 == s.1,
{
}

} // verus!
