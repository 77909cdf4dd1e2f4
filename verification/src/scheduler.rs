//! The steps of the background refresh.
//!
//! The scheduler decides; the program around it fetches, parses, publishes
//! and sleeps as it is told, and reports back what happened.

use vstd::prelude::*;

use crate::cache::RefreshError;

verus! {

/// Where a refresh cycle stands.
#[derive(Clone, Copy, Debug, PartialEq, Eq, Structural)]
pub enum RefreshState {
    /// No cycle is under way; the next one starts with the next tick.
    Idle,
    Fetching,
    Parsing,
    Publishing,
}

/// What happened since the last step.
#[derive(Clone, Copy, Debug, PartialEq, Eq, Structural)]
pub enum RefreshEvent {
    /// The refresh period has passed.
    Tick,
    Fetched,
    FetchFailed,
    Parsed,
    ParseFailed,
    Published,
}

/// What the program is to do next.
#[derive(Clone, Copy, Debug, PartialEq, Eq, Structural)]
pub enum RefreshAction {
    /// Nothing: the event does not belong to the state.
    Nothing,
    Fetch,
    Parse,
    Publish,
    /// Wait for the next tick.
    Sleep,
    /// Report the failure, keep the snapshot that is published, and wait
    /// for the next tick.
    Report(RefreshError),
}

/// The state after an event. A failure ends the cycle; an event that does
/// not belong to the state changes nothing.
pub open spec fn state_after(state: RefreshState, event: RefreshEvent) -> RefreshState {
    match (state, event) {
        (RefreshState::Idle, RefreshEvent::Tick) => RefreshState::Fetching,
        (RefreshState::Fetching, RefreshEvent::Fetched) => RefreshState::Parsing,
        (RefreshState::Fetching, RefreshEvent::FetchFailed) => RefreshState::Idle,
        (RefreshState::Parsing, RefreshEvent::Parsed) => RefreshState::Publishing,
        (RefreshState::Parsing, RefreshEvent::ParseFailed) => RefreshState::Idle,
        (RefreshState::Publishing, RefreshEvent::Published) => RefreshState::Idle,
        (RefreshState::Publishing, RefreshEvent::ParseFailed) => RefreshState::Idle,
        _ => state,
    }
}

/// The action that an event calls for.
pub open spec fn action_for(state: RefreshState, event: RefreshEvent) -> RefreshAction {
    match (state, event) {
        (RefreshState::Idle, RefreshEvent::Tick) => RefreshAction::Fetch,
        (RefreshState::Fetching, RefreshEvent::Fetched) => RefreshAction::Parse,
        (RefreshState::Fetching, RefreshEvent::FetchFailed) => RefreshAction::Report(
            RefreshError::Network,
        ),
        (RefreshState::Parsing, RefreshEvent::Parsed) => RefreshAction::Publish,
        (RefreshState::Parsing, RefreshEvent::ParseFailed) => RefreshAction::Report(
            RefreshError::Parse,
        ),
        (RefreshState::Publishing, RefreshEvent::Published) => RefreshAction::Sleep,
        (RefreshState::Publishing, RefreshEvent::ParseFailed) => RefreshAction::Report(
            RefreshError::Parse,
        ),
        _ => RefreshAction::Nothing,
    }
}

/// One step of the refresh: the state after the event, and what to do.
///
/// A fetch starts only from `Idle`, so no two cycles overlap; a tick that
/// comes while a cycle is under way is passed over. Nothing is published
/// but on the way from `Parsing` to `Publishing`, so a failure leaves the
/// published snapshot as it was.
pub fn step(state: RefreshState, event: RefreshEvent) -> (next: (RefreshState, RefreshAction))
    ensures
        next.0 == state_after(state, event),
        next.1 == action_for(state, event),
        next.1 == RefreshAction::Fetch <==> state == RefreshState::Idle && event
            == RefreshEvent::Tick,
        next.1 == RefreshAction::Publish <==> state == RefreshState::Parsing && event
            == RefreshEvent::Parsed,
        next.1 is Report ==> next.0 == RefreshState::Idle,
{
    match (state, event) {
        (RefreshState::Idle, RefreshEvent::Tick) => (RefreshState::Fetching, RefreshAction::Fetch),
        (RefreshState::Fetching, RefreshEvent::Fetched) => (
            RefreshState::Parsing,
            RefreshAction::Parse,
        ),
        (RefreshState::Fetching, RefreshEvent::FetchFailed) => (
            RefreshState::Idle,
            RefreshAction::Report(RefreshError::Network),
        ),
        (RefreshState::Parsing, RefreshEvent::Parsed) => (
            RefreshState::Publishing,
            RefreshAction::Publish,
        ),
        (RefreshState::Parsing, RefreshEvent::ParseFailed) => (
            RefreshState::Idle,
            RefreshAction::Report(RefreshError::Parse),
        ),
        (RefreshState::Publishing, RefreshEvent::Published) => (
            RefreshState::Idle,
            RefreshAction::Sleep,
        ),
        (RefreshState::Publishing, RefreshEvent::ParseFailed) => (
            RefreshState::Idle,
            RefreshAction::Report(RefreshError::Parse),
        ),
        _ => (state, RefreshAction::Nothing),
    }
}

} // verus!
