use coronabot::cache::RefreshError;
use coronabot::scheduler::{step, RefreshAction, RefreshEvent, RefreshState};

const STATES: [RefreshState; 4] = [
    RefreshState::Idle,
    RefreshState::Fetching,
    RefreshState::Parsing,
    RefreshState::Publishing,
];

const EVENTS: [RefreshEvent; 6] = [
    RefreshEvent::Tick,
    RefreshEvent::Fetched,
    RefreshEvent::FetchFailed,
    RefreshEvent::Parsed,
    RefreshEvent::ParseFailed,
    RefreshEvent::Published,
];

#[test]
fn a_cycle_goes_from_idle_through_every_state_back_to_idle() {
    let (state, action) = step(RefreshState::Idle, RefreshEvent::Tick);
    assert_eq!((state, action), (RefreshState::Fetching, RefreshAction::Fetch));
    let (state, action) = step(state, RefreshEvent::Fetched);
    assert_eq!((state, action), (RefreshState::Parsing, RefreshAction::Parse));
    let (state, action) = step(state, RefreshEvent::Parsed);
    assert_eq!((state, action), (RefreshState::Publishing, RefreshAction::Publish));
    let (state, action) = step(state, RefreshEvent::Published);
    assert_eq!((state, action), (RefreshState::Idle, RefreshAction::Sleep));
}

#[test]
fn a_failure_ends_the_cycle_and_is_reported() {
    assert_eq!(
        step(RefreshState::Fetching, RefreshEvent::FetchFailed),
        (RefreshState::Idle, RefreshAction::Report(RefreshError::Network))
    );
    assert_eq!(
        step(RefreshState::Parsing, RefreshEvent::ParseFailed),
        (RefreshState::Idle, RefreshAction::Report(RefreshError::Parse))
    );
    assert_eq!(
        step(RefreshState::Publishing, RefreshEvent::ParseFailed),
        (RefreshState::Idle, RefreshAction::Report(RefreshError::Parse))
    );
}

#[test]
fn a_tick_during_a_cycle_starts_no_second_one() {
    for state in [RefreshState::Fetching, RefreshState::Parsing, RefreshState::Publishing] {
        assert_eq!(step(state, RefreshEvent::Tick), (state, RefreshAction::Nothing));
    }
}

#[test]
fn only_a_tick_in_idle_fetches_and_only_parsed_publishes() {
    for state in STATES {
        for event in EVENTS {
            let (_, action) = step(state, event);
            assert_eq!(
                action == RefreshAction::Fetch,
                state == RefreshState::Idle && event == RefreshEvent::Tick
            );
            assert_eq!(
                action == RefreshAction::Publish,
                state == RefreshState::Parsing && event == RefreshEvent::Parsed
            );
        }
    }
}

#[test]
fn an_event_that_does_not_belong_changes_nothing() {
    let belongs = [
        (RefreshState::Idle, RefreshEvent::Tick),
        (RefreshState::Fetching, RefreshEvent::Fetched),
        (RefreshState::Fetching, RefreshEvent::FetchFailed),
        (RefreshState::Parsing, RefreshEvent::Parsed),
        (RefreshState::Parsing, RefreshEvent::ParseFailed),
        (RefreshState::Publishing, RefreshEvent::Published),
        (RefreshState::Publishing, RefreshEvent::ParseFailed),
    ];
    for state in STATES {
        for event in EVENTS {
            if !belongs.contains(&(state, event)) {
                assert_eq!(step(state, event), (state, RefreshAction::Nothing));
            }
        }
    }
}
