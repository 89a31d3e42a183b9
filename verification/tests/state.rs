use delayed_logger::state::{AtomicSpanState, SpanState};

const STATES: [SpanState; 5] = [
    SpanState::SilentPeriod,
    SpanState::PermissionAcquired,
    SpanState::PermissionDenied,
    SpanState::PermissionBorrowed,
    SpanState::Inactive,
];

/// A cell in the given state.
fn cell(state: SpanState) -> AtomicSpanState {
    let mut cell = AtomicSpanState::new();
    if state == SpanState::Inactive {
        return cell;
    }
    cell.init();
    match state {
        SpanState::PermissionAcquired => cell.give_permission(),
        SpanState::PermissionDenied => cell.deny_permission(),
        SpanState::PermissionBorrowed => cell.give_and_borrow_permission(),
        _ => {}
    }
    cell
}

#[test]
fn a_new_cell_is_inactive() {
    assert_eq!(AtomicSpanState::new().get(), SpanState::Inactive);
}

#[test]
fn codes_are_the_positions_of_the_states() {
    for (code, state) in STATES.iter().enumerate() {
        assert_eq!(u32::from(*state), code as u32);
        assert_eq!(SpanState::try_from(code as u32), Ok(*state));
    }
}

#[test]
fn other_codes_are_refused() {
    assert_eq!(SpanState::try_from(5), Err(()));
    assert_eq!(SpanState::try_from(u32::MAX), Err(()));
}

#[test]
fn init_starts_the_silent_period() {
    let mut cell = AtomicSpanState::new();
    cell.init();
    assert_eq!(cell.get(), SpanState::SilentPeriod);
}

#[test]
fn reset_returns_the_state_that_was_left() {
    for state in STATES {
        let mut cell = cell(state);
        assert_eq!(cell.reset(), state);
        assert_eq!(cell.get(), SpanState::Inactive);
    }
}

#[test]
fn a_given_permission_overwrites_earlier_decisions() {
    for state in STATES {
        if state != SpanState::Inactive {
            let mut given = cell(state);
            given.give_permission();
            assert_eq!(given.get(), SpanState::PermissionAcquired);
            let mut lent = cell(state);
            lent.give_and_borrow_permission();
            assert_eq!(lent.get(), SpanState::PermissionBorrowed);
        }
    }
}

#[test]
fn a_denial_ends_the_silent_period_only() {
    let mut silent = cell(SpanState::SilentPeriod);
    silent.deny_permission();
    assert_eq!(silent.get(), SpanState::PermissionDenied);
    for state in [SpanState::PermissionAcquired, SpanState::PermissionBorrowed] {
        let mut decided = cell(state);
        decided.deny_permission();
        assert_eq!(decided.get(), state);
    }
}

#[test]
fn a_permission_is_lent_once_and_comes_back() {
    let mut cell = cell(SpanState::PermissionAcquired);
    assert!(cell.borrow_permission());
    assert_eq!(cell.get(), SpanState::PermissionBorrowed);
    assert!(!cell.borrow_permission());
    cell.return_permission();
    assert_eq!(cell.get(), SpanState::PermissionAcquired);
    assert!(cell.borrow_permission());
}

#[test]
fn a_denied_span_lends_nothing() {
    let mut cell = cell(SpanState::PermissionDenied);
    assert!(!cell.borrow_permission());
    assert_eq!(cell.get(), SpanState::PermissionDenied);
}
