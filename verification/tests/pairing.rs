use deskkin::identity::reserve_pairing_window;
use deskkin::pairing::{acknowledgements, PREAUTH_LIMIT};
use deskkin::pairing::{admit_connection, open_pairing_window, pairing_tick, Admission, PairingSlots, PairingTick};

fn slots(window: bool, active: bool) -> PairingSlots {
    PairingSlots { window, active }
}

#[test]
fn owner_window_opens_only_when_idle_and_unpaired() {
    let mut state = (true, false, true);
    let mut held = slots(false, false);
    assert!(open_pairing_window(&mut state, &mut held, true));
    assert_eq!(state, (false, false, false));
    assert_eq!(held, slots(true, false));

    let mut again = (false, false, false);
    let mut open = slots(true, false);
    assert!(!open_pairing_window(&mut again, &mut open, true));
    assert_eq!(open, slots(true, false));

    let mut busy = slots(false, true);
    assert!(!open_pairing_window(&mut again, &mut busy, true));
    let mut paired = slots(false, false);
    assert!(!open_pairing_window(&mut again, &mut paired, false));
    assert_eq!(paired, slots(false, false));
}

#[test]
fn connections_pair_with_a_waiting_window_and_are_busy_while_it_is_reserved() {
    let mut state = (false, false, false);
    let mut held = slots(false, false);
    assert!(open_pairing_window(&mut state, &mut held, true));
    assert_eq!(admit_connection(&held, &state, 0), Admission::Pair);

    assert!(reserve_pairing_window(&mut state));
    assert!(!reserve_pairing_window(&mut state));
    let tick = pairing_tick(&mut state, &mut held, true);
    assert_eq!(
        tick,
        PairingTick { activate_window: true, reset: false, expire_window: false, drop_active: false }
    );
    assert_eq!(held, slots(false, true));
    assert_eq!(state, (true, false, false));
    assert_eq!(admit_connection(&held, &state, 0), Admission::Busy);

    state.2 = true;
    let tick = pairing_tick(&mut state, &mut held, false);
    assert!(tick.reset && tick.drop_active);
    assert_eq!(held, slots(false, false));
    assert_eq!(state, (false, false, false));
    assert_eq!(admit_connection(&held, &state, 0), Admission::Serve);
}

#[test]
fn an_unreserved_window_expires_at_its_deadline() {
    let mut state = (false, false, false);
    let mut held = slots(true, false);
    let tick = pairing_tick(&mut state, &mut held, false);
    assert!(!tick.expire_window);
    assert_eq!(held, slots(true, false));
    let tick = pairing_tick(&mut state, &mut held, true);
    assert!(tick.expire_window);
    assert_eq!(held, slots(false, false));
}

#[test]
fn connections_past_the_preauth_limit_are_dropped_first() {
    let state = (true, false, false);
    let held = slots(true, false);
    assert_eq!(admit_connection(&held, &state, PREAUTH_LIMIT - 1), Admission::Pair);
    assert_eq!(admit_connection(&held, &state, PREAUTH_LIMIT), Admission::OverCapacity);
    assert_eq!(PREAUTH_LIMIT, 4);
}

#[test]
fn owner_is_answered_only_once_connections_and_tasks_are_gone() {
    assert_eq!(acknowledgements(true, true, 1, 0), (false, false));
    assert_eq!(acknowledgements(true, true, 0, 1), (true, false));
    assert_eq!(acknowledgements(true, true, 0, 0), (true, true));
    assert_eq!(acknowledgements(false, false, 0, 0), (false, false));
}
