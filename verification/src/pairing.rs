//! The host's pairing window as its accept loop sees it between connections:
//! whether an owner's window task waits for a device, whether a reserved
//! pairing is in progress, and the shared reservation state that pairing
//! connections update. The loop performs what these functions decide.
use vstd::prelude::*;

verus! {

/// The shared reservation state: the window was reserved by a pairing
/// connection, that reservation still has to move the window task to the
/// active slot, and the reserved pairing has finished.
pub type Reservation = (bool, bool, bool);

/// What the accept loop holds besides the shared state: a window task that
/// waits for a device, and the task of the pairing in progress.
#[derive(Clone, Copy, Debug, PartialEq, Eq, Structural)]
pub struct PairingSlots {
    pub window: bool,
    pub active: bool,
}

/// What one pass of the accept loop does to the pairing bookkeeping, in
/// order: a fresh reservation moves the waiting window task to the active
/// slot; a finished pairing drops the active task and clears the shared
/// state; a window no connection reserved is finished unconfirmed once its
/// deadline passed; and without a reservation in progress no task stays
/// active.
#[derive(Clone, Copy, Debug, PartialEq, Eq, Structural)]
pub struct PairingTick {
    pub activate_window: bool,
    pub reset: bool,
    pub expire_window: bool,
    pub drop_active: bool,
}

/// Whether a fresh reservation moves the window task to the active slot.
pub open spec fn activates(state: Reservation, slots: PairingSlots) -> bool {
    state.1 && !slots.active
}

/// Whether the window expires on this pass.
pub open spec fn expires(state: Reservation, slots: PairingSlots, deadline_passed: bool) -> bool {
    let window = slots.window && !activates(state, slots);
    let consumed = state.0 && !state.2;
    !consumed && window && deadline_passed
}

/// The shared state after a pass.
pub open spec fn state_after_tick(state: Reservation, slots: PairingSlots) -> Reservation {
    if state.2 {
        (false, false, false)
    } else {
        (state.0, state.1 && slots.active, false)
    }
}

/// The slots after a pass.
pub open spec fn slots_after_tick(state: Reservation, slots: PairingSlots, deadline_passed: bool) -> PairingSlots {
    let moved = activates(state, slots);
    let active = if moved { slots.window } else { slots.active };
    PairingSlots {
        window: slots.window && !moved && !expires(state, slots, deadline_passed),
        active: active && state.0 && !state.2,
    }
}

/// One pass of the accept loop over the pairing bookkeeping, given whether
/// the waiting window's deadline has passed.
pub fn pairing_tick(state: &mut Reservation, slots: &mut PairingSlots, deadline_passed: bool) -> (tick: PairingTick)
    ensures
        *final(state) == state_after_tick(*old(state), *old(slots)),
        *final(slots) == slots_after_tick(*old(state), *old(slots), deadline_passed),
        tick.activate_window == activates(*old(state), *old(slots)),
        tick.reset == old(state).2,
        tick.expire_window == expires(*old(state), *old(slots), deadline_passed),
        tick.drop_active == !(old(state).0 && !old(state).2),
{
    let activate_window = state.1 && !slots.active;
    if activate_window {
        slots.active = slots.window;
        slots.window = false;
        state.1 = false;
    }
    let reset = state.2;
    if reset {
        slots.active = false;
        *state = (false, false, false);
    }
    let expire_window = !state.0 && slots.window && deadline_passed;
    if expire_window {
        slots.window = false;
    }
    let in_progress = state.0 && !state.2;
    if !in_progress {
        slots.active = false;
    }
    PairingTick { activate_window, reset, expire_window, drop_active: !in_progress }
}

/// Opens the owner's pairing window when none is open, no pairing is in
/// progress and the host has no peer: the shared state is cleared and the
/// window task waits. Otherwise the request is refused and nothing changes.
pub fn open_pairing_window(state: &mut Reservation, slots: &mut PairingSlots, unpaired: bool) -> (opened: bool)
    ensures
        opened == (!old(slots).window && !old(slots).active && unpaired),
        opened ==> *final(state) == (false, false, false) && *final(slots) == (PairingSlots {
            window: true,
            active: false,
        }),
        !opened ==> *final(state) == *old(state) && *final(slots) == *old(slots),
{
    if slots.window || slots.active || !unpaired {
        return false;
    }
    *state = (false, false, false);
    *slots = PairingSlots { window: true, active: false };
    true
}

/// The most accepted connections that may be in progress before they have
/// authenticated.
pub const PREAUTH_LIMIT: usize = 4;

/// How the host serves a connection it accepted.
#[derive(Clone, Copy, Debug, PartialEq, Eq, Structural)]
pub enum Admission {
    /// Drop the connection: `PREAUTH_LIMIT` connections are still before
    /// authentication.
    OverCapacity,
    /// Run the pairing responder for the waiting window task.
    Pair,
    /// Refuse the connection: a pairing holds the window.
    Busy,
    /// Serve an application session.
    Serve,
}

/// The admission of a connection while `preauth` connections are before
/// authentication: past the limit it is dropped; then a waiting window
/// pairs it, a reserved window refuses it as busy, and otherwise it is
/// served.
pub open spec fn admission_spec(slots: PairingSlots, state: Reservation, preauth: usize) -> Admission {
    if preauth >= PREAUTH_LIMIT {
        Admission::OverCapacity
    } else if slots.window {
        Admission::Pair
    } else if state.0 {
        Admission::Busy
    } else {
        Admission::Serve
    }
}

/// Decides how to serve an accepted connection.
pub fn admit_connection(slots: &PairingSlots, state: &Reservation, preauth: usize) -> (admission: Admission)
    ensures
        admission == admission_spec(*slots, *state, preauth),
{
    if preauth >= PREAUTH_LIMIT {
        Admission::OverCapacity
    } else if slots.window {
        Admission::Pair
    } else if state.0 {
        Admission::Busy
    } else {
        Admission::Serve
    }
}

/// A pairing in progress holds the window: after any pass of the accept
/// loop, an active task means the window is reserved and not yet finished,
/// and the finished mark is cleared.
pub proof fn lemma_active_pairing_holds_the_reservation(state: Reservation, slots: PairingSlots, deadline_passed: bool)
    ensures
        slots_after_tick(state, slots, deadline_passed).active ==> state_after_tick(state, slots).0,
        !state_after_tick(state, slots).2,
{
}

/// A reserved window never expires: while a pairing connection holds the
/// reservation, a pass keeps the waiting window whatever its deadline.
pub proof fn lemma_reserved_window_does_not_expire(state: Reservation, slots: PairingSlots, deadline_passed: bool)
    requires
        state.0,
        !state.2,
    ensures
        !expires(state, slots, deadline_passed),
        slots_after_tick(state, slots, deadline_passed).window == (slots.window && !activates(state, slots)),
{
}

/// While a pairing holds the window, every other connection is refused as
/// busy until the pairing finishes and the next pass clears the state.
pub proof fn lemma_reserved_window_refuses_other_connections(
    state: Reservation,
    slots: PairingSlots,
    deadline_passed: bool,
    preauth: usize,
)
    requires
        state.0,
        !state.2,
        !slots.window || activates(state, slots),
        preauth < PREAUTH_LIMIT,
    ensures
        admission_spec(slots_after_tick(state, slots, deadline_passed), state_after_tick(state, slots), preauth)
            == Admission::Busy,
{
}

/// When the accept loop answers the owner: an identity revocation once no
/// connection is left open, and a runtime shutdown once no connection is
/// open and no connection task is still running.
pub fn acknowledgements(revocation_pending: bool, shutdown_pending: bool, connections: usize, tasks: usize) -> (acks:
    (bool, bool))
    ensures
        acks.0 == (revocation_pending && connections == 0),
        acks.1 == (shutdown_pending && connections == 0 && tasks == 0),
{
    (revocation_pending && connections == 0, shutdown_pending && connections == 0 && tasks == 0)
}

} // verus!
