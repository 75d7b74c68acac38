//! The control surface's watchdog: the backend announces itself on the
//! network at a fixed interval, and the surface keeps track of whether a
//! backend is alive and where it is. The surface's loop receives the
//! announcements and performs the fetches this module asks for.
use vstd::prelude::*;

verus! {

/// What the watchdog knows: whether a backend announced itself in time,
/// and the address (its bytes) of the backend whose data was fetched.
#[derive(Debug, Clone, PartialEq, Eq)]
pub struct WatchdogState {
    pub alive: bool,
    pub server: Option<Vec<u8>>,
}

/// What the watchdog's loop reports.
#[derive(Debug)]
pub enum WatchdogEvent {
    /// A message `payload` arrived from address `from`.
    Message { payload: Vec<u8>, from: Vec<u8> },
    /// Nothing arrived within the waiting time.
    Timeout,
    /// The data of the backend could not be fetched.
    FetchFailed,
}

pub struct WatchdogStateView {
    pub alive: bool,
    pub server: Option<Seq<u8>>,
}

impl WatchdogState {
    pub open spec fn view(&self) -> WatchdogStateView {
        WatchdogStateView {
            alive: self.alive,
            server: match self.server {
                Some(a) => Some(a@),
                None => None,
            },
        }
    }
}

/// The next state and whether the data of the (new) backend is to be
/// fetched: a message that is the expected announcement marks the backend
/// alive, and a backend at a new address is taken and fetched from; any
/// other message, or none in time, marks no backend alive and forgets its
/// address; a failed fetch forgets the address.
pub open spec fn spec_watchdog_step(st: WatchdogStateView, expected: Seq<u8>, ev: WatchdogEvent) -> (WatchdogStateView, bool) {
    match ev {
        WatchdogEvent::Message { payload, from } => {
            if payload@ == expected {
                if st.server == Some(from@) {
                    (WatchdogStateView { alive: true, server: st.server }, false)
                } else {
                    (WatchdogStateView { alive: true, server: Some(from@) }, true)
                }
            } else {
                (WatchdogStateView { alive: false, server: None }, false)
            }
        },
        WatchdogEvent::Timeout => (WatchdogStateView { alive: false, server: None }, false),
        WatchdogEvent::FetchFailed => (WatchdogStateView { alive: st.alive, server: None }, false),
    }
}

/// Whether two byte strings are equal.
pub fn bytes_equal(a: &Vec<u8>, b: &Vec<u8>) -> (r: bool)
    ensures
        r == (a@ == b@),
{
    if a.len() != b.len() {
        return false;
    }
    let mut i: usize = 0;
    while i < a.len()
        invariant
            a@.len() == b@.len(),
            i <= a@.len(),
            forall|k: int| 0 <= k < i ==> a@[k] == b@[k],
        decreases a@.len() - i,
    {
        if a[i] != b[i] {
            return false;
        }
        i = i + 1;
    }
    assert(a@ =~= b@);
    true
}

/// One step of the watchdog (see `spec_watchdog_step`).
pub fn watchdog_step(st: WatchdogState, expected: &Vec<u8>, ev: WatchdogEvent) -> (r: (WatchdogState, bool))
    ensures
        (r.0.view(), r.1) == spec_watchdog_step(st.view(), expected@, ev),
{
    match ev {
        WatchdogEvent::Message { payload, from } => {
            if bytes_equal(&payload, expected) {
                let same = match &st.server {
                    Some(a) => bytes_equal(a, &from),
                    None => false,
                };
                if same {
                    (WatchdogState { alive: true, server: st.server }, false)
                } else {
                    (WatchdogState { alive: true, server: Some(from) }, true)
                }
            } else {
                (WatchdogState { alive: false, server: None }, false)
            }
        },
        WatchdogEvent::Timeout => (WatchdogState { alive: false, server: None }, false),
        WatchdogEvent::FetchFailed => (WatchdogState { alive: st.alive, server: None }, false),
    }
}

/// A backend that keeps announcing itself from one address is fetched from
/// once: a repeated announcement asks for no fetch and changes nothing.
pub proof fn lemma_repeated_announcement(st: WatchdogStateView, expected: Seq<u8>, payload: Vec<u8>, from: Vec<u8>)
    requires
        payload@ == expected,
    ensures
        ({
            let (s1, f1) = spec_watchdog_step(st, expected, WatchdogEvent::Message { payload, from });
            let (s2, f2) = spec_watchdog_step(s1, expected, WatchdogEvent::Message { payload, from });
            &&& s1.alive && s1.server == Some(from@)
            &&& f1 == (st.server != Some(from@))
            &&& s2 == s1
            &&& !f2
        }),
{
}

} // verus!
