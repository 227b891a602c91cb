use std::sync::Arc;
use std::sync::Mutex;
use vstd::prelude::*;

verus! {

#[verifier::external_type_specification]
#[verifier::external_body]
#[verifier::reject_recursive_types(T)]
pub struct ExMutex<T: ?Sized>(Mutex<T>);

/// What the recorder does now.
#[derive(PartialEq, Eq, Structural, Debug, Clone, Copy)]
pub enum Action {
    Buffer,
    Record,
    Finish,
}

/// The mode and counters that the transfer loop, the key reader and the status
/// line share.
#[derive(Debug)]
pub struct State {
    pub action: Action,
    /// Bytes of input held in the ring.
    pub buffered: usize,
    /// Bytes sent to the output since the start.
    pub written: usize,
    /// Bytes of input per second.
    pub byte_rate: usize,
    /// Length of the pre-buffer window in seconds.
    pub seconds: usize,
}

/// The mode after `requested` is asked for in mode `current`.
pub open spec fn next_mode(current: Action, requested: Action) -> Action {
    if current == Action::Finish {
        Action::Finish
    } else {
        requested
    }
}

/// The mode after each of `requests` is asked for in turn, from `current`.
pub open spec fn mode_after(current: Action, requests: Seq<Action>) -> Action
    decreases requests.len(),
{
    if requests.len() == 0 {
        current
    } else {
        mode_after(next_mode(current, requests[0]), requests.drop_first())
    }
}

/// Finishing is final: whatever modes are asked for after it, the state stays
/// finished.
pub proof fn lemma_finish_is_terminal(requests: Seq<Action>)
    ensures
        mode_after(Action::Finish, requests) == Action::Finish,
    decreases requests.len(),
{
    if requests.len() > 0 {
        lemma_finish_is_terminal(requests.drop_first());
    }
}

pub type StateMut = Arc<Mutex<State>>;

impl State {
    /// A fresh state: buffering, nothing held or written yet.
    pub fn new(byte_rate: usize, seconds: usize) -> (r: State)
        ensures
            r.action == Action::Buffer,
            r.buffered == 0,
            r.written == 0,
            r.byte_rate == byte_rate,
            r.seconds == seconds,
    {
        State { action: Action::Buffer, buffered: 0, written: 0, byte_rate, seconds }
    }

    /// Switches to `action`. Once finished the state stays finished, and the
    /// counters are never touched; asking for the mode already active changes
    /// nothing at all.
    pub fn set_mode(&mut self, action: Action)
        ensures
            final(self).action == next_mode(old(self).action, action),
            action == old(self).action ==> *final(self) == *old(self),
            final(self).buffered == old(self).buffered,
            final(self).written == old(self).written,
            final(self).byte_rate == old(self).byte_rate,
            final(self).seconds == old(self).seconds,
    {
        if self.action != Action::Finish {
            self.action = action;
        }
    }
}

/// Relies on `Mutex::lock`: the mode read under the lock, or `None` where the
/// lock is poisoned. Other threads change the mode, so nothing is known of it.
#[verifier::external_body]
fn lock_action(state: &StateMut) -> (r: Option<Action>) {
    state.lock().ok().map(|s| s.action)
}

/// Whether a mode read under the lock is `action`; a failed read is no match.
pub fn action_matches(observed: Option<Action>, action: Action) -> (r: bool)
    ensures
        r == (observed == Some(action)),
{
    match observed {
        Some(a) => a == action,
        None => false,
    }
}

/// Whether the shared state is in mode `action` at the moment it is read; false
/// where the lock cannot be taken.
pub fn state_is(state: &StateMut, action: Action) -> (r: bool) {
    action_matches(lock_action(state), action)
}

/// The mode after key `c` is pressed in mode `action`: Ctrl-C, `q` and `Q`
/// finish, any other key toggles between recording and buffering.
pub fn match_char(c: u8, action: &Action) -> (r: Action)
    ensures
        (c == 0x03 || c == 0x71 || c == 0x51) ==> r == Action::Finish,
        !(c == 0x03 || c == 0x71 || c == 0x51) ==> r == (if *action == Action::Record {
            Action::Buffer
        } else {
            Action::Record
        }),
{
    if c == 0x03 || c == 0x71 || c == 0x51 {
        Action::Finish
    } else {
        match action {
            Action::Record => Action::Buffer,
            _ => Action::Record,
        }
    }
}

} // verus!
