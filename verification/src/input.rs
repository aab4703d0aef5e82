use vstd::prelude::*;

verus! {

pub const NUMBER_OF_INPUTS: usize = 16;

/// The handshake that carries one full press-then-release cycle of a key
/// from the host's event stream to a waiting `Fx0A` instruction.
#[derive(PartialEq, Eq, Structural, Clone, Copy, Debug)]
pub enum NewestKeyState {
    /// No request is pending.
    Finished,
    /// The CPU asked for the next key and no press has arrived yet.
    Requested,
    /// The requested key was pressed and is still down.
    Held,
    /// The key was released; its index is ready to be taken.
    Sent,
}

/// The 16-key pad's state plus the blocking-key handshake.
pub struct InputManager {
    pub key_states: Vec<bool>,
    pub newest_key_state: NewestKeyState,
    pub newest_key: u8,
}

/// The mathematical model of the input mirror.
pub struct InputView {
    pub key_states: Seq<bool>,
    pub newest_key_state: NewestKeyState,
    pub newest_key: u8,
}

impl View for InputManager {
    type V = InputView;

    open spec fn view(&self) -> InputView {
        InputView {
            key_states: self.key_states@,
            newest_key_state: self.newest_key_state,
            newest_key: self.newest_key,
        }
    }
}

impl InputView {
    pub open spec fn wf(self) -> bool {
        &&& self.key_states.len() == NUMBER_OF_INPUTS
        &&& self.newest_key <= 0xF
    }

    /// One host key transition: mirror the bit, and move the handshake along
    /// when a request is pending (on press) or the held key ends (on
    /// release).
    pub open spec fn key_event_result(self, key: u8, pressed: bool) -> InputView {
        if pressed {
            if self.newest_key_state == NewestKeyState::Requested {
                InputView {
                    key_states: self.key_states.update(key as int, true),
                    newest_key_state: NewestKeyState::Held,
                    newest_key: key,
                }
            } else {
                InputView { key_states: self.key_states.update(key as int, true), ..self }
            }
        } else {
            if self.newest_key_state == NewestKeyState::Held {
                InputView {
                    key_states: self.key_states.update(key as int, false),
                    newest_key_state: NewestKeyState::Sent,
                    ..self
                }
            } else {
                InputView { key_states: self.key_states.update(key as int, false), ..self }
            }
        }
    }

    /// One poll by a waiting `Fx0A`: open a request when none is pending,
    /// take the key once a full cycle has completed, and otherwise keep
    /// waiting.
    pub open spec fn poll_result(self) -> (InputView, Option<u8>) {
        if self.newest_key_state == NewestKeyState::Finished {
            (InputView { newest_key_state: NewestKeyState::Requested, ..self }, None)
        } else if self.newest_key_state == NewestKeyState::Sent {
            (
                InputView { newest_key_state: NewestKeyState::Finished, ..self },
                Some(self.newest_key),
            )
        } else {
            (self, None)
        }
    }
}

impl InputManager {
    /// All keys up and no request pending.
    pub fn new() -> (r: InputManager)
        ensures
            r@.wf(),
            r.newest_key_state == NewestKeyState::Finished,
            r.newest_key == 0,
            forall|i: int| 0 <= i < NUMBER_OF_INPUTS ==> !r@.key_states[i],
    {
        let mut key_states: Vec<bool> = Vec::new();
        let mut i: usize = 0;
        while i < NUMBER_OF_INPUTS
            invariant
                key_states@.len() == i,
                i <= NUMBER_OF_INPUTS,
                forall|j: int| 0 <= j < i ==> !key_states@[j],
            decreases NUMBER_OF_INPUTS - i,
        {
            key_states.push(false);
            i += 1;
        }
        InputManager { key_states, newest_key_state: NewestKeyState::Finished, newest_key: 0 }
    }

    /// Whether one key is currently down.
    pub fn get_key_state(&self, key_index: u8) -> (r: bool)
        requires
            self@.wf(),
            key_index <= 0xF,
        ensures
            r == self@.key_states[key_index as int],
    {
        self.key_states[key_index as usize]
    }

    /// Mirror one key press or release from the host and move the
    /// blocking-key handshake along.
    pub fn key_event(&mut self, key: u8, pressed: bool)
        requires
            old(self)@.wf(),
            key <= 0xF,
        ensures
            final(self)@.wf(),
            final(self)@ == old(self)@.key_event_result(key, pressed),
    {
        if pressed {
            self.key_states[key as usize] = true;
            if matches!(self.newest_key_state, NewestKeyState::Requested) {
                self.newest_key = key;
                self.newest_key_state = NewestKeyState::Held;
            }
        } else {
            self.key_states[key as usize] = false;
            if matches!(self.newest_key_state, NewestKeyState::Held) {
                self.newest_key_state = NewestKeyState::Sent;
            }
        }
    }

    /// One poll by a blocked `Fx0A`: `None` keeps the instruction waiting,
    /// `Some(key)` completes it with the key whose cycle just finished.
    pub fn poll_next_key(&mut self) -> (r: Option<u8>)
        requires
            old(self)@.wf(),
        ensures
            final(self)@.wf(),
            (final(self)@, r) == old(self)@.poll_result(),
            r is Some ==> r.unwrap() <= 0xF,
    {
        match self.newest_key_state {
            NewestKeyState::Finished => {
                self.newest_key_state = NewestKeyState::Requested;
                None
            },
            NewestKeyState::Sent => {
                self.newest_key_state = NewestKeyState::Finished;
                Some(self.newest_key)
            },
            _ => None,
        }
    }
}

/// The blocking-key law: while the request is pending no poll completes; a
/// press of `key` records it and still completes nothing (holding the key
/// does not return); the release moves the handshake to `Sent`; and the next
/// poll then returns exactly `key` and closes the cycle.
pub proof fn lemma_blocking_key_handshake(inp: InputView, key: u8)
    requires
        inp.wf(),
        key <= 0xF,
        inp.newest_key_state == NewestKeyState::Requested,
    ensures
        inp.poll_result() == (inp, None::<u8>),
        ({
            let held = inp.key_event_result(key, true);
            let sent = held.key_event_result(key, false);
            &&& held.newest_key_state == NewestKeyState::Held
            &&& held.newest_key == key
            &&& held.poll_result() == (held, None::<u8>)
            &&& sent.newest_key_state == NewestKeyState::Sent
            &&& sent.poll_result().1 == Some(key)
            &&& sent.poll_result().0.newest_key_state == NewestKeyState::Finished
        }),
{
}

/// While the requested key is held, further presses of any key neither
/// complete the handshake nor change which key will be handed over; only
/// a release does.
pub proof fn lemma_held_key_ignores_other_presses(inp: InputView, other: u8)
    requires
        inp.wf(),
        other <= 0xF,
        inp.newest_key_state == NewestKeyState::Held,
    ensures
        inp.key_event_result(other, true).newest_key_state == NewestKeyState::Held,
        inp.key_event_result(other, true).newest_key == inp.newest_key,
        inp.poll_result() == (inp, None::<u8>),
{
}

} // verus!
