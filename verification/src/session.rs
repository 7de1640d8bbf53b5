//! The radio session: a half-duplex exchange that is polled once per tick.
//!
//! The radio itself is driven elsewhere. At each tick the session says which
//! operation it wants of the radio ([`State::command`]), and, once that
//! operation has answered, what follows from the answer ([`State::step`]). A
//! failed operation is not judged here: [`recover`] holds the policy that maps
//! each fault to the state from which the session goes on.

use vstd::prelude::*;
use crate::input::{EditLine, InputBuffer};
use crate::interface::{Interface, Oled128x128};

verus! {

/// Where the session stands.
#[derive(Clone, Copy, PartialEq, Eq, Structural, Debug)]
pub enum State {
    /// Just started.
    Init,
    /// About to listen.
    PrepareIdle,
    /// The session is out of step with the radio: it must be started anew.
    Reset,
    /// Listening, and ready to send.
    Idle,
    /// A frame is on its way out.
    Sending,
    /// The frame has left.
    SendingDone,
    /// A frame has come in and waits to be read.
    Received,
    /// The radio cannot be used: the device must stop.
    Panic,
}

/// Why a radio operation failed.
#[derive(Clone, Copy, PartialEq, Eq, Structural, Debug)]
pub enum RadioFault {
    Aborted,
    Crc,
    BufferSize,
    InvalidResponse,
    Timeout,
    InvalidDevice,
    Hal,
    InvalidConfiguration,
}

/// What a tick of the session can fail with.
#[derive(Clone, Copy, PartialEq, Eq, Structural, Debug)]
pub enum Error {
    Radio(RadioFault),
}

impl From<RadioFault> for Error {
    fn from(e: RadioFault) -> (r: Error)
        ensures
            r == Error::Radio(e),
    {
        Error::Radio(e)
    }
}

impl vstd::std_specs::convert::FromSpecImpl<RadioFault> for Error {
    open spec fn obeys_from_spec() -> bool {
        true
    }

    open spec fn from_spec(e: RadioFault) -> Error {
        Error::Radio(e)
    }
}

/// The quality of the link on which a frame came in.
#[derive(Clone, Copy, PartialEq, Eq, Structural, Debug)]
pub struct LinkInfo {
    /// Signal strength.
    pub rssi: i16,
    /// Signal to noise ratio, where the radio reports one.
    pub snr: Option<i16>,
}

/// The radio operation that a tick begins with.
#[derive(Clone, Copy, PartialEq, Eq, Structural, Debug)]
pub enum Command {
    /// No operation.
    Nothing,
    /// Start listening.
    StartReceive,
    /// Start sending the pending text.
    StartTransmit,
    /// Ask whether a frame has come in.
    CheckReceive,
    /// Ask whether the frame has left.
    CheckTransmit,
    /// Read the frame that has come in, and the quality of its link.
    GetReceived,
}

/// What the radio answered.
#[derive(Clone, Copy, Debug)]
pub enum Reply<'a> {
    /// The operation is done; it has nothing to report.
    Done,
    /// The answer to a check: true when the transfer is complete.
    Polled(bool),
    /// The frame that was read.
    Frame(&'a [u8], LinkInfo),
}

/// What a tick leads to.
#[derive(Clone, Copy, PartialEq, Eq, Structural, Debug)]
pub struct Transition {
    /// The state of the session after the tick.
    pub next: State,
    /// The frame just read is to be sent back at once. Should the radio
    /// refuse to start, its fault decides the next state as any other does.
    pub echo: bool,
}

/// `reply` is the kind of answer that `command` has.
pub open spec fn answers(command: Command, reply: Reply<'_>) -> bool {
    match command {
        Command::Nothing | Command::StartReceive | Command::StartTransmit => reply is Done,
        Command::CheckReceive | Command::CheckTransmit => reply is Polled,
        Command::GetReceived => reply is Frame,
    }
}

impl State {
    /// The session has ended: no tick leads out of this state.
    pub open spec fn is_fatal(self) -> bool {
        self is Reset || self is Panic
    }

    /// The operation that a tick in this state begins with. `sending` says
    /// whether a text waits to be sent.
    pub open spec fn wants(self, sending: bool) -> Command {
        match self {
            State::Init | State::Reset | State::Panic => Command::Nothing,
            State::PrepareIdle | State::SendingDone => Command::StartReceive,
            State::Idle => if sending {
                Command::StartTransmit
            } else {
                Command::CheckReceive
            },
            State::Sending => Command::CheckTransmit,
            State::Received => Command::GetReceived,
        }
    }

    /// The state that follows once the operation has answered `reply`. With
    /// `echo`, a frame that came in is sent back and the session goes on to
    /// `Sending`; without, it listens again.
    pub open spec fn next(self, sending: bool, reply: Reply<'_>, echo: bool) -> State {
        match self {
            State::Init => State::PrepareIdle,
            State::PrepareIdle => State::Idle,
            State::Idle => if sending {
                State::Sending
            } else if reply matches Reply::Polled(true) {
                State::Received
            } else {
                State::Idle
            },
            State::Sending => if reply matches Reply::Polled(true) {
                State::SendingDone
            } else {
                State::Sending
            },
            State::Received => if echo {
                State::Sending
            } else {
                State::PrepareIdle
            },
            State::SendingDone => State::Idle,
            State::Reset => State::Reset,
            State::Panic => State::Panic,
        }
    }

    /// The state after `n` ticks in a row at which the radio answered a check
    /// with "not yet" and no text waited to be sent.
    pub open spec fn waited(self, n: nat, echo: bool) -> State
        decreases n,
    {
        if n == 0 {
            self
        } else {
            self.waited((n - 1) as nat, echo).next(false, Reply::Polled(false), echo)
        }
    }

    /// True when the session has ended.
    pub fn fatal(&self) -> (r: bool)
        ensures
            r == self.is_fatal(),
    {
        match self {
            State::Reset | State::Panic => true,
            _ => false,
        }
    }

    /// The radio operation that this tick begins with.
    pub fn command(&self, sending: bool) -> (r: Command)
        ensures
            r == self.wants(sending),
    {
        match self {
            State::Init | State::Reset | State::Panic => Command::Nothing,
            State::PrepareIdle | State::SendingDone => Command::StartReceive,
            State::Idle => if sending {
                Command::StartTransmit
            } else {
                Command::CheckReceive
            },
            State::Sending => Command::CheckTransmit,
            State::Received => Command::GetReceived,
        }
    }

    /// Ends the tick with what the radio answered to the tick's operation.
    ///
    /// A fault is handed on as it is and nothing changes. Otherwise the
    /// session moves to its next state. When it has started to send, the
    /// pending text is cleared and `sending` with it; when it has read a
    /// frame, the frame is logged with the quality of its link.
    pub fn step(
        &self,
        reply: Result<Reply<'_>, RadioFault>,
        sending: &mut bool,
        send_buffer: &mut InputBuffer<128>,
        disp: &mut Oled128x128,
        echo: bool,
    ) -> (r: Result<Transition, Error>)
        requires
            !self.is_fatal(),
            reply matches Ok(answer) ==> answers(self.wants(*old(sending)), answer),
        ensures
            match reply {
                Err(fault) => {
                    &&& r == Err::<Transition, Error>(Error::Radio(fault))
                    &&& *final(sending) == *old(sending)
                    &&& final(send_buffer)@ == old(send_buffer)@
                    &&& final(disp)@ == old(disp)@
                },
                Ok(answer) => {
                    &&& r == Ok::<Transition, Error>(
                        Transition {
                            next: self.next(*old(sending), answer, echo),
                            echo: echo && *self is Received,
                        },
                    )
                    &&& *final(sending) == (*old(sending) && !(*self is Idle))
                    &&& final(send_buffer)@ == if *self is Idle && *old(sending) {
                        EditLine { text: Seq::empty(), cursor: 0, ..old(send_buffer)@ }
                    } else {
                        old(send_buffer)@
                    }
                    &&& final(disp)@ == if let Reply::Frame(frame, info) = answer {
                        old(disp)@.add_log(frame@, info.snr, Some(info.rssi))
                    } else {
                        old(disp)@
                    }
                },
            },
    {
        let answer = match reply {
            Err(fault) => {
                return Err(Error::from(fault));
            },
            Ok(answer) => answer,
        };
        let next = match self {
            State::Init => State::PrepareIdle,
            State::PrepareIdle => State::Idle,
            State::Idle => {
                if *sending {
                    send_buffer.clear();
                    *sending = false;
                    State::Sending
                } else {
                    match answer {
                        Reply::Polled(true) => State::Received,
                        _ => State::Idle,
                    }
                }
            },
            State::Sending => match answer {
                Reply::Polled(true) => State::SendingDone,
                _ => State::Sending,
            },
            State::Received => {
                if let Reply::Frame(frame, info) = answer {
                    disp.add_log(frame, info.snr, Some(info.rssi));
                }
                if echo {
                    State::Sending
                } else {
                    State::PrepareIdle
                }
            },
            State::SendingDone => State::Idle,
            State::Reset => State::Reset,
            State::Panic => State::Panic,
        };
        let echo = echo && matches!(self, State::Received);
        Ok(Transition { next, echo })
    }
}

/// The state from which the session goes on after `fault`: it listens again
/// after a fault that cost one frame at most, starts anew when it is out of
/// step with the radio, and stops when the radio cannot be used.
pub open spec fn recovery(fault: RadioFault) -> State {
    match fault {
        RadioFault::Aborted | RadioFault::Crc | RadioFault::BufferSize => State::PrepareIdle,
        RadioFault::InvalidResponse | RadioFault::Timeout | RadioFault::InvalidDevice => State::Reset,
        RadioFault::Hal | RadioFault::InvalidConfiguration => State::Panic,
    }
}

/// The state from which the session goes on after a failed tick.
pub fn recover(error: Error) -> (r: State)
    ensures
        error matches Error::Radio(fault) && r == recovery(fault),
{
    match error {
        Error::Radio(fault) => match fault {
            RadioFault::Aborted | RadioFault::Crc | RadioFault::BufferSize => State::PrepareIdle,
            RadioFault::InvalidResponse | RadioFault::Timeout | RadioFault::InvalidDevice => {
                State::Reset
            },
            RadioFault::Hal | RadioFault::InvalidConfiguration => State::Panic,
        },
    }
}

/// As long as the radio answers "not yet" and no text waits to be sent, a
/// session that listens or sends stays in its state, tick after tick.
pub proof fn lemma_not_yet_stays(state: State, n: nat, echo: bool)
    requires
        state is Idle || state is Sending,
    ensures
        state.waited(n, echo) == state,
    decreases n,
{
    if n > 0 {
        lemma_not_yet_stays(state, (n - 1) as nat, echo);
    }
}

/// No tick leads from a state that is not fatal into a fatal one: only a
/// fault ends the session.
pub proof fn lemma_next_is_not_fatal(state: State, sending: bool, reply: Reply<'_>, echo: bool)
    requires
        !state.is_fatal(),
    ensures
        !state.next(sending, reply, echo).is_fatal(),
{
}

/// Copies `src` into `target` from position `*cursor` on, as far as `target`
/// has room, and moves `*cursor` past what was copied.
pub fn copy(src: &[u8], target: &mut [u8], cursor: &mut usize)
    ensures
        final(target)@.len() == old(target)@.len(),
        *final(cursor) == *old(cursor) + copied(src@.len(), old(target)@.len(), *old(cursor)),
        forall|i: int|
            0 <= i < old(target)@.len() ==> final(target)@[i] == (if *old(cursor) <= i
                < *final(cursor) {
                src@[i - *old(cursor)]
            } else {
                old(target)@[i]
            }),
{
    let ghost start = *cursor;
    let mut i: usize = 0;
    while i < src.len() && *cursor < target.len()
        invariant
            i <= src.len(),
            target@.len() == old(target)@.len(),
            *cursor == start + i,
            i == 0 || *cursor <= target@.len(),
            forall|j: int|
                0 <= j < target@.len() ==> target@[j] == if start <= j < *cursor {
                    src@[j - start]
                } else {
                    old(target)@[j]
                },
        decreases src.len() - i,
    {
        target[*cursor] = src[i];
        *cursor += 1;
        i += 1;
    }
}

/// The number of bytes that fit when `len` bytes are copied into a target of
/// `room` bytes from position `cursor` on.
pub open spec fn copied(len: nat, room: nat, cursor: usize) -> nat {
    if cursor >= room {
        0
    } else if len <= room - cursor {
        len
    } else {
        (room - cursor) as nat
    }
}

} // verus!
