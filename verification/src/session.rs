//! The lifetime of a duplex session, and the choice of the interface that it
//! runs on.
//!
//! A session owns two workers: the chunker, which always runs, and the
//! reassembler, which runs only in listen mode. The session itself performs
//! nothing; [`Session::step`] takes what has happened and says what to do
//! next.

use crate::address::HardwareAddress;
use vstd::prelude::*;

verus! {

/// Why a session could not be brought up.
#[derive(Clone, Copy, Debug, PartialEq, Eq)]
pub enum ResolutionError {
    /// No interface has the name asked for.
    NotFound,
    /// The interface has no hardware address.
    NoHardwareAddress,
    /// The raw channel on the interface could not be opened.
    TransportUnavailable,
}

/// What is known of one network interface of the host.
#[derive(Clone, Debug, PartialEq, Eq)]
pub struct InterfaceInfo {
    pub name: String,
    pub mac: Option<HardwareAddress>,
}

/// No interface before position `end` has the name `name`.
pub open spec fn none_named(interfaces: Seq<InterfaceInfo>, name: Seq<char>, end: int) -> bool {
    forall|j: int| 0 <= j < end && j < interfaces.len() ==> (#[trigger] interfaces[j]).name@ != name
}

/// Picks the interface to run on: the first one with the name asked for. On
/// success gives its position and its hardware address.
pub fn resolve_interface(interfaces: &Vec<InterfaceInfo>, name: &str) -> (found: Result<
    (usize, HardwareAddress),
    ResolutionError,
>)
    ensures
        match found {
            Ok((at, mac)) => {
                &&& at < interfaces@.len()
                &&& interfaces@[at as int].name@ == name@
                &&& interfaces@[at as int].mac == Some(mac)
                &&& none_named(interfaces@, name@, at as int)
            },
            Err(ResolutionError::NotFound) => none_named(
                interfaces@,
                name@,
                interfaces@.len() as int,
            ),
            Err(ResolutionError::NoHardwareAddress) => exists|at: int|
                {
                    &&& 0 <= at < interfaces@.len()
                    &&& (#[trigger] interfaces@[at]).name@ == name@
                    &&& interfaces@[at].mac is None
                    &&& none_named(interfaces@, name@, at)
                },
            Err(ResolutionError::TransportUnavailable) => false,
        },
{
    let wanted = name.to_owned();
    let mut i: usize = 0;
    while i < interfaces.len()
        invariant
            i <= interfaces.len(),
            wanted@ == name@,
            none_named(interfaces@, name@, i as int),
        decreases interfaces.len() - i,
    {
        if interfaces[i].name == wanted {
            return match interfaces[i].mac {
                Some(mac) => Ok((i, mac)),
                None => Err(ResolutionError::NoHardwareAddress),
            };
        }
        i += 1;
    }
    Err(ResolutionError::NotFound)
}

/// Where a session is in its life.
#[derive(Clone, Copy, Debug, PartialEq, Eq)]
pub enum SessionState {
    /// The interface is being resolved and the transport opened.
    Starting,
    /// The workers run.
    Running,
    /// The chunker is done; the session waits for the reassembler.
    Terminating,
    /// The session is over.
    Terminated,
}

/// Something that happened to a session.
#[derive(Clone, Copy, Debug, PartialEq, Eq)]
pub enum SessionEvent {
    /// The interface was resolved and the transport is open.
    Resolved,
    /// The interface could not be resolved, or the transport not opened.
    ResolutionFailed(ResolutionError),
    /// The chunker has sent the whole input.
    ChunkerFinished,
    /// The reassembler met a read error on the transport and stopped.
    ReassemblerFailed,
}

/// How a session ended.
#[derive(Clone, Copy, Debug, PartialEq, Eq)]
pub enum Termination {
    /// The chunker sent the whole input.
    Clean,
    /// The session never ran.
    ResolutionFailed(ResolutionError),
    /// The transport failed under the reassembler.
    ReceiveFailed,
}

/// What the owner of a session is to do after an event.
#[derive(Clone, Copy, Debug, PartialEq, Eq)]
pub enum SessionAction {
    /// Nothing: the event has no bearing on the session in its state.
    Nothing,
    /// Start the chunker and, if `reassembler` is set, the reassembler.
    StartWorkers { reassembler: bool },
    /// Keep the process alive for the reassembler.
    AwaitReassembler,
    /// End the process.
    Exit(Termination),
}

/// The rules of a session's life: the state that follows `state` on `event`,
/// and what is to be done.
///
/// A session that starts goes on to run, or ends at once if resolution
/// failed. Once the chunker is done the session ends cleanly, unless it
/// listens: then it waits for the reassembler, which only a transport error
/// stops. Such an error ends a listening session wherever it stands. An ended
/// session stays ended.
pub open spec fn transition(state: SessionState, listen: bool, event: SessionEvent) -> (
    SessionState,
    SessionAction,
) {
    match (state, event) {
        (SessionState::Starting, SessionEvent::Resolved) => (
            SessionState::Running,
            SessionAction::StartWorkers { reassembler: listen },
        ),
        (SessionState::Starting, SessionEvent::ResolutionFailed(error)) => (
            SessionState::Terminated,
            SessionAction::Exit(Termination::ResolutionFailed(error)),
        ),
        (SessionState::Running, SessionEvent::ChunkerFinished) => if listen {
            (SessionState::Terminating, SessionAction::AwaitReassembler)
        } else {
            (SessionState::Terminated, SessionAction::Exit(Termination::Clean))
        },
        (SessionState::Running, SessionEvent::ReassemblerFailed) => if listen {
            (SessionState::Terminated, SessionAction::Exit(Termination::ReceiveFailed))
        } else {
            (state, SessionAction::Nothing)
        },
        (SessionState::Terminating, SessionEvent::ReassemblerFailed) => (
            SessionState::Terminated,
            SessionAction::Exit(Termination::ReceiveFailed),
        ),
        _ => (state, SessionAction::Nothing),
    }
}

/// A duplex session.
#[derive(Clone, Copy, Debug, PartialEq, Eq)]
pub struct Session {
    /// Whether the reassembler's lifetime gates the end of the session.
    pub listen: bool,
    /// Where the session is in its life.
    pub state: SessionState,
}

impl Session {
    /// A session that has not started yet.
    pub fn new(listen: bool) -> (session: Session)
        ensures
            session == (Session { listen, state: SessionState::Starting }),
    {
        Session { listen, state: SessionState::Starting }
    }

    /// Takes note of `event` and says what is to be done.
    pub fn step(&mut self, event: SessionEvent) -> (action: SessionAction)
        ensures
            final(self).listen == old(self).listen,
            (final(self).state, action) == transition(old(self).state, old(self).listen, event),
    {
        let (next, action) = match (self.state, event) {
            (SessionState::Starting, SessionEvent::Resolved) => (
                SessionState::Running,
                SessionAction::StartWorkers { reassembler: self.listen },
            ),
            (SessionState::Starting, SessionEvent::ResolutionFailed(error)) => (
                SessionState::Terminated,
                SessionAction::Exit(Termination::ResolutionFailed(error)),
            ),
            (SessionState::Running, SessionEvent::ChunkerFinished) => if self.listen {
                (SessionState::Terminating, SessionAction::AwaitReassembler)
            } else {
                (SessionState::Terminated, SessionAction::Exit(Termination::Clean))
            },
            (SessionState::Running, SessionEvent::ReassemblerFailed) => if self.listen {
                (SessionState::Terminated, SessionAction::Exit(Termination::ReceiveFailed))
            } else {
                (self.state, SessionAction::Nothing)
            },
            (SessionState::Terminating, SessionEvent::ReassemblerFailed) => (
                SessionState::Terminated,
                SessionAction::Exit(Termination::ReceiveFailed),
            ),
            _ => (self.state, SessionAction::Nothing),
        };
        self.state = next;
        action
    }
}

impl Termination {
    /// The exit code of the process: zero for a clean end and for nothing
    /// else.
    pub fn exit_code(self) -> (code: i32)
        ensures
            code == (if self == Termination::Clean {
                0i32
            } else {
                101i32
            }),
    {
        match self {
            Termination::Clean => 0,
            Termination::ResolutionFailed(_) => 101,
            Termination::ReceiveFailed => 101,
        }
    }
}

} // verus!
