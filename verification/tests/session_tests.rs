use ethercat::address::HardwareAddress;
use ethercat::session::{
    resolve_interface, InterfaceInfo, ResolutionError, Session, SessionAction, SessionEvent,
    SessionState, Termination,
};

fn interface(name: &str, mac: Option<HardwareAddress>) -> InterfaceInfo {
    InterfaceInfo { name: name.to_string(), mac }
}

const M1: HardwareAddress = HardwareAddress(2, 0, 0, 0, 0, 1);
const M2: HardwareAddress = HardwareAddress(2, 0, 0, 0, 0, 2);

#[test]
fn session_without_listen_ends_with_the_chunker() {
    let mut session = Session::new(false);
    assert_eq!(session.state, SessionState::Starting);
    assert_eq!(
        session.step(SessionEvent::Resolved),
        SessionAction::StartWorkers { reassembler: false }
    );
    assert_eq!(session.state, SessionState::Running);
    assert_eq!(
        session.step(SessionEvent::ChunkerFinished),
        SessionAction::Exit(Termination::Clean)
    );
    assert_eq!(session.state, SessionState::Terminated);
    assert!(!session.listen);
}

#[test]
fn listening_session_waits_for_the_reassembler() {
    let mut session = Session::new(true);
    assert_eq!(
        session.step(SessionEvent::Resolved),
        SessionAction::StartWorkers { reassembler: true }
    );
    assert_eq!(session.step(SessionEvent::ChunkerFinished), SessionAction::AwaitReassembler);
    assert_eq!(session.state, SessionState::Terminating);
    assert_eq!(session.step(SessionEvent::ChunkerFinished), SessionAction::Nothing);
    assert_eq!(session.state, SessionState::Terminating);
    assert_eq!(
        session.step(SessionEvent::ReassemblerFailed),
        SessionAction::Exit(Termination::ReceiveFailed)
    );
    assert_eq!(session.state, SessionState::Terminated);
    assert!(session.listen);
}

#[test]
fn receive_failure_ends_a_running_listening_session() {
    let mut session = Session::new(true);
    session.step(SessionEvent::Resolved);
    assert_eq!(
        session.step(SessionEvent::ReassemblerFailed),
        SessionAction::Exit(Termination::ReceiveFailed)
    );
    assert_eq!(session.state, SessionState::Terminated);
}

#[test]
fn receive_failure_means_nothing_without_listen() {
    let mut session = Session::new(false);
    session.step(SessionEvent::Resolved);
    assert_eq!(session.step(SessionEvent::ReassemblerFailed), SessionAction::Nothing);
    assert_eq!(session.state, SessionState::Running);
}

#[test]
fn resolution_failure_ends_the_session_before_it_runs() {
    for error in [
        ResolutionError::NotFound,
        ResolutionError::NoHardwareAddress,
        ResolutionError::TransportUnavailable,
    ] {
        let mut session = Session::new(true);
        assert_eq!(
            session.step(SessionEvent::ResolutionFailed(error)),
            SessionAction::Exit(Termination::ResolutionFailed(error))
        );
        assert_eq!(session.state, SessionState::Terminated);
    }
}

#[test]
fn an_ended_session_stays_ended() {
    let mut session = Session::new(false);
    session.step(SessionEvent::ResolutionFailed(ResolutionError::NotFound));
    for event in [
        SessionEvent::Resolved,
        SessionEvent::ResolutionFailed(ResolutionError::NotFound),
        SessionEvent::ChunkerFinished,
        SessionEvent::ReassemblerFailed,
    ] {
        assert_eq!(session.step(event), SessionAction::Nothing);
        assert_eq!(session.state, SessionState::Terminated);
    }
}

#[test]
fn events_out_of_place_change_nothing() {
    let mut session = Session::new(true);
    assert_eq!(session.step(SessionEvent::ChunkerFinished), SessionAction::Nothing);
    assert_eq!(session.step(SessionEvent::ReassemblerFailed), SessionAction::Nothing);
    assert_eq!(session.state, SessionState::Starting);
    session.step(SessionEvent::Resolved);
    assert_eq!(session.step(SessionEvent::Resolved), SessionAction::Nothing);
    assert_eq!(
        session.step(SessionEvent::ResolutionFailed(ResolutionError::NotFound)),
        SessionAction::Nothing
    );
    assert_eq!(session.state, SessionState::Running);
}

#[test]
fn exit_code_is_zero_only_for_a_clean_end() {
    assert_eq!(Termination::Clean.exit_code(), 0);
    assert_ne!(Termination::ReceiveFailed.exit_code(), 0);
    assert_ne!(Termination::ResolutionFailed(ResolutionError::NotFound).exit_code(), 0);
    assert_eq!(Termination::ResolutionFailed(ResolutionError::NoHardwareAddress).exit_code(), 101);
}

#[test]
fn interface_is_found_by_name() {
    let interfaces =
        vec![interface("lo", None), interface("eth0", Some(M1)), interface("eth1", Some(M2))];
    assert_eq!(resolve_interface(&interfaces, "eth0"), Ok((1, M1)));
    assert_eq!(resolve_interface(&interfaces, "eth1"), Ok((2, M2)));
}

#[test]
fn first_interface_of_a_name_wins() {
    let interfaces =
        vec![interface("eth0", Some(M1)), interface("eth0", Some(M2)), interface("eth0", None)];
    assert_eq!(resolve_interface(&interfaces, "eth0"), Ok((0, M1)));
    let interfaces = vec![interface("eth0", None), interface("eth0", Some(M2))];
    assert_eq!(resolve_interface(&interfaces, "eth0"), Err(ResolutionError::NoHardwareAddress));
}

#[test]
fn unknown_interface_is_not_found() {
    let interfaces = vec![interface("lo", None), interface("eth0", Some(M1))];
    assert_eq!(resolve_interface(&interfaces, "eth"), Err(ResolutionError::NotFound));
    assert_eq!(resolve_interface(&interfaces, "eth00"), Err(ResolutionError::NotFound));
    assert_eq!(resolve_interface(&interfaces, ""), Err(ResolutionError::NotFound));
    assert_eq!(resolve_interface(&vec![], "eth0"), Err(ResolutionError::NotFound));
}

#[test]
fn interface_without_address_is_refused() {
    let interfaces = vec![interface("lo", None), interface("eth0", Some(M1))];
    assert_eq!(resolve_interface(&interfaces, "lo"), Err(ResolutionError::NoHardwareAddress));
}
