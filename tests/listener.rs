use kite_mux::connection::CloseReason;
use kite_mux::listener::{listener_step, ListenerAction, ListenerEvent};

#[test]
fn accept_failure_is_logged_and_accepting_goes_on() {
    assert_eq!(listener_step(ListenerEvent::AcceptFailed), ListenerAction::LogAndAccept);
    assert_eq!(listener_step(ListenerEvent::Accepted), ListenerAction::Serve);
}

#[test]
fn connection_failure_does_not_stop_the_listener() {
    assert_eq!(listener_step(ListenerEvent::ConnectionFailed), ListenerAction::LogAndAccept);
    assert_eq!(
        listener_step(ListenerEvent::ConnectionClosed(CloseReason::DecodeError)),
        ListenerAction::LogAndAccept
    );
    assert_eq!(
        listener_step(ListenerEvent::ConnectionClosed(CloseReason::Finished)),
        ListenerAction::Accept
    );
}

#[test]
fn only_a_clean_drain_is_not_an_error() {
    assert!(!CloseReason::Finished.is_error());
    assert!(CloseReason::DecodeError.is_error());
    assert!(CloseReason::TagViolation.is_error());
}
