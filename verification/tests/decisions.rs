use reactive_messaging::connection::{ConnectionIds, SocketConnection};
use reactive_messaging::connection_provider::{is_transient, AddressRotation, AttemptFailure, ConnectStep, ReceiverDroppedErr};
use reactive_messaging::dialog::{
    dialog_step, DialogStep, DialogTurn, TurnAction, on_processor_failure, on_slot_reservation_failure, on_undecodable_message, DialogEvent, PeerNotice,
    ReservationFailure,
};
use reactive_messaging::responsive::{closes_connection, plan_answer, AnswerPlan};
use reactive_messaging::retrying::{abort_after_failure, retry_plan, RetryPlan, RetryingStrategies};
use reactive_messaging::serde::{ReactiveMessagingDeserializer, ReactiveMessagingSerializer};
use reactive_messaging::serialized_binary_dialog::SerializedWrapperType;
use reactive_messaging::server_lifecycle::{
    route_single_protocol, shutdown_timeout_millis, CompositeServerLifecycle, ShutdownError, ShutdownTracker, ShutdownTracking,
    ShutdownWaitError, SocketServerLifecycle, StartError,
};

#[test]
fn retry_plans_follow_the_strategy() {
    assert_eq!(retry_plan(RetryingStrategies::DoNotRetry), RetryPlan::Fail { abort: false });
    assert_eq!(retry_plan(RetryingStrategies::EndCommunications), RetryPlan::Fail { abort: true });
    assert_eq!(retry_plan(RetryingStrategies::RetryWithBackoffUpTo(5)), RetryPlan::BackoffRetries { re_attempts: 5 });
    assert_eq!(retry_plan(RetryingStrategies::RetryYieldingForUpToMillis(30)), RetryPlan::YieldUntilTimeout { millis: 30 });
}

#[test]
fn only_do_not_retry_keeps_the_connection() {
    assert!(!abort_after_failure(retry_plan(RetryingStrategies::DoNotRetry)));
    assert!(abort_after_failure(retry_plan(RetryingStrategies::EndCommunications)));
    assert!(abort_after_failure(retry_plan(RetryingStrategies::RetryWithBackoffUpTo(3))));
    assert!(abort_after_failure(retry_plan(RetryingStrategies::RetryYieldingForUpToMillis(1))));
}

#[test]
fn answers_are_planned_from_their_kind() {
    assert_eq!(plan_answer(false, false), AnswerPlan::Send);
    assert_eq!(plan_answer(true, false), AnswerPlan::SendThenClose);
    assert_eq!(plan_answer(true, true), AnswerPlan::CloseWithoutSending);
    assert_eq!(plan_answer(false, true), AnswerPlan::Skip);
    assert!(closes_connection(AnswerPlan::Send, true));
    assert!(!closes_connection(AnswerPlan::Send, false));
    assert!(closes_connection(AnswerPlan::SendThenClose, false));
    assert!(!closes_connection(AnswerPlan::Skip, true));
}

#[test]
fn dialog_steps() {
    let s = dialog_step(DialogEvent::WriteFailed);
    assert!(s.report_closed && s.end_dialog);
    let s = dialog_step(DialogEvent::SenderEnded);
    assert!(!s.report_closed && s.end_dialog);
    let s = dialog_step(DialogEvent::WouldBlock);
    assert!(!s.report_closed && !s.end_dialog);
    let s = dialog_step(DialogEvent::EndOfStream);
    assert!(s.report_closed && s.end_dialog);
    let s = dialog_step(DialogEvent::ProtocolViolation);
    assert!(s.report_closed && s.end_dialog);
}

#[test]
fn processor_failures() {
    assert!(!on_processor_failure(false, PeerNotice::Sent).end_dialog);
    assert!(!on_processor_failure(false, PeerNotice::SendFailed { abort: false }).end_dialog);
    assert!(on_processor_failure(false, PeerNotice::SendFailed { abort: true }).end_dialog);
    assert!(on_processor_failure(true, PeerNotice::NotSent).report_closed);
    assert!(!on_undecodable_message(PeerNotice::Sent).end_dialog);
    assert!(on_undecodable_message(PeerNotice::SendFailed { abort: true }).end_dialog);
}

#[test]
fn slot_reservation_failures() {
    let v = on_slot_reservation_failure(true, PeerNotice::SendFailed { abort: true });
    assert!(v.report_closed);
    assert_eq!(v.reason, ReservationFailure::SlowReader);
    let v = on_slot_reservation_failure(true, PeerNotice::Sent);
    assert_eq!(v.reason, ReservationFailure::ProcessorAborted);
    let v = on_slot_reservation_failure(false, PeerNotice::NotSent);
    assert!(!v.report_closed);
    assert_eq!(v.reason, ReservationFailure::NoSlotLeft);
}

#[test]
fn composite_server_lifecycle() {
    let mut server = CompositeServerLifecycle::new();
    assert_eq!(server.shutdown(), Err(ShutdownError::NotStarted));
    assert!(server.can_register_processor());
    server.register_processor();
    server.register_processor();
    assert_eq!(server.on_listener_bound(), Ok(()));
    assert_eq!(server.on_listener_bound(), Err(StartError::StartedMoreThanOnce));
    assert_eq!(server.shutdown(), Ok(()));
    assert_eq!(server.take_shutdown_waiter(), Ok(2));
    assert_eq!(server.take_shutdown_waiter(), Err(ShutdownWaitError::NothingToAwait));
    assert!(!server.can_register_processor());
}

#[test]
fn rotation_goes_round_the_resolved_addresses() {
    let resolved = vec![10u32, 20, 30];
    let mut rotation = AddressRotation::<u32>::new();
    let mut visited = Vec::new();
    for _ in 0..7 {
        let fresh = if rotation.needs_resolution() { resolved.clone() } else { Vec::new() };
        visited.push(rotation.next_address(fresh).unwrap());
    }
    assert_eq!(visited, vec![10, 20, 30, 10, 20, 30, 10]);

    let mut single = AddressRotation::<u32>::new();
    for _ in 0..10 {
        let fresh = if single.needs_resolution() { vec![7u32] } else { Vec::new() };
        assert_eq!(single.next_address(fresh), Some(7));
    }
    let mut unresolvable = AddressRotation::<u32>::new();
    assert!(unresolvable.needs_resolution());
    assert_eq!(unresolvable.next_address(Vec::new()), None);
}

#[test]
fn composite_server_without_processors_does_not_start() {
    let mut server = CompositeServerLifecycle::new();
    assert_eq!(server.on_listener_bound(), Err(StartError::NoProcessors));
    assert_eq!(server.take_shutdown_waiter(), Ok(0));
    assert_eq!(server.on_listener_bound(), Err(StartError::NoProcessors));
    assert_eq!(server.shutdown(), Err(ShutdownError::NotStarted));
    assert!(!server.can_register_processor());

    let mut server = CompositeServerLifecycle::new();
    assert_eq!(server.shutdown(), Err(ShutdownError::NotStarted));
    server.register_processor();
    assert_eq!(server.on_listener_bound(), Ok(()));
}

#[test]
fn socket_server_lifecycle() {
    let mut server = SocketServerLifecycle::new();
    assert_eq!(server.take_shutdown_waiter(), Err(ShutdownWaitError::NothingToAwait));
    assert_eq!(server.shutdown(true), Err(ShutdownError::NotStarted));
    server.on_processor_spawned();
    assert!(server.is_shutdown_armed());
    assert_eq!(server.take_shutdown_waiter(), Ok(()));
    assert_eq!(server.take_shutdown_waiter(), Err(ShutdownWaitError::NothingToAwait));
    assert_eq!(server.shutdown(false), Err(ShutdownError::SignalNotDelivered));
    assert_eq!(server.shutdown(true), Ok(()));
}

#[test]
fn shutdown_completion_is_signaled_once() {
    let mut tracker = ShutdownTracker::new();
    assert_eq!(tracker.on_event(false), ShutdownTracking::Forward);
    assert_eq!(tracker.on_event(true), ShutdownTracking::ForwardThenSignalCompletion);
    assert_eq!(tracker.on_event(false), ShutdownTracking::Forward);
    assert_eq!(tracker.on_event(true), ShutdownTracking::ForwardAfterCompletion);
}

#[test]
fn lost_shutdown_signals_get_the_problematic_timeout() {
    assert_eq!(shutdown_timeout_millis(Some(300)), 300);
    assert_eq!(shutdown_timeout_millis(None), 5000);
}

#[test]
fn single_protocol_routing() {
    assert!(route_single_protocol::<u32>(&None));
    assert!(!route_single_protocol(&Some(7u32)));
}

#[test]
fn addresses_rotate_in_resolution_order() {
    let mut rotation = AddressRotation::new();
    assert!(matches!(rotation.next_step(), ConnectStep::Resolve));
    rotation.install_resolved(vec!["a", "b", "c"]);
    let mut visited = Vec::new();
    while let ConnectStep::Connect(address) = rotation.next_step() {
        visited.push(address);
    }
    assert_eq!(visited, vec!["a", "b", "c"]);
    assert!(matches!(rotation.next_step(), ConnectStep::Resolve));
}

#[test]
fn only_connection_failures_are_retried() {
    assert!(!is_transient(AttemptFailure::ResolutionFailed));
    assert!(is_transient(AttemptFailure::ConnectionFailed));
}

#[test]
fn receiver_dropped_error_gives_the_value_back() {
    let err = ReceiverDroppedErr::new(String::from("connection"));
    assert_eq!(err.into_inner(), "connection");
}

#[test]
fn socket_connection_marks() {
    let mut connection = SocketConnection::new("transport", 1u8, 42);
    assert_eq!(connection.id(), 42);
    assert!(!connection.closed());
    connection.set_state(2);
    assert_eq!(*connection.state(), 2);
    connection.report_closed();
    assert!(connection.closed());
    assert_eq!(*connection.state(), 2);
    assert_eq!(*connection.connection(), "transport");
    *connection.connection_mut() = "other";
    assert_eq!(*connection.connection(), "other");
    assert_eq!(connection.id(), 42);
}

struct NonEmpty;
impl ReactiveMessagingDeserializer<String> for NonEmpty {
    fn deserialize(serialized: &[u8]) -> Result<String, String> {
        String::from_utf8(serialized.to_vec()).map_err(|err| err.to_string())
    }
    fn validate(raw: &[u8]) -> Result<(), String> {
        if raw.is_empty() { Err(String::from("empty message")) } else { Ok(()) }
    }
}

struct Utf8Text;
impl ReactiveMessagingSerializer<String> for Utf8Text {
    fn serialize(local_message: &String, buffer: &mut Vec<u8>) {
        buffer.clear();
        buffer.extend_from_slice(local_message.as_bytes());
    }
}

#[test]
fn serialized_wrapper_from_value() {
    let wrapped = SerializedWrapperType::<String, NonEmpty>::from_value::<Utf8Text>(String::from("hello"));
    assert_eq!(wrapped.as_raw(), &b"hello".to_vec());
    let empty = SerializedWrapperType::<String, NonEmpty>::from_value::<Utf8Text>(String::new());
    assert!(empty.as_raw().is_empty());
}

#[test]
fn serialized_wrapper_validation() {
    let wrapped = SerializedWrapperType::<String, NonEmpty>::try_from_raw(b"abc".to_vec()).ok().unwrap();
    assert_eq!(wrapped.as_raw(), &b"abc".to_vec());
    assert_eq!(SerializedWrapperType::<String, NonEmpty>::try_from_raw(Vec::new()).err(), Some(String::from("empty message")));
    let unchecked = SerializedWrapperType::<String, NonEmpty>::from_raw_unchecked(b"abc".to_vec());
    assert!(unchecked == wrapped);
    assert!(SerializedWrapperType::<String, NonEmpty>::from_raw_unchecked(Vec::new()) != wrapped);
}

#[test]
fn turn_delivers_every_message_then_applies_the_event() {
    let mut turn = DialogTurn::new(DialogEvent::EndOfStream, 2);
    let keep_going = DialogStep { report_closed: false, end_dialog: false };
    assert_eq!(turn.next_action(), TurnAction::DeliverNext);
    turn.on_delivered(keep_going);
    assert_eq!(turn.next_action(), TurnAction::DeliverNext);
    turn.on_delivered(keep_going);
    assert_eq!(turn.next_action(), TurnAction::Finish(DialogStep { report_closed: true, end_dialog: true }));
}

#[test]
fn turn_stops_at_the_first_delivery_that_ends_the_dialog() {
    let mut turn = DialogTurn::new(DialogEvent::BytesReceived, 3);
    turn.on_delivered(DialogStep { report_closed: false, end_dialog: false });
    assert_eq!(turn.next_action(), TurnAction::DeliverNext);
    turn.on_delivered(DialogStep { report_closed: true, end_dialog: true });
    assert_eq!(turn.next_action(), TurnAction::Stop);

    let nothing_decoded = DialogTurn::new(DialogEvent::Written, 0);
    assert_eq!(nothing_decoded.next_action(), TurnAction::Finish(DialogStep { report_closed: false, end_dialog: false }));
}

#[test]
fn applying_a_step_marks_the_connection_closed_when_told() {
    let mut connection = SocketConnection::new("transport", 0u8, 1);
    assert!(!connection.apply_step(DialogStep { report_closed: false, end_dialog: false }));
    assert!(!connection.closed());
    assert!(connection.apply_step(DialogStep { report_closed: false, end_dialog: true }));
    assert!(!connection.closed());
    assert!(connection.apply_step(DialogStep { report_closed: true, end_dialog: true }));
    assert!(connection.closed());
}

#[test]
fn a_connection_unwraps_into_its_transport_and_state() {
    let mut connection = SocketConnection::new("transport", 3u8, 9);
    connection.set_state(4);
    assert_eq!(connection.into_connection_and_state(), ("transport", 4));
}

#[test]
fn successive_connections_get_successive_ids() {
    let mut ids = ConnectionIds::new();
    let first = ids.new_connection("a", 1u8);
    let second = ids.new_connection("b", 2u8);
    assert_eq!(first.id(), 0);
    assert_eq!(second.id(), 1);
    assert!(!first.closed());
    assert_eq!(*first.state(), 1);
    assert_eq!(*second.state(), 2);
}
