use system_broadcaster::linux::{
    handle_result, outcome, report_open_failure, report_transmission, Access, CreateOptions,
    ListenAction, ListenEvent, ListenState, Listener, OpenFailure, QueueDescriptor, SendReport,
    Sender,
};
use system_broadcaster::os::{ErrorKind, OsError};
use system_broadcaster::{InvalidNameError, MAX_MSG_SIZE, MSG_LIMIT};

const NO_QUEUE: OsError = OsError { kind: ErrorKind::NotFound, raw_os_error: Some(libc::ENOENT) };
const TOO_LONG: OsError = OsError { kind: ErrorKind::Other, raw_os_error: Some(libc::EMSGSIZE) };
const AGAIN: OsError = OsError { kind: ErrorKind::Other, raw_os_error: Some(libc::EAGAIN) };

/// Takes a listener up to the read of its next message, and gives the buffer of the read.
fn begin_read(state: &mut ListenState) -> Vec<u8> {
    assert!(matches!(state.step(ListenEvent::Polled), ListenAction::AwaitReadable));
    match state.step(ListenEvent::Readable) {
        ListenAction::Receive { buffer } => buffer,
        other => panic!("{other:?}"),
    }
}

/// Lets a listener read `content`, and gives the message that it hands out.
fn read(state: &mut ListenState, content: &[u8]) -> Vec<u8> {
    let mut buffer = begin_read(state);
    buffer[..content.len()].copy_from_slice(content);
    match state.step(ListenEvent::Received { buffer, result: Ok(content.len() as i64) }) {
        ListenAction::Deliver { message } => message,
        other => panic!("{other:?}"),
    }
}

/// Sends `content` into a queue that takes it, and gives what the queue was handed.
fn transmit(sender: &mut Sender, content: &[u8]) -> Vec<u8> {
    let descriptor = QueueDescriptor::from_result(7).unwrap();
    let transmission = sender.send(content).opened(Ok(descriptor)).unwrap();
    let handed = transmission.content.to_vec();
    let (descriptor, report) = transmission.transmitted(Ok(0));
    assert_eq!(descriptor.as_raw_fd(), 7);
    assert_eq!(report, SendReport::Sent);
    handed
}

#[test]
fn valid_to_send_empty_payload() {
    let notification_name = "system-broadcaster-test-empty";

    let mut listener = Listener::create(notification_name).unwrap();
    let mut incoming = listener.listen();

    let msg: &[u8] = &[];
    let mut sender = Sender::create(notification_name).unwrap();
    let handed = transmit(&mut sender, msg);

    let received_msg = read(&mut incoming, &handed);
    assert_eq!(msg, received_msg);
}

#[test]
fn sender_skips_if_no_receiver_exists() {
    let mut sender = Sender::create("system-broadcaster-test-skip").unwrap();
    let report = sender.send(&[0, 1, 2, 3]).opened(Err(NO_QUEUE)).unwrap_err();
    assert_eq!(report, SendReport::NoListener);
}

#[test]
fn sending_oversized_msg_doesnt_crash() {
    let mut sender = Sender::create("system-broadcaster-test-oversized").unwrap();
    let payload: Vec<u8> = vec![5; MAX_MSG_SIZE + 10];
    let descriptor = QueueDescriptor::from_result(3).unwrap();
    let transmission = sender.send(&payload).opened(Ok(descriptor)).unwrap();
    assert_eq!(transmission.content, payload);
    let (descriptor, report) = transmission.transmitted(Err(TOO_LONG));
    assert_eq!(descriptor.as_raw_fd(), 3);
    assert_eq!(report, SendReport::TooLarge);
}

#[test]
fn two_messages_arrive_in_order() {
    let mut listener = Listener::create("test_foobar").unwrap();
    let mut sender = Sender::create("test_foobar").unwrap();
    let first = transmit(&mut sender, b"test_content");
    let second = transmit(&mut sender, b"test_content_2");

    let mut incoming = listener.listen();
    assert_eq!(read(&mut incoming, &first), b"test_content");
    assert_eq!(read(&mut incoming, &second), b"test_content_2");
    assert_eq!(incoming, ListenState::Idle);
}

#[test]
fn message_of_the_largest_size_is_read_whole() {
    let mut state = Listener::create("largest").unwrap().listen();
    let content = vec![0xa5; MAX_MSG_SIZE];
    assert_eq!(read(&mut state, &content), content);
}

#[test]
fn listener_creates_its_queue() {
    let listener = Listener::create("good_name").unwrap();
    let request = listener.open_request();
    assert_eq!(request.name.as_bytes_with_nul(), b"/sys-broadc-good_name\0");
    assert_eq!(request.access, Access::ReadOnly);
    assert_eq!(
        request.create,
        Some(CreateOptions {
            mode: 0o600,
            max_messages: MSG_LIMIT as i64,
            message_size: MAX_MSG_SIZE as i64,
        })
    );
    assert!(request.nonblocking && request.close_on_exec);
    assert_eq!(listener.queue_name().as_bytes_with_nul(), b"/sys-broadc-good_name\0");
    assert_eq!((MSG_LIMIT, MAX_MSG_SIZE), (10, 1000));
}

#[test]
fn opened_listener_keeps_its_name_and_gets_its_queue() {
    let listener = Listener::create("good_name").unwrap();
    let descriptor = QueueDescriptor::from_result(9).unwrap();
    let (listener, descriptor) = listener.opened(Ok(descriptor)).unwrap();
    assert_eq!(listener.queue_name().as_bytes_with_nul(), b"/sys-broadc-good_name\0");
    assert_eq!(descriptor.as_raw_fd(), 9);
}

#[test]
fn name_that_the_system_refuses_is_too_long() {
    let refused = OsError { kind: ErrorKind::Other, raw_os_error: Some(libc::ENAMETOOLONG) };
    let listener = Listener::create("good_name").unwrap();
    assert_eq!(
        listener.opened(Err(refused)).unwrap_err(),
        OpenFailure::Name(InvalidNameError::TooLong)
    );
    let listener = Listener::create("good_name").unwrap();
    assert_eq!(listener.opened(Err(AGAIN)).unwrap_err(), OpenFailure::Fatal(AGAIN));
    let numbered = OsError { kind: ErrorKind::Other, raw_os_error: Some(36) };
    assert_eq!(
        report_open_failure(numbered, 36),
        OpenFailure::Name(InvalidNameError::TooLong)
    );
    assert_eq!(report_open_failure(numbered, 78), OpenFailure::Fatal(numbered));
}

#[test]
fn new_stream_goes_on_where_the_last_one_stopped() {
    let mut listener = Listener::create("again").unwrap();
    let mut first = listener.listen();
    assert_eq!(read(&mut first, b"1"), b"1");
    assert!(matches!(first.step(ListenEvent::Polled), ListenAction::AwaitReadable));
    let mut second = listener.listen();
    assert_eq!(second, ListenState::Idle);
    assert_eq!(read(&mut second, b"2"), b"2");
}

#[test]
fn listeners_of_one_name_share_its_queue() {
    let mut first = Listener::create("shared").unwrap();
    let mut second = Listener::create("shared").unwrap();
    assert_eq!(
        first.open_request().name.as_bytes_with_nul(),
        second.open_request().name.as_bytes_with_nul()
    );
    // Each reads what the queue gives it, whatever the other does.
    let (mut left, mut right) = (first.listen(), second.listen());
    assert_eq!(read(&mut left, b"1"), b"1");
    assert_eq!(read(&mut right, b"2"), b"2");
    assert_eq!(read(&mut left, b"3"), b"3");
}

#[test]
fn sender_opens_the_queue_of_the_listener_without_creating_it() {
    let listener = Listener::create("good_name").unwrap();
    let mut sender = Sender::create("good_name").unwrap();
    let submission = sender.send(b"x");
    assert_eq!(
        submission.request.name.as_bytes_with_nul(),
        listener.open_request().name.as_bytes_with_nul()
    );
    assert_eq!(submission.request.access, Access::WriteOnly);
    assert_eq!(submission.request.create, None);
    assert!(submission.request.nonblocking && submission.request.close_on_exec);
    let descriptor = QueueDescriptor::from_result(0).unwrap();
    assert_eq!(submission.opened(Ok(descriptor)).unwrap().priority, 5);
}

#[test]
fn unusable_names_are_refused_at_both_ends() {
    for (name, error) in [
        ("", InvalidNameError::Empty),
        ("a/b", InvalidNameError::ContainsSlash),
        ("a\0", InvalidNameError::ContainsNul),
    ] {
        assert_eq!(Listener::create(name).unwrap_err(), error);
        assert_eq!(Sender::create(name).unwrap_err(), error);
    }
}

#[test]
fn negative_results_are_failures() {
    assert_eq!(handle_result(0), Ok(0));
    assert_eq!(handle_result(12), Ok(12));
    assert!(handle_result(-1).unwrap_err().raw_os_error.is_some());
    assert_eq!(outcome(-1, AGAIN), Err(AGAIN));
    assert_eq!(outcome(3, AGAIN), Ok(3));
    assert!(QueueDescriptor::from_result(-1).unwrap_err().raw_os_error.is_some());
    assert_eq!(QueueDescriptor::of_outcome(-1, NO_QUEUE).unwrap_err(), NO_QUEUE);
    assert_eq!(QueueDescriptor::of_outcome(2, NO_QUEUE).unwrap().as_raw_fd(), 2);
    assert_eq!(QueueDescriptor::from_result(4).unwrap().as_raw_fd(), 4);
}

#[test]
fn unusable_queue_is_fatal() {
    let denied = OsError { kind: ErrorKind::Other, raw_os_error: Some(libc::EACCES) };
    let mut sender = Sender::create("denied").unwrap();
    let report = sender.send(b"x").opened(Err(denied)).unwrap_err();
    assert_eq!(report, SendReport::ConnectFailed(denied));
}

#[test]
fn full_queue_is_no_crash() {
    let mut sender = Sender::create("full").unwrap();
    let descriptor = QueueDescriptor::from_result(1).unwrap();
    let (_, report) = sender.send(b"x").opened(Ok(descriptor)).unwrap().transmitted(Err(AGAIN));
    assert_eq!(report, SendReport::Failed(AGAIN));
}

#[test]
fn only_the_given_number_means_too_large() {
    let error = OsError { kind: ErrorKind::Other, raw_os_error: Some(90) };
    assert_eq!(report_transmission(Err(error), 90), SendReport::TooLarge);
    assert_eq!(report_transmission(Err(error), 97), SendReport::Failed(error));
    let unnumbered = OsError { kind: ErrorKind::Other, raw_os_error: None };
    assert_eq!(report_transmission(Err(unnumbered), 90), SendReport::Failed(unnumbered));
    assert_eq!(report_transmission(Ok(0), 90), SendReport::Sent);
}

#[test]
fn failed_read_ends_the_stream() {
    let mut state = Listener::create("ending").unwrap().listen();
    let buffer = begin_read(&mut state);
    assert_eq!(buffer, vec![0; MAX_MSG_SIZE]);
    match state.step(ListenEvent::Received { buffer, result: Err(AGAIN) }) {
        ListenAction::End { error } => assert_eq!(error, AGAIN),
        other => panic!("{other:?}"),
    }
    assert_eq!(state, ListenState::Ended);
}
