//! The Linux backend: notifications go through POSIX message queues.
//!
//! A listener creates the queue of its notification name and reads messages from it. A
//! sender opens the queue for each message, if there is one.

use crate::name::{create_name, QueueName};
use crate::os::{last_error, message_too_long, name_too_long, ErrorKind, OsError};
use crate::{InvalidNameError, MAX_MSG_SIZE, MSG_LIMIT};
use vstd::prelude::*;

verus! {

/// The mode of a new queue: its owner may read and write, and nobody else.
pub const QUEUE_MODE: u32 = 0o600;

/// The priority that messages are sent with.
pub const MESSAGE_PRIORITY: u32 = 5;

/// What a system call that returned `result` came to, where `error` is the thread's last
/// error.
pub open spec fn outcome_of(result: i64, error: OsError) -> Result<i64, OsError> {
    if result < 0 {
        Err(error)
    } else {
        Ok(result)
    }
}

/// Tells a failed system call, which returns a negative number, from a successful one.
pub fn outcome(result: i64, last_error: OsError) -> (outcome: Result<i64, OsError>)
    ensures
        outcome == outcome_of(result, last_error),
        result < 0 ==> outcome == Err::<i64, OsError>(last_error),
        result >= 0 ==> outcome == Ok::<i64, OsError>(result),
{
    if result < 0 {
        Err(last_error)
    } else {
        Ok(result)
    }
}

/// Tells a failed system call from a successful one, and reads the thread's last error
/// for it. To be called right after the system call.
pub fn handle_result(result: i64) -> (handled: Result<i64, OsError>)
    ensures
        exists|error: OsError|
            crate::os::read_as_last_error(error) && error.raw_os_error is Some && handled
                == #[trigger] outcome_of(result, error),
        result >= 0 ==> handled == Ok::<i64, OsError>(result),
        result < 0 ==> (handled matches Err(error) && {
            &&& crate::os::read_as_last_error(error)
            &&& error.raw_os_error is Some
            &&& error.raw_os_error == Some(2i32) ==> error.kind == ErrorKind::NotFound
        }),
{
    let error = last_error();
    proof {
        crate::os::last_errors_are_numbered(error);
    }
    let handled = outcome(result, error);
    assert(handled == outcome_of(result, error));
    handled
}

/// An open message queue. Its view is the number of the descriptor.
#[derive(Debug)]
pub struct QueueDescriptor {
    fd: i32,
}

impl View for QueueDescriptor {
    type V = int;

    closed spec fn view(&self) -> int {
        self.fd as int
    }
}

impl QueueDescriptor {
    #[verifier::type_invariant]
    spec fn open(self) -> bool {
        self.fd >= 0
    }

    /// Takes over the descriptor that opening a queue returned, where `last_error` is the
    /// thread's last error.
    pub fn of_outcome(result: i32, last_error: OsError) -> (descriptor: Result<Self, OsError>)
        ensures
            match outcome_of(result as i64, last_error) {
                Ok(number) => descriptor matches Ok(descriptor) && descriptor@ == number,
                Err(error) => descriptor == Err::<Self, OsError>(error),
            },
            result < 0 ==> descriptor == Err::<Self, OsError>(last_error),
            result >= 0 ==> (descriptor matches Ok(descriptor) && descriptor@ == result),
    {
        match outcome(result as i64, last_error) {
            Ok(_) => Ok(QueueDescriptor { fd: result }),
            Err(error) => Err(error),
        }
    }

    /// Takes over the descriptor that opening a queue returned. To be called right after
    /// the system call.
    pub fn from_result(result: i32) -> (descriptor: Result<Self, OsError>)
        ensures
            result >= 0 ==> (descriptor matches Ok(descriptor) && descriptor@ == result),
            result < 0 ==> (descriptor matches Err(error) && {
                &&& crate::os::read_as_last_error(error)
                &&& error.raw_os_error is Some
                &&& error.raw_os_error == Some(2i32) ==> error.kind == ErrorKind::NotFound
            }),
    {
        let error = last_error();
        proof {
            crate::os::last_errors_are_numbered(error);
        }
        Self::of_outcome(result, error)
    }

    /// The number of the descriptor.
    pub fn as_raw_fd(&self) -> (fd: i32)
        ensures
            fd == self@,
            fd >= 0,
    {
        proof {
            use_type_invariant(self);
        }
        self.fd
    }
}

/// Which way messages go through an open queue.
#[derive(Debug, PartialEq, Eq, Clone, Copy, Structural)]
pub enum Access {
    ReadOnly,
    WriteOnly,
}

/// What a queue is created with where there is none yet.
#[derive(Debug, PartialEq, Eq, Clone, Copy, Structural)]
pub struct CreateOptions {
    /// The permission bits of the queue.
    pub mode: u32,
    /// The number of messages that the queue holds at most.
    pub max_messages: i64,
    /// The size of the largest message that the queue takes.
    pub message_size: i64,
}

/// How to open a queue.
#[derive(Debug)]
pub struct OpenRequest<'a> {
    /// The name of the queue.
    pub name: &'a QueueName,
    /// Which way messages go.
    pub access: Access,
    /// What to create the queue with, or `None` to open an existing one only.
    pub create: Option<CreateOptions>,
    /// Whether calls on the queue return at once where they would have to wait.
    pub nonblocking: bool,
    /// Whether programs that this process turns into lose the descriptor.
    pub close_on_exec: bool,
}

/// What a listener's queue is created with.
pub open spec fn listener_options() -> CreateOptions {
    CreateOptions {
        mode: QUEUE_MODE,
        max_messages: MSG_LIMIT as i64,
        message_size: MAX_MSG_SIZE as i64,
    }
}

/// Why a listener has no queue.
#[derive(Debug, PartialEq, Eq, Clone, Copy)]
pub enum OpenFailure {
    /// The system cannot use the name.
    Name(InvalidNameError),
    /// Opening the queue failed in a way that it never should. The program cannot go on.
    Fatal(OsError),
}

/// What a failure to open a queue for listening means, where `name_too_long` is the error
/// number of "file name too long".
pub open spec fn listen_failure(error: OsError, name_too_long: i32) -> OpenFailure {
    if error.raw_os_error == Some(name_too_long) {
        OpenFailure::Name(InvalidNameError::TooLong)
    } else {
        OpenFailure::Fatal(error)
    }
}

/// Tells what a failure to open a queue for listening means, where `name_too_long` is the
/// error number of "file name too long".
pub fn report_open_failure(error: OsError, name_too_long: i32) -> (failure: OpenFailure)
    ensures
        failure == listen_failure(error, name_too_long),
        error.raw_os_error == Some(name_too_long) ==> failure == OpenFailure::Name(
            InvalidNameError::TooLong,
        ),
        error.raw_os_error != Some(name_too_long) ==> failure == OpenFailure::Fatal(error),
{
    match error.raw_os_error {
        Some(code) if code == name_too_long => OpenFailure::Name(InvalidNameError::TooLong),
        _ => OpenFailure::Fatal(error),
    }
}

/// Where a listener stands in reading its messages.
#[derive(Debug, PartialEq, Eq, Clone, Copy, Structural)]
pub enum ListenState {
    /// The next message was not asked for yet.
    Idle,
    /// The queue may be empty.
    Waiting,
    /// The queue was seen to hold a message, which is being read.
    Receiving,
    /// Reading has failed, and no message comes any more.
    Ended,
}

/// What happens to a listener.
#[derive(Debug)]
pub enum ListenEvent {
    /// The next message is asked for.
    Polled,
    /// The queue became readable.
    Readable,
    /// A read from the queue came to `result`, the size of the message, and left the
    /// message at the start of `buffer`.
    Received { buffer: Vec<u8>, result: Result<i64, OsError> },
}

/// What is to be done for a listener.
#[derive(Debug)]
pub enum ListenAction {
    /// Wait until the queue is readable.
    AwaitReadable,
    /// Read a message into `buffer`.
    Receive { buffer: Vec<u8> },
    /// Forget that the queue was readable, then hand out the message.
    Deliver { message: Vec<u8> },
    /// End the stream of messages.
    End { error: OsError },
}

/// The mathematical model of a [`ListenEvent`].
pub enum ListenEventView {
    Polled,
    Readable,
    Received { buffer: Seq<u8>, result: Result<i64, OsError> },
}

/// The mathematical model of a [`ListenAction`].
pub enum ListenActionView {
    AwaitReadable,
    Receive { buffer: Seq<u8> },
    Deliver { message: Seq<u8> },
    End { error: OsError },
}

impl View for ListenEvent {
    type V = ListenEventView;

    open spec fn view(&self) -> ListenEventView {
        match self {
            ListenEvent::Polled => ListenEventView::Polled,
            ListenEvent::Readable => ListenEventView::Readable,
            ListenEvent::Received { buffer, result } => ListenEventView::Received {
                buffer: buffer@,
                result: *result,
            },
        }
    }
}

impl View for ListenAction {
    type V = ListenActionView;

    open spec fn view(&self) -> ListenActionView {
        match self {
            ListenAction::AwaitReadable => ListenActionView::AwaitReadable,
            ListenAction::Receive { buffer } => ListenActionView::Receive { buffer: buffer@ },
            ListenAction::Deliver { message } => ListenActionView::Deliver { message: message@ },
            ListenAction::End { error } => ListenActionView::End { error: *error },
        }
    }
}

/// The buffer that a message is read into.
pub open spec fn receive_buffer() -> Seq<u8> {
    Seq::new(MAX_MSG_SIZE as nat, |i: int| 0u8)
}

/// Whether `event` can happen to a listener in `state`: a wait or a read ends only where
/// one was begun, and a read fills no more than its buffer.
pub open spec fn listen_accepts(state: ListenState, event: ListenEventView) -> bool {
    match event {
        ListenEventView::Polled => state is Idle,
        ListenEventView::Readable => state is Waiting,
        ListenEventView::Received { buffer, result } => {
            &&& state is Receiving
            &&& result matches Ok(size) ==> 0 <= size <= buffer.len()
        },
    }
}

/// The state that `event` leads to, and what is to be done then.
pub open spec fn listen_next(event: ListenEventView) -> (ListenState, ListenActionView) {
    match event {
        ListenEventView::Polled => (ListenState::Waiting, ListenActionView::AwaitReadable),
        ListenEventView::Readable => (
            ListenState::Receiving,
            ListenActionView::Receive { buffer: receive_buffer() },
        ),
        ListenEventView::Received { buffer, result: Ok(size) } => (
            ListenState::Idle,
            ListenActionView::Deliver { message: buffer.take(size as int) },
        ),
        ListenEventView::Received { buffer, result: Err(error) } => (
            ListenState::Ended,
            ListenActionView::End { error },
        ),
    }
}

impl ListenState {
    /// Goes on to the next state, and says what is to be done then.
    pub fn step(&mut self, event: ListenEvent) -> (action: ListenAction)
        requires
            listen_accepts(*old(self), event@),
        ensures
            (*final(self), action@) == listen_next(event@),
            match event {
                ListenEvent::Polled => *final(self) is Waiting && action is AwaitReadable,
                ListenEvent::Readable => {
                    &&& *final(self) is Receiving
                    &&& action matches ListenAction::Receive { buffer }
                    &&& buffer@.len() == MAX_MSG_SIZE
                    &&& forall|i: int| 0 <= i < buffer@.len() ==> buffer@[i] == 0
                },
                ListenEvent::Received { buffer, result: Ok(size) } => {
                    &&& *final(self) is Idle
                    &&& action matches ListenAction::Deliver { message }
                    &&& message@ == buffer@.take(size as int)
                },
                ListenEvent::Received { result: Err(error), .. } => {
                    &&& *final(self) is Ended
                    &&& action == (ListenAction::End { error })
                },
            },
    {
        match event {
            ListenEvent::Polled => {
                *self = ListenState::Waiting;
                ListenAction::AwaitReadable
            },
            ListenEvent::Readable => {
                *self = ListenState::Receiving;
                let mut buffer: Vec<u8> = Vec::new();
                buffer.resize(MAX_MSG_SIZE, 0);
                assert(buffer@ =~= receive_buffer());
                ListenAction::Receive { buffer }
            },
            ListenEvent::Received { buffer, result } => match result {
                Ok(size) => {
                    let mut message = buffer;
                    message.truncate(size as usize);
                    assert(message@ =~= buffer@.take(size as int));
                    *self = ListenState::Idle;
                    ListenAction::Deliver { message }
                },
                Err(error) => {
                    *self = ListenState::Ended;
                    ListenAction::End { error }
                },
            },
        }
    }
}

/// A listener for the notifications of one name. Its view is the name of its queue.
#[derive(Debug)]
pub struct Listener {
    queue_name: QueueName,
}

impl View for Listener {
    type V = Seq<u8>;

    closed spec fn view(&self) -> Seq<u8> {
        self.queue_name@
    }
}

impl Listener {
    /// Creates a listener, unless no queue can have its name.
    pub fn create(notification_name: &str) -> (listener: Result<Self, InvalidNameError>)
        ensures
            match crate::name::name_error(notification_name@) {
                Some(error) => listener == Err::<Self, InvalidNameError>(error),
                None => listener matches Ok(listener) && listener@ == crate::name::queue_path(
                    notification_name@,
                ),
            },
    {
        match create_name(notification_name) {
            Ok(queue_name) => Ok(Listener { queue_name }),
            Err(error) => Err(error),
        }
    }

    /// How the queue is to be opened for this listener. It is created if need be.
    pub fn open_request(&self) -> (request: OpenRequest<'_>)
        ensures
            request.name@ == self@,
            request.access == Access::ReadOnly,
            request.create == Some(listener_options()),
            request.create == Some(
                CreateOptions {
                    mode: QUEUE_MODE,
                    max_messages: MSG_LIMIT as i64,
                    message_size: MAX_MSG_SIZE as i64,
                },
            ),
            request.nonblocking,
            request.close_on_exec,
    {
        OpenRequest {
            name: &self.queue_name,
            access: Access::ReadOnly,
            create: Some(
                CreateOptions {
                    mode: QUEUE_MODE,
                    max_messages: MSG_LIMIT as i64,
                    message_size: MAX_MSG_SIZE as i64,
                },
            ),
            nonblocking: true,
            close_on_exec: true,
        }
    }

    /// Goes on after the queue was opened, or not.
    pub fn opened(self, result: Result<QueueDescriptor, OsError>) -> (next: Result<
        (Self, QueueDescriptor),
        OpenFailure,
    >)
        ensures
            match result {
                Ok(descriptor) => next == Ok::<(Self, QueueDescriptor), OpenFailure>(
                    (self, descriptor),
                ),
                Err(error) => exists|name_too_long: i32|
                    crate::os::read_as_enametoolong(name_too_long)
                        && crate::os::linux_enametoolong(name_too_long) && next == Err::<
                        (Self, QueueDescriptor),
                        OpenFailure,
                    >(#[trigger] listen_failure(error, name_too_long)),
            },
            result matches Err(error) ==> ((error.raw_os_error matches Some(code)
                ==> !crate::os::linux_enametoolong(code)) ==> next == Err::<
                (Self, QueueDescriptor),
                OpenFailure,
            >(OpenFailure::Fatal(error))),
    {
        match result {
            Ok(descriptor) => Ok((self, descriptor)),
            Err(error) => {
                let code = name_too_long();
                proof {
                    lemma_numbers(code, code);
                }
                let failure = report_open_failure(error, code);
                assert(failure == listen_failure(error, code));
                Err(failure)
            },
        }
    }

    /// The name of the queue, which is to be removed when the listener goes away.
    pub fn queue_name(&self) -> (name: &QueueName)
        ensures
            name@ == self@,
    {
        &self.queue_name
    }

    /// Begins to read messages.
    pub fn listen(&mut self) -> (state: ListenState)
        ensures
            state == ListenState::Idle,
            *final(self) == *old(self),
    {
        ListenState::Idle
    }
}

/// What became of a message that was to be sent.
#[derive(Debug, PartialEq, Eq, Clone, Copy)]
pub enum SendReport {
    /// The message was put into the queue.
    Sent,
    /// Nothing has started to listen yet, and the message was dropped.
    NoListener,
    /// The message was larger than the queue takes, and was dropped.
    TooLarge,
    /// Opening the queue failed in a way that it never should. The program cannot go on.
    ConnectFailed(OsError),
    /// The message could not be put into the queue, and was dropped.
    Failed(OsError),
}

/// What a failure to open a queue for sending means.
pub open spec fn open_failure(error: OsError) -> SendReport {
    if error.kind == ErrorKind::NotFound {
        SendReport::NoListener
    } else {
        SendReport::ConnectFailed(error)
    }
}

/// What the outcome of putting a message into a queue means, where `too_long` is the
/// error number of "message too long".
pub open spec fn transmit_report(result: Result<i64, OsError>, too_long: i32) -> SendReport {
    match result {
        Ok(_) => SendReport::Sent,
        Err(error) => if error.raw_os_error == Some(too_long) {
            SendReport::TooLarge
        } else {
            SendReport::Failed(error)
        },
    }
}

/// Tells what the outcome of putting a message into a queue means, where `too_long` is
/// the error number of "message too long".
pub fn report_transmission(result: Result<i64, OsError>, too_long: i32) -> (report: SendReport)
    ensures
        report == transmit_report(result, too_long),
        match result {
            Ok(_) => report == SendReport::Sent,
            Err(error) => report == (if error.raw_os_error == Some(too_long) {
                SendReport::TooLarge
            } else {
                SendReport::Failed(error)
            }),
        },
{
    match result {
        Ok(_) => SendReport::Sent,
        Err(error) => match error.raw_os_error {
            Some(code) if code == too_long => SendReport::TooLarge,
            _ => SendReport::Failed(error),
        },
    }
}

/// A message that is to be sent, once its queue is open.
#[derive(Debug)]
pub struct Submission<'a> {
    /// How the queue is to be opened.
    pub request: OpenRequest<'a>,
    /// The message.
    pub content: &'a [u8],
}

impl<'a> Submission<'a> {
    /// Goes on after the queue was opened, or not.
    pub fn opened(self, result: Result<QueueDescriptor, OsError>) -> (next: Result<
        Transmission<'a>,
        SendReport,
    >)
        ensures
            match result {
                Ok(descriptor) => next == Ok::<Transmission<'a>, SendReport>(
                    Transmission { descriptor, content: self.content, priority: MESSAGE_PRIORITY },
                ),
                Err(error) => next == Err::<Transmission<'a>, SendReport>(open_failure(error)),
            },
            result matches Err(error) ==> next == Err::<Transmission<'a>, SendReport>(
                match error.kind {
                    ErrorKind::NotFound => SendReport::NoListener,
                    ErrorKind::Other => SendReport::ConnectFailed(error),
                },
            ),
    {
        match result {
            Ok(descriptor) => Ok(
                Transmission { descriptor, content: self.content, priority: MESSAGE_PRIORITY },
            ),
            // A message is for those who listen now, so without a queue there is nothing
            // to do.
            Err(error) => match error.kind {
                ErrorKind::NotFound => Err(SendReport::NoListener),
                ErrorKind::Other => Err(SendReport::ConnectFailed(error)),
            },
        }
    }
}

/// A message that is to be put into an open queue.
#[derive(Debug)]
pub struct Transmission<'a> {
    /// The queue.
    pub descriptor: QueueDescriptor,
    /// The message.
    pub content: &'a [u8],
    /// The priority of the message.
    pub priority: u32,
}

impl<'a> Transmission<'a> {
    /// Goes on after the message was put into the queue, or not. The descriptor is to be
    /// closed now.
    pub fn transmitted(self, result: Result<i64, OsError>) -> (end: (QueueDescriptor, SendReport))
        ensures
            end.0 == self.descriptor,
            exists|too_long: i32|
                crate::os::read_as_emsgsize(too_long) && crate::os::linux_emsgsize(too_long)
                    && end.1 == #[trigger] transmit_report(result, too_long),
            result is Ok ==> end.1 == SendReport::Sent,
            result matches Err(error) ==> ((error.raw_os_error matches Some(code)
                ==> !crate::os::linux_emsgsize(code)) ==> end.1 == SendReport::Failed(error)),
    {
        let too_long = message_too_long();
        proof {
            lemma_numbers(too_long, too_long);
        }
        let report = report_transmission(result, too_long);
        assert(report == transmit_report(result, too_long));
        (self.descriptor, report)
    }
}

/// A sender of notifications of one name. Its view is the name of the queue.
#[derive(Debug)]
pub struct Sender {
    notification_name: QueueName,
}

impl View for Sender {
    type V = Seq<u8>;

    closed spec fn view(&self) -> Seq<u8> {
        self.notification_name@
    }
}

impl Sender {
    /// Creates a sender, unless no queue can have its name.
    pub fn create(notification_name: &str) -> (sender: Result<Self, InvalidNameError>)
        ensures
            match crate::name::name_error(notification_name@) {
                Some(error) => sender == Err::<Self, InvalidNameError>(error),
                None => sender matches Ok(sender) && sender@ == crate::name::queue_path(
                    notification_name@,
                ),
            },
    {
        match create_name(notification_name) {
            Ok(notification_name) => Ok(Sender { notification_name }),
            Err(error) => Err(error),
        }
    }

    /// Begins to send `content` to whoever listens.
    pub fn send<'a>(&'a mut self, content: &'a [u8]) -> (submission: Submission<'a>)
        ensures
            *final(self) == *old(self),
            submission.content@ == content@,
            submission.request.name@ == old(self)@,
            submission.request.access == Access::WriteOnly,
            submission.request.create is None,
            submission.request.nonblocking,
            submission.request.close_on_exec,
    {
        Submission {
            request: OpenRequest {
                name: &self.notification_name,
                access: Access::WriteOnly,
                create: None,
                nonblocking: true,
                close_on_exec: true,
            },
            content,
        }
    }
}

/// The numbers that are read from the system are those of some Linux target.
proof fn lemma_numbers(too_long: i32, name_too_long: i32)
    ensures
        crate::os::read_as_emsgsize(too_long) ==> crate::os::linux_emsgsize(too_long),
        crate::os::read_as_enametoolong(name_too_long) ==> crate::os::linux_enametoolong(
            name_too_long,
        ),
{
    if crate::os::read_as_emsgsize(too_long) {
        crate::os::emsgsize_is_known(too_long);
    }
    if crate::os::read_as_enametoolong(name_too_long) {
        crate::os::enametoolong_is_known(name_too_long);
    }
}

/// A system call succeeds exactly where it does not return a negative number. Success
/// keeps the number, and failure keeps the error, kind and number.
pub proof fn calls_fail_exactly_below_zero(result: i64, error: OsError)
    ensures
        outcome_of(result, error) is Err <==> result < 0,
        outcome_of(result, error) matches Ok(kept) ==> kept == result,
        outcome_of(result, error) matches Err(kept) ==> kept.kind == error.kind
            && kept.raw_os_error == error.raw_os_error,
{
}

/// A send to a queue that does not exist ends quietly: where the system said "no such
/// file" to the open, the report is that nothing listens.
pub proof fn a_missing_queue_is_no_failure(result: i64, error: OsError)
    requires
        result < 0,
        crate::os::read_as_last_error(error),
        error.raw_os_error == Some(2i32),
    ensures
        outcome_of(result, error) matches Err(reported) && open_failure(reported)
            == SendReport::NoListener,
{
    crate::os::last_errors_are_numbered(error);
}

/// Only the kind of an error decides whether a failed open means that nothing listens.
/// Any other failure keeps the very error that the system gave.
pub proof fn only_a_missing_queue_means_no_listener(error: OsError)
    ensures
        open_failure(error) is NoListener <==> error.kind is NotFound,
        open_failure(error) is ConnectFailed <==> error.kind is Other,
        open_failure(error) matches SendReport::ConnectFailed(kept) ==> kept == error,
{
}

/// A transmission is reported as sent exactly where the system took the message, and as
/// too large exactly where the error has that number. Any other failure keeps the very
/// error that the system gave.
pub proof fn transmissions_are_reported_as_they_went(result: Result<i64, OsError>, too_long: i32)
    ensures
        transmit_report(result, too_long) is Sent <==> result is Ok,
        transmit_report(result, too_long) is TooLarge <==> (result matches Err(error)
            && error.raw_os_error == Some(too_long)),
        result matches Err(error) ==> (error.raw_os_error != Some(too_long) ==> transmit_report(
            result,
            too_long,
        ) == SendReport::Failed(error)),
{
}

/// A failure to open a listener's queue is blamed on the name only if its number is that
/// of "file name too long", and then as such. Every other failure is fatal and keeps the
/// very error that the system gave.
pub proof fn only_a_long_name_is_to_blame(error: OsError, name_too_long: i32)
    ensures
        listen_failure(error, name_too_long) is Name <==> error.raw_os_error == Some(name_too_long),
        listen_failure(error, name_too_long) matches OpenFailure::Name(reason) ==> reason
            == InvalidNameError::TooLong,
        listen_failure(error, name_too_long) matches OpenFailure::Fatal(kept) ==> kept == error,
{
}

/// Where one failure is blamed on the name, another one is exactly if it has the same
/// number.
pub proof fn one_number_blames_the_name(left: OsError, right: OsError, name_too_long: i32)
    requires
        listen_failure(left, name_too_long) is Name,
    ensures
        listen_failure(right, name_too_long) is Name <==> left.raw_os_error == right.raw_os_error,
{
}

/// What is to be done agrees with where the listener stands: it waits exactly where it is
/// waiting, reads exactly where it is receiving, hands out a message exactly where it is
/// idle again, and ends exactly where it has ended.
pub proof fn actions_agree_with_states(event: ListenEventView)
    ensures
        listen_next(event).1 is AwaitReadable <==> listen_next(event).0 is Waiting,
        listen_next(event).1 is Receive <==> listen_next(event).0 is Receiving,
        listen_next(event).1 is Deliver <==> listen_next(event).0 is Idle,
        listen_next(event).1 is End <==> listen_next(event).0 is Ended,
{
}

/// Whatever the error of a failed read is, the stream ends with that same error, and it
/// ends for nothing else.
pub proof fn a_failed_read_ends_the_stream(event: ListenEventView, error: OsError)
    ensures
        listen_next(event).1 == (ListenActionView::End { error }) <==> (event matches
            ListenEventView::Received { result: Err(failure), .. } && failure == error),
{
}

/// A request is followed by a wait, and readiness by a read into an empty buffer that
/// takes the largest message.
pub proof fn requests_lead_to_reads(event: ListenEventView)
    ensures
        event is Polled <==> listen_next(event).0 is Waiting,
        event is Readable <==> listen_next(event).0 is Receiving,
        listen_next(event).1 matches ListenActionView::Receive { buffer } ==> buffer.len()
            == MAX_MSG_SIZE && forall|i: int| 0 <= i < buffer.len() ==> buffer[i] == 0,
{
}

/// A successful read hands out the start of its buffer, as long as the read says, byte for
/// byte.
pub proof fn a_read_delivers_the_start_of_its_buffer(buffer: Seq<u8>, size: i64, i: int)
    requires
        0 <= size <= buffer.len(),
    ensures
        listen_next(ListenEventView::Received { buffer, result: Ok(size) }).1 matches
            ListenActionView::Deliver { message } && message.len() == size && (0 <= i < size
            ==> message[i] == buffer[i]),
{
}

/// A listener takes each event where it is due: a request when it is idle, readiness while
/// it waits, and while it receives any read that failed or that kept to its buffer. It
/// takes none anywhere else.
pub proof fn events_are_taken_where_due(state: ListenState, buffer: Seq<u8>, size: i64, error: OsError)
    ensures
        listen_accepts(state, ListenEventView::Polled) <==> state is Idle,
        listen_accepts(state, ListenEventView::Readable) <==> state is Waiting,
        listen_accepts(state, ListenEventView::Received { buffer, result: Err(error) }) <==> state
            is Receiving,
        listen_accepts(state, ListenEventView::Received { buffer, result: Ok(size) }) <==> state
            is Receiving && 0 <= size <= buffer.len(),
{
}

/// The models of events and actions leave nothing out and change nothing.
pub proof fn models_are_faithful(event: ListenEvent, action: ListenAction)
    ensures
        event is Polled <==> event@ is Polled,
        event is Readable <==> event@ is Readable,
        event matches ListenEvent::Received { buffer, result } ==> event@ == (
        ListenEventView::Received { buffer: buffer@, result }),
        action is AwaitReadable <==> action@ is AwaitReadable,
        action matches ListenAction::Receive { buffer } ==> action@ == (ListenActionView::Receive {
            buffer: buffer@,
        }),
        action matches ListenAction::Deliver { message } ==> action@ == (
        ListenActionView::Deliver { message: message@ }),
        action matches ListenAction::End { error } ==> action@ == (ListenActionView::End { error }),
{
}

/// A listener's queue is for its owner alone, and holds as many messages, and as large
/// ones, as the library promises.
pub proof fn queues_are_private_and_bounded()
    ensures
        listener_options().mode == 0o600,
        listener_options().max_messages == MSG_LIMIT,
        listener_options().message_size == MAX_MSG_SIZE,
{
}

/// The state of a listener after `events`.
pub open spec fn state_after(events: Seq<ListenEventView>) -> ListenState {
    if events.len() == 0 {
        ListenState::Idle
    } else {
        listen_next(events.last()).0
    }
}

/// Whether `events` can happen to a new listener, one after the other.
pub open spec fn is_run(events: Seq<ListenEventView>) -> bool
    decreases events.len(),
{
    events.len() > 0 ==> {
        &&& is_run(events.drop_last())
        &&& listen_accepts(state_after(events.drop_last()), events.last())
    }
}

/// The messages that a listener hands out over `events`.
pub open spec fn delivered(events: Seq<ListenEventView>) -> Seq<Seq<u8>>
    decreases events.len(),
{
    if events.len() == 0 {
        Seq::empty()
    } else {
        match listen_next(events.last()).1 {
            ListenActionView::Deliver { message } => delivered(events.drop_last()).push(message),
            _ => delivered(events.drop_last()),
        }
    }
}

/// How many times a listener is asked for a message over `events`.
pub open spec fn requests(events: Seq<ListenEventView>) -> nat
    decreases events.len(),
{
    if events.len() == 0 {
        0
    } else if events.last() is Polled {
        requests(events.drop_last()) + 1
    } else {
        requests(events.drop_last())
    }
}

/// Whether a read came back with `content`: with its size, and with it at the start of
/// the buffer that the read was given.
pub open spec fn brings(event: ListenEventView, content: Seq<u8>) -> bool {
    event matches ListenEventView::Received { buffer, result: Ok(size) } && {
        &&& buffer.len() == receive_buffer().len()
        &&& size == content.len()
        &&& content.is_prefix_of(buffer)
    }
}

/// A message that fits into the queue fits into the buffer too, and is handed out by the
/// listener just as the sender gave it to the queue.
pub proof fn round_trip(content: Seq<u8>, event: ListenEventView)
    requires
        brings(event, content),
    ensures
        listen_accepts(ListenState::Receiving, event),
        listen_next(event) == (ListenState::Idle, ListenActionView::Deliver { message: content }),
{
    if let ListenEventView::Received { buffer, result: Ok(size) } = event {
        assert(buffer.take(size as int) =~= content);
    }
}

/// Every message of the largest size can be brought by a read, so the round trip is open
/// to all messages that a queue takes.
pub proof fn every_message_can_be_read(content: Seq<u8>)
    requires
        content.len() <= MAX_MSG_SIZE,
    ensures
        exists|event: ListenEventView| brings(event, content),
{
    let buffer = content + Seq::new((MAX_MSG_SIZE - content.len()) as nat, |i: int| 0u8);
    let event = ListenEventView::Received { buffer, result: Ok(content.len() as i64) };
    assert(buffer.take(content.len() as int) =~= content);
    assert(brings(event, content));
}

/// A listener hands out one message for each time that it was asked, except for a request
/// that is under way or that failed.
pub proof fn each_request_is_answered_once(events: Seq<ListenEventView>)
    requires
        is_run(events),
    ensures
        state_after(events) is Idle ==> delivered(events).len() == requests(events),
        !(state_after(events) is Idle) ==> delivered(events).len() + 1 == requests(events),
    decreases events.len(),
{
    if events.len() > 0 {
        each_request_is_answered_once(events.drop_last());
    }
}

/// The messages that were handed out stay so, in their order: what happens later only
/// adds to them.
pub proof fn deliveries_only_grow(events: Seq<ListenEventView>, more: Seq<ListenEventView>)
    ensures
        delivered(events).is_prefix_of(delivered(events + more)),
    decreases more.len(),
{
    if more.len() == 0 {
        assert(events + more =~= events);
    } else {
        assert((events + more).drop_last() =~= events + more.drop_last());
        deliveries_only_grow(events, more.drop_last());
    }
}

/// A message that a read brings is the next one that is handed out.
pub proof fn reads_are_delivered_in_order(
    events: Seq<ListenEventView>,
    event: ListenEventView,
    content: Seq<u8>,
)
    requires
        brings(event, content),
    ensures
        delivered(events.push(event)) == delivered(events).push(content),
{
    assert(events.push(event).drop_last() =~= events);
    round_trip(content, event);
}

/// Whether the successful reads among `events` bring `contents`, in this order.
pub open spec fn reads_bring(events: Seq<ListenEventView>, contents: Seq<Seq<u8>>) -> bool
    decreases events.len(),
{
    if events.len() == 0 {
        contents.len() == 0
    } else if events.last() matches ListenEventView::Received { result: Ok(_), .. } {
        &&& contents.len() > 0
        &&& brings(events.last(), contents.last())
        &&& reads_bring(events.drop_last(), contents.drop_last())
    } else {
        reads_bring(events.drop_last(), contents)
    }
}

/// Over a whole stream, a listener hands out exactly what its reads brought: nothing is
/// altered, reordered, doubled or left out.
pub proof fn a_stream_delivers_its_reads(events: Seq<ListenEventView>, contents: Seq<Seq<u8>>)
    requires
        reads_bring(events, contents),
    ensures
        delivered(events) == contents,
    decreases events.len(),
{
    if events.len() > 0 {
        if events.last() matches ListenEventView::Received { result: Ok(_), .. } {
            a_stream_delivers_its_reads(events.drop_last(), contents.drop_last());
            round_trip(contents.last(), events.last());
            assert(contents.drop_last().push(contents.last()) =~= contents);
        } else {
            a_stream_delivers_its_reads(events.drop_last(), contents);
        }
    } else {
        assert(contents =~= Seq::empty());
    }
}

/// Two streams of a listener, one after the other, hand out what the reads of the first
/// brought and then what those of the second brought, and nothing else.
pub proof fn two_streams_deliver_their_reads(
    first: Seq<ListenEventView>,
    first_contents: Seq<Seq<u8>>,
    second: Seq<ListenEventView>,
    second_contents: Seq<Seq<u8>>,
)
    requires
        reads_bring(first, first_contents),
        reads_bring(second, second_contents),
    ensures
        delivered(first + second) == first_contents + second_contents,
    decreases second.len(),
{
    a_stream_delivers_its_reads(first, first_contents);
    if second.len() == 0 {
        assert(first + second =~= first);
        assert(first_contents + second_contents =~= first_contents);
    } else {
        assert((first + second).drop_last() =~= first + second.drop_last());
        if second.last() matches ListenEventView::Received { result: Ok(_), .. } {
            two_streams_deliver_their_reads(
                first,
                first_contents,
                second.drop_last(),
                second_contents.drop_last(),
            );
            round_trip(second_contents.last(), second.last());
            assert((first_contents + second_contents.drop_last()).push(second_contents.last())
                =~= first_contents + second_contents);
        } else {
            two_streams_deliver_their_reads(
                first,
                first_contents,
                second.drop_last(),
                second_contents,
            );
        }
    }
}

/// After a read has failed, nothing happens to a listener any more.
pub proof fn a_failed_read_is_final(events: Seq<ListenEventView>, i: int)
    requires
        is_run(events),
        0 <= i < events.len(),
        events[i] matches ListenEventView::Received { result: Err(_), .. },
    ensures
        i == events.len() - 1,
        state_after(events) is Ended,
        forall|event: ListenEventView| !is_run(#[trigger] events.push(event)),
    decreases events.len(),
{
    if i < events.len() - 1 {
        assert(events.drop_last()[i] == events[i]);
        a_failed_read_is_final(events.drop_last(), i);
    }
    assert forall|event: ListenEventView| !is_run(#[trigger] events.push(event)) by {
        assert(events.push(event).drop_last() =~= events);
    }
}

/// Where reads keep to their buffers, no message larger than the limit is handed out.
pub proof fn deliveries_are_bounded(events: Seq<ListenEventView>, i: int)
    requires
        is_run(events),
        forall|j: int|
            0 <= j < events.len() ==> (#[trigger] events[j] matches ListenEventView::Received {
                buffer,
                ..
            } ==> buffer.len() == receive_buffer().len()),
        0 <= i < delivered(events).len(),
    ensures
        delivered(events)[i].len() <= MAX_MSG_SIZE,
    decreases events.len(),
{
    if events.len() > 0 {
        let earlier = events.drop_last();
        assert forall|j: int| 0 <= j < earlier.len() implies #[trigger] earlier[j]
            == events[j] by {}
        if i < delivered(earlier).len() {
            deliveries_are_bounded(earlier, i);
        }
    }
}

/// A sender without a listener, and a message that the queue does not take, are nothing
/// that stops the program. Only a queue that cannot be opened is.
pub proof fn lost_messages_are_not_fatal(result: Result<i64, OsError>, too_long: i32, error: OsError)
    ensures
        !(transmit_report(result, too_long) is ConnectFailed),
        error.kind == ErrorKind::NotFound ==> !(open_failure(error) is ConnectFailed),
        error.kind != ErrorKind::NotFound ==> open_failure(error) is ConnectFailed,
{
}

} // verus!
