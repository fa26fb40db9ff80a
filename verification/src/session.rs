//! What the Linux listeners and senders of one name come to over time.
//!
//! The kernel's part is written down here as a relation between a queue, a call and its
//! reply, as [mq_overview] describes them: messages of one priority leave a queue in the
//! order in which they came, a full queue and a message that is too large are refused,
//! and a queue whose name was removed lives on for those who have it open. The laws hold
//! of every system that behaves so.
//!
//! They follow one queue and all the listeners that have it open. A listener that comes
//! after the name was removed, while others still have the queue open, gets a queue of
//! its own, of which the same holds.
//!
//! [mq_overview]: <https://linux.die.net/man/7/mq_overview>

use crate::linux::{CreateOptions, ListenActionView, ListenEventView, ListenState, SendReport};
use crate::os::{ErrorKind, OsError};
use crate::{MAX_MSG_SIZE, MSG_LIMIT};
use vstd::prelude::*;

verus! {

/// A message queue of the system.
pub struct Queue {
    /// The messages in it, oldest first.
    pub messages: Seq<Seq<u8>>,
    /// The number of messages that it holds at most.
    pub max_messages: int,
    /// The size of the largest message that it takes.
    pub message_size: int,
}

/// A new queue.
pub open spec fn new_queue(options: CreateOptions) -> Queue {
    Queue {
        messages: Seq::empty(),
        max_messages: options.max_messages as int,
        message_size: options.message_size as int,
    }
}

/// The queue of a name after it was opened, or the failure to open it: only a caller that
/// says how creates a queue.
pub open spec fn opens(
    queue: Option<Queue>,
    create: Option<CreateOptions>,
    reply: Result<(), OsError>,
    after: Option<Queue>,
) -> bool {
    match (queue, create) {
        (None, None) => {
            &&& reply matches Err(error) && error.kind == ErrorKind::NotFound
            &&& after is None
        },
        (None, Some(options)) => reply is Ok && after == Some(new_queue(options)),
        (Some(_), _) => reply is Ok && after == queue,
    }
}

/// A queue after it was given `content` by a caller that does not wait.
pub open spec fn takes(
    queue: Queue,
    content: Seq<u8>,
    too_long: i32,
    reply: Result<i64, OsError>,
    after: Queue,
) -> bool {
    if content.len() > queue.message_size {
        &&& reply matches Err(error) && error.raw_os_error == Some(too_long)
        &&& after == queue
    } else if queue.messages.len() >= queue.max_messages {
        &&& reply matches Err(error) && error.raw_os_error != Some(too_long)
        &&& after == queue
    } else {
        &&& reply is Ok
        &&& after == (Queue { messages: queue.messages.push(content), ..queue })
    }
}

/// A queue after a read from it, which gives its oldest message or fails.
pub open spec fn gives(queue: Queue, event: ListenEventView, after: Queue) -> bool {
    if event matches ListenEventView::Received { result: Ok(_), .. } {
        &&& queue.messages.len() > 0
        &&& crate::linux::brings(event, queue.messages.first())
        &&& after == (Queue { messages: queue.messages.drop_first(), ..queue })
    } else {
        after == queue
    }
}

/// A queue and its listeners at one moment.
pub struct Session {
    /// The queue, as long as it exists.
    pub queue: Option<Queue>,
    /// Whether the name still leads to the queue.
    pub named: bool,
    /// The state of the current stream of each listener.
    pub streams: Map<nat, ListenState>,
    /// The messages that the listeners handed out, oldest first, each with the listener
    /// that did.
    pub yielded: Seq<(nat, Seq<u8>)>,
}

/// The queue that the name leads to.
pub open spec fn found(session: Session) -> Option<Queue> {
    if session.named {
        session.queue
    } else {
        None
    }
}

/// What happens to a queue and its listeners.
pub enum Step {
    /// A listener is created.
    CreateListener { listener: nat },
    /// A listener is dropped.
    DropListener { listener: nat },
    /// The name is removed from elsewhere.
    Unlink,
    /// A sender sends `content`. `opened` is what opening the queue came to, and
    /// `transmitted` what putting the message into it came to, if it was opened.
    Send {
        content: Seq<u8>,
        opened: Result<(), OsError>,
        transmitted: Result<i64, OsError>,
        too_long: i32,
    },
    /// A listener gets a new stream in place of the one it had.
    Listen { listener: nat },
    /// Something happens to the stream of a listener.
    Event { listener: nat, event: ListenEventView },
}

/// What a sender reports, given what opening the queue and putting the message into it
/// came to.
pub open spec fn send_report(
    opened: Result<(), OsError>,
    transmitted: Result<i64, OsError>,
    too_long: i32,
) -> SendReport {
    match opened {
        Ok(_) => crate::linux::transmit_report(transmitted, too_long),
        Err(error) => crate::linux::open_failure(error),
    }
}

/// Whether `step` can lead from `before` to `after`.
pub open spec fn follows(before: Session, step: Step, after: Session) -> bool {
    match step {
        Step::CreateListener { listener } => {
            &&& before.named || before.queue is None
            &&& !before.streams.contains_key(listener)
            &&& opens(
                found(before),
                Some(crate::linux::listener_options()),
                Ok(()),
                after.queue,
            )
            &&& after.named
            &&& after.streams == before.streams.insert(listener, ListenState::Idle)
            &&& after.yielded == (if found(before) is Some {
                before.yielded
            } else {
                Seq::empty()
            })
        },
        Step::DropListener { listener } => {
            &&& before.streams.contains_key(listener)
            &&& !after.named
            &&& after.streams == before.streams.remove(listener)
            &&& after.queue == (if after.streams.dom().is_empty() {
                None
            } else {
                before.queue
            })
            &&& after.yielded == before.yielded
        },
        Step::Unlink => after == (Session { named: false, ..before }),
        Step::Send { content, opened, transmitted, too_long } => {
            &&& opens(found(before), None, opened, found(before))
            &&& after.named == before.named
            &&& after.streams == before.streams
            &&& after.yielded == before.yielded
            &&& match found(before) {
                None => after.queue == before.queue,
                Some(queue) => after.queue matches Some(changed) && takes(
                    queue,
                    content,
                    too_long,
                    transmitted,
                    changed,
                ),
            }
        },
        Step::Listen { listener } => {
            &&& before.streams.contains_key(listener)
            &&& after == (Session {
                streams: before.streams.insert(listener, ListenState::Idle),
                ..before
            })
        },
        Step::Event { listener, event } => {
            &&& before.streams.contains_key(listener)
            &&& crate::linux::listen_accepts(before.streams[listener], event)
            &&& after.named == before.named
            &&& after.streams == before.streams.insert(
                listener,
                crate::linux::listen_next(event).0,
            )
            &&& after.yielded == (match crate::linux::listen_next(event).1 {
                ListenActionView::Deliver { message } => before.yielded.push((listener, message)),
                _ => before.yielded,
            })
            &&& before.queue matches Some(queue)
            &&& after.queue matches Some(changed)
            &&& gives(queue, event, changed)
        },
    }
}

/// Whether `steps` can lead through `sessions`, from the first to the last.
pub open spec fn is_history(sessions: Seq<Session>, steps: Seq<Step>) -> bool {
    &&& sessions.len() == steps.len() + 1
    &&& forall|i: int|
        0 <= i < steps.len() ==> follows(sessions[i], #[trigger] steps[i], sessions[i + 1])
}

/// Whether the queue exists all the time.
pub open spec fn queue_stays(sessions: Seq<Session>) -> bool {
    forall|i: int| 0 <= i < sessions.len() ==> (#[trigger] sessions[i]).queue is Some
}

/// The messages that listeners handed out, whichever did.
pub open spec fn contents_of(yielded: Seq<(nat, Seq<u8>)>) -> Seq<Seq<u8>> {
    yielded.map_values(|entry: (nat, Seq<u8>)| entry.1)
}

/// The messages that one listener handed out.
pub open spec fn yielded_by(yielded: Seq<(nat, Seq<u8>)>, listener: nat) -> Seq<Seq<u8>>
    decreases yielded.len(),
{
    if yielded.len() == 0 {
        Seq::empty()
    } else if yielded.last().0 == listener {
        yielded_by(yielded.drop_last(), listener).push(yielded.last().1)
    } else {
        yielded_by(yielded.drop_last(), listener)
    }
}

/// Whether no other listener handed out a message.
pub open spec fn only_by(yielded: Seq<(nat, Seq<u8>)>, listener: nat) -> bool {
    forall|i: int| 0 <= i < yielded.len() ==> (#[trigger] yielded[i]).0 == listener
}

/// Whether nothing is sent.
pub open spec fn nothing_sent(steps: Seq<Step>) -> bool {
    forall|i: int| 0 <= i < steps.len() ==> !(#[trigger] steps[i] is Send)
}

/// What the senders send, in order.
pub open spec fn sent(steps: Seq<Step>) -> Seq<Seq<u8>>
    decreases steps.len(),
{
    if steps.len() == 0 {
        Seq::empty()
    } else {
        match steps.last() {
            Step::Send { content, .. } => sent(steps.drop_last()).push(content),
            _ => sent(steps.drop_last()),
        }
    }
}

/// What the senders report as sent, in order.
pub open spec fn accepted(steps: Seq<Step>) -> Seq<Seq<u8>>
    decreases steps.len(),
{
    if steps.len() == 0 {
        Seq::empty()
    } else {
        match steps.last() {
            Step::Send { content, opened, transmitted, too_long } if send_report(
                opened,
                transmitted,
                too_long,
            ) is Sent => accepted(steps.drop_last()).push(content),
            _ => accepted(steps.drop_last()),
        }
    }
}

/// A queue that nobody has read from or written to.
pub open spec fn is_fresh(session: Session) -> bool {
    &&& session.queue == Some(new_queue(crate::linux::listener_options()))
    &&& session.named
    &&& session.yielded == Seq::<(nat, Seq<u8>)>::empty()
}

/// As long as a queue exists, each message that is reported as sent is either still in it
/// or was handed out once, by one of its listeners, all in the order of sending, whatever
/// listeners and streams come and go meanwhile.
pub proof fn messages_are_conserved(sessions: Seq<Session>, steps: Seq<Step>)
    requires
        is_history(sessions, steps),
        queue_stays(sessions),
    ensures
        contents_of(sessions.first().yielded) + sessions.first().queue->0.messages + accepted(steps)
            == contents_of(sessions.last().yielded) + sessions.last().queue->0.messages,
        sessions.first().yielded.is_prefix_of(sessions.last().yielded),
    decreases steps.len(),
{
    let first = sessions.first();
    assert(sessions[0].queue is Some);
    let start = contents_of(first.yielded) + first.queue->0.messages;
    if steps.len() > 0 {
        lemma_shorter_history(sessions, steps);
        messages_are_conserved(sessions.drop_last(), steps.drop_last());
        let before = sessions.drop_last().last();
        let after = sessions.last();
        let step = steps.last();
        let old_left = before.queue->0.messages;
        let new_left = after.queue->0.messages;
        let old_given = contents_of(before.yielded);
        let new_given = contents_of(after.yielded);
        assert(sessions[steps.len() - 1].queue is Some && sessions[steps.len() as int].queue is Some);
        assert(start + accepted(steps.drop_last()) == old_given + old_left);
        match step {
            Step::Send { content, opened, transmitted, too_long } => {
                if send_report(opened, transmitted, too_long) is Sent {
                    assert(new_left == old_left.push(content));
                    assert(start + accepted(steps) =~= (old_given + old_left).push(content));
                    assert((old_given + old_left).push(content) =~= new_given + new_left);
                }
            },
            Step::Event { listener, event } => {
                if event matches ListenEventView::Received { result: Ok(_), .. } {
                    crate::linux::round_trip(old_left.first(), event);
                    assert(new_given =~= old_given.push(old_left.first()));
                    assert(new_given + new_left =~= old_given + old_left);
                }
            },
            _ => {},
        }
    } else {
        assert(start + accepted(steps) =~= start);
    }
}

/// Each message that was accepted since the queue was new is in one place: the first ones
/// were handed out, each by the one listener that is on record for it, and the others are
/// still in the queue.
pub proof fn each_message_has_one_place(sessions: Seq<Session>, steps: Seq<Step>, i: int)
    requires
        is_history(sessions, steps),
        queue_stays(sessions),
        is_fresh(sessions.first()),
        0 <= i < accepted(steps).len(),
    ensures
        accepted(steps).len() == sessions.last().yielded.len()
            + sessions.last().queue->0.messages.len(),
        accepted(steps)[i] == (if i < sessions.last().yielded.len() {
            sessions.last().yielded[i].1
        } else {
            sessions.last().queue->0.messages[i - sessions.last().yielded.len()]
        }),
{
    messages_are_conserved(sessions, steps);
    lemma_fresh(sessions.first(), accepted(steps));
}

/// Messages may be lost, but those that the listeners of a new queue hand out, taken
/// together or of each alone, are among the sent ones, byte for byte, in the order of
/// sending, and none more often than it was sent.
pub proof fn listeners_yield_some_of_what_was_sent(
    sessions: Seq<Session>,
    steps: Seq<Step>,
    listener: nat,
)
    requires
        is_history(sessions, steps),
        queue_stays(sessions),
        is_fresh(sessions.first()),
    ensures
        crate::sequences::is_subsequence(contents_of(sessions.last().yielded), sent(steps)),
        crate::sequences::is_subsequence(
            yielded_by(sessions.last().yielded, listener),
            sent(steps),
        ),
{
    messages_are_conserved(sessions, steps);
    lemma_fresh(sessions.first(), accepted(steps));
    lemma_accepted_were_sent(steps);
    let last = sessions.last();
    let given = contents_of(last.yielded);
    crate::sequences::lemma_prefix_of_subsequence(given, last.queue->0.messages, sent(steps));
    lemma_yielded_are_some(last.yielded, listener);
    crate::sequences::lemma_subsequence_is_transitive(
        yielded_by(last.yielded, listener),
        given,
        sent(steps),
    );
}

/// A listener that has the queue to itself hands out all that is handed out.
pub proof fn a_lone_listener_yields_everything(yielded: Seq<(nat, Seq<u8>)>, listener: nat)
    requires
        only_by(yielded, listener),
    ensures
        yielded_by(yielded, listener) == contents_of(yielded),
    decreases yielded.len(),
{
    if yielded.len() > 0 {
        let earlier = yielded.drop_last();
        assert forall|i: int| 0 <= i < earlier.len() implies (#[trigger] earlier[i]).0
            == listener by {
            assert(earlier[i] == yielded[i]);
        }
        a_lone_listener_yields_everything(earlier, listener);
        assert(yielded[yielded.len() - 1].0 == listener);
        assert(contents_of(yielded) =~= contents_of(earlier).push(yielded.last().1));
    } else {
        assert(contents_of(yielded) =~= Seq::empty());
    }
}

/// Messages that are sent after a listener was created and before anyone reads are queued
/// up to the limit: exactly these are handed out, in order, and what was not handed out
/// yet is still there. A listener that has the queue to itself hands them all out.
pub proof fn messages_wait_for_the_listener(
    sessions: Seq<Session>,
    steps: Seq<Step>,
    contents: Seq<Seq<u8>>,
    listener: nat,
)
    requires
        is_history(sessions, steps),
        queue_stays(sessions),
        is_fresh(sessions.first()),
        contents.len() <= MSG_LIMIT,
        contents.len() <= steps.len(),
        forall|i: int| 0 <= i < contents.len() ==> (#[trigger] contents[i]).len() <= MAX_MSG_SIZE,
        forall|i: int|
            #![trigger steps[i]]
            0 <= i < contents.len() ==> (steps[i] matches Step::Send { content, .. } && content
                == contents[i]),
        nothing_sent(steps.skip(contents.len() as int)),
    ensures
        ({
            let last = sessions.last();
            let count = last.yielded.len() as int;
            &&& count <= contents.len()
            &&& contents_of(last.yielded) == contents.take(count)
            &&& last.queue matches Some(queue) && queue.messages == contents.skip(count)
            &&& only_by(last.yielded, listener) ==> yielded_by(last.yielded, listener)
                == contents.take(count)
        }),
{
    let count = contents.len() as int;
    lemma_room(sessions, steps, contents, count);
    let later = sessions.skip(count);
    let rest = steps.skip(count);
    lemma_later_history(sessions, steps, count);
    lemma_queue_stays_later(sessions, count);
    messages_are_conserved(later, rest);
    lemma_nothing_accepted(rest);
    let last = sessions.last();
    assert(last.queue is Some) by {
        assert(sessions[sessions.len() - 1].queue is Some);
    }
    assert(contents.take(count) =~= contents);
    assert(later.first() == sessions[count]);
    assert(contents_of(later.first().yielded) + contents + accepted(rest) =~= contents);
    let given = contents_of(last.yielded);
    let left = last.queue->0.messages;
    assert(given + left == contents);
    assert((given + left).take(given.len() as int) =~= given);
    assert((given + left).skip(given.len() as int) =~= left);
    if only_by(last.yielded, listener) {
        a_lone_listener_yields_everything(last.yielded, listener);
    }
}

/// A new stream of a listener goes on where the one before it stopped: what is in the
/// queue is handed out in order, nothing a second time and leaving nothing out. Neither
/// making a stream nor dropping one takes a message out of the queue. A listener that has
/// the queue to itself hands it all out.
pub proof fn a_new_stream_goes_on(sessions: Seq<Session>, steps: Seq<Step>, listener: nat)
    requires
        is_history(sessions, steps),
        queue_stays(sessions),
        nothing_sent(steps),
        steps.len() > 0,
        steps[0] == (Step::Listen { listener }),
    ensures
        sessions[1].queue == sessions.first().queue,
        sessions[1].yielded == sessions.first().yielded,
        ({
            let first = sessions.first();
            let last = sessions.last();
            let waiting = first.queue->0.messages;
            let count = last.yielded.len() - first.yielded.len();
            &&& 0 <= count <= waiting.len()
            &&& contents_of(last.yielded) == contents_of(first.yielded) + waiting.take(count)
            &&& last.queue matches Some(queue) && queue.messages == waiting.skip(count)
            &&& only_by(last.yielded, listener) ==> yielded_by(last.yielded, listener)
                == yielded_by(first.yielded, listener) + waiting.take(count)
        }),
{
    assert(follows(sessions[0], steps[0], sessions[1]));
    messages_are_conserved(sessions, steps);
    lemma_nothing_accepted(steps);
    let first = sessions.first();
    let last = sessions.last();
    assert(sessions[sessions.len() - 1].queue is Some);
    let given = contents_of(first.yielded);
    let waiting = first.queue->0.messages;
    let left = last.queue->0.messages;
    let count = last.yielded.len() - first.yielded.len();
    let all = given + waiting;
    assert(all + accepted(steps) =~= all);
    assert(all == contents_of(last.yielded) + left);
    assert(all.len() == last.yielded.len() + left.len());
    assert(all.take(last.yielded.len() as int) =~= contents_of(last.yielded));
    assert(all.take(last.yielded.len() as int) =~= given + waiting.take(count));
    assert(all.skip(last.yielded.len() as int) =~= left);
    assert(all.skip(last.yielded.len() as int) =~= waiting.skip(count));
    if only_by(last.yielded, listener) {
        assert forall|i: int| 0 <= i < first.yielded.len() implies (#[trigger] first.yielded[i]).0
            == listener by {
            assert(first.yielded[i] == last.yielded[i]);
        }
        a_lone_listener_yields_everything(last.yielded, listener);
        a_lone_listener_yields_everything(first.yielded, listener);
    }
}

/// A message that is sent while nothing listens is dropped, and is not kept for a listener
/// that comes later.
pub proof fn unheard_messages_are_not_kept(sessions: Seq<Session>, steps: Seq<Step>, before: int)
    requires
        is_history(sessions, steps),
        sessions.first().queue is None,
        0 <= before < steps.len(),
        forall|i: int| 0 <= i < before ==> #[trigger] steps[i] is Send,
        steps[before] is CreateListener,
        queue_stays(sessions.skip(before + 1)),
        nothing_sent(steps.skip(before + 1)),
    ensures
        forall|i: int|
            0 <= i < before ==> (#[trigger] steps[i] matches Step::Send {
                opened,
                transmitted,
                too_long,
                ..
            } && send_report(opened, transmitted, too_long) is NoListener),
        sessions.last().yielded == Seq::<(nat, Seq<u8>)>::empty(),
{
    lemma_unheard(sessions, steps, before);
    assert(follows(sessions[before], steps[before], sessions[before + 1]));
    let later = sessions.skip(before + 1);
    let rest = steps.skip(before + 1);
    lemma_later_history(sessions, steps, before + 1);
    messages_are_conserved(later, rest);
    lemma_nothing_accepted(rest);
    assert(later.first() == sessions[before + 1]);
    lemma_fresh(later.first(), accepted(rest));
    let last = sessions.last();
    assert((contents_of(last.yielded) + last.queue->0.messages).len() == 0);
    assert(last.yielded =~= Seq::empty());
}

/// After a listener was dropped, sends reach nobody and report so, as if there had never
/// been a listener, until a new one is created. They change nothing.
pub proof fn nobody_is_reached_after_the_listener(sessions: Seq<Session>, steps: Seq<Step>, at: int)
    requires
        is_history(sessions, steps),
        steps.len() > 0,
        steps[0] is DropListener,
        forall|i: int| 0 < i < steps.len() ==> #[trigger] steps[i] is Send,
        0 < at < steps.len(),
    ensures
        steps[at] matches Step::Send { opened, transmitted, too_long, .. } && send_report(
            opened,
            transmitted,
            too_long,
        ) is NoListener,
        sessions[at + 1] == sessions[1],
        found(sessions[at + 1]) is None,
{
    assert(follows(sessions[0], steps[0], sessions[1]));
    lemma_later_history(sessions, steps, 1);
    let rest = steps.skip(1);
    assert forall|i: int| 0 <= i < at implies #[trigger] rest[i] is Send by {
        assert(rest[i] == steps[i + 1]);
    }
    lemma_unheard(sessions.skip(1), rest, at);
    assert(rest[at - 1] == steps[at]);
    assert(sessions.skip(1)[at] == sessions[at + 1]);
}

/// A full queue keeps its messages and their order. The message that found it full is
/// dropped, and the sender neither waits nor stops the program.
pub proof fn a_full_queue_drops_the_message(before: Session, step: Step, after: Session)
    requires
        follows(before, step, after),
        step is Send,
        found(before) matches Some(queue) && queue.messages.len() >= queue.max_messages && step
            ->content.len() <= queue.message_size,
    ensures
        after == before,
        step->transmitted matches Err(error) && send_report(
            step->opened,
            step->transmitted,
            step->too_long,
        ) == SendReport::Failed(error),
{
}

/// A message that is larger than the queue takes is dropped and reported so, and leaves
/// the queue as it was.
pub proof fn an_oversized_message_is_dropped(before: Session, step: Step, after: Session)
    requires
        follows(before, step, after),
        step is Send,
        found(before) matches Some(queue) && step->content.len() > queue.message_size,
    ensures
        after == before,
        send_report(step->opened, step->transmitted, step->too_long) is TooLarge,
{
}

/// A listener that is created while the queue has others joins them, and changes nothing
/// for them.
pub proof fn listeners_can_be_several(before: Session, step: Step, after: Session, other: nat)
    requires
        follows(before, step, after),
        step is CreateListener,
        before.queue is Some,
        before.streams.contains_key(other),
    ensures
        after.queue == before.queue,
        after.yielded == before.yielded,
        after.streams.contains_key(other),
        after.streams[other] == before.streams[other],
{
}

/// In a new queue there is nothing yet.
proof fn lemma_fresh(session: Session, later: Seq<Seq<u8>>)
    requires
        is_fresh(session),
    ensures
        contents_of(session.yielded) + session.queue->0.messages + later == later,
{
    assert(contents_of(session.yielded) + session.queue->0.messages + later =~= later);
}

/// What one listener handed out is what all did, with some messages left out.
proof fn lemma_yielded_are_some(yielded: Seq<(nat, Seq<u8>)>, listener: nat)
    ensures
        crate::sequences::is_subsequence(yielded_by(yielded, listener), contents_of(yielded)),
    decreases yielded.len(),
{
    if yielded.len() > 0 {
        let earlier = yielded.drop_last();
        lemma_yielded_are_some(earlier, listener);
        assert(contents_of(yielded).drop_last() =~= contents_of(earlier));
        if yielded.last().0 == listener {
            assert(yielded_by(yielded, listener).drop_last() =~= yielded_by(earlier, listener));
        }
    }
}

/// Without its last step a history is a history too.
proof fn lemma_shorter_history(sessions: Seq<Session>, steps: Seq<Step>)
    requires
        is_history(sessions, steps),
        queue_stays(sessions),
        steps.len() > 0,
    ensures
        is_history(sessions.drop_last(), steps.drop_last()),
        queue_stays(sessions.drop_last()),
        follows(sessions.drop_last().last(), steps.last(), sessions.last()),
{
    assert forall|i: int| 0 <= i < steps.drop_last().len() implies follows(
        sessions.drop_last()[i],
        #[trigger] steps.drop_last()[i],
        sessions.drop_last()[i + 1],
    ) by {
        assert(steps.drop_last()[i] == steps[i]);
    }
    assert forall|i: int| 0 <= i < sessions.drop_last().len() implies (
    #[trigger] sessions.drop_last()[i]).queue is Some by {
        assert(sessions.drop_last()[i] == sessions[i]);
    }
    assert(follows(sessions[steps.len() - 1], steps[steps.len() - 1], sessions[steps.len() as int]));
}

/// What remains of a history after some steps is a history too.
proof fn lemma_later_history(sessions: Seq<Session>, steps: Seq<Step>, count: int)
    requires
        is_history(sessions, steps),
        0 <= count <= steps.len(),
    ensures
        is_history(sessions.skip(count), steps.skip(count)),
        sessions.skip(count).last() == sessions.last(),
{
    let rest = steps.skip(count);
    assert forall|i: int| 0 <= i < rest.len() implies follows(
        sessions.skip(count)[i],
        #[trigger] rest[i],
        sessions.skip(count)[i + 1],
    ) by {
        assert(rest[i] == steps[count + i]);
    }
}

/// A queue that exists all the time exists later on.
proof fn lemma_queue_stays_later(sessions: Seq<Session>, count: int)
    requires
        queue_stays(sessions),
        0 <= count <= sessions.len(),
    ensures
        queue_stays(sessions.skip(count)),
{
    assert forall|i: int| 0 <= i < sessions.skip(count).len() implies (
    #[trigger] sessions.skip(count)[i]).queue is Some by {
        assert(sessions.skip(count)[i] == sessions[count + i]);
    }
}

/// Where nothing is sent, nothing is accepted.
proof fn lemma_nothing_accepted(steps: Seq<Step>)
    requires
        nothing_sent(steps),
    ensures
        accepted(steps) == Seq::<Seq<u8>>::empty(),
    decreases steps.len(),
{
    if steps.len() > 0 {
        assert(!(steps[steps.len() - 1] is Send));
        assert forall|i: int| 0 <= i < steps.drop_last().len() implies !(
        #[trigger] steps.drop_last()[i] is Send) by {
            assert(steps.drop_last()[i] == steps[i]);
        }
        lemma_nothing_accepted(steps.drop_last());
    }
}

/// While there is room, each message goes into the queue.
proof fn lemma_room(
    sessions: Seq<Session>,
    steps: Seq<Step>,
    contents: Seq<Seq<u8>>,
    count: int,
)
    requires
        is_history(sessions, steps),
        is_fresh(sessions.first()),
        contents.len() <= MSG_LIMIT,
        contents.len() <= steps.len(),
        forall|i: int| 0 <= i < contents.len() ==> (#[trigger] contents[i]).len() <= MAX_MSG_SIZE,
        forall|i: int|
            #![trigger steps[i]]
            0 <= i < contents.len() ==> (steps[i] matches Step::Send { content, .. } && content
                == contents[i]),
        0 <= count <= contents.len(),
    ensures
        sessions[count].named,
        sessions[count].yielded == Seq::<(nat, Seq<u8>)>::empty(),
        sessions[count].queue == Some(
            Queue {
                messages: contents.take(count),
                ..new_queue(crate::linux::listener_options())
            },
        ),
    decreases count,
{
    if count > 0 {
        lemma_room(sessions, steps, contents, count - 1);
        assert(follows(sessions[count - 1], steps[count - 1], sessions[count]));
        assert(contents[count - 1].len() <= MAX_MSG_SIZE);
        assert(contents.take(count - 1).push(contents[count - 1]) =~= contents.take(count));
    } else {
        assert(contents.take(0) =~= Seq::empty());
    }
}

/// Sends change nothing where the name leads to no queue.
proof fn lemma_unheard(sessions: Seq<Session>, steps: Seq<Step>, count: int)
    requires
        is_history(sessions, steps),
        found(sessions.first()) is None,
        0 <= count <= steps.len(),
        forall|i: int| 0 <= i < count ==> #[trigger] steps[i] is Send,
    ensures
        sessions[count] == sessions[0],
        forall|i: int|
            0 <= i < count ==> (#[trigger] steps[i] matches Step::Send {
                opened,
                transmitted,
                too_long,
                ..
            } && send_report(opened, transmitted, too_long) is NoListener),
    decreases count,
{
    if count > 0 {
        lemma_unheard(sessions, steps, count - 1);
        assert(steps[count - 1] is Send);
        assert(follows(sessions[count - 1], steps[count - 1], sessions[count]));
    }
}

/// What was accepted is what was sent, with some messages left out.
proof fn lemma_accepted_were_sent(steps: Seq<Step>)
    ensures
        crate::sequences::is_subsequence(accepted(steps), sent(steps)),
    decreases steps.len(),
{
    if steps.len() > 0 {
        lemma_accepted_were_sent(steps.drop_last());
        if let Step::Send { content, .. } = steps.last() {
            assert(sent(steps).drop_last() =~= sent(steps.drop_last()));
            if accepted(steps).len() > accepted(steps.drop_last()).len() {
                assert(accepted(steps).drop_last() =~= accepted(steps.drop_last()));
            }
        }
    }
}

} // verus!
