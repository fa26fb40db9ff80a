//! The macOS backend: notifications go through the distributed notification center, as
//! dictionaries with one entry that holds the message.

use crate::channel::{channel, try_send, Delivery};
use crate::{InvalidNameError, MAX_MSG_SIZE, MSG_LIMIT};
use tokio::sync::mpsc::{Receiver as MessageReceiver, Sender as MessageSender};
use vstd::prelude::*;

verus! {

/// The key under which a notification carries its message.
pub const SENDER_KEY_NAME: &'static str = "sys-broadcaster-payload";

/// A value in the dictionary of a notification.
#[derive(Debug)]
pub enum Value {
    /// Plain bytes.
    Data(Vec<u8>),
    /// A value of any other type, or one that [`is_wanted`] does not ask for.
    Other,
}

impl View for Value {
    type V = Option<Seq<u8>>;

    open spec fn view(&self) -> Option<Seq<u8>> {
        match self {
            Value::Data(bytes) => Some(bytes@),
            Value::Other => None,
        }
    }
}

/// A key of the dictionary of a notification, with its value.
#[derive(Debug)]
pub struct Entry {
    pub key: String,
    pub value: Value,
}

impl View for Entry {
    type V = (Seq<char>, Option<Seq<u8>>);

    open spec fn view(&self) -> (Seq<char>, Option<Seq<u8>>) {
        (self.key@, self.value@)
    }
}

/// What came with a notification.
///
/// Any process on the system can post a notification, so this is untrusted.
#[derive(Debug)]
pub enum UserInfo {
    /// Nothing, as from processes inside the default app sandbox.
    Absent,
    /// An object that is not a dictionary.
    Foreign,
    /// A dictionary, in the order in which its entries are listed.
    Dictionary(Vec<Entry>),
}

/// The mathematical model of a [`UserInfo`].
pub enum UserInfoView {
    Absent,
    Foreign,
    Dictionary(Seq<(Seq<char>, Option<Seq<u8>>)>),
}

impl View for UserInfo {
    type V = UserInfoView;

    open spec fn view(&self) -> UserInfoView {
        match self {
            UserInfo::Absent => UserInfoView::Absent,
            UserInfo::Foreign => UserInfoView::Foreign,
            UserInfo::Dictionary(entries) => UserInfoView::Dictionary(
                entries@.map_values(|entry: Entry| entry@),
            ),
        }
    }
}

/// The message that a value holds, if it holds one that is not too large.
pub open spec fn payload(value: Option<Seq<u8>>) -> Option<Seq<u8>> {
    match value {
        Some(bytes) if bytes.len() <= MAX_MSG_SIZE => Some(bytes),
        _ => None,
    }
}

/// The messages in the entries of a dictionary: those under the library's key, in order,
/// up to the first entry under that key that holds no message.
pub open spec fn messages_in(entries: Seq<(Seq<char>, Option<Seq<u8>>)>) -> Seq<Seq<u8>>
    decreases entries.len(),
{
    if entries.len() == 0 {
        Seq::empty()
    } else if entries[0].0 != SENDER_KEY_NAME@ {
        messages_in(entries.drop_first())
    } else {
        match payload(entries[0].1) {
            Some(bytes) => seq![bytes] + messages_in(entries.drop_first()),
            None => Seq::empty(),
        }
    }
}

/// The messages that a notification brings.
pub open spec fn messages_of(info: UserInfoView) -> Seq<Seq<u8>> {
    match info {
        UserInfoView::Absent => seq![Seq::empty()],
        UserInfoView::Foreign => Seq::empty(),
        UserInfoView::Dictionary(entries) => messages_in(entries),
    }
}

/// The contents of some messages.
pub open spec fn contents(messages: Seq<Vec<u8>>) -> Seq<Seq<u8>> {
    messages.map_values(|message: Vec<u8>| message@)
}

/// The messages that a channel took in, out of those that it was handed.
pub open spec fn queued(messages: Seq<Seq<u8>>, deliveries: Seq<Delivery>) -> Seq<Seq<u8>>
    recommends
        messages.len() == deliveries.len(),
    decreases deliveries.len(),
{
    if deliveries.len() == 0 {
        Seq::empty()
    } else if deliveries.last() is Queued {
        queued(messages.drop_last(), deliveries.drop_last()).push(messages.last())
    } else {
        queued(messages.drop_last(), deliveries.drop_last())
    }
}

/// Whether bytes of this size under this key are a message.
pub open spec fn wanted(key: Seq<char>, size: int) -> bool {
    key == SENDER_KEY_NAME@ && size <= MAX_MSG_SIZE
}

/// Whether bytes of this size under this key are a message, so that they have to be
/// copied into a [`Value`].
pub fn is_wanted(key: &str, size: usize) -> (answer: bool)
    ensures
        answer == wanted(key@, size as int),
        answer <==> key@ == SENDER_KEY_NAME@ && size <= MAX_MSG_SIZE,
{
    key.to_owned() == SENDER_KEY_NAME.to_owned() && size <= MAX_MSG_SIZE
}

/// An entry of which only wanted bytes are kept.
pub open spec fn trimmed(entry: (Seq<char>, Option<Seq<u8>>)) -> (Seq<char>, Option<Seq<u8>>) {
    match entry.1 {
        Some(bytes) if wanted(entry.0, bytes.len() as int) => entry,
        _ => (entry.0, None),
    }
}

/// Copies the messages out of what came with a notification.
pub fn messages(user_info: &UserInfo) -> (messages: Vec<Vec<u8>>)
    ensures
        contents(messages@) == messages_of(user_info@),
{
    let mut messages: Vec<Vec<u8>> = Vec::new();
    match user_info {
        UserInfo::Absent => {
            messages.push(Vec::new());
            assert(contents(messages@) =~= seq![Seq::<u8>::empty()]);
        },
        UserInfo::Foreign => {
            assert(contents(messages@) =~= Seq::<Seq<u8>>::empty());
        },
        UserInfo::Dictionary(entries) => {
            let own_key = SENDER_KEY_NAME.to_owned();
            let ghost all = entries@.map_values(|entry: Entry| entry@);
            let mut i: usize = 0;
            assert(all.skip(0) =~= all);
            assert(contents(messages@) + messages_in(all) =~= messages_in(all));
            while i < entries.len()
                invariant
                    i <= entries@.len(),
                    own_key@ == SENDER_KEY_NAME@,
                    all == entries@.map_values(|entry: Entry| entry@),
                    user_info@ == UserInfoView::Dictionary(all),
                    contents(messages@) + messages_in(all.skip(i as int)) == messages_in(all),
                decreases entries@.len() - i,
            {
                let entry = &entries[i];
                assert(all.skip(i as int)[0] == entry@);
                assert(all.skip(i as int).drop_first() =~= all.skip(i + 1));
                // Any pair that was not made by a sender is passed over.
                if entry.key == own_key {
                    match &entry.value {
                        Value::Data(bytes) if bytes.len() <= MAX_MSG_SIZE => {
                            let ghost before = messages@;
                            let message = bytes.clone();
                            assert(message@ =~= bytes@);
                            messages.push(message);
                            assert(contents(messages@) =~= contents(before).push(bytes@));
                            assert(contents(messages@) + messages_in(all.skip(i + 1)) =~= contents(
                                before,
                            ) + messages_in(all.skip(i as int)));
                        },
                        _ => {
                            assert(contents(messages@) =~= messages_in(all));
                            return messages;
                        },
                    }
                }
                i += 1;
            }
            assert(contents(messages@) =~= messages_in(all));
        },
    }
    messages
}

/// Handles a notification: queues its messages for the receiver of the channel, in order.
///
/// Returns what became of each message. A full channel drops the message.
pub fn notification_callback(
    sender: &mut MessageSender<Vec<u8>>,
    user_info: &UserInfo,
) -> (deliveries: Vec<Delivery>)
    ensures
        deliveries@.len() == messages_of(user_info@).len(),
        crate::channel::handed(*final(sender)) == crate::channel::handed(*old(sender))
            + messages_of(user_info@),
        crate::channel::answers(*final(sender)) == crate::channel::answers(*old(sender))
            + deliveries@,
        crate::channel::taken(*final(sender)) == crate::channel::taken(*old(sender)) + queued(
            messages_of(user_info@),
            deliveries@,
        ),
        crate::channel::limit(*final(sender)) == crate::channel::limit(*old(sender)),
        forall|receiver: MessageReceiver<Vec<u8>>|
            crate::channel::joined(*final(sender), receiver) == crate::channel::joined(
                *old(sender),
                receiver,
            ),
{
    let messages = messages(user_info);
    let ghost all = messages_of(user_info@);
    let ghost before = crate::channel::taken(*sender);
    let ghost handed_before = crate::channel::handed(*sender);
    let ghost answers_before = crate::channel::answers(*sender);
    let mut deliveries: Vec<Delivery> = Vec::new();
    assert(before + queued(all.take(0), deliveries@) =~= before);
    assert(handed_before + all.take(0) =~= handed_before);
    assert(answers_before + deliveries@ =~= answers_before);
    for message in iter: messages
        invariant
            contents(iter.seq()) == all,
            deliveries@.len() == iter.index(),
            crate::channel::handed(*sender) == handed_before + all.take(iter.index()),
            crate::channel::answers(*sender) == answers_before + deliveries@,
            crate::channel::taken(*sender) == before + queued(all.take(iter.index()), deliveries@),
            crate::channel::limit(*sender) == crate::channel::limit(*old(sender)),
            forall|receiver: MessageReceiver<Vec<u8>>|
                crate::channel::joined(*sender, receiver) == crate::channel::joined(
                    *old(sender),
                    receiver,
                ),
    {
        let ghost i = iter.index();
        let ghost earlier = deliveries@;
        assert(message@ == all[i]);
        let delivery = try_send(sender, message);
        deliveries.push(delivery);
        assert(deliveries@.drop_last() =~= earlier);
        assert(all.take(i + 1).drop_last() =~= all.take(i));
        assert(crate::channel::handed(*sender) =~= handed_before + all.take(i + 1));
        assert(crate::channel::answers(*sender) =~= answers_before + deliveries@);
        assert(crate::channel::taken(*sender) =~= before + queued(all.take(i + 1), deliveries@));
    }
    assert(all.take(all.len() as int) =~= all);
    deliveries
}

/// A listener for the notifications of one name.
pub struct Listener {
    /// The name that notifications are filtered by.
    pub notification_name: &'static str,
    /// Where handled notifications queue their messages.
    pub sender: MessageSender<Vec<u8>>,
    /// Where the queued messages come out.
    pub receiver: MessageReceiver<Vec<u8>>,
}

impl Listener {
    /// Creates a listener. Every name is usable.
    pub fn create(notification_name: &'static str) -> (listener: Result<Self, InvalidNameError>)
        ensures
            listener matches Ok(listener) && {
                &&& listener.notification_name@ == notification_name@
                &&& crate::channel::handed(listener.sender) == Seq::<Seq<u8>>::empty()
                &&& crate::channel::answers(listener.sender) == Seq::<Delivery>::empty()
                &&& crate::channel::taken(listener.sender) == Seq::<Seq<u8>>::empty()
                &&& crate::channel::limit(listener.sender) == MSG_LIMIT
                &&& crate::channel::joined(listener.sender, listener.receiver)
            },
    {
        let (sender, receiver) = channel(MSG_LIMIT);
        Ok(Listener { notification_name, sender, receiver })
    }

    /// The stream of received messages.
    pub fn listen(&mut self) -> (receiver: &mut MessageReceiver<Vec<u8>>)
        ensures
            *receiver == old(self).receiver,
            *final(self) == (Listener { receiver: *final(receiver), ..*old(self) }),
    {
        &mut self.receiver
    }
}

/// A notification to post.
#[derive(Debug)]
pub struct Post {
    /// The name of the notification.
    pub notification_name: &'static str,
    /// What to send with it.
    pub user_info: UserInfo,
    /// Whether to deliver it even to processes that are suspended.
    pub deliver_immediately: bool,
}

/// A sender of notifications of one name.
pub struct Sender {
    pub notification_name: &'static str,
}

impl Sender {
    /// Creates a sender. Every name is usable.
    pub fn create(notification_name: &'static str) -> (sender: Result<Self, InvalidNameError>)
        ensures
            sender matches Ok(sender) && sender.notification_name@ == notification_name@,
    {
        Ok(Sender { notification_name })
    }

    /// The notification that carries `content`.
    pub fn send(&mut self, content: &[u8]) -> (post: Post)
        ensures
            *final(self) == *old(self),
            post.notification_name@ == old(self).notification_name@,
            post.user_info@ == envelope(content@),
            post.user_info matches UserInfo::Dictionary(entries) && {
                &&& entries@.len() == 1
                &&& entries@[0].key@ == SENDER_KEY_NAME@
                &&& entries@[0].value matches Value::Data(bytes) && bytes@ == content@
            },
            post.deliver_immediately,
    {
        let mut bytes: Vec<u8> = Vec::new();
        bytes.extend_from_slice(content);
        assert(bytes@ =~= content@);
        let mut entries: Vec<Entry> = Vec::new();
        entries.push(Entry { key: SENDER_KEY_NAME.to_owned(), value: Value::Data(bytes) });
        assert(entries@.map_values(|entry: Entry| entry@) =~= seq![
            (SENDER_KEY_NAME@, Some(content@)),
        ]);
        Post {
            notification_name: self.notification_name,
            user_info: UserInfo::Dictionary(entries),
            deliver_immediately: true,
        }
    }
}

/// What a sender puts `content` into.
pub open spec fn envelope(content: Seq<u8>) -> UserInfoView {
    UserInfoView::Dictionary(seq![(SENDER_KEY_NAME@, Some(content))])
}

/// For every content, the empty one too, a sender posts a dictionary with exactly one
/// entry, whose key is the library's and whose value is the content.
pub proof fn a_post_is_one_entry(content: Seq<u8>)
    ensures
        envelope(content) matches UserInfoView::Dictionary(entries) && {
            &&& entries.len() == 1
            &&& entries[0].0 == SENDER_KEY_NAME@
            &&& entries[0].1 == Some(content)
        },
{
}

/// Posts of different contents differ.
pub proof fn posts_tell_contents_apart(left: Seq<u8>, right: Seq<u8>)
    ensures
        envelope(left) == envelope(right) <==> left == right,
{
    a_post_is_one_entry(left);
    a_post_is_one_entry(right);
    if envelope(left) == envelope(right) {
        assert(envelope(left)->Dictionary_0[0].1 == Some(left));
        assert(envelope(right)->Dictionary_0[0].1 == Some(right));
    }
}

/// The models of what comes with a notification leave nothing out and change nothing.
pub proof fn models_are_faithful(value: Value, entry: Entry, info: UserInfo)
    ensures
        value matches Value::Data(bytes) ==> value@ == Some(bytes@),
        value is Other ==> value@ is None,
        entry@ == (entry.key@, entry.value@),
        info is Absent <==> info@ is Absent,
        info is Foreign <==> info@ is Foreign,
        info matches UserInfo::Dictionary(entries) ==> {
            &&& info@ matches UserInfoView::Dictionary(model)
            &&& model.len() == entries@.len()
            &&& forall|i: int| 0 <= i < model.len() ==> #[trigger] model[i] == entries@[i]@
        },
{
}

/// Contents are listed one for one.
pub proof fn contents_are_one_for_one(messages: Seq<Vec<u8>>, i: int)
    requires
        0 <= i < messages.len(),
    ensures
        contents(messages).len() == messages.len(),
        contents(messages)[i] == messages[i]@,
{
}

/// A notification without anything is one empty message, and an object that is not a
/// dictionary, or a dictionary without entries, is none.
pub proof fn bare_notifications(info: UserInfoView)
    ensures
        info is Absent ==> messages_of(info).len() == 1 && messages_of(info)[0].len() == 0,
        info is Foreign ==> messages_of(info).len() == 0,
        info matches UserInfoView::Dictionary(entries) ==> (entries.len() == 0 ==> messages_of(
            info,
        ).len() == 0),
{
}

/// How the messages of a dictionary change when an entry is put before the others. Under
/// another key it makes no difference. Under the library's key, data up to the limit comes
/// before the other messages, and anything else takes the place of all of them.
pub proof fn an_entry_put_in_front(
    key: Seq<char>,
    value: Option<Seq<u8>>,
    rest: Seq<(Seq<char>, Option<Seq<u8>>)>,
)
    ensures
        ({
            let before = messages_of(UserInfoView::Dictionary(rest));
            let after = messages_of(UserInfoView::Dictionary(seq![(key, value)] + rest));
            &&& key != SENDER_KEY_NAME@ ==> after == before
            &&& key == SENDER_KEY_NAME@ ==> match value {
                Some(bytes) => if bytes.len() <= MAX_MSG_SIZE {
                    after == seq![bytes] + before
                } else {
                    after.len() == 0
                },
                None => after.len() == 0,
            }
        }),
{
    assert((seq![(key, value)] + rest).drop_first() =~= rest);
}

/// Nothing is made up: a message of a dictionary is the data of one of its entries, under
/// the library's key.
pub proof fn messages_stand_in_the_dictionary(
    entries: Seq<(Seq<char>, Option<Seq<u8>>)>,
    i: int,
)
    requires
        0 <= i < messages_of(UserInfoView::Dictionary(entries)).len(),
    ensures
        exists|j: int|
            0 <= j < entries.len() && #[trigger] entries[j] == (
                SENDER_KEY_NAME@,
                Some(messages_of(UserInfoView::Dictionary(entries))[i]),
            ),
    decreases entries.len(),
{
    let rest = entries.drop_first();
    if entries[0].0 == SENDER_KEY_NAME@ && i == 0 {
        assert(entries[0] == (SENDER_KEY_NAME@, Some(messages_in(entries)[0])));
    } else {
        let at = if entries[0].0 == SENDER_KEY_NAME@ {
            i - 1
        } else {
            i
        };
        messages_stand_in_the_dictionary(rest, at);
        let j = choose|j: int|
            0 <= j < rest.len() && #[trigger] rest[j] == (
                SENDER_KEY_NAME@,
                Some(messages_in(rest)[at]),
            );
        assert(entries[j + 1] == rest[j]);
    }
}

/// Bytes are wanted exactly where, alone in a dictionary, they are a message.
pub proof fn wanted_bytes_are_messages(key: Seq<char>, bytes: Seq<u8>)
    ensures
        wanted(key, bytes.len() as int) <==> messages_of(
            UserInfoView::Dictionary(seq![(key, Some(bytes))]),
        ).len() == 1,
        payload(Some(bytes)) == Some(bytes) <==> bytes.len() <= MAX_MSG_SIZE,
        payload(Some(bytes)) is None <==> bytes.len() > MAX_MSG_SIZE,
        payload(None) is None,
{
    let none = Seq::<(Seq<char>, Option<Seq<u8>>)>::empty();
    an_entry_put_in_front(key, Some(bytes), none);
    assert(seq![(key, Some(bytes))] + none =~= seq![(key, Some(bytes))]);
}

/// What a channel takes in grows with each message that it queues, and only then.
pub proof fn messages_are_queued_one_by_one(
    messages: Seq<Seq<u8>>,
    deliveries: Seq<Delivery>,
    message: Seq<u8>,
    delivery: Delivery,
)
    requires
        messages.len() == deliveries.len(),
    ensures
        delivery is Queued ==> queued(messages.push(message), deliveries.push(delivery)) == queued(
            messages,
            deliveries,
        ).push(message),
        !(delivery is Queued) ==> queued(messages.push(message), deliveries.push(delivery))
            == queued(messages, deliveries),
{
    assert(messages.push(message).drop_last() =~= messages);
    assert(deliveries.push(delivery).drop_last() =~= deliveries);
}

/// A listener takes out of a notification exactly what a sender put in, and nothing of a
/// message that is too large.
pub proof fn round_trip(content: Seq<u8>)
    ensures
        messages_of(envelope(content)) == (if content.len() <= MAX_MSG_SIZE {
            seq![content]
        } else {
            Seq::empty()
        }),
{
    let entries = seq![(SENDER_KEY_NAME@, Some(content))];
    assert(entries.drop_first() =~= Seq::empty());
    assert(messages_in(entries.drop_first()) =~= Seq::<Seq<u8>>::empty());
    assert(seq![content] + Seq::<Seq<u8>>::empty() =~= seq![content]);
}

/// Whatever a notification holds, no message larger than the limit comes out of it.
pub proof fn messages_are_bounded(info: UserInfoView, i: int)
    requires
        0 <= i < messages_of(info).len(),
    ensures
        messages_of(info)[i].len() <= MAX_MSG_SIZE,
{
    if let UserInfoView::Dictionary(entries) = info {
        lemma_entries_are_bounded(entries, i);
    }
}

proof fn lemma_entries_are_bounded(entries: Seq<(Seq<char>, Option<Seq<u8>>)>, i: int)
    requires
        0 <= i < messages_in(entries).len(),
    ensures
        messages_in(entries)[i].len() <= MAX_MSG_SIZE,
    decreases entries.len(),
{
    if entries[0].0 != SENDER_KEY_NAME@ {
        lemma_entries_are_bounded(entries.drop_first(), i);
    } else if i > 0 {
        lemma_entries_are_bounded(entries.drop_first(), i - 1);
    }
}

/// Leaving out the bytes that are not wanted does not change what a notification brings.
pub proof fn unwanted_bytes_do_not_count(entries: Seq<(Seq<char>, Option<Seq<u8>>)>)
    ensures
        messages_of(
            UserInfoView::Dictionary(
                entries.map_values(|entry: (Seq<char>, Option<Seq<u8>>)| trimmed(entry)),
            ),
        ) == messages_of(UserInfoView::Dictionary(entries)),
    decreases entries.len(),
{
    let kept = entries.map_values(|entry: (Seq<char>, Option<Seq<u8>>)| trimmed(entry));
    if entries.len() > 0 {
        unwanted_bytes_do_not_count(entries.drop_first());
        assert(kept.drop_first() =~= entries.drop_first().map_values(
            |entry: (Seq<char>, Option<Seq<u8>>)| trimmed(entry),
        ));
        assert(kept[0] == trimmed(entries[0]));
    }
}

/// A dictionary that has no entry under the library's key brings no message.
pub proof fn other_keys_are_ignored(entries: Seq<(Seq<char>, Option<Seq<u8>>)>)
    requires
        forall|i: int| 0 <= i < entries.len() ==> (#[trigger] entries[i]).0 != SENDER_KEY_NAME@,
    ensures
        messages_of(UserInfoView::Dictionary(entries)) == Seq::<Seq<u8>>::empty(),
    decreases entries.len(),
{
    if entries.len() > 0 {
        assert forall|i: int| 0 <= i < entries.drop_first().len() implies (
        #[trigger] entries.drop_first()[i]).0 != SENDER_KEY_NAME@ by {
            assert(entries.drop_first()[i] == entries[i + 1]);
        }
        other_keys_are_ignored(entries.drop_first());
    }
}

/// Where the keys of a dictionary differ from each other, the entry under the library's
/// key alone decides what the notification brings, wherever it stands.
pub proof fn own_key_decides(entries: Seq<(Seq<char>, Option<Seq<u8>>)>, at: int)
    requires
        forall|i: int, j: int|
            0 <= i < j < entries.len() ==> (#[trigger] entries[i]).0 != (#[trigger] entries[j]).0,
        0 <= at < entries.len(),
        entries[at].0 == SENDER_KEY_NAME@,
    ensures
        messages_of(UserInfoView::Dictionary(entries)) == (match payload(entries[at].1) {
            Some(bytes) => seq![bytes],
            None => Seq::<Seq<u8>>::empty(),
        }),
    decreases entries.len(),
{
    let rest = entries.drop_first();
    assert forall|i: int| 0 <= i < rest.len() implies #[trigger] rest[i] == entries[i + 1] by {}
    if at == 0 {
        assert forall|i: int| 0 <= i < rest.len() implies (#[trigger] rest[i]).0
            != SENDER_KEY_NAME@ by {
            assert(rest[i] == entries[i + 1]);
            assert(entries[0].0 != entries[i + 1].0);
        }
        other_keys_are_ignored(rest);
        if let Some(bytes) = payload(entries[0].1) {
            assert(seq![bytes] + Seq::<Seq<u8>>::empty() =~= seq![bytes]);
        }
    } else {
        assert(entries[0].0 != entries[at].0);
        assert(rest[at - 1] == entries[at]);
        own_key_decides(rest, at - 1);
    }
}

/// A channel that takes in every message takes them all in, in order; one that takes in
/// none is left as it was.
pub proof fn queued_extremes(messages: Seq<Seq<u8>>, deliveries: Seq<Delivery>)
    requires
        messages.len() == deliveries.len(),
    ensures
        (forall|i: int| 0 <= i < deliveries.len() ==> #[trigger] deliveries[i] is Queued)
            ==> queued(messages, deliveries) == messages,
        (forall|i: int| 0 <= i < deliveries.len() ==> !(#[trigger] deliveries[i] is Queued))
            ==> queued(messages, deliveries) == Seq::<Seq<u8>>::empty(),
    decreases deliveries.len(),
{
    if deliveries.len() > 0 {
        queued_extremes(messages.drop_last(), deliveries.drop_last());
        assert forall|i: int| 0 <= i < deliveries.len() - 1 implies
            #[trigger] deliveries.drop_last()[i] == deliveries[i] by {}
        assert(messages.drop_last().push(messages.last()) =~= messages);
    } else {
        assert(messages =~= Seq::empty());
    }
}

/// What a sender posts ends up behind what the channel of a listener has taken in before,
/// if the channel has room for it.
pub proof fn posts_are_taken_in_order(
    taken: Seq<Seq<u8>>,
    content: Seq<u8>,
    deliveries: Seq<Delivery>,
)
    requires
        content.len() <= MAX_MSG_SIZE,
        deliveries == seq![Delivery::Queued],
    ensures
        taken + queued(messages_of(envelope(content)), deliveries) == taken.push(content),
{
    round_trip(content);
    queued_extremes(seq![content], deliveries);
    assert(taken + seq![content] =~= taken.push(content));
}

/// What a new channel has taken in after `notifications`, where `deliveries` says of each
/// of them what became of its messages.
pub open spec fn taken_after(
    notifications: Seq<UserInfoView>,
    deliveries: Seq<Seq<Delivery>>,
) -> Seq<Seq<u8>>
    decreases notifications.len(),
{
    if notifications.len() == 0 {
        Seq::empty()
    } else {
        taken_after(notifications.drop_last(), deliveries.drop_last()) + queued(
            messages_of(notifications.last()),
            deliveries.last(),
        )
    }
}

/// The messages that `notifications` bring, one notification after the other.
pub open spec fn all_messages(notifications: Seq<UserInfoView>) -> Seq<Seq<u8>>
    decreases notifications.len(),
{
    if notifications.len() == 0 {
        Seq::empty()
    } else {
        all_messages(notifications.drop_last()) + messages_of(notifications.last())
    }
}

/// Whether `deliveries` says of each message of each notification what became of it.
pub open spec fn answered(
    notifications: Seq<UserInfoView>,
    deliveries: Seq<Seq<Delivery>>,
) -> bool {
    &&& notifications.len() == deliveries.len()
    &&& forall|i: int|
        0 <= i < notifications.len() ==> (#[trigger] deliveries[i]).len() == messages_of(
            notifications[i],
        ).len()
}

/// The notifications that a sender posts for `contents`.
pub open spec fn posts(contents: Seq<Seq<u8>>) -> Seq<UserInfoView> {
    contents.map_values(|content: Seq<u8>| envelope(content))
}

/// Whatever notifications come, messages may be lost, but those that a listener's channel
/// takes in are among those that the notifications brought, in their order, and none more
/// often than it was brought.
pub proof fn a_channel_takes_some_of_what_came(
    notifications: Seq<UserInfoView>,
    deliveries: Seq<Seq<Delivery>>,
)
    requires
        answered(notifications, deliveries),
    ensures
        crate::sequences::is_subsequence(taken_after(notifications, deliveries), all_messages(notifications)),
    decreases notifications.len(),
{
    if notifications.len() > 0 {
        let earlier = notifications.drop_last();
        let earlier_deliveries = deliveries.drop_last();
        assert forall|i: int| 0 <= i < earlier.len() implies (#[trigger] earlier_deliveries[i]).len()
            == messages_of(earlier[i]).len() by {
            assert(earlier_deliveries[i] == deliveries[i]);
        }
        a_channel_takes_some_of_what_came(earlier, earlier_deliveries);
        assert(deliveries[notifications.len() - 1].len() == messages_of(
            notifications[notifications.len() - 1],
        ).len());
        lemma_queued_are_some(messages_of(notifications.last()), deliveries.last());
        crate::sequences::lemma_joined_subsequences(
            taken_after(earlier, earlier_deliveries),
            all_messages(earlier),
            queued(messages_of(notifications.last()), deliveries.last()),
            messages_of(notifications.last()),
        );
    }
}

/// Messages may be lost, but those that a listener's channel takes in of the posts of
/// senders are among the posted contents, byte for byte, in the order of posting, and none
/// more often than it was posted.
pub proof fn a_channel_takes_some_of_what_was_posted(
    contents: Seq<Seq<u8>>,
    deliveries: Seq<Seq<Delivery>>,
)
    requires
        answered(posts(contents), deliveries),
    ensures
        crate::sequences::is_subsequence(taken_after(posts(contents), deliveries), contents),
{
    a_channel_takes_some_of_what_came(posts(contents), deliveries);
    lemma_posts_bring_some(contents);
    crate::sequences::lemma_subsequence_is_transitive(
        taken_after(posts(contents), deliveries),
        all_messages(posts(contents)),
        contents,
    );
}

/// Posts bring nothing but their contents, in order.
proof fn lemma_posts_bring_some(contents: Seq<Seq<u8>>)
    ensures
        crate::sequences::is_subsequence(all_messages(posts(contents)), contents),
    decreases contents.len(),
{
    if contents.len() > 0 {
        let earlier = contents.drop_last();
        assert(posts(contents).drop_last() =~= posts(earlier));
        lemma_posts_bring_some(earlier);
        round_trip(contents.last());
        let brought = messages_of(envelope(contents.last()));
        let all = all_messages(posts(contents));
        assert(all == all_messages(posts(earlier)) + brought);
        if contents.last().len() <= MAX_MSG_SIZE {
            assert(all.drop_last() =~= all_messages(posts(earlier)));
            assert(all.last() == contents.last());
        } else {
            assert(all =~= all_messages(posts(earlier)));
        }
    }
}

/// What a channel took in is what it was handed, with some messages left out.
proof fn lemma_queued_are_some(messages: Seq<Seq<u8>>, deliveries: Seq<Delivery>)
    requires
        messages.len() == deliveries.len(),
    ensures
        crate::sequences::is_subsequence(queued(messages, deliveries), messages),
    decreases deliveries.len(),
{
    if deliveries.len() > 0 {
        let earlier = queued(messages.drop_last(), deliveries.drop_last());
        lemma_queued_are_some(messages.drop_last(), deliveries.drop_last());
        if deliveries.last() is Queued {
            assert(queued(messages, deliveries).drop_last() =~= earlier);
        }
    }
}

/// Whether no message in `messages` is larger than the limit.
pub open spec fn all_bounded(messages: Seq<Seq<u8>>) -> bool {
    forall|i: int| 0 <= i < messages.len() ==> (#[trigger] messages[i]).len() <= MAX_MSG_SIZE
}

/// Whatever notifications bring, a channel that has taken in no message larger than the
/// limit takes in none later.
pub proof fn channel_stays_bounded(
    taken: Seq<Seq<u8>>,
    info: UserInfoView,
    deliveries: Seq<Delivery>,
)
    requires
        all_bounded(taken),
        deliveries.len() == messages_of(info).len(),
    ensures
        all_bounded(taken + queued(messages_of(info), deliveries)),
{
    let messages = messages_of(info);
    assert forall|i: int| 0 <= i < messages.len() implies (#[trigger] messages[i]).len()
        <= MAX_MSG_SIZE by {
        messages_are_bounded(info, i);
    }
    lemma_queued_bounded(messages, deliveries);
}

proof fn lemma_queued_bounded(messages: Seq<Seq<u8>>, deliveries: Seq<Delivery>)
    requires
        messages.len() == deliveries.len(),
        all_bounded(messages),
    ensures
        all_bounded(queued(messages, deliveries)),
    decreases deliveries.len(),
{
    if deliveries.len() > 0 {
        lemma_queued_bounded(messages.drop_last(), deliveries.drop_last());
    }
}

} // verus!
