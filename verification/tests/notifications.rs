use system_broadcaster::channel::Delivery;
use system_broadcaster::macos::{
    is_wanted, messages, notification_callback, Entry, Listener, Sender, UserInfo, Value, SENDER_KEY_NAME,
};
use system_broadcaster::{MAX_MSG_SIZE, MSG_LIMIT};

fn entry(key: &str, value: Value) -> Entry {
    Entry { key: key.to_string(), value }
}

fn data(bytes: &[u8]) -> Value {
    Value::Data(bytes.to_vec())
}

#[test]
fn posted_message_is_received() {
    let mut sender = Sender::create("test_foobar").unwrap();
    let mut listener = Listener::create("test_foobar").unwrap();
    for content in [b"test_content".as_slice(), b"test_content_2", b""] {
        let post = sender.send(content);
        assert_eq!(post.notification_name, listener.notification_name);
        assert!(post.deliver_immediately);
        let deliveries = notification_callback(&mut listener.sender, &post.user_info);
        assert_eq!(deliveries, [Delivery::Queued]);
    }
    assert_eq!(listener.listen().try_recv().unwrap(), b"test_content");
    assert_eq!(listener.listen().try_recv().unwrap(), b"test_content_2");
    assert_eq!(listener.listen().try_recv().unwrap(), b"");
    assert!(listener.listen().try_recv().is_err());
}

#[test]
fn payload_travels_under_the_key() {
    let post = Sender::create("any/name").unwrap().send(&[1, 2]);
    match post.user_info {
        UserInfo::Dictionary(entries) => {
            assert_eq!(entries.len(), 1);
            assert_eq!(entries[0].key, "sys-broadcaster-payload");
            assert!(matches!(&entries[0].value, Value::Data(bytes) if bytes == &[1, 2]));
        }
        other => panic!("{other:?}"),
    }
}

#[test]
fn every_name_is_usable() {
    assert!(Listener::create("").is_ok());
    assert!(Sender::create("a/b\0").is_ok());
}

#[test]
fn oversized_message_is_dropped() {
    let mut sender = Sender::create("size").unwrap();
    let largest = vec![1; MAX_MSG_SIZE];
    assert_eq!(messages(&sender.send(&largest).user_info), [largest]);
    let oversized = vec![1; MAX_MSG_SIZE + 1];
    assert!(messages(&sender.send(&oversized).user_info).is_empty());
}

#[test]
fn missing_dictionary_is_an_empty_message() {
    assert_eq!(messages(&UserInfo::Absent), [Vec::<u8>::new()]);
}

#[test]
fn foreign_objects_are_ignored() {
    assert!(messages(&UserInfo::Foreign).is_empty());
    assert!(messages(&UserInfo::Dictionary(vec![])).is_empty());
    let entries = vec![entry("sys-broadcaster", data(b"x")), entry("", data(b"y"))];
    assert!(messages(&UserInfo::Dictionary(entries)).is_empty());
    let entries = vec![entry(SENDER_KEY_NAME, Value::Other)];
    assert!(messages(&UserInfo::Dictionary(entries)).is_empty());
}

#[test]
fn own_entry_counts_wherever_it_stands() {
    let entries = vec![
        entry("before", Value::Other),
        entry(SENDER_KEY_NAME, data(b"payload")),
        entry("after", data(b"other")),
    ];
    assert_eq!(messages(&UserInfo::Dictionary(entries)), [b"payload".to_vec()]);
}

#[test]
fn only_small_values_under_the_key_are_wanted() {
    assert!(is_wanted(SENDER_KEY_NAME, 0));
    assert!(is_wanted(SENDER_KEY_NAME, MAX_MSG_SIZE));
    assert!(!is_wanted(SENDER_KEY_NAME, MAX_MSG_SIZE + 1));
    assert!(!is_wanted("sys-broadcaster", 1));
}

#[test]
fn first_bad_entry_under_the_key_stops_the_search() {
    let entries = vec![
        entry(SENDER_KEY_NAME, data(b"1")),
        entry("other", Value::Other),
        entry(SENDER_KEY_NAME, data(b"2")),
        entry(SENDER_KEY_NAME, data(&vec![0; MAX_MSG_SIZE + 1])),
        entry(SENDER_KEY_NAME, data(b"3")),
    ];
    assert_eq!(messages(&UserInfo::Dictionary(entries)), [b"1".to_vec(), b"2".to_vec()]);
}

#[test]
fn full_queue_drops_notifications() {
    let mut listener = Listener::create("full").unwrap();
    let mut sender = Sender::create("full").unwrap();
    assert_eq!(listener.sender.max_capacity(), 10);
    for i in 0..MSG_LIMIT as u8 {
        let post = sender.send(&[i]);
        let deliveries = notification_callback(&mut listener.sender, &post.user_info);
        assert_eq!(deliveries, [Delivery::Queued]);
    }
    let deliveries = notification_callback(&mut listener.sender, &UserInfo::Absent);
    assert_eq!(deliveries, [Delivery::Full]);

    for i in 0..MSG_LIMIT as u8 {
        assert_eq!(listener.listen().try_recv().unwrap(), [i]);
    }
    assert!(listener.listen().try_recv().is_err());
    let deliveries = notification_callback(&mut listener.sender, &UserInfo::Absent);
    assert_eq!(deliveries, [Delivery::Queued]);
}

#[test]
fn what_arrives_is_some_of_what_was_posted_in_order() {
    let mut listener = Listener::create("history").unwrap();
    let mut sender = Sender::create("history").unwrap();
    let mut posted: Vec<Vec<u8>> = (0..14).map(|i| vec![i; 3]).collect();
    posted.insert(2, vec![0; MAX_MSG_SIZE + 1]);
    let mut answers = Vec::new();
    for content in &posted {
        let post = sender.send(content);
        answers.extend(notification_callback(&mut listener.sender, &post.user_info));
    }
    let mut expected = vec![Delivery::Queued; 10];
    expected.extend([Delivery::Full; 4]);
    assert_eq!(answers, expected);
    for i in 0..10 {
        assert_eq!(listener.listen().try_recv().unwrap(), [i; 3]);
    }
    assert!(listener.listen().try_recv().is_err());
}

#[test]
fn closed_queue_drops_notifications() {
    let mut listener = Listener::create("closed").unwrap();
    listener.listen().close();
    let deliveries = notification_callback(&mut listener.sender, &UserInfo::Absent);
    assert_eq!(deliveries, [Delivery::Closed]);
}

#[test]
fn notification_without_message_leaves_the_queue_alone() {
    let mut listener = Listener::create("quiet").unwrap();
    assert!(notification_callback(&mut listener.sender, &UserInfo::Foreign).is_empty());
    assert!(listener.listen().try_recv().is_err());
}
