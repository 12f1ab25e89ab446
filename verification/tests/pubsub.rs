use veddb_core::pubsub::subscriber::{SubscriberEntry, SubscriberList};
use veddb_core::pubsub::{glob_to_regex, Message, PatternSubscription, PubSubConfig, PubSubError, Subscriber};

#[test]
fn test_subscriber_list() {
    let size = SubscriberList::size_for_max_subscribers(10);
    assert_eq!(size, 16 + 10 * 24);
    let mut list_ref = SubscriberList::init(10);

    assert!(list_ref.add_subscriber(1).is_ok());
    assert!(list_ref.add_subscriber(2).is_ok());
    assert_eq!(list_ref.count(), 2);

    assert_eq!(list_ref.get_read_index(1).unwrap(), 0);
    assert_eq!(list_ref.get_read_index(2).unwrap(), 0);

    assert_eq!(list_ref.advance_read_index(1).unwrap(), 1);
    assert_eq!(list_ref.get_read_index(1).unwrap(), 1);

    assert!(list_ref.remove_subscriber(1).unwrap());
    assert_eq!(list_ref.count(), 1);
    assert!(list_ref.get_read_index(1).is_err());

    list_ref.set_read_index(2, 5).unwrap();
    assert_eq!(list_ref.min_read_index(), 5);
}

#[test]
fn test_subscriber_list_capacity() {
    let mut list_ref = SubscriberList::init(2);

    assert!(list_ref.add_subscriber(1).is_ok());
    assert!(list_ref.add_subscriber(2).is_ok());

    assert_eq!(list_ref.add_subscriber(3), Err(PubSubError::TooManySubscribers));

    list_ref.remove_subscriber(1).unwrap();
    assert!(list_ref.add_subscriber(3).is_ok());
}

#[test]
fn subscriber_list_edge_cases() {
    let mut list = SubscriberList::init(3);
    assert_eq!(list.add_subscriber(0), Err(PubSubError::InvalidSubscriber));
    assert!(list.add_subscriber(7).is_ok());
    assert!(list.add_subscriber(7).is_ok());
    assert_eq!(list.count(), 1);
    assert_eq!(list.remove_subscriber(9), Ok(false));
    assert_eq!(list.min_read_index(), 0);
    assert_eq!(list.max_count(), 3);
    assert!(SubscriberEntry::new().is_empty());
}

#[test]
fn subscriber_queue_drops_oldest() {
    let mut sub = Subscriber::new(4, 2);
    for i in 0..3u64 {
        let m = Message::new("ch".to_string(), vec![i as u8], 0, i);
        assert!(sub.deliver_message(m).is_ok());
    }
    assert_eq!(sub.queue_len(), 2);
    let stats = sub.stats();
    assert_eq!(stats.messages_received, 3);
    assert_eq!(stats.messages_dropped, 1);
    assert_eq!(sub.get_next_message().unwrap().id, 1);
    assert_eq!(sub.get_next_message().unwrap().id, 2);
    assert!(sub.get_next_message().is_none());
}

#[test]
fn glob_patterns() {
    assert_eq!(glob_to_regex("news.*"), "^news\\..*$");
    assert_eq!(glob_to_regex("user:?"), "^user:.$");
    let sub = PatternSubscription::new(1, "news.*").unwrap();
    assert!(sub.matches("news.sports"));
    assert!(!sub.matches("weather"));
    let single = PatternSubscription::new(1, "a?c").unwrap();
    assert!(single.matches("abc"));
    assert!(!single.matches("abbc"));
    let dotted = PatternSubscription::new(3, "order.*.status").unwrap();
    assert!(dotted.matches("order.123.status"));
    assert!(!dotted.matches("order.status"));
    assert!(!dotted.matches("orderXYstatus"));
    let bracket = PatternSubscription::new(2, "[x]+").unwrap();
    assert!(bracket.matches("[x]+"));
    assert!(!bracket.matches("x"));
}

#[test]
fn pubsub_config_defaults() {
    let c = PubSubConfig::default();
    assert_eq!(c.max_message_size, 1024 * 1024);
    assert_eq!(c.default_buffer_size, 1000);
    assert_eq!(c.max_channels, 10000);
    assert_eq!(c.max_subscribers, 100000);
}

#[test]
fn removing_id_zero_changes_nothing() {
    let mut list = SubscriberList::init(10);
    assert_eq!(list.remove_subscriber(0), Ok(false));
    assert_eq!(list.count(), 0);
    list.add_subscriber(5).unwrap();
    assert_eq!(list.remove_subscriber(0), Ok(false));
    assert_eq!(list.count(), 1);
    assert_eq!(list.remove_subscriber(5), Ok(true));
    assert_eq!(list.count(), 0);
}
