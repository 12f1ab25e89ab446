use veddb_core::pubsub::{PubSubConfig, PubSubError, PubSubSystem};

#[test]
fn test_basic_pubsub() {
    let mut pubsub = PubSubSystem::new(PubSubConfig::default());
    pubsub.subscribe(1, "test-channel").unwrap();
    let delivered = pubsub.publish("test-channel", b"hello world".to_vec()).unwrap();
    assert_eq!(delivered, 1);
    let subscriber = pubsub.get_subscriber_mut(1).unwrap();
    let message = subscriber.get_next_message().unwrap();
    assert_eq!(message.channel, "test-channel");
    assert_eq!(message.payload, b"hello world");
}

#[test]
fn test_pattern_subscriptions() {
    let mut pubsub = PubSubSystem::new(PubSubConfig::default());
    pubsub.psubscribe(1, "events.*").unwrap();
    assert_eq!(pubsub.publish("events.user", b"user event".to_vec()).unwrap(), 1);
    assert_eq!(pubsub.publish("events.order", b"order event".to_vec()).unwrap(), 1);
    assert_eq!(pubsub.publish("notifications.email", b"email notification".to_vec()).unwrap(), 0);

    let subscriber = pubsub.get_subscriber_mut(1).unwrap();
    let msg1 = subscriber.get_next_message().unwrap();
    assert_eq!(msg1.channel, "events.user");
    assert_eq!(msg1.payload, b"user event");
    let msg2 = subscriber.get_next_message().unwrap();
    assert_eq!(msg2.channel, "events.order");
    assert_eq!(msg2.payload, b"order event");
    assert!(subscriber.get_next_message().is_none());
}

#[test]
fn test_wildcard_patterns() {
    let mut pubsub = PubSubSystem::new(PubSubConfig::default());
    pubsub.psubscribe(1, "user.*").unwrap();
    pubsub.psubscribe(2, "*.created").unwrap();
    pubsub.psubscribe(3, "order.*.status").unwrap();

    pubsub.publish("user.login", b"login".to_vec()).unwrap();
    pubsub.publish("user.logout", b"logout".to_vec()).unwrap();
    pubsub.publish("admin.login", b"admin".to_vec()).unwrap();
    pubsub.publish("user.created", b"user created".to_vec()).unwrap();
    pubsub.publish("order.created", b"order created".to_vec()).unwrap();
    pubsub.publish("user.updated", b"user updated".to_vec()).unwrap();
    pubsub.publish("order.123.status", b"pending".to_vec()).unwrap();
    pubsub.publish("order.456.status", b"completed".to_vec()).unwrap();
    pubsub.publish("order.status", b"invalid".to_vec()).unwrap();

    let sub1 = pubsub.get_subscriber_mut(1).unwrap();
    assert_eq!(sub1.get_next_message().unwrap().channel, "user.login");
    assert_eq!(sub1.get_next_message().unwrap().channel, "user.logout");
    assert_eq!(sub1.get_next_message().unwrap().channel, "user.created");
    assert_eq!(sub1.get_next_message().unwrap().channel, "user.updated");
    assert!(sub1.get_next_message().is_none());

    let sub2 = pubsub.get_subscriber_mut(2).unwrap();
    assert_eq!(sub2.get_next_message().unwrap().channel, "user.created");
    assert_eq!(sub2.get_next_message().unwrap().channel, "order.created");
    assert!(sub2.get_next_message().is_none());

    let sub3 = pubsub.get_subscriber_mut(3).unwrap();
    assert_eq!(sub3.get_next_message().unwrap().channel, "order.123.status");
    assert_eq!(sub3.get_next_message().unwrap().channel, "order.456.status");
    assert!(sub3.get_next_message().is_none());
}

#[test]
fn test_multiple_subscribers() {
    let mut pubsub = PubSubSystem::new(PubSubConfig::default());
    pubsub.subscribe(1, "broadcast").unwrap();
    pubsub.subscribe(2, "broadcast").unwrap();
    pubsub.subscribe(3, "broadcast").unwrap();
    let delivered = pubsub.publish("broadcast", b"message to all".to_vec()).unwrap();
    assert_eq!(delivered, 3);
    for subscriber_id in [1, 2, 3] {
        let subscriber = pubsub.get_subscriber_mut(subscriber_id).unwrap();
        let message = subscriber.get_next_message().unwrap();
        assert_eq!(message.channel, "broadcast");
        assert_eq!(message.payload, b"message to all");
    }
}

#[test]
fn test_queue_overflow() {
    let mut config = PubSubConfig::default();
    config.default_buffer_size = 2;
    let mut pubsub = PubSubSystem::new(config);
    pubsub.subscribe(1, "overflow-test").unwrap();
    pubsub.publish("overflow-test", b"msg1".to_vec()).unwrap();
    pubsub.publish("overflow-test", b"msg2".to_vec()).unwrap();
    pubsub.publish("overflow-test", b"msg3".to_vec()).unwrap();

    let subscriber = pubsub.get_subscriber_mut(1).unwrap();
    assert_eq!(subscriber.get_next_message().unwrap().payload, b"msg2");
    assert_eq!(subscriber.get_next_message().unwrap().payload, b"msg3");
    assert!(subscriber.get_next_message().is_none());
}

#[test]
fn test_unsubscribe() {
    let mut pubsub = PubSubSystem::new(PubSubConfig::default());
    pubsub.subscribe(1, "temp-channel").unwrap();
    assert_eq!(pubsub.publish("temp-channel", b"before unsubscribe".to_vec()).unwrap(), 1);
    assert!(pubsub.unsubscribe(1, "temp-channel").unwrap());
    assert_eq!(pubsub.publish("temp-channel", b"after unsubscribe".to_vec()).unwrap(), 0);
}

#[test]
fn test_pattern_unsubscribe() {
    let mut pubsub = PubSubSystem::new(PubSubConfig::default());
    pubsub.psubscribe(1, "test.*").unwrap();
    assert_eq!(pubsub.publish("test.channel", b"before unsubscribe".to_vec()).unwrap(), 1);
    assert!(pubsub.punsubscribe(1, "test.*").unwrap());
    assert_eq!(pubsub.publish("test.channel", b"after unsubscribe".to_vec()).unwrap(), 0);
}

#[test]
fn test_message_size_limit() {
    let mut config = PubSubConfig::default();
    config.max_message_size = 100;
    let mut pubsub = PubSubSystem::new(config);
    pubsub.subscribe(1, "size-test").unwrap();
    assert!(pubsub.publish("size-test", vec![b'a'; 50]).is_ok());
    assert_eq!(pubsub.publish("size-test", vec![b'b'; 200]).unwrap_err(), PubSubError::MessageTooLarge);
}

#[test]
fn tests_test_statistics() {
    let mut pubsub = PubSubSystem::new(PubSubConfig::default());
    let stats1 = pubsub.get_stats();
    assert_eq!(stats1.total_channels, 0);
    assert_eq!(stats1.total_subscribers, 0);

    pubsub.subscribe(1, "channel1").unwrap();
    pubsub.subscribe(2, "channel2").unwrap();
    pubsub.psubscribe(3, "pattern.*").unwrap();

    pubsub.publish("channel1", b"msg1".to_vec()).unwrap();
    pubsub.publish("channel2", b"msg2".to_vec()).unwrap();
    pubsub.publish("pattern.test", b"msg3".to_vec()).unwrap();

    let stats2 = pubsub.get_stats();
    assert_eq!(stats2.total_channels, 2);
    assert_eq!(stats2.total_subscribers, 3);
    assert_eq!(stats2.total_messages_published, 3);
    assert_eq!(stats2.total_messages_delivered, 3);
}

#[test]
fn removing_a_subscriber_clears_it_everywhere() {
    let mut pubsub = PubSubSystem::new(PubSubConfig::default());
    pubsub.subscribe(1, "a").unwrap();
    pubsub.subscribe(2, "a").unwrap();
    pubsub.psubscribe(1, "*").unwrap();
    assert_eq!(pubsub.publish("a", b"x".to_vec()).unwrap(), 3);
    pubsub.remove_subscriber(1).unwrap();
    assert!(pubsub.get_subscriber(1).is_none());
    assert_eq!(pubsub.publish("a", b"y".to_vec()).unwrap(), 1);
    let stats = pubsub.get_channel_stats("a").unwrap();
    assert_eq!(stats.subscriber_count, 1);
    assert_eq!(stats.message_count, 2);
    assert_eq!(pubsub.list_channels(), vec!["a".to_string()]);
    assert!(pubsub.get_channel_stats("b").is_none());
}

#[test]
fn bracket_pattern_is_literal() {
    let mut pubsub = PubSubSystem::new(PubSubConfig::default());
    pubsub.psubscribe(7, "[a]").unwrap();
    assert!(pubsub.get_subscriber(7).is_some());
    assert_eq!(pubsub.publish("[a]", b"x".to_vec()).unwrap(), 1);
    assert_eq!(pubsub.publish("a", b"y".to_vec()).unwrap(), 0);
    assert!(pubsub.punsubscribe(7, "[a]").unwrap());
    assert!(!pubsub.unsubscribe(7, "nowhere").unwrap());
}

#[test]
fn pubsub_error_messages() {
    assert_eq!(PubSubError::ChannelNotFound.message(), "Channel not found");
    assert_eq!(PubSubError::MessageTooLarge.message(), "Message exceeds maximum size");
    assert_eq!(PubSubError::SystemError("disk".to_string()).message(), "System error: disk");
}
