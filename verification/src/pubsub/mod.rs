//! Publish/subscribe messaging: messages, per-subscriber queues that drop
//! their oldest message when full, wildcard channel patterns, and the
//! configuration and statistics records.
pub mod subscriber;
pub mod system;

pub use system::{Channel, PubSubSystem};

use vstd::prelude::*;
use vstd::string::{StringExecFns, StrSliceExecFns};
use crate::regex_match::{regex_outcome, regex_is_match};

verus! {

/// Identifies a subscriber.
pub type SubscriberId = u64;

/// A published message.
#[derive(Debug, Clone)]
pub struct Message {
    pub channel: String,
    pub payload: Vec<u8>,
    /// Milliseconds since the Unix epoch at publication.
    pub timestamp: u64,
    pub id: u64,
}

/// A message as plain values.
pub struct MessageView {
    pub channel: Seq<char>,
    pub payload: Seq<u8>,
    pub timestamp: u64,
    pub id: u64,
}

impl View for Message {
    type V = MessageView;

    open spec fn view(&self) -> MessageView {
        MessageView { channel: self.channel@, payload: self.payload@, timestamp: self.timestamp, id: self.id }
    }
}

impl Message {
    /// A copy of this message.
    pub fn copy(&self) -> (r: Message)
        ensures
            r@ == self@,
    {
        let payload = self.payload.clone();
        proof {
            assert(payload@ =~= self.payload@);
        }
        Message { channel: self.channel.clone(), payload, timestamp: self.timestamp, id: self.id }
    }

    /// A message on `channel` carrying `payload`, stamped with the given
    /// publication time and identifier.
    pub fn new(channel: String, payload: Vec<u8>, timestamp: u64, id: u64) -> (m: Message)
        ensures
            m@ == (MessageView { channel: channel@, payload: payload@, timestamp, id }),
    {
        Message { channel, payload, timestamp, id }
    }
}

/// Errors of the publish/subscribe system.
#[derive(Debug, Clone, PartialEq, Eq)]
pub enum PubSubError {
    ChannelNotFound,
    SubscriberNotFound,
    MessageTooLarge,
    InvalidPattern,
    QueueFull,
    InvalidSubscriber,
    TooManySubscribers,
    SystemError(String),
}

/// The text that describes an error.
pub open spec fn error_text(e: PubSubError) -> Seq<char> {
    match e {
        PubSubError::ChannelNotFound => "Channel not found"@,
        PubSubError::SubscriberNotFound => "Subscriber not found"@,
        PubSubError::MessageTooLarge => "Message exceeds maximum size"@,
        PubSubError::InvalidPattern => "Invalid pattern syntax"@,
        PubSubError::QueueFull => "Subscriber queue is full"@,
        PubSubError::InvalidSubscriber => "Invalid subscriber"@,
        PubSubError::TooManySubscribers => "Too many subscribers"@,
        PubSubError::SystemError(m) => "System error: "@ + m@,
    }
}

impl PubSubError {
    /// The text that describes this error.
    pub fn message(&self) -> (r: String)
        ensures
            r@ == error_text(*self),
    {
        match self {
            PubSubError::ChannelNotFound => String::from_str("Channel not found"),
            PubSubError::SubscriberNotFound => String::from_str("Subscriber not found"),
            PubSubError::MessageTooLarge => String::from_str("Message exceeds maximum size"),
            PubSubError::InvalidPattern => String::from_str("Invalid pattern syntax"),
            PubSubError::QueueFull => String::from_str("Subscriber queue is full"),
            PubSubError::InvalidSubscriber => String::from_str("Invalid subscriber"),
            PubSubError::TooManySubscribers => String::from_str("Too many subscribers"),
            PubSubError::SystemError(m) => crate::util::concat_str("System error: ", m.as_str()),
        }
    }
}

/// Configuration of the publish/subscribe system.
#[derive(Debug, Clone)]
pub struct PubSubConfig {
    /// Largest payload accepted, in bytes.
    pub max_message_size: usize,
    /// Queue length of a new subscriber.
    pub default_buffer_size: usize,
    pub max_channels: usize,
    pub max_subscribers: usize,
}

impl Default for PubSubConfig {
    fn default() -> (c: PubSubConfig)
        ensures
            c.max_message_size == 1024 * 1024,
            c.default_buffer_size == 1000,
            c.max_channels == 10000,
            c.max_subscribers == 100000,
    {
        PubSubConfig {
            max_message_size: 1024 * 1024,
            default_buffer_size: 1000,
            max_channels: 10000,
            max_subscribers: 100000,
        }
    }
}

/// Running totals of the publish/subscribe system.
#[derive(Debug, Clone)]
pub struct PubSubStats {
    pub total_channels: u64,
    pub total_subscribers: u64,
    pub total_messages_published: u64,
    pub total_messages_delivered: u64,
    pub total_messages_dropped: u64,
}

impl Default for PubSubStats {
    fn default() -> (s: PubSubStats)
        ensures
            s.total_channels == 0,
            s.total_subscribers == 0,
            s.total_messages_published == 0,
            s.total_messages_delivered == 0,
            s.total_messages_dropped == 0,
    {
        PubSubStats {
            total_channels: 0,
            total_subscribers: 0,
            total_messages_published: 0,
            total_messages_delivered: 0,
            total_messages_dropped: 0,
        }
    }
}

/// A copy of the system totals.
#[derive(Debug, Clone)]
pub struct PubSubStatsSnapshot {
    pub total_channels: u64,
    pub total_subscribers: u64,
    pub total_messages_published: u64,
    pub total_messages_delivered: u64,
    pub total_messages_dropped: u64,
}

/// Totals of one channel.
#[derive(Debug, Clone)]
pub struct ChannelStats {
    pub name: String,
    pub subscriber_count: u64,
    pub message_count: u64,
}

/// Totals of one subscriber.
#[derive(Debug, Clone)]
pub struct SubscriberStats {
    pub id: SubscriberId,
    pub messages_received: u64,
    pub messages_dropped: u64,
}

/// A queue after a delivery: the oldest message goes when the queue
/// already holds `max` or more, then the new message is appended.
pub open spec fn delivered(q: Seq<MessageView>, max: usize, m: MessageView) -> Seq<MessageView> {
    if q.len() >= max && q.len() > 0 {
        q.drop_first().push(m)
    } else {
        q.push(m)
    }
}

/// What a subscriber holds, as plain values.
pub struct SubscriberState {
    pub id: SubscriberId,
    pub limit: usize,
    pub queue: Seq<MessageView>,
    pub received: u64,
    pub dropped: u64,
}

/// A subscriber after one delivery of `m`.
pub open spec fn deliver_once(s: SubscriberState, m: MessageView) -> SubscriberState {
    SubscriberState {
        queue: delivered(s.queue, s.limit, m),
        received: s.received.wrapping_add(1),
        dropped: if s.queue.len() >= s.limit { s.dropped.wrapping_add(1) } else { s.dropped },
        ..s
    }
}

/// A subscriber after `n` deliveries of `m`.
pub open spec fn deliver_times(s: SubscriberState, m: MessageView, n: nat) -> SubscriberState
    decreases n,
{
    if n == 0 { s } else { deliver_once(deliver_times(s, m, (n - 1) as nat), m) }
}

/// A subscriber's message queue with its counters.
pub struct Subscriber {
    pub id: SubscriberId,
    queue: Vec<Message>,
    max_queue_size: usize,
    messages_received: u64,
    messages_dropped: u64,
}

impl View for Subscriber {
    type V = SubscriberState;

    closed spec fn view(&self) -> SubscriberState {
        SubscriberState {
            id: self.id,
            limit: self.max_queue_size,
            queue: self.queue@.map_values(|m: Message| m@),
            received: self.messages_received,
            dropped: self.messages_dropped,
        }
    }
}

impl Subscriber {
    /// The queued messages, oldest first.
    pub closed spec fn queued(&self) -> Seq<MessageView> {
        self.queue@.map_values(|m: Message| m@)
    }

    /// The queue length at which delivery drops the oldest message.
    pub closed spec fn limit(&self) -> usize {
        self.max_queue_size
    }

    pub closed spec fn ident(&self) -> SubscriberId {
        self.id
    }

    pub closed spec fn received(&self) -> u64 {
        self.messages_received
    }

    pub closed spec fn dropped(&self) -> u64 {
        self.messages_dropped
    }

    /// A subscriber with an empty queue of the given length limit.
    pub fn new(id: SubscriberId, max_queue_size: usize) -> (s: Subscriber)
        ensures
            s.ident() == id,
            s.queued() == Seq::<MessageView>::empty(),
            s.limit() == max_queue_size,
            s.received() == 0,
            s.dropped() == 0,
    {
        Subscriber { id, queue: Vec::new(), max_queue_size, messages_received: 0, messages_dropped: 0 }
    }

    /// Queues `message`, first dropping the oldest one when the queue is at
    /// its limit. The counters wrap at the top of their range.
    pub fn deliver_message(&mut self, message: Message) -> (r: Result<(), PubSubError>)
        ensures
            r is Ok,
            final(self)@ == deliver_once(old(self)@, message@),
            final(self).queued() == delivered(old(self).queued(), old(self).limit(), message@),
            final(self).dropped() == if old(self).queued().len() >= old(self).limit() {
                old(self).dropped().wrapping_add(1)
            } else {
                old(self).dropped()
            },
            final(self).received() == old(self).received().wrapping_add(1),
            final(self).limit() == old(self).limit(),
            final(self).ident() == old(self).ident(),
    {
        if self.queue.len() >= self.max_queue_size {
            if self.queue.len() > 0 {
                let _oldest = self.queue.remove(0);
            }
            self.messages_dropped = self.messages_dropped.wrapping_add(1);
        }
        let ghost q = self.queue@;
        self.queue.push(message);
        self.messages_received = self.messages_received.wrapping_add(1);
        proof {
            assert(old(self).queue@.len() >= old(self).max_queue_size && old(self).queue@.len() > 0
                ==> q =~= old(self).queue@.drop_first());
            assert(self.queued() =~= delivered(old(self).queued(), old(self).limit(), message@));
        }
        Ok(())
    }

    /// Takes the oldest queued message.
    pub fn get_next_message(&mut self) -> (r: Option<Message>)
        ensures
            old(self).queued().len() == 0 ==> r is None && final(self).queued() == old(self).queued(),
            old(self).queued().len() > 0 ==> r is Some && r->0@ == old(self).queued()[0]
                && final(self).queued() == old(self).queued().drop_first(),
            final(self).limit() == old(self).limit(),
            final(self).received() == old(self).received(),
            final(self).dropped() == old(self).dropped(),
            final(self).ident() == old(self).ident(),
    {
        if self.queue.len() == 0 {
            None
        } else {
            let m = self.queue.remove(0);
            proof {
                assert(self.queue@ =~= old(self).queue@.drop_first());
                assert(self.queued() =~= old(self).queued().drop_first());
            }
            Some(m)
        }
    }

    pub fn queue_len(&self) -> (r: usize)
        ensures
            r == self.queued().len(),
    {
        self.queue.len()
    }

    pub fn stats(&self) -> (s: SubscriberStats)
        ensures
            s.id == self.ident(),
            s.messages_received == self.received(),
            s.messages_dropped == self.dropped(),
    {
        SubscriberStats {
            id: self.id,
            messages_received: self.messages_received,
            messages_dropped: self.messages_dropped,
        }
    }
}

/// A delivery never leaves more than `max` messages queued when the queue
/// held at most `max` before and `max` is positive.
pub proof fn lemma_delivery_bounded(q: Seq<MessageView>, max: usize, m: MessageView)
    requires
        q.len() <= max,
        max > 0,
    ensures
        delivered(q, max, m).len() <= max,
        delivered(q, max, m).last() == m,
{
}

/// The characters that have a meaning of their own in a regular
/// expression of the `regex` crate.
pub open spec fn is_regex_meta(c: char) -> bool {
    c == '\\' || c == '.' || c == '+' || c == '*' || c == '?' || c == '(' || c == ')' || c == '|'
        || c == '[' || c == ']' || c == '{' || c == '}' || c == '^' || c == '$' || c == '#'
        || c == '&' || c == '-' || c == '~'
}

/// The regular-expression text for one character of a wildcard pattern:
/// `*` matches any run of characters and `?` any one character; every
/// other character stands for itself, escaped where the regular-expression
/// syntax would read it otherwise.
pub open spec fn glob_char_regex(c: char) -> Seq<char> {
    if c == '*' {
        seq!['.', '*']
    } else if c == '?' {
        seq!['.']
    } else if is_regex_meta(c) {
        seq!['\\', c]
    } else {
        seq![c]
    }
}

/// Whether `c` has a meaning of its own in a regular expression.
fn regex_meta(c: char) -> (r: bool)
    ensures
        r == is_regex_meta(c),
{
    c == '\\' || c == '.' || c == '+' || c == '*' || c == '?' || c == '(' || c == ')' || c == '|'
        || c == '[' || c == ']' || c == '{' || c == '}' || c == '^' || c == '$' || c == '#'
        || c == '&' || c == '-' || c == '~'
}

/// The regular-expression text for a run of wildcard-pattern characters.
pub open spec fn glob_body(p: Seq<char>) -> Seq<char>
    decreases p.len(),
{
    if p.len() == 0 {
        Seq::empty()
    } else {
        glob_body(p.drop_last()) + glob_char_regex(p.last())
    }
}

/// The anchored regular expression for a wildcard pattern.
pub open spec fn glob_regex(p: Seq<char>) -> Seq<char> {
    seq!['^'] + glob_body(p) + seq!['$']
}

/// Translates a wildcard pattern into an anchored regular expression.
pub fn glob_to_regex(pattern: &str) -> (r: String)
    ensures
        r@ == glob_regex(pattern@),
{
    let n = pattern.unicode_len();
    let mut out = String::from_str("^");
    proof { reveal_strlit("^"); }
    let mut i: usize = 0;
    while i < n
        invariant
            n == pattern@.len(),
            i <= n,
            out@ == seq!['^'] + glob_body(pattern@.take(i as int)),
        decreases n - i,
    {
        let c = pattern.get_char(i);
        proof {
            assert(pattern@.take(i + 1).drop_last() =~= pattern@.take(i as int));
            reveal_strlit(".*");
            reveal_strlit(".");
        }
        if c == '*' {
            out.append(".*");
        } else if c == '?' {
            out.append(".");
        } else {
            let one = pattern.substring_char(i, i + 1);
            proof { assert(one@ =~= seq![c]); }
            if regex_meta(c) {
                proof { reveal_strlit("\\"); }
                out.append("\\");
            }
            out.append(one);
        }
        i = i + 1;
        proof {
            assert(out@ =~= seq!['^'] + glob_body(pattern@.take(i as int)));
        }
    }
    proof {
        assert(pattern@.take(n as int) =~= pattern@);
        reveal_strlit("$");
    }
    out.append("$");
    out
}

/// A subscription to every channel whose name matches a wildcard pattern.
#[derive(Debug, Clone)]
pub struct PatternSubscription {
    pub subscriber_id: SubscriberId,
    /// The anchored regular expression the pattern translates to.
    pub pattern: String,
    /// The wildcard pattern as given.
    pub pattern_str: String,
}

impl PatternSubscription {
    /// A copy of this subscription.
    pub fn copy(&self) -> (r: PatternSubscription)
        ensures
            r == *self,
    {
        PatternSubscription {
            subscriber_id: self.subscriber_id,
            pattern: self.pattern.clone(),
            pattern_str: self.pattern_str.clone(),
        }
    }

    /// Translates `pattern` and checks that the result compiles; an
    /// expression the regular-expression engine refuses gives `InvalidPattern`.
    pub fn new(subscriber_id: SubscriberId, pattern: &str) -> (r: Result<PatternSubscription, PubSubError>)
        ensures
            match r {
                Ok(s) => {
                    &&& s.subscriber_id == subscriber_id
                    &&& s.pattern@ == glob_regex(pattern@)
                    &&& s.pattern_str@ == pattern@
                    &&& regex_outcome(glob_regex(pattern@), Seq::empty()) is Ok
                },
                Err(e) => e == PubSubError::InvalidPattern
                    && regex_outcome(glob_regex(pattern@), Seq::empty()) is Err,
            },
    {
        let regex = glob_to_regex(pattern);
        let empty = "";
        proof {
            reveal_strlit("");
            assert(empty@ =~= Seq::<char>::empty());
        }
        match regex_is_match(regex.as_str(), empty) {
            Ok(_) => Ok(PatternSubscription {
                subscriber_id,
                pattern: regex,
                pattern_str: pattern.to_owned(),
            }),
            Err(_) => Err(PubSubError::InvalidPattern),
        }
    }

    /// Whether `channel` matches the pattern.
    pub fn matches(&self, channel: &str) -> (r: bool)
        ensures
            r == (regex_outcome(self.pattern@, channel@) == Ok::<bool, Seq<char>>(true)),
    {
        match regex_is_match(self.pattern.as_str(), channel) {
            Ok(b) => b,
            Err(_) => false,
        }
    }
}

} // verus!
