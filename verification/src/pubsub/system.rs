//! The publish/subscribe system: named channels with their subscribers,
//! wildcard-pattern subscriptions, and delivery into per-subscriber queues.
//!
//! Publishing to a channel delivers one message to each subscriber of the
//! channel, then another message to the owner of each pattern subscription
//! that matches the channel's name, once per matching pattern. Message
//! identifiers come from a counter of the system.
use vstd::prelude::*;
use crate::regex_match::regex_outcome;
use crate::util::{copy_string, str_eq};
use crate::clock::unix_millis;
use crate::util::{first_index, lemma_first_index};
use super::{
    ChannelStats, Message, MessageView, PatternSubscription, PubSubConfig, PubSubError, PubSubStatsSnapshot,
    Subscriber, SubscriberId, SubscriberState, deliver_once, deliver_times,
};

verus! {

proof fn lemma_first_index_prefix<T>(s: Seq<T>, x: T, i: int)
    requires
        0 <= i < s.len(),
        !s.take(i).contains(x),
        s[i] == x,
    ensures
        first_index(s, x) == Some(i),
    decreases s.len(),
{
    if i < s.len() - 1 {
        assert(s.drop_last().take(i) =~= s.take(i));
        lemma_first_index_prefix(s.drop_last(), x, i);
    } else {
        assert(s.drop_last() =~= s.take(i));
        lemma_first_index(s.drop_last(), x);
    }
}

/// No value occurs twice.
pub open spec fn distinct<T>(s: Seq<T>) -> bool {
    forall|i: int, j: int| 0 <= i < j < s.len() ==> s[i] != s[j]
}

/// A channel as plain values.
pub struct ChannelState {
    pub name: Seq<char>,
    pub members: Seq<SubscriberId>,
    pub published: u64,
    pub count: u64,
}

/// A channel after `id` joins it.
pub open spec fn with_member(c: ChannelState, id: SubscriberId) -> ChannelState {
    if c.members.contains(id) {
        c
    } else {
        ChannelState { members: c.members.push(id), count: c.count.wrapping_add(1), ..c }
    }
}

/// A channel after `id` leaves it.
pub open spec fn without_member(c: ChannelState, id: SubscriberId) -> ChannelState {
    match first_index(c.members, id) {
        Some(i) => ChannelState { members: c.members.remove(i), count: c.count.wrapping_sub(1), ..c },
        None => c,
    }
}

/// A named channel and its subscribers.
#[derive(Debug)]
pub struct Channel {
    pub name: String,
    subscribers: Vec<SubscriberId>,
    message_count: u64,
    subscriber_count: u64,
}

impl View for Channel {
    type V = ChannelState;

    closed spec fn view(&self) -> ChannelState {
        ChannelState {
            name: self.name@,
            members: self.subscribers@,
            published: self.message_count,
            count: self.subscriber_count,
        }
    }
}

impl Channel {
    pub fn new(name: String) -> (c: Channel)
        ensures
            c@ == (ChannelState { name: name@, members: Seq::empty(), published: 0, count: 0 }),
    {
        Channel { name, subscribers: Vec::new(), message_count: 0, subscriber_count: 0 }
    }

    fn position(&self, id: SubscriberId) -> (r: Option<usize>)
        ensures
            match r {
                Some(i) => first_index(self@.members, id) == Some(i as int),
                None => first_index(self@.members, id) is None,
            },
    {
        let mut i: usize = 0;
        while i < self.subscribers.len()
            invariant
                i <= self.subscribers@.len(),
                !self.subscribers@.take(i as int).contains(id),
            decreases self.subscribers@.len() - i,
        {
            if self.subscribers[i] == id {
                proof { lemma_first_index_prefix(self.subscribers@, id, i as int); }
                return Some(i);
            }
            proof {
                assert forall|j: int| 0 <= j < i + 1 implies #[trigger] self.subscribers@.take(i + 1)[j] != id by {
                    if j < i {
                        assert(self.subscribers@.take(i as int)[j] == self.subscribers@.take(i + 1)[j]);
                    }
                }
            }
            i = i + 1;
        }
        proof {
            assert(self.subscribers@.take(i as int) =~= self.subscribers@);
            lemma_first_index(self.subscribers@, id);
        }
        None
    }

    /// Adds a subscriber unless it is already there.
    pub fn add_subscriber(&mut self, id: SubscriberId)
        ensures
            final(self)@ == with_member(old(self)@, id),
    {
        match self.position(id) {
            Some(_) => {
                proof { lemma_first_index(self.subscribers@, id); }
            },
            None => {
                proof { lemma_first_index(self.subscribers@, id); }
                self.subscribers.push(id);
                self.subscriber_count = self.subscriber_count.wrapping_add(1);
            },
        }
    }

    /// Removes a subscriber; returns whether it was there.
    pub fn remove_subscriber(&mut self, id: SubscriberId) -> (r: bool)
        ensures
            r == old(self)@.members.contains(id),
            final(self)@ == without_member(old(self)@, id),
    {
        proof { lemma_first_index(self.subscribers@, id); }
        match self.position(id) {
            Some(i) => {
                self.subscribers.remove(i);
                self.subscriber_count = self.subscriber_count.wrapping_sub(1);
                true
            },
            None => false,
        }
    }

    pub fn stats(&self) -> (s: ChannelStats)
        ensures
            s.name@ == self@.name,
            s.subscriber_count == self@.count,
            s.message_count == self@.published,
    {
        ChannelStats { name: self.name.clone(), subscriber_count: self.subscriber_count, message_count: self.message_count }
    }

    pub fn subscriber_count(&self) -> (r: u64)
        ensures
            r == self@.count,
    {
        self.subscriber_count
    }
}

/// The identifiers of subscribers, in order.
pub open spec fn ids_of(subs: Seq<SubscriberState>) -> Seq<SubscriberId> {
    subs.map_values(|s: SubscriberState| s.id)
}

/// The names of channels, in order.
pub open spec fn names_of(chans: Seq<ChannelState>) -> Seq<Seq<char>> {
    chans.map_values(|c: ChannelState| c.name)
}

/// Whether a pattern subscription matches a channel name.
pub open spec fn pattern_matches(p: PatternSubscription, channel: Seq<char>) -> bool {
    regex_outcome(p.pattern@, channel) == Ok::<bool, Seq<char>>(true)
}

/// How many of the subscriptions in `ps` belong to `id` and match `channel`.
pub open spec fn pattern_hits(ps: Seq<PatternSubscription>, id: SubscriberId, channel: Seq<char>) -> nat
    decreases ps.len(),
{
    if ps.len() == 0 {
        0
    } else {
        pattern_hits(ps.drop_last(), id, channel)
            + if ps.last().subscriber_id == id && pattern_matches(ps.last(), channel) { 1nat } else { 0nat }
    }
}

/// How many of the subscriptions in `ps` match `channel` and belong to one
/// of `ids`.
pub open spec fn pattern_fanout(ps: Seq<PatternSubscription>, ids: Seq<SubscriberId>, channel: Seq<char>) -> nat
    decreases ps.len(),
{
    if ps.len() == 0 {
        0
    } else {
        pattern_fanout(ps.drop_last(), ids, channel)
            + if ids.contains(ps.last().subscriber_id) && pattern_matches(ps.last(), channel) { 1nat } else { 0nat }
    }
}

/// Whether a subscription is not the one of `id` to `pattern`.
pub open spec fn kept_pattern(p: PatternSubscription, id: SubscriberId, pattern: Seq<char>) -> bool {
    !(p.subscriber_id == id && p.pattern_str@ == pattern)
}

/// The subscriptions that remain after removing `pattern` for `id`.
pub open spec fn remaining_patterns(ps: Seq<PatternSubscription>, id: SubscriberId, pattern: Seq<char>) -> Seq<PatternSubscription> {
    ps.filter(|p: PatternSubscription| kept_pattern(p, id, pattern))
}

/// The subscriptions that remain after removing every one of `id`.
pub open spec fn patterns_without(ps: Seq<PatternSubscription>, id: SubscriberId) -> Seq<PatternSubscription> {
    ps.filter(|p: PatternSubscription| p.subscriber_id != id)
}

/// The total of the subscribers' dropped counts.
pub open spec fn total_dropped(subs: Seq<SubscriberState>) -> nat
    decreases subs.len(),
{
    if subs.len() == 0 { 0 } else { total_dropped(subs.drop_last()) + subs.last().dropped as nat }
}

proof fn lemma_total_dropped_prefix(subs: Seq<SubscriberState>, n: int)
    requires
        0 <= n <= subs.len(),
    ensures
        total_dropped(subs.take(n)) <= total_dropped(subs),
    decreases subs.len(),
{
    if n < subs.len() {
        assert(subs.drop_last().take(n) =~= subs.take(n));
        lemma_total_dropped_prefix(subs.drop_last(), n);
    } else {
        assert(subs.take(n) =~= subs);
    }
}

/// A fresh subscriber's state.
pub open spec fn fresh_subscriber(id: SubscriberId, limit: usize) -> SubscriberState {
    SubscriberState { id, limit, queue: Seq::empty(), received: 0, dropped: 0 }
}

/// The subscribers after making sure `id` is one of them.
pub open spec fn with_subscriber(subs: Seq<SubscriberState>, id: SubscriberId, limit: usize) -> Seq<SubscriberState> {
    if ids_of(subs).contains(id) { subs } else { subs.push(fresh_subscriber(id, limit)) }
}

/// The channels after `id` joins the channel `name`, which is made when
/// there is none.
pub open spec fn joined(chans: Seq<ChannelState>, name: Seq<char>, id: SubscriberId) -> Seq<ChannelState> {
    match first_index(names_of(chans), name) {
        Some(i) => chans.update(i, with_member(chans[i], id)),
        None => chans.push(with_member(
            ChannelState { name, members: Seq::empty(), published: 0, count: 0 },
            id,
        )),
    }
}

/// One more channel member served: the member at `t` gets its delivery.
proof fn lemma_member_step(
    base: Seq<SubscriberState>,
    prev: Seq<SubscriberState>,
    cur: Seq<SubscriberState>,
    ids: Seq<SubscriberId>,
    members: Seq<SubscriberId>,
    t: int,
    j: int,
    m: MessageView,
)
    requires
        0 <= t < members.len(),
        distinct(members),
        distinct(ids),
        ids.len() == base.len(),
        prev.len() == base.len(),
        0 <= j < ids.len(),
        ids[j] == members[t],
        forall|k: int| 0 <= k < base.len() ==> #[trigger] prev[k] == deliver_times(
            base[k], m, if members.take(t).contains(ids[k]) { 1nat } else { 0nat }),
        cur == prev.update(j, deliver_once(prev[j], m)),
    ensures
        forall|k: int| 0 <= k < base.len() ==> #[trigger] cur[k] == deliver_times(
            base[k], m, if members.take(t + 1).contains(ids[k]) { 1nat } else { 0nat }),
{
    assert(members.take(t + 1) =~= members.take(t).push(members[t]));
    assert(!members.take(t).contains(members[t])) by {
        if members.take(t).contains(members[t]) {
            let w = choose|w: int| 0 <= w < t && #[trigger] members.take(t)[w] == members[t];
            assert(members[w] == members[t]);
        }
    }
    assert forall|k: int| 0 <= k < base.len() implies #[trigger] cur[k] == deliver_times(
        base[k], m, if members.take(t + 1).contains(ids[k]) { 1nat } else { 0nat }) by {
        if k == j {
            assert(members.take(t + 1)[t] == ids[j]);
            assert(members.take(t + 1).contains(ids[j]));
            assert(prev[j] == deliver_times(base[j], m, 0));
            assert(deliver_times(base[j], m, 0) == base[j]);
            assert(deliver_times(base[j], m, 1) == deliver_once(deliver_times(base[j], m, 0), m));
        } else {
            assert(ids[k] != ids[j]);
            assert(members.take(t + 1).contains(ids[k]) == members.take(t).contains(ids[k])) by {
                if members.take(t + 1).contains(ids[k]) {
                    let w = choose|w: int| 0 <= w < t + 1 && #[trigger] members.take(t + 1)[w] == ids[k];
                    assert(w < t);
                    assert(members.take(t)[w] == ids[k]);
                }
                if members.take(t).contains(ids[k]) {
                    let w = choose|w: int| 0 <= w < t && #[trigger] members.take(t)[w] == ids[k];
                    assert(members.take(t + 1)[w] == ids[k]);
                }
            }
        }
    }
}

/// One more pattern subscription served.
proof fn lemma_pattern_step(
    base: Seq<SubscriberState>,
    prev: Seq<SubscriberState>,
    cur: Seq<SubscriberState>,
    ids: Seq<SubscriberId>,
    ps: Seq<PatternSubscription>,
    t: int,
    channel: Seq<char>,
    m: MessageView,
)
    requires
        0 <= t < ps.len(),
        distinct(ids),
        ids.len() == base.len(),
        prev.len() == base.len(),
        forall|k: int| 0 <= k < base.len() ==> #[trigger] prev[k] == deliver_times(
            base[k], m, pattern_hits(ps.take(t), ids[k], channel)),
        pattern_matches(ps[t], channel) && ids.contains(ps[t].subscriber_id) ==> exists|j: int|
            0 <= j < ids.len() && ids[j] == ps[t].subscriber_id && cur == prev.update(j, deliver_once(prev[j], m)),
        !(pattern_matches(ps[t], channel) && ids.contains(ps[t].subscriber_id)) ==> cur == prev,
    ensures
        cur.len() == base.len(),
        forall|k: int| 0 <= k < base.len() ==> #[trigger] cur[k] == deliver_times(
            base[k], m, pattern_hits(ps.take(t + 1), ids[k], channel)),
{
    assert(ps.take(t + 1).drop_last() =~= ps.take(t));
    assert(ps.take(t + 1).last() == ps[t]);
    if pattern_matches(ps[t], channel) && ids.contains(ps[t].subscriber_id) {
        let j = choose|j: int| 0 <= j < ids.len() && #[trigger] ids[j] == ps[t].subscriber_id && cur == prev.update(j, deliver_once(prev[j], m));
        assert forall|k: int| 0 <= k < base.len() implies #[trigger] cur[k] == deliver_times(
            base[k], m, pattern_hits(ps.take(t + 1), ids[k], channel)) by {
            if k != j {
                assert(ids[k] != ids[j]);
            }
        }
    } else {
        assert forall|k: int| 0 <= k < base.len() implies #[trigger] cur[k] == deliver_times(
            base[k], m, pattern_hits(ps.take(t + 1), ids[k], channel)) by {
            if pattern_matches(ps[t], channel) && ps[t].subscriber_id == ids[k] {
                assert(ids.contains(ids[k]));
            }
        }
    }
}

/// The publish/subscribe system.
pub struct PubSubSystem {
    channels: Vec<Channel>,
    subscribers: Vec<Subscriber>,
    pattern_subscriptions: Vec<PatternSubscription>,
    config: PubSubConfig,
    total_messages_published: u64,
    total_messages_delivered: u64,
    next_message_id: u64,
}

impl PubSubSystem {
    pub closed spec fn chans(&self) -> Seq<ChannelState> {
        self.channels@.map_values(|c: Channel| c@)
    }

    pub closed spec fn subs(&self) -> Seq<SubscriberState> {
        self.subscribers@.map_values(|s: Subscriber| s@)
    }

    pub closed spec fn patterns(&self) -> Seq<PatternSubscription> {
        self.pattern_subscriptions@
    }

    pub closed spec fn cfg(&self) -> PubSubConfig {
        self.config
    }

    pub closed spec fn published(&self) -> u64 {
        self.total_messages_published
    }

    pub closed spec fn delivered_total(&self) -> u64 {
        self.total_messages_delivered
    }

    pub closed spec fn next_id(&self) -> u64 {
        self.next_message_id
    }

    /// Subscriber identifiers are distinct, and each channel's members are
    /// distinct subscribers of the system.
    pub open spec fn wf(&self) -> bool {
        &&& distinct(ids_of(self.subs()))
        &&& forall|c: int| 0 <= c < self.chans().len() ==> {
            &&& distinct(#[trigger] self.chans()[c].members)
            &&& forall|k: int| 0 <= k < self.chans()[c].members.len()
                ==> ids_of(self.subs()).contains(#[trigger] self.chans()[c].members[k])
        }
    }

    pub fn new(config: PubSubConfig) -> (r: PubSubSystem)
        ensures
            r.wf(),
            r.chans().len() == 0,
            r.subs().len() == 0,
            r.patterns().len() == 0,
            r.cfg() == config,
            r.published() == 0,
            r.delivered_total() == 0,
            r.next_id() == 1,
    {
        let r = PubSubSystem {
            channels: Vec::new(),
            subscribers: Vec::new(),
            pattern_subscriptions: Vec::new(),
            config,
            total_messages_published: 0,
            total_messages_delivered: 0,
            next_message_id: 1,
        };
        proof {
            assert(r.chans() =~= Seq::<ChannelState>::empty());
            assert(r.subs() =~= Seq::<SubscriberState>::empty());
        }
        r
    }

    fn subscriber_position(&self, id: SubscriberId) -> (r: Option<usize>)
        ensures
            match r {
                Some(i) => first_index(ids_of(self.subs()), id) == Some(i as int) && i < self.subscribers@.len(),
                None => first_index(ids_of(self.subs()), id) is None,
            },
    {
        let ghost ids = ids_of(self.subs());
        let mut i: usize = 0;
        while i < self.subscribers.len()
            invariant
                i <= self.subscribers@.len(),
                ids == ids_of(self.subs()),
                ids.len() == self.subscribers@.len(),
                !ids.take(i as int).contains(id),
            decreases self.subscribers@.len() - i,
        {
            proof { assert(ids[i as int] == self.subscribers@[i as int]@.id); }
            if self.subscribers[i].id == id {
                proof { lemma_first_index_prefix(ids, id, i as int); }
                return Some(i);
            }
            proof {
                assert forall|j: int| 0 <= j < i + 1 implies #[trigger] ids.take(i + 1)[j] != id by {
                    if j < i {
                        assert(ids.take(i as int)[j] == ids.take(i + 1)[j]);
                    }
                }
            }
            i = i + 1;
        }
        proof {
            assert(ids.take(i as int) =~= ids);
            lemma_first_index(ids, id);
        }
        None
    }

    fn channel_position(&self, name: &str) -> (r: Option<usize>)
        ensures
            match r {
                Some(i) => first_index(names_of(self.chans()), name@) == Some(i as int) && i < self.channels@.len(),
                None => first_index(names_of(self.chans()), name@) is None,
            },
    {
        let ghost names = names_of(self.chans());
        let mut i: usize = 0;
        while i < self.channels.len()
            invariant
                i <= self.channels@.len(),
                names == names_of(self.chans()),
                names.len() == self.channels@.len(),
                !names.take(i as int).contains(name@),
            decreases self.channels@.len() - i,
        {
            proof { assert(names[i as int] == self.channels@[i as int].name@); }
            if str_eq(self.channels[i].name.as_str(), name) {
                proof { lemma_first_index_prefix(names, name@, i as int); }
                return Some(i);
            }
            proof {
                assert forall|j: int| 0 <= j < i + 1 implies #[trigger] names.take(i + 1)[j] != name@ by {
                    if j < i {
                        assert(names.take(i as int)[j] == names.take(i + 1)[j]);
                    }
                }
            }
            i = i + 1;
        }
        proof {
            assert(names.take(i as int) =~= names);
            lemma_first_index(names, name@);
        }
        None
    }

    /// Makes sure a subscriber with `id` exists, with the configured queue
    /// length, and returns its position.
    fn get_or_create_subscriber(&mut self, id: SubscriberId) -> (r: usize)
        requires
            old(self).wf(),
        ensures
            final(self).wf(),
            final(self).subs() == with_subscriber(old(self).subs(), id, old(self).cfg().default_buffer_size),
            r < final(self).subs().len(),
            final(self).subs()[r as int].id == id,
            final(self).chans() == old(self).chans(),
            final(self).patterns() == old(self).patterns(),
            final(self).cfg() == old(self).cfg(),
            final(self).published() == old(self).published(),
            final(self).delivered_total() == old(self).delivered_total(),
            final(self).next_id() == old(self).next_id(),
    {
        proof { lemma_first_index(ids_of(self.subs()), id); }
        match self.subscriber_position(id) {
            Some(i) => i,
            None => {
                let ghost old_subs = self.subs();
                let s = Subscriber::new(id, self.config.default_buffer_size);
                self.subscribers.push(s);
                proof {
                    let old_ids = ids_of(old_subs);
                    assert(self.subs() =~= old_subs.push(fresh_subscriber(id, self.config.default_buffer_size)));
                    assert(ids_of(self.subs()) =~= old_ids.push(id));
                    assert(self.chans() == old(self).chans());
                    assert(!old_ids.contains(id));
                    assert forall|a: int, b: int| 0 <= a < b < old_ids.push(id).len()
                        implies old_ids.push(id)[a] != old_ids.push(id)[b] by {
                        if b == old_ids.len() {
                            assert(old_ids.push(id)[a] == old_ids[a]);
                        }
                    }
                    assert forall|c: int| 0 <= c < self.chans().len() implies {
                        &&& distinct(#[trigger] self.chans()[c].members)
                        &&& forall|k: int| 0 <= k < self.chans()[c].members.len()
                            ==> ids_of(self.subs()).contains(#[trigger] self.chans()[c].members[k])
                    } by {
                        assert(old(self).chans()[c] == self.chans()[c]);
                        assert forall|k: int| 0 <= k < self.chans()[c].members.len()
                            implies ids_of(self.subs()).contains(#[trigger] self.chans()[c].members[k]) by {
                            let x = self.chans()[c].members[k];
                            assert(old(self).chans()[c].members[k] == x);
                            assert(old_ids.contains(x));
                            let w = choose|w: int| 0 <= w < old_ids.len() && old_ids[w] == x;
                            assert(ids_of(self.subs())[w] == x);
                        }
                    }
                }
                self.subscribers.len() - 1
            },
        }
    }

    /// The subscriber with `id`.
    pub fn get_subscriber(&self, id: SubscriberId) -> (r: Option<&Subscriber>)
        ensures
            match first_index(ids_of(self.subs()), id) {
                Some(i) => r matches Some(s) && s@ == self.subs()[i],
                None => r is None,
            },
    {
        match self.subscriber_position(id) {
            Some(i) => Some(&self.subscribers[i]),
            None => None,
        }
    }

    /// The subscriber with `id`, to take messages from its queue.
    pub fn get_subscriber_mut(&mut self, id: SubscriberId) -> (r: Option<&mut Subscriber>)
        ensures
            match first_index(ids_of(old(self).subs()), id) {
                Some(i) => r matches Some(s) && (*s)@ == old(self).subs()[i]
                    && final(self).subs() == old(self).subs().update(i, (*final(s))@),
                None => r is None && final(self).subs() == old(self).subs(),
            },
            final(self).chans() == old(self).chans(),
            final(self).patterns() == old(self).patterns(),
            final(self).published() == old(self).published(),
            final(self).delivered_total() == old(self).delivered_total(),
            final(self).next_id() == old(self).next_id(),
            final(self).cfg() == old(self).cfg(),
    {
        match self.subscriber_position(id) {
            Some(i) => {
                let r = &mut self.subscribers[i];
                Some(r)
            },
            None => None,
        }
    }

    /// Subscribes `subscriber_id` to the channel `channel_name`, making the
    /// subscriber and the channel when they do not exist.
    pub fn subscribe(&mut self, subscriber_id: SubscriberId, channel_name: &str) -> (r: Result<(), PubSubError>)
        requires
            old(self).wf(),
        ensures
            r is Ok,
            final(self).wf(),
            final(self).subs() == with_subscriber(old(self).subs(), subscriber_id, old(self).cfg().default_buffer_size),
            final(self).chans() == joined(old(self).chans(), channel_name@, subscriber_id),
            final(self).patterns() == old(self).patterns(),
            final(self).published() == old(self).published(),
            final(self).delivered_total() == old(self).delivered_total(),
            final(self).next_id() == old(self).next_id(),
            final(self).cfg() == old(self).cfg(),
    {
        let _ = self.get_or_create_subscriber(subscriber_id);
        let ghost mid = self.chans();
        let ghost ids = ids_of(self.subs());
        assert(ids.contains(subscriber_id)) by {
            lemma_first_index(ids, subscriber_id);
            let w = choose|w: int| 0 <= w < ids.len() && ids[w] == subscriber_id;
        };
        match self.channel_position(channel_name) {
            Some(i) => {
                self.channels[i].add_subscriber(subscriber_id);
                proof {
                    assert(self.chans() =~= mid.update(i as int, with_member(mid[i as int], subscriber_id)));
                }
            },
            None => {
                let mut c = Channel::new(channel_name.to_owned());
                c.add_subscriber(subscriber_id);
                self.channels.push(c);
                proof {
                    assert(self.chans() =~= mid.push(with_member(
                        ChannelState { name: channel_name@, members: Seq::empty(), published: 0, count: 0 },
                        subscriber_id,
                    )));
                }
            },
        }
        proof {
            assert forall|c: int| 0 <= c < self.chans().len() implies {
                &&& distinct(#[trigger] self.chans()[c].members)
                &&& forall|k: int| 0 <= k < self.chans()[c].members.len()
                    ==> ids_of(self.subs()).contains(#[trigger] self.chans()[c].members[k])
            } by {
                if c < mid.len() && self.chans()[c] != mid[c] {
                    let m = mid[c].members;
                    if !m.contains(subscriber_id) {
                        assert forall|a: int, b: int| 0 <= a < b < m.push(subscriber_id).len()
                            implies m.push(subscriber_id)[a] != m.push(subscriber_id)[b] by {
                            if b == m.len() {
                                assert(m[a] == m.push(subscriber_id)[a]);
                            }
                        }
                    }
                }
            }
        }
        Ok(())
    }

    /// Removes `subscriber_id` from the channel `channel_name`; returns
    /// whether it was subscribed there.
    pub fn unsubscribe(&mut self, subscriber_id: SubscriberId, channel_name: &str) -> (r: Result<bool, PubSubError>)
        requires
            old(self).wf(),
        ensures
            final(self).wf(),
            match first_index(names_of(old(self).chans()), channel_name@) {
                Some(i) => r == Ok::<bool, PubSubError>(old(self).chans()[i].members.contains(subscriber_id))
                    && final(self).chans() == old(self).chans().update(i, without_member(old(self).chans()[i], subscriber_id)),
                None => r == Ok::<bool, PubSubError>(false) && final(self).chans() == old(self).chans(),
            },
            final(self).subs() == old(self).subs(),
            final(self).patterns() == old(self).patterns(),
            final(self).published() == old(self).published(),
            final(self).delivered_total() == old(self).delivered_total(),
            final(self).next_id() == old(self).next_id(),
            final(self).cfg() == old(self).cfg(),
    {
        let ghost before = self.chans();
        match self.channel_position(channel_name) {
            Some(i) => {
                let removed = self.channels[i].remove_subscriber(subscriber_id);
                proof {
                    assert(self.chans() =~= before.update(i as int, without_member(before[i as int], subscriber_id)));
                    let m = before[i as int].members;
                    lemma_first_index(m, subscriber_id);
                    if let Some(p) = first_index(m, subscriber_id) {
                        let m2 = m.remove(p);
                        assert forall|k: int| 0 <= k < m2.len() implies m2[k] == m[if k < p { k } else { k + 1 }] by {}
                        assert forall|a: int, b: int| 0 <= a < b < m2.len() implies m2[a] != m2[b] by {
                            assert(m2[a] == m[if a < p { a } else { a + 1 }]);
                            assert(m2[b] == m[if b < p { b } else { b + 1 }]);
                        }
                        assert forall|k: int| 0 <= k < m2.len() implies ids_of(self.subs()).contains(#[trigger] m2[k]) by {
                            assert(m2[k] == m[if k < p { k } else { k + 1 }]);
                        }
                    }
                }
                Ok(removed)
            },
            None => Ok(false),
        }
    }

    /// Adds a wildcard-pattern subscription, making the subscriber when it
    /// does not exist; a pattern that does not translate to a valid regular
    /// expression is refused after the subscriber is made.
    pub fn psubscribe(&mut self, subscriber_id: SubscriberId, pattern: &str) -> (r: Result<(), PubSubError>)
        requires
            old(self).wf(),
        ensures
            final(self).wf(),
            final(self).subs() == with_subscriber(old(self).subs(), subscriber_id, old(self).cfg().default_buffer_size),
            match r {
                Ok(()) => final(self).patterns().len() == old(self).patterns().len() + 1
                    && final(self).patterns().drop_last() == old(self).patterns()
                    && final(self).patterns().last().subscriber_id == subscriber_id
                    && final(self).patterns().last().pattern_str@ == pattern@
                    && final(self).patterns().last().pattern@ == super::glob_regex(pattern@),
                Err(e) => e == PubSubError::InvalidPattern && final(self).patterns() == old(self).patterns()
                    && regex_outcome(super::glob_regex(pattern@), Seq::empty()) is Err,
            },
            final(self).chans() == old(self).chans(),
            final(self).published() == old(self).published(),
            final(self).delivered_total() == old(self).delivered_total(),
            final(self).next_id() == old(self).next_id(),
            final(self).cfg() == old(self).cfg(),
    {
        let _ = self.get_or_create_subscriber(subscriber_id);
        match PatternSubscription::new(subscriber_id, pattern) {
            Ok(p) => {
                self.pattern_subscriptions.push(p);
                proof { assert(self.patterns().drop_last() =~= old(self).pattern_subscriptions@); }
                Ok(())
            },
            Err(e) => Err(e),
        }
    }

    /// Removes every subscription of `subscriber_id` to exactly `pattern`;
    /// returns whether there was one.
    pub fn punsubscribe(&mut self, subscriber_id: SubscriberId, pattern: &str) -> (r: Result<bool, PubSubError>)
        requires
            old(self).wf(),
        ensures
            final(self).wf(),
            final(self).patterns() == remaining_patterns(old(self).patterns(), subscriber_id, pattern@),
            r == Ok::<bool, PubSubError>(final(self).patterns().len() < old(self).patterns().len()),
            final(self).subs() == old(self).subs(),
            final(self).chans() == old(self).chans(),
            final(self).published() == old(self).published(),
            final(self).delivered_total() == old(self).delivered_total(),
            final(self).next_id() == old(self).next_id(),
            final(self).cfg() == old(self).cfg(),
    {
        let ghost ps = self.pattern_subscriptions@;
        let mut kept: Vec<PatternSubscription> = Vec::new();
        let mut i: usize = 0;
        while i < self.pattern_subscriptions.len()
            invariant
                i <= ps.len(),
                ps == self.pattern_subscriptions@,
                kept@ == remaining_patterns(ps.take(i as int), subscriber_id, pattern@),
            decreases ps.len() - i,
        {
            proof {
                let t1 = ps.take(i + 1);
                assert(t1.drop_last() =~= ps.take(i as int));
                assert(t1.last() == ps[i as int]);
                reveal(Seq::filter);
            }
            let p = &self.pattern_subscriptions[i];
            let drop = p.subscriber_id == subscriber_id && str_eq(p.pattern_str.as_str(), pattern);
            if !drop {
                kept.push(p.copy());
            }
            i = i + 1;
        }
        proof {
            assert(ps.take(i as int) =~= ps);
        }
        let before = self.pattern_subscriptions.len();
        let ghost subs_before = self.subs();
        let ghost chans_before = self.chans();
        self.pattern_subscriptions = kept;
        proof {
            assert(self.subs() == subs_before);
            assert(self.chans() == chans_before);
        }
        Ok(self.pattern_subscriptions.len() < before)
    }

    /// Publishes `payload` on `channel_name`: one message to each subscriber
    /// of the channel, then one message to the owner of each matching
    /// pattern subscription; returns the number of deliveries. A payload
    /// longer than the configured limit is refused.
    pub fn publish(&mut self, channel_name: &str, payload: Vec<u8>) -> (r: Result<usize, PubSubError>)
        requires
            old(self).wf(),
            forall|c: int| 0 <= c < old(self).chans().len()
                ==> #[trigger] old(self).chans()[c].members.len() + old(self).patterns().len() <= usize::MAX,
        ensures
            final(self).wf(),
            payload@.len() > old(self).cfg().max_message_size ==> r == Err::<usize, PubSubError>(PubSubError::MessageTooLarge)
                && final(self).subs() == old(self).subs() && final(self).chans() == old(self).chans()
                && final(self).published() == old(self).published()
                && final(self).delivered_total() == old(self).delivered_total()
                && final(self).next_id() == old(self).next_id(),
            payload@.len() <= old(self).cfg().max_message_size ==> ({
                let ci = first_index(names_of(old(self).chans()), channel_name@);
                let members = match ci { Some(i) => old(self).chans()[i].members, None => Seq::<SubscriberId>::empty() };
                let n = members.len() + pattern_fanout(old(self).patterns(), ids_of(old(self).subs()), channel_name@);
                &&& r == Ok::<usize, PubSubError>(n as usize)
                &&& exists|m1: MessageView, m2: MessageView| {
                    &&& m1.channel == channel_name@ && m1.payload == payload@
                    &&& m2.channel == channel_name@ && m2.payload == payload@
                    &&& final(self).subs().len() == old(self).subs().len()
                    &&& forall|k: int| 0 <= k < old(self).subs().len() ==> #[trigger] final(self).subs()[k]
                        == deliver_times(
                            deliver_times(old(self).subs()[k], m1, if members.contains(old(self).subs()[k].id) { 1nat } else { 0nat }),
                            m2,
                            pattern_hits(old(self).patterns(), old(self).subs()[k].id, channel_name@),
                        )
                }
                &&& final(self).chans() == match ci {
                    Some(i) => old(self).chans().update(i, ChannelState {
                        published: old(self).chans()[i].published.wrapping_add(1),
                        ..old(self).chans()[i]
                    }),
                    None => old(self).chans(),
                }
                &&& final(self).published() == old(self).published().wrapping_add(1)
                &&& final(self).delivered_total() == old(self).delivered_total().wrapping_add(n as u64)
            }),
            final(self).patterns() == old(self).patterns(),
            final(self).cfg() == old(self).cfg(),
    {
        if payload.len() > self.config.max_message_size {
            return Err(PubSubError::MessageTooLarge);
        }
        let ghost old_subs = self.subs();
        let ghost old_chans = self.chans();
        let ghost ps = self.patterns();
        let ghost ids = ids_of(old_subs);
        let ci = self.channel_position(channel_name);
        let ghost members = match ci { Some(i) => old_chans[i as int].members, None => Seq::<SubscriberId>::empty() };
        let mut total: usize = 0;
        let ghost mut m1: MessageView = arbitrary();
        match ci {
            Some(i) => {
                let now = unix_millis();
                let body = payload.clone();
                proof { assert(body@ =~= payload@); }
                let msg = Message::new(copy_string(channel_name), body, now, self.next_message_id);
                proof {
                    m1 = msg@;
                    assert(m1.channel == channel_name@ && m1.payload == payload@);
                }
                self.next_message_id = self.next_message_id.wrapping_add(1);
                let n_members = self.channels[i].subscribers.len();
                proof { assert(self.chans()[i as int] == self.channels@[i as int]@); }
                let mut t: usize = 0;
                while t < n_members
                    invariant
                        t <= n_members,
                        n_members == members.len(),
                        members == old_chans[i as int].members,
                        i < old_chans.len(),
                        self.chans() == old_chans,
                        self.channels@.len() == old_chans.len(),
                        self.patterns() == ps,
                        self.cfg() == old(self).cfg(),
                        self.total_messages_published == old(self).total_messages_published,
                        self.total_messages_delivered == old(self).total_messages_delivered,
                        self.subs().len() == old_subs.len(),
                        ids_of(self.subs()) == ids,
                        distinct(ids),
                        distinct(members),
                        forall|k: int| 0 <= k < members.len() ==> ids.contains(#[trigger] members[k]),
                        total == t,
                        forall|k: int| 0 <= k < old_subs.len() ==> #[trigger] self.subs()[k] == deliver_times(
                            old_subs[k], m1, if members.take(t as int).contains(ids[k]) { 1nat } else { 0nat }),
                        m1 == msg@,
                    decreases n_members - t,
                {
                    let id = self.channels[i].subscribers[t];
                    proof {
                        assert(self.channels@[i as int]@ == self.chans()[i as int]);
                        assert(id == members[t as int]);
                        lemma_first_index(ids, id);
                    }
                    let ghost prev = self.subs();
                    match self.subscriber_position(id) {
                        Some(j) => {
                            self.subscribers[j].deliver_message(msg.copy());
                            proof {
                                assert(self.subs() =~= prev.update(j as int, deliver_once(prev[j as int], msg@)));
                                assert(ids_of(self.subs()) =~= ids);
                                lemma_member_step(old_subs, prev, self.subs(), ids, members, t as int, j as int, m1);
                            }
                            total = total + 1;
                        },
                        None => {
                            proof { assert(false); }
                        },
                    }
                    t = t + 1;
                }
                proof { assert(members.take(n_members as int) =~= members); }
                let ghost before_count = self.chans();
                self.channels[i].message_count = self.channels[i].message_count.wrapping_add(1);
                proof {
                    assert(self.chans() =~= old_chans.update(i as int, ChannelState {
                        published: old_chans[i as int].published.wrapping_add(1),
                        ..old_chans[i as int]
                    }));
                }
            },
            None => {
                proof {
                    assert forall|k: int| 0 <= k < old_subs.len() implies #[trigger] self.subs()[k] == deliver_times(
                        old_subs[k], m1, if members.contains(ids[k]) { 1nat } else { 0nat }) by {}
                }
            },
        }
        let ghost after_channel = self.subs();
        let ghost after_chans = self.chans();
        let ghost channel_total = total;
        proof {
            assert(after_chans == match ci {
                Some(i) => old_chans.update(i as int, ChannelState {
                    published: old_chans[i as int].published.wrapping_add(1),
                    ..old_chans[i as int]
                }),
                None => old_chans,
            });
            assert(after_chans.len() == old_chans.len());
            assert forall|c: int| 0 <= c < after_chans.len() implies #[trigger] after_chans[c].members == old_chans[c].members by {}
        }
        let now2 = unix_millis();
        let m2 = Message::new(copy_string(channel_name), payload, now2, self.next_message_id);
        self.next_message_id = self.next_message_id.wrapping_add(1);
        let np = self.pattern_subscriptions.len();
        let mut t: usize = 0;
        while t < np
            invariant
                t <= np,
                np == ps.len(),
                self.patterns() == ps,
                self.cfg() == old(self).cfg(),
                self.total_messages_published == old(self).total_messages_published,
                self.total_messages_delivered == old(self).total_messages_delivered,
                self.subs().len() == old_subs.len(),
                ids_of(self.subs()) == ids,
                distinct(ids),
                channel_total == members.len(),
                after_channel.len() == old_subs.len(),
                self.chans() == after_chans,
                members.len() + ps.len() <= usize::MAX,
                total == channel_total + pattern_fanout(ps.take(t as int), ids, channel_name@),
                pattern_fanout(ps.take(t as int), ids, channel_name@) <= t,
                forall|k: int| 0 <= k < old_subs.len() ==> #[trigger] self.subs()[k] == deliver_times(
                    after_channel[k], m2@, pattern_hits(ps.take(t as int), ids[k], channel_name@)),
            decreases np - t,
        {
            proof { assert(ps.take(t + 1).drop_last() =~= ps.take(t as int)); }
            let p = &self.pattern_subscriptions[t];
            let owner = p.subscriber_id;
            let hit = p.matches(channel_name);
            let ghost prev = self.subs();
            proof {
                lemma_first_index(ids, owner);
                assert(ps[t as int] == self.pattern_subscriptions@[t as int]);
            }
            if hit {
                match self.subscriber_position(owner) {
                    Some(j) => {
                        self.subscribers[j].deliver_message(m2.copy());
                        proof {
                            assert(self.subs() =~= prev.update(j as int, deliver_once(prev[j as int], m2@)));
                        }
                        total = total + 1;
                    },
                    None => {},
                }
            }
            proof {
                assert(ids_of(self.subs()) =~= ids);
                lemma_pattern_step(after_channel, prev, self.subs(), ids, ps, t as int, channel_name@, m2@);
                assert(ps.take(t + 1).drop_last() =~= ps.take(t as int));
                assert(ps.take(t + 1).last() == ps[t as int]);
            }
            t = t + 1;
        }
        proof {
            assert(ps.take(np as int) =~= ps);
        }
        let ghost subs_now = self.subs();
        self.total_messages_published = self.total_messages_published.wrapping_add(1);
        self.total_messages_delivered = self.total_messages_delivered.wrapping_add(total as u64);
        proof {
            assert(self.subs() == subs_now);
            assert(self.chans() == after_chans);
            assert(old(self).wf());
            assert forall|c: int| 0 <= c < self.chans().len() implies {
                &&& distinct(#[trigger] self.chans()[c].members)
                &&& forall|k: int| 0 <= k < self.chans()[c].members.len()
                    ==> ids_of(self.subs()).contains(#[trigger] self.chans()[c].members[k])
            } by {
                assert(self.chans()[c].members == old_chans[c].members);
                assert forall|k: int| 0 <= k < self.chans()[c].members.len()
                    implies ids_of(self.subs()).contains(#[trigger] self.chans()[c].members[k]) by {
                    assert(old_chans[c].members[k] == self.chans()[c].members[k]);
                }
            }
            assert(self.wf());
            let n = members.len() + pattern_fanout(ps, ids, channel_name@);
            assert(total == n);
            assert(self.published() == old(self).published().wrapping_add(1));
            assert(self.delivered_total() == old(self).delivered_total().wrapping_add(n as u64));
        }
        proof {
            assert(exists|a: MessageView, b: MessageView| {
                &&& a.channel == channel_name@ && a.payload == payload@
                &&& b.channel == channel_name@ && b.payload == payload@
                &&& self.subs().len() == old_subs.len()
                &&& forall|k: int| 0 <= k < old_subs.len() ==> #[trigger] self.subs()[k]
                    == deliver_times(
                        deliver_times(old_subs[k], a, if members.contains(old_subs[k].id) { 1nat } else { 0nat }),
                        b,
                        pattern_hits(ps, old_subs[k].id, channel_name@),
                    )
            }) by {
                let a = if ci is Some { m1 } else { m2@ };
                assert(m2@.channel == channel_name@ && m2@.payload == payload@);
                assert(a.channel == channel_name@ && a.payload == payload@);
                assert forall|k: int| 0 <= k < old_subs.len() implies #[trigger] self.subs()[k]
                    == deliver_times(
                        deliver_times(old_subs[k], a, if members.contains(old_subs[k].id) { 1nat } else { 0nat }),
                        m2@,
                        pattern_hits(ps, old_subs[k].id, channel_name@),
                    ) by {
                    assert(ids[k] == old_subs[k].id);
                }
            }
        }
        Ok(total)
    }

    /// Removes a subscriber from every channel, drops its pattern
    /// subscriptions and forgets it.
    pub fn remove_subscriber(&mut self, subscriber_id: SubscriberId) -> (r: Result<(), PubSubError>)
        requires
            old(self).wf(),
        ensures
            r is Ok,
            final(self).wf(),
            final(self).chans() == old(self).chans().map_values(|c: ChannelState| without_member(c, subscriber_id)),
            final(self).patterns() == patterns_without(old(self).patterns(), subscriber_id),
            final(self).subs() == match first_index(ids_of(old(self).subs()), subscriber_id) {
                Some(i) => old(self).subs().remove(i),
                None => old(self).subs(),
            },
            final(self).published() == old(self).published(),
            final(self).delivered_total() == old(self).delivered_total(),
            final(self).next_id() == old(self).next_id(),
            final(self).cfg() == old(self).cfg(),
    {
        let ghost old_chans = self.chans();
        let ghost ids = ids_of(self.subs());
        let mut c: usize = 0;
        while c < self.channels.len()
            invariant
                c <= self.channels@.len(),
                self.channels@.len() == old_chans.len(),
                forall|k: int| 0 <= k < c ==> #[trigger] self.chans()[k] == without_member(old_chans[k], subscriber_id),
                forall|k: int| c <= k < old_chans.len() ==> #[trigger] self.chans()[k] == old_chans[k],
                self.subs() == old(self).subs(),
                self.patterns() == old(self).patterns(),
                self.cfg() == old(self).cfg(),
                self.total_messages_published == old(self).total_messages_published,
                self.total_messages_delivered == old(self).total_messages_delivered,
                self.next_message_id == old(self).next_message_id,
            decreases old_chans.len() - c,
        {
            let ghost prev = self.chans();
            let _ = self.channels[c].remove_subscriber(subscriber_id);
            proof {
                assert(self.chans() =~= prev.update(c as int, without_member(prev[c as int], subscriber_id)));
            }
            c = c + 1;
        }
        proof {
            assert(self.chans() =~= old_chans.map_values(|ch: ChannelState| without_member(ch, subscriber_id)));
        }
        let ghost ps = self.pattern_subscriptions@;
        let mut kept: Vec<PatternSubscription> = Vec::new();
        let mut i: usize = 0;
        while i < self.pattern_subscriptions.len()
            invariant
                i <= ps.len(),
                ps == self.pattern_subscriptions@,
                kept@ == patterns_without(ps.take(i as int), subscriber_id),
            decreases ps.len() - i,
        {
            proof {
                let t1 = ps.take(i + 1);
                assert(t1.drop_last() =~= ps.take(i as int));
                assert(t1.last() == ps[i as int]);
                reveal(Seq::filter);
            }
            if self.pattern_subscriptions[i].subscriber_id != subscriber_id {
                kept.push(self.pattern_subscriptions[i].copy());
            }
            i = i + 1;
        }
        proof { assert(ps.take(i as int) =~= ps); }
        self.pattern_subscriptions = kept;
        let ghost subs_before = self.subs();
        proof { lemma_first_index(ids, subscriber_id); }
        match self.subscriber_position(subscriber_id) {
            Some(j) => {
                self.subscribers.remove(j);
                proof {
                    assert(self.subs() =~= subs_before.remove(j as int));
                }
            },
            None => {},
        }
        proof {
            let new_ids = ids_of(self.subs());
            assert(old(self).wf());
            assert forall|a: int| 0 <= a < new_ids.len() implies #[trigger] new_ids[a] != subscriber_id
                || first_index(ids, subscriber_id) is None by {
                if let Some(j) = first_index(ids, subscriber_id) {
                    assert(new_ids[a] == ids[if a < j { a } else { a + 1 }]);
                }
            }
            assert forall|a: int, b: int| 0 <= a < b < new_ids.len() implies new_ids[a] != new_ids[b] by {
                if let Some(j) = first_index(ids, subscriber_id) {
                    assert(new_ids[a] == ids[if a < j { a } else { a + 1 }]);
                    assert(new_ids[b] == ids[if b < j { b } else { b + 1 }]);
                }
            }
            assert forall|ch: int| 0 <= ch < self.chans().len() implies {
                &&& distinct(#[trigger] self.chans()[ch].members)
                &&& forall|k: int| 0 <= k < self.chans()[ch].members.len()
                    ==> new_ids.contains(#[trigger] self.chans()[ch].members[k])
            } by {
                let m = old_chans[ch].members;
                lemma_first_index(m, subscriber_id);
                let m2 = self.chans()[ch].members;
                assert forall|k: int| 0 <= k < m2.len() implies #[trigger] m2[k] != subscriber_id
                    && m.contains(m2[k]) by {
                    if let Some(p) = first_index(m, subscriber_id) {
                        assert(m2[k] == m[if k < p { k } else { k + 1 }]);
                    } else {
                        assert(m2[k] == m[k]);
                    }
                }
                assert forall|a: int, b: int| 0 <= a < b < m2.len() implies m2[a] != m2[b] by {
                    if let Some(p) = first_index(m, subscriber_id) {
                        assert(m2[a] == m[if a < p { a } else { a + 1 }]);
                        assert(m2[b] == m[if b < p { b } else { b + 1 }]);
                    }
                }
                assert forall|k: int| 0 <= k < m2.len() implies new_ids.contains(#[trigger] m2[k]) by {
                    let x = m2[k];
                    assert(m.contains(x));
                    let w = choose|w: int| 0 <= w < m.len() && m[w] == x;
                    assert(old_chans[ch].members[w] == x);
                    assert(ids.contains(x));
                    let v = choose|v: int| 0 <= v < ids.len() && ids[v] == x;
                    if let Some(j) = first_index(ids, subscriber_id) {
                        assert(v != j);
                        let a = if v < j { v } else { v - 1 };
                        assert(new_ids[a] == x);
                    } else {
                        assert(new_ids[v] == x);
                    }
                }
            }
        }
        Ok(())
    }

    /// Counts of channels and subscribers and the message totals.
    pub fn get_stats(&self) -> (s: PubSubStatsSnapshot)
        requires
            total_dropped(self.subs()) <= u64::MAX,
        ensures
            s.total_channels == self.chans().len(),
            s.total_subscribers == self.subs().len(),
            s.total_messages_published == self.published(),
            s.total_messages_delivered == self.delivered_total(),
            s.total_messages_dropped == total_dropped(self.subs()),
    {
        let mut dropped: u64 = 0;
        let mut i: usize = 0;
        while i < self.subscribers.len()
            invariant
                i <= self.subscribers@.len(),
                total_dropped(self.subs()) <= u64::MAX,
                dropped == total_dropped(self.subs().take(i as int)),
            decreases self.subscribers@.len() - i,
        {
            proof {
                assert(self.subs().take(i + 1).drop_last() =~= self.subs().take(i as int));
                lemma_total_dropped_prefix(self.subs(), i + 1);
                assert(self.subs()[i as int] == self.subscribers@[i as int]@);
            }
            dropped = dropped + self.subscribers[i].messages_dropped;
            i = i + 1;
        }
        proof { assert(self.subs().take(i as int) =~= self.subs()); }
        PubSubStatsSnapshot {
            total_channels: self.channels.len() as u64,
            total_subscribers: self.subscribers.len() as u64,
            total_messages_published: self.total_messages_published,
            total_messages_delivered: self.total_messages_delivered,
            total_messages_dropped: dropped,
        }
    }

    /// The channel names, in the order the channels were made.
    pub fn list_channels(&self) -> (r: Vec<String>)
        ensures
            r@.map_values(|x: String| x@) == names_of(self.chans()),
    {
        let mut out: Vec<String> = Vec::new();
        let mut i: usize = 0;
        while i < self.channels.len()
            invariant
                i <= self.channels@.len(),
                out@.map_values(|x: String| x@) == names_of(self.chans()).take(i as int),
            decreases self.channels@.len() - i,
        {
            proof {
                assert(self.chans()[i as int] == self.channels@[i as int]@);
                assert(names_of(self.chans())[i as int] == self.channels@[i as int].name@);
            }
            let ghost before = out@;
            out.push(self.channels[i].name.clone());
            proof {
                assert(out@.map_values(|x: String| x@) =~= before.map_values(|x: String| x@).push(self.channels@[i as int].name@));
            }
            i = i + 1;
            proof {
                assert(out@.map_values(|x: String| x@) =~= names_of(self.chans()).take(i as int));
            }
        }
        proof { assert(names_of(self.chans()).take(i as int) =~= names_of(self.chans())); }
        out
    }

    /// The statistics of the channel `channel_name`.
    pub fn get_channel_stats(&self, channel_name: &str) -> (r: Option<ChannelStats>)
        ensures
            match first_index(names_of(self.chans()), channel_name@) {
                Some(i) => r matches Some(st) && st.name@ == self.chans()[i].name
                    && st.subscriber_count == self.chans()[i].count && st.message_count == self.chans()[i].published,
                None => r is None,
            },
    {
        match self.channel_position(channel_name) {
            Some(i) => {
                proof { assert(self.chans()[i as int] == self.channels@[i as int]@); }
                Some(self.channels[i].stats())
            },
            None => None,
        }
    }
}

} // verus!
