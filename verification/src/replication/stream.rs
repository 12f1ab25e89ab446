//! The decisions of replication sessions: what a slave does with each
//! event of its master's stream, and how a master reads a slave's answer
//! to a synchronization.
//!
//! The caller performs each action (applying entries, sending a message)
//! and reports the outcome back as the next event.
use vstd::prelude::*;
use vstd::string::StringExecFns;
use crate::clock::UtcTime;
use crate::util::{concat_str, decimal, decimal_text};
use super::{AckStatus, ReplicationError, ReplicationMessage};

verus! {

/// Replication counters of a node. The counts wrap at the top of their
/// range.
#[derive(Debug, Clone, Copy)]
pub struct ReplicationStats {
    /// Slaves connected (master only).
    pub connected_slaves: usize,
    /// Replication lag in milliseconds (slave only).
    pub replication_lag_ms: u64,
    pub messages_sent: u64,
    pub messages_received: u64,
    /// Reconnection attempts (slave only).
    pub reconnection_attempts: u64,
    /// When the last entries were applied.
    pub last_sync: Option<UtcTime>,
}

impl Default for ReplicationStats {
    fn default() -> (s: ReplicationStats)
        ensures
            s.connected_slaves == 0 && s.replication_lag_ms == 0 && s.messages_sent == 0,
            s.messages_received == 0 && s.reconnection_attempts == 0 && s.last_sync is None,
    {
        ReplicationStats {
            connected_slaves: 0,
            replication_lag_ms: 0,
            messages_sent: 0,
            messages_received: 0,
            reconnection_attempts: 0,
            last_sync: None,
        }
    }
}

/// What happened on a slave's connection to its master.
pub enum StreamEvent {
    /// A message arrived from the master.
    Received(ReplicationMessage),
    /// Reading from the master failed.
    ReceiveFailed(ReplicationError),
    /// The entries were applied up to `last_sequence`, taking `lag_ms`.
    Applied { last_sequence: u64, lag_ms: u64 },
    /// The acknowledgment of applied entries was sent at `at`.
    AckSent { at: UtcTime },
    /// It is time for a heartbeat; the slave is at `current_sequence`.
    HeartbeatDue { current_sequence: u64 },
    /// The heartbeat was sent.
    HeartbeatSent,
    /// Sending to the master failed.
    SendFailed(ReplicationError),
}

/// What the slave does next.
pub enum StreamAction {
    /// Apply these log entries, then report [`StreamEvent::Applied`].
    Apply(Vec<Vec<u8>>),
    /// Send this message, then report that it was sent.
    Send(ReplicationMessage),
    /// Wait for the next event.
    Wait,
    /// End the session with this error.
    Stop(ReplicationError),
}

/// A slave following its master's stream.
pub struct SlaveStream {
    stats: ReplicationStats,
    /// The lag measured by the last application of entries.
    replication_lag_ms: u64,
    /// The lag of entries applied whose acknowledgment is being sent.
    pending_lag: u64,
}

/// The error text when the master shuts down.
pub open spec fn shutdown_text() -> Seq<char> {
    "Master shutdown"@
}

impl SlaveStream {
    pub closed spec fn counters(&self) -> ReplicationStats {
        self.stats
    }

    pub closed spec fn lag(&self) -> u64 {
        self.replication_lag_ms
    }

    pub closed spec fn pending(&self) -> u64 {
        self.pending_lag
    }

    /// The counters.
    pub fn stats(&self) -> (s: ReplicationStats)
        ensures
            s == self.counters(),
    {
        self.stats
    }

    /// The lag measured by the last application of entries.
    pub fn replication_lag_ms(&self) -> (l: u64)
        ensures
            l == self.lag(),
    {
        self.replication_lag_ms
    }

    /// A stream with the given counters.
    pub fn new(stats: ReplicationStats) -> (s: SlaveStream)
        ensures
            s.counters() == stats,
            s.lag() == stats.replication_lag_ms,
            s.pending() == 0,
    {
        SlaveStream { stats, replication_lag_ms: stats.replication_lag_ms, pending_lag: 0 }
    }

    /// The next action for `event`: entries from the master are applied
    /// and acknowledged, heartbeats are counted, a shutdown of the master
    /// or a failure ends the session, and other messages are passed over.
    pub fn on_event(&mut self, event: StreamEvent) -> (a: StreamAction)
        ensures
            match event {
                StreamEvent::Received(ReplicationMessage::IncrementalSync { entries }) =>
                    a == StreamAction::Apply(entries) && *final(self) == *old(self),
                StreamEvent::Received(ReplicationMessage::Heartbeat { .. }) => a is Wait
                    && final(self).counters() == (ReplicationStats {
                        messages_received: old(self).counters().messages_received.wrapping_add(1),
                        ..old(self).counters()
                    })
                    && final(self).lag() == old(self).lag()
                    && final(self).pending() == old(self).pending(),
                StreamEvent::Received(ReplicationMessage::MasterShutdown { .. }) =>
                    (a matches StreamAction::Stop(ReplicationError::ConnectionError(m)) && m@ == shutdown_text())
                    && *final(self) == *old(self),
                StreamEvent::Received(_) => a is Wait && *final(self) == *old(self),
                StreamEvent::ReceiveFailed(e) => a == StreamAction::Stop(e) && *final(self) == *old(self),
                StreamEvent::Applied { last_sequence, lag_ms } =>
                    a == StreamAction::Send(ReplicationMessage::Ack { sequence: last_sequence, status: AckStatus::Success })
                    && final(self).counters() == old(self).counters()
                    && final(self).lag() == lag_ms && final(self).pending() == lag_ms,
                StreamEvent::AckSent { at } => a is Wait
                    && final(self).counters() == (ReplicationStats {
                        messages_received: old(self).counters().messages_received.wrapping_add(1),
                        replication_lag_ms: old(self).pending(),
                        last_sync: Some(at),
                        ..old(self).counters()
                    })
                    && final(self).lag() == old(self).lag()
                    && final(self).pending() == old(self).pending(),
                StreamEvent::HeartbeatDue { current_sequence } =>
                    (a matches StreamAction::Send(ReplicationMessage::Heartbeat { current_sequence: s, .. })
                        && s == current_sequence)
                    && *final(self) == *old(self),
                StreamEvent::HeartbeatSent => a is Wait
                    && final(self).counters() == (ReplicationStats {
                        messages_sent: old(self).counters().messages_sent.wrapping_add(1),
                        ..old(self).counters()
                    })
                    && final(self).lag() == old(self).lag()
                    && final(self).pending() == old(self).pending(),
                StreamEvent::SendFailed(e) => a == StreamAction::Stop(e) && *final(self) == *old(self),
            },
    {
        match event {
            StreamEvent::Received(message) => match message {
                ReplicationMessage::IncrementalSync { entries } => StreamAction::Apply(entries),
                ReplicationMessage::Heartbeat { .. } => {
                    self.stats.messages_received = self.stats.messages_received.wrapping_add(1);
                    StreamAction::Wait
                },
                ReplicationMessage::MasterShutdown { .. } => {
                    let m = String::from_str("Master shutdown");
                    proof { reveal_strlit("Master shutdown"); }
                    StreamAction::Stop(ReplicationError::ConnectionError(m))
                },
                _ => StreamAction::Wait,
            },
            StreamEvent::ReceiveFailed(e) => StreamAction::Stop(e),
            StreamEvent::Applied { last_sequence, lag_ms } => {
                self.replication_lag_ms = lag_ms;
                self.pending_lag = lag_ms;
                StreamAction::Send(ReplicationMessage::ack_success(last_sequence))
            },
            StreamEvent::AckSent { at } => {
                self.stats.messages_received = self.stats.messages_received.wrapping_add(1);
                self.stats.replication_lag_ms = self.pending_lag;
                self.stats.last_sync = Some(at);
                StreamAction::Wait
            },
            StreamEvent::HeartbeatDue { current_sequence } => {
                StreamAction::Send(ReplicationMessage::heartbeat(current_sequence))
            },
            StreamEvent::HeartbeatSent => {
                self.stats.messages_sent = self.stats.messages_sent.wrapping_add(1);
                StreamAction::Wait
            },
            StreamEvent::SendFailed(e) => StreamAction::Stop(e),
        }
    }
}

/// The error text when the answer to a synchronization is not an
/// acknowledgment.
pub open spec fn expected_ack_text() -> Seq<char> {
    "Expected ACK message"@
}

/// How a master reads a slave's answer to a whole snapshot: an
/// acknowledgment of success completes it; any other acknowledgment or
/// message is a protocol error.
pub fn full_sync_reply(reply: &ReplicationMessage) -> (r: Result<(), ReplicationError>)
    ensures
        match *reply {
            ReplicationMessage::Ack { status: AckStatus::Success, .. } => r is Ok,
            ReplicationMessage::Ack { .. } => r matches Err(ReplicationError::ProtocolError(m))
                && m@ == "Full sync failed on slave"@,
            _ => r matches Err(ReplicationError::ProtocolError(m)) && m@ == expected_ack_text(),
        },
{
    match reply {
        ReplicationMessage::Ack { status, .. } => match status {
            AckStatus::Success => Ok(()),
            _ => {
                let m = String::from_str("Full sync failed on slave");
                Err(ReplicationError::ProtocolError(m))
            },
        },
        _ => {
            let m = String::from_str("Expected ACK message");
            proof { reveal_strlit("Expected ACK message"); }
            Err(ReplicationError::ProtocolError(m))
        },
    }
}

/// How a master reads a slave's answer to log entries: an acknowledgment
/// of success gives the sequence it reached; any other acknowledgment or
/// message is a protocol error naming the sequence.
pub fn incremental_sync_reply(reply: &ReplicationMessage) -> (r: Result<u64, ReplicationError>)
    ensures
        match *reply {
            ReplicationMessage::Ack { sequence, status: AckStatus::Success } => r == Ok::<u64, ReplicationError>(sequence),
            ReplicationMessage::Ack { sequence, .. } => r matches Err(ReplicationError::ProtocolError(m))
                && m@ == "Incremental sync failed on slave at sequence "@ + decimal(sequence as nat),
            _ => r matches Err(ReplicationError::ProtocolError(m)) && m@ == expected_ack_text(),
        },
{
    match reply {
        ReplicationMessage::Ack { sequence, status } => match status {
            AckStatus::Success => Ok(*sequence),
            _ => {
                let n = decimal_text(*sequence);
                let m = concat_str("Incremental sync failed on slave at sequence ", n.as_str());
                Err(ReplicationError::ProtocolError(m))
            },
        },
        _ => {
            let m = String::from_str("Expected ACK message");
            proof { reveal_strlit("Expected ACK message"); }
            Err(ReplicationError::ProtocolError(m))
        },
    }
}

/// What happened while a master streams its log to a slave.
pub enum MasterEvent {
    /// A new log entry, as its encoded bytes.
    EntryReady(Vec<u8>),
    /// The entry was sent.
    EntrySent,
    /// The slave answered the entry.
    Reply(ReplicationMessage),
    /// Reading the slave's answer failed.
    ReceiveFailed(ReplicationError),
    /// The log stream skipped this many entries that came too fast.
    Lagged(u64),
    /// The log stream ended.
    Closed,
    /// It is time for a heartbeat; the master is at `current_sequence`.
    HeartbeatDue { current_sequence: u64 },
    /// The heartbeat was sent.
    HeartbeatSent,
    /// Sending to the slave failed.
    SendFailed(ReplicationError),
}

/// What the master does next.
pub enum MasterAction {
    /// Send this message, then report that it was sent.
    Send(ReplicationMessage),
    /// Read the slave's answer and report it.
    AwaitReply,
    /// Wait for the next event.
    Wait,
    /// The stream ended normally.
    Finish,
    /// End the stream with this error.
    Stop(ReplicationError),
}

/// The next action of a master streaming its log: each entry goes alone in
/// a message and its answer is read before going on (whatever the answer);
/// skipped entries are passed over; heartbeats go out when due; the end of
/// the log ends the stream and a failure stops it.
pub fn master_stream_step(event: MasterEvent) -> (a: MasterAction)
    ensures
        match event {
            MasterEvent::EntryReady(e) => a matches MasterAction::Send(ReplicationMessage::IncrementalSync { entries })
                && entries@ == seq![e],
            MasterEvent::EntrySent => a is AwaitReply,
            MasterEvent::Reply(_) => a is Wait,
            MasterEvent::ReceiveFailed(e) => a == MasterAction::Stop(e),
            MasterEvent::Lagged(_) => a is Wait,
            MasterEvent::Closed => a is Finish,
            MasterEvent::HeartbeatDue { current_sequence } =>
                a matches MasterAction::Send(ReplicationMessage::Heartbeat { current_sequence: s, .. })
                && s == current_sequence,
            MasterEvent::HeartbeatSent => a is Wait,
            MasterEvent::SendFailed(e) => a == MasterAction::Stop(e),
        },
{
    match event {
        MasterEvent::EntryReady(e) => {
            let mut entries: Vec<Vec<u8>> = Vec::new();
            entries.push(e);
            MasterAction::Send(ReplicationMessage::IncrementalSync { entries })
        },
        MasterEvent::EntrySent => MasterAction::AwaitReply,
        MasterEvent::Reply(_) => MasterAction::Wait,
        MasterEvent::ReceiveFailed(e) => MasterAction::Stop(e),
        MasterEvent::Lagged(_) => MasterAction::Wait,
        MasterEvent::Closed => MasterAction::Finish,
        MasterEvent::HeartbeatDue { current_sequence } => MasterAction::Send(ReplicationMessage::heartbeat(current_sequence)),
        MasterEvent::HeartbeatSent => MasterAction::Wait,
        MasterEvent::SendFailed(e) => MasterAction::Stop(e),
    }
}

} // verus!
