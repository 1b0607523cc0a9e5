//! The replication cursor: `dbmirror2.replication_control`.
use vstd::prelude::*;
use vstd::string::*;

use crate::error::MbLightError;
use crate::text::{int_text, push_int};

verus! {

/// A point in time, in UTC: seconds since the Unix epoch and nanoseconds into the second.
#[derive(Debug, Clone, Copy, PartialEq, Eq, Structural)]
pub struct Timestamp {
    pub secs: i64,
    pub nanos: u32,
}

/// `a` is not later than `b`.
pub open spec fn not_later(a: Timestamp, b: Timestamp) -> bool {
    a.secs < b.secs || (a.secs == b.secs && a.nanos <= b.nanos)
}

/// The singleton row that records how far replication has come.
#[derive(Debug, Clone, Copy, PartialEq, Eq, Structural)]
pub struct ReplicationControl {
    pub current_schema_sequence: Option<i32>,
    pub current_replication_sequence: Option<i32>,
    pub last_replication_date: Option<Timestamp>,
}

/// The sequence number after `current`.
pub open spec fn next_sequence(current: Option<i32>) -> Result<i32, MbLightError> {
    match current {
        None => Err(MbLightError::MissingReplicationSequence),
        Some(n) => if n < i32::MAX {
            Ok((n + 1) as i32)
        } else {
            Err(MbLightError::SequenceOverflow)
        },
    }
}

/// `{base}/replication-packets/replication-{sequence}.tar.bz2?token={token}`.
pub open spec fn packet_url(base: Seq<char>, sequence: i32, token: Seq<char>) -> Seq<char> {
    base + "/replication-packets/replication-"@ + int_text(sequence as int) + ".tar.bz2?token="@ + token
}

/// The cursor after a packet: the next replication sequence, the time the packet was
/// applied, and the schema sequence raised to an upgrade that the packet applied.
pub open spec fn advanced_control(c: ReplicationControl, schema_upgrade: Option<i32>, now: Timestamp) -> Result<
    ReplicationControl,
    MbLightError,
> {
    match next_sequence(c.current_replication_sequence) {
        Err(e) => Err(e),
        Ok(next) => match c.current_schema_sequence {
            None => Err(MbLightError::MissingReplicationSequence),
            Some(schema) => Ok(
                ReplicationControl {
                    current_schema_sequence: Some(
                        match schema_upgrade {
                            Some(u) => if u > schema { u } else { schema },
                            None => schema,
                        },
                    ),
                    current_replication_sequence: Some(next),
                    last_replication_date: Some(now),
                },
            ),
        },
    }
}

impl ReplicationControl {
    /// The replication sequence of the next packet.
    pub fn next_replication_sequence(&self) -> (r: Result<i32, MbLightError>)
        ensures
            r == next_sequence(self.current_replication_sequence),
    {
        match self.current_replication_sequence {
            None => Err(MbLightError::MissingReplicationSequence),
            Some(n) => if n < i32::MAX {
                Ok(n + 1)
            } else {
                Err(MbLightError::SequenceOverflow)
            },
        }
    }

    /// Where the next packet is published, with the access token as query parameter.
    pub fn next_replication_packet_url(&self, base_url: &str, token: &str) -> (r: Result<String, MbLightError>)
        ensures
            match next_sequence(self.current_replication_sequence) {
                Ok(n) => r matches Ok(url) && url@ == packet_url(base_url@, n, token@),
                Err(e) => r == Err::<String, MbLightError>(e),
            },
    {
        let n = self.next_replication_sequence()?;
        let mut url = String::new();
        url.append(base_url);
        url.append("/replication-packets/replication-");
        push_int(&mut url, n as i64);
        url.append(".tar.bz2?token=");
        url.append(token);
        Ok(url)
    }

    /// Whether `schema_sequence` is the one after the stored schema sequence.
    pub fn is_next(&self, schema_sequence: i32) -> (r: Result<bool, MbLightError>)
        ensures
            r == match self.current_schema_sequence {
                None => Err(MbLightError::MissingReplicationSequence),
                Some(c) => Ok(schema_sequence as int == c as int + 1),
            },
    {
        match self.current_schema_sequence {
            None => Err(MbLightError::MissingReplicationSequence),
            Some(c) => Ok(c < i32::MAX && schema_sequence == c + 1),
        }
    }

    /// Whether `schema_sequence` is the stored schema sequence.
    pub fn schema_sequence_match(&self, schema_sequence: i32) -> (r: bool)
        ensures
            r == (self.current_schema_sequence == Some(schema_sequence)),
    {
        match self.current_schema_sequence {
            None => false,
            Some(c) => c == schema_sequence,
        }
    }

    /// The cursor to write back once a packet is applied.
    pub fn advanced(&self, schema_upgrade: Option<i32>, now: Timestamp) -> (r: Result<ReplicationControl, MbLightError>)
        ensures
            r == advanced_control(*self, schema_upgrade, now),
    {
        let next = self.next_replication_sequence()?;
        let schema = match self.current_schema_sequence {
            None => {
                return Err(MbLightError::MissingReplicationSequence);
            },
            Some(s) => s,
        };
        let schema = match schema_upgrade {
            Some(u) => if u > schema { u } else { schema },
            None => schema,
        };
        Ok(
            ReplicationControl {
                current_schema_sequence: Some(schema),
                current_replication_sequence: Some(next),
                last_replication_date: Some(now),
            },
        )
    }
}

/// Each applied packet moves the replication sequence on by exactly one and never moves
/// the schema sequence back; the date of the last replication does not go back either,
/// given a clock that is not behind the stored date.
pub proof fn lemma_packet_advances_cursor(c: ReplicationControl, schema_upgrade: Option<i32>, now: Timestamp)
    requires
        c.last_replication_date matches Some(d) ==> not_later(d, now),
    ensures
        advanced_control(c, schema_upgrade, now) matches Ok(n) ==> {
            &&& n.current_replication_sequence->0 == c.current_replication_sequence->0 + 1
            &&& n.current_schema_sequence->0 >= c.current_schema_sequence->0
            &&& c.last_replication_date matches Some(d) ==> not_later(d, n.last_replication_date->0)
        },
{
}

} // verus!
