//! One replication packet: what each archive entry means, and the checks that tie the
//! packet to the stored cursor.
use vstd::prelude::*;
use vstd::string::*;

use crate::control::{advanced_control, next_sequence, ReplicationControl, Timestamp};
use crate::error::MbLightError;
use crate::text::{chars_of, copy_range, i32_text_value, parse_i32, push_chars, trim_chars, trimmed};

verus! {

/// The last component of a `/`-separated path.
pub open spec fn file_name(path: Seq<char>) -> Seq<char>
    decreases path.len(),
{
    if path.len() == 0 || path.last() == '/' {
        seq![]
    } else {
        file_name(path.drop_last()).push(path.last())
    }
}

/// What an entry of a replication packet holds.
#[derive(Debug, Clone, Copy, PartialEq, Eq, Structural)]
pub enum EntryKind {
    /// Rows for `dbmirror2.pending_data`.
    PendingData,
    /// Rows for `dbmirror2.pending_keys`.
    PendingKeys,
    /// The packet's replication sequence.
    ReplicationSequence,
    /// The schema sequence the packet was made for.
    SchemaSequence,
    /// When the packet was made.
    Timestamp,
    /// Anything else, which is passed over.
    Other,
}

/// What an entry of the given file name holds.
pub open spec fn kind_of(name: Seq<char>) -> EntryKind {
    if name == "pending_data"@ {
        EntryKind::PendingData
    } else if name == "pending_keys"@ {
        EntryKind::PendingKeys
    } else if name == "REPLICATION_SEQUENCE"@ {
        EntryKind::ReplicationSequence
    } else if name == "SCHEMA_SEQUENCE"@ {
        EntryKind::SchemaSequence
    } else if name == "TIMESTAMP"@ {
        EntryKind::Timestamp
    } else {
        EntryKind::Other
    }
}

/// The file name of a path.
pub fn file_name_of(path: &str) -> (r: Vec<char>)
    ensures
        r@ == file_name(path@),
{
    let cs = chars_of(path);
    let n = cs.len();
    let mut start: usize = n;
    assert(cs@.take(n as int) == cs@);
    assert(cs@.subrange(n as int, n as int) == Seq::<char>::empty());
    while start > 0 && cs[start - 1] != '/'
        invariant
            start <= n == cs@.len(),
            cs@ == path@,
            file_name(path@) == file_name(cs@.take(start as int)) + cs@.subrange(start as int, n as int),
        decreases start,
    {
        assert(cs@.take(start as int).drop_last() == cs@.take(start - 1));
        assert(cs@.subrange(start - 1, n as int) == seq![cs@[start - 1]] + cs@.subrange(start as int, n as int));
        start = start - 1;
    }
    assert(cs@.take(n as int) == cs@);
    copy_range(cs.as_slice(), start, n)
}

/// What the entry at `path` holds, by its file name.
pub fn entry_kind(path: &str) -> (r: EntryKind)
    ensures
        r == kind_of(file_name(path@)),
{
    let name = file_name_of(path);
    let name = name.as_slice();
    if crate::text::chars_equal(name, chars_of("pending_data").as_slice()) {
        EntryKind::PendingData
    } else if crate::text::chars_equal(name, chars_of("pending_keys").as_slice()) {
        EntryKind::PendingKeys
    } else if crate::text::chars_equal(name, chars_of("REPLICATION_SEQUENCE").as_slice()) {
        EntryKind::ReplicationSequence
    } else if crate::text::chars_equal(name, chars_of("SCHEMA_SEQUENCE").as_slice()) {
        EntryKind::SchemaSequence
    } else if crate::text::chars_equal(name, chars_of("TIMESTAMP").as_slice()) {
        EntryKind::Timestamp
    } else {
        EntryKind::Other
    }
}

/// The integer that a sequence entry holds, white space around it aside.
pub open spec fn sequence_value(text: Seq<char>) -> Result<i32, MbLightError> {
    match i32_text_value(trimmed(text)) {
        Some(n) => Ok(n),
        None => Err(MbLightError::ParseInt),
    }
}

/// Reads the integer that a sequence entry holds.
pub fn parse_sequence(text: &str) -> (r: Result<i32, MbLightError>)
    ensures
        r == sequence_value(text@),
{
    let cs = chars_of(text);
    let t = trim_chars(cs.as_slice());
    match parse_i32(t.as_slice()) {
        Some(n) => Ok(n),
        None => Err(MbLightError::ParseInt),
    }
}

/// What to do about a packet's schema sequence.
#[derive(Debug, Clone, Copy, PartialEq, Eq, Structural)]
pub enum SchemaAction {
    /// Fetch and run the schema-change script of this sequence, then go on.
    Upgrade(i32),
    /// The schema is current: go on.
    Continue,
}

/// The decision on a packet's schema sequence `got`: one past the stored sequence
/// asks for an upgrade, the stored sequence itself lets the packet go on, and any
/// other value is a mismatch.
pub open spec fn schema_decision(c: ReplicationControl, got: i32) -> Result<SchemaAction, MbLightError> {
    match c.current_schema_sequence {
        None => Err(MbLightError::MissingReplicationSequence),
        Some(current) => if got as int == current as int + 1 {
            Ok(SchemaAction::Upgrade(got))
        } else if got == current {
            Ok(SchemaAction::Continue)
        } else {
            Err(MbLightError::SchemaMismatch { expected: current, got })
        },
    }
}

/// A replication packet being applied on top of the cursor read at its start.
#[derive(Debug, Clone, Copy, PartialEq, Eq, Structural)]
pub struct PacketProgress {
    /// The cursor as read when the packet started.
    pub control: ReplicationControl,
    /// The replication sequence the packet must carry.
    pub next_sequence: i32,
    /// The schema sequence that an upgrade run for this packet brought the database to.
    pub schema_upgrade: Option<i32>,
}

impl PacketProgress {
    /// Starts a packet on top of `control`.
    pub fn begin(control: ReplicationControl) -> (r: Result<PacketProgress, MbLightError>)
        ensures
            match next_sequence(control.current_replication_sequence) {
                Ok(n) => r == Ok::<PacketProgress, MbLightError>(
                    PacketProgress { control, next_sequence: n, schema_upgrade: None },
                ),
                Err(e) => r == Err::<PacketProgress, MbLightError>(e),
            },
    {
        let n = control.next_replication_sequence()?;
        Ok(PacketProgress { control, next_sequence: n, schema_upgrade: None })
    }

    /// Checks the packet's `REPLICATION_SEQUENCE` entry against the expected sequence.
    pub fn check_replication_sequence(&self, text: &str) -> (r: Result<(), MbLightError>)
        ensures
            r == match sequence_value(text@) {
                Err(e) => Err(e),
                Ok(got) => if got == self.next_sequence {
                    Ok(())
                } else {
                    Err(MbLightError::SequenceMismatch { expected: self.next_sequence, got })
                },
            },
    {
        let got = parse_sequence(text)?;
        if got != self.next_sequence {
            return Err(MbLightError::SequenceMismatch { expected: self.next_sequence, got });
        }
        Ok(())
    }

    /// Decides on the packet's `SCHEMA_SEQUENCE` entry, and records an upgrade.
    pub fn check_schema_sequence(&mut self, text: &str) -> (r: Result<SchemaAction, MbLightError>)
        ensures
            r == match sequence_value(text@) {
                Err(e) => Err(e),
                Ok(got) => schema_decision(old(self).control, got),
            },
            final(self).control == old(self).control,
            final(self).next_sequence == old(self).next_sequence,
            final(self).schema_upgrade == match r {
                Ok(SchemaAction::Upgrade(n)) => Some(n),
                _ => old(self).schema_upgrade,
            },
    {
        let got = parse_sequence(text)?;
        let current = match self.control.current_schema_sequence {
            None => {
                return Err(MbLightError::MissingReplicationSequence);
            },
            Some(c) => c,
        };
        if current < i32::MAX && got == current + 1 {
            self.schema_upgrade = Some(got);
            Ok(SchemaAction::Upgrade(got))
        } else if got == current {
            Ok(SchemaAction::Continue)
        } else {
            Err(MbLightError::SchemaMismatch { expected: current, got })
        }
    }

    /// The cursor to write back once the packet is applied at `now`.
    pub fn finish(&self, now: Timestamp) -> (r: Result<ReplicationControl, MbLightError>)
        ensures
            r == advanced_control(self.control, self.schema_upgrade, now),
    {
        self.control.advanced(self.schema_upgrade, now)
    }
}

/// `s` ends with `suffix`.
pub open spec fn ends_with(s: Seq<char>, suffix: Seq<char>) -> bool {
    suffix.len() <= s.len() && s.skip(s.len() - suffix.len()) == suffix
}

/// A timestamp whose offset is written as whole hours (`+00`, `-00`) gets its minutes
/// (`:00`), as the parser's `%:z` wants them.
pub open spec fn with_full_offset(s: Seq<char>) -> Seq<char> {
    if ends_with(s, "+00"@) || ends_with(s, "-00"@) {
        s + ":00"@
    } else {
        s
    }
}

/// The instant that `chrono` reads in `text` with the format
/// `%Y-%m-%d %H:%M:%S%.f%:z`, taken to UTC; `None` when it reads none.
pub uninterp spec fn utc_instant_of(text: Seq<char>) -> Option<Timestamp>;

/// Relies on `chrono::DateTime::parse_from_str` with the format `%Y-%m-%d %H:%M:%S%.f%:z`:
/// the instant that the text gives, as seconds and nanoseconds since the Unix epoch.
#[verifier::external_body]
fn parse_offset_datetime(text: &str) -> (r: Option<Timestamp>)
    ensures
        r == utc_instant_of(text@),
{
    let date = chrono::DateTime::parse_from_str(text, "%Y-%m-%d %H:%M:%S%.f%:z").ok()?;
    Some(Timestamp { secs: date.timestamp(), nanos: date.timestamp_subsec_nanos() })
}

/// Whether `cs` ends with `suffix`.
fn ends_with_chars(cs: &[char], suffix: &str) -> (r: bool)
    ensures
        r == ends_with(cs@, suffix@),
{
    let sc = chars_of(suffix);
    if sc.len() > cs.len() {
        return false;
    }
    let tail = copy_range(cs, cs.len() - sc.len(), cs.len());
    assert(tail@ == cs@.skip(cs@.len() - sc@.len()));
    crate::text::chars_equal(tail.as_slice(), sc.as_slice())
}

/// The text of a `TIMESTAMP` entry as the parser is handed it: trimmed, with the
/// minutes of a whole-hour offset added.
pub fn normalize_timestamp(text: &str) -> (r: String)
    ensures
        r@ == with_full_offset(trimmed(text@)),
{
    let cs = chars_of(text);
    let t = trim_chars(cs.as_slice());
    let mut r = String::new();
    push_chars(&mut r, t.as_slice());
    assert(r@ == t@);
    if ends_with_chars(t.as_slice(), "+00") || ends_with_chars(t.as_slice(), "-00") {
        r.append(":00");
    }
    r
}

/// Reads the instant that a `TIMESTAMP` entry holds.
pub fn extract_timestamp(text: &str) -> (r: Result<Timestamp, MbLightError>)
    ensures
        r == match utc_instant_of(with_full_offset(trimmed(text@))) {
            Some(t) => Ok(t),
            None => Err(MbLightError::DateParse),
        },
{
    let normalized = normalize_timestamp(text);
    match parse_offset_datetime(normalized.as_str()) {
        Some(t) => Ok(t),
        None => Err(MbLightError::DateParse),
    }
}

/// A timestamp whose offset is `+00` reaches the parser with the offset `+00:00`: UTC.
pub proof fn lemma_zero_hour_offset_is_utc(text: Seq<char>)
    requires
        ends_with(trimmed(text), "+00"@),
    ensures
        ends_with(with_full_offset(trimmed(text)), "+00:00"@),
{
    let t = trimmed(text);
    let r = with_full_offset(t);
    reveal_strlit("+00");
    reveal_strlit(":00");
    reveal_strlit("+00:00");
    assert(r == t + ":00"@);
    assert(r.skip(r.len() - 6) =~= t.skip(t.len() - 3) + ":00"@);
    assert("+00"@ + ":00"@ =~= "+00:00"@);
}

} // verus!
