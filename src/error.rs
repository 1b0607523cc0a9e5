//! The errors that the engine distinguishes.
use vstd::prelude::*;
use vstd::string::*;

use crate::text::{int_text, push_int};

verus! {

/// A field of a pending-data record, or of the keys that go with it.
#[derive(Debug, Clone, Copy, PartialEq, Eq, Structural)]
pub enum PendingField {
    Tablename,
    Op,
    OldData,
    NewData,
    Keys,
    KeyColumn,
}

/// Why an ingest or replication step failed.
#[derive(Debug, Clone, Copy, PartialEq, Eq, Structural)]
pub enum MbLightError {
    /// The next replication packet is not published yet.
    NotFound,
    /// A packet's `REPLICATION_SEQUENCE` is not the one that follows the stored cursor.
    SequenceMismatch { expected: i32, got: i32 },
    /// A packet's `SCHEMA_SEQUENCE` neither matches the stored one nor is one ahead of it.
    SchemaMismatch { expected: i32, got: i32 },
    /// The replication cursor is absent or incomplete.
    MissingReplicationSequence,
    /// The replication cursor stands at the largest sequence number there is.
    SequenceOverflow,
    /// A pending-data record lacks a field that its operation needs.
    MissingPendingData(PendingField),
    /// A pending-data record holds a field that cannot be read.
    MalformedPendingData(PendingField),
    /// A sequence entry does not hold an integer.
    ParseInt,
    /// A timestamp entry does not hold a timestamp.
    DateParse,
}

/// The name of a pending-data field, as the queue table spells it.
pub open spec fn field_name(f: PendingField) -> Seq<char> {
    match f {
        PendingField::Tablename => "tablename"@,
        PendingField::Op => "op"@,
        PendingField::OldData => "olddata"@,
        PendingField::NewData => "newdata"@,
        PendingField::Keys => "keys"@,
        PendingField::KeyColumn => "key column"@,
    }
}

/// `expected <expected> but got <got>`.
pub open spec fn expected_got(expected: i32, got: i32) -> Seq<char> {
    "expected "@ + int_text(expected as int) + " but got "@ + int_text(got as int)
}

/// The message that describes an error to an operator.
pub open spec fn error_message(e: MbLightError) -> Seq<char> {
    match e {
        MbLightError::NotFound => "Next replication packet not found"@,
        MbLightError::SequenceMismatch { expected, got } => "Replication sequence mismatch, "@ + expected_got(expected, got),
        MbLightError::SchemaMismatch { expected, got } => "Replication schema mismatch, "@ + expected_got(expected, got),
        MbLightError::MissingReplicationSequence => "No replication sequence in 'replication_control' table"@,
        MbLightError::SequenceOverflow => "Replication sequence cannot advance any further"@,
        MbLightError::MissingPendingData(f) => "Missing pending data "@ + field_name(f),
        MbLightError::MalformedPendingData(f) => "Malformed pending data "@ + field_name(f),
        MbLightError::ParseInt => "Sequence entry does not hold an integer"@,
        MbLightError::DateParse => "Timestamp entry does not hold a timestamp"@,
    }
}

impl PendingField {
    /// The name of the field, as the queue table spells it.
    pub fn name(&self) -> (r: &'static str)
        ensures
            r@ == field_name(*self),
    {
        match self {
            PendingField::Tablename => "tablename",
            PendingField::Op => "op",
            PendingField::OldData => "olddata",
            PendingField::NewData => "newdata",
            PendingField::Keys => "keys",
            PendingField::KeyColumn => "key column",
        }
    }
}

/// Appends `expected <expected> but got <got>`.
fn push_expected_got(out: &mut String, expected: i32, got: i32)
    ensures
        final(out)@ == old(out)@ + expected_got(expected, got),
{
    out.append("expected ");
    push_int(out, expected as i64);
    out.append(" but got ");
    push_int(out, got as i64);
}

impl MbLightError {
    /// The message that describes the error to an operator.
    pub fn message(&self) -> (r: String)
        ensures
            r@ == error_message(*self),
    {
        match self {
            MbLightError::NotFound => String::from_str("Next replication packet not found"),
            MbLightError::SequenceMismatch { expected, got } => {
                let mut r = String::from_str("Replication sequence mismatch, ");
                push_expected_got(&mut r, *expected, *got);
                r
            },
            MbLightError::SchemaMismatch { expected, got } => {
                let mut r = String::from_str("Replication schema mismatch, ");
                push_expected_got(&mut r, *expected, *got);
                r
            },
            MbLightError::MissingReplicationSequence => String::from_str(
                "No replication sequence in 'replication_control' table",
            ),
            MbLightError::SequenceOverflow => String::from_str("Replication sequence cannot advance any further"),
            MbLightError::MissingPendingData(f) => {
                let mut r = String::from_str("Missing pending data ");
                r.append(f.name());
                r
            },
            MbLightError::MalformedPendingData(f) => {
                let mut r = String::from_str("Malformed pending data ");
                r.append(f.name());
                r
            },
            MbLightError::ParseInt => String::from_str("Sequence entry does not hold an integer"),
            MbLightError::DateParse => String::from_str("Timestamp entry does not hold a timestamp"),
        }
    }
}

} // verus!
