//! The decisions of the replication driver and of the sync loop around it. The caller
//! performs each step (a query, a download, a transaction) and reports what came of it.
use vstd::prelude::*;

use crate::apply::{batch_statements, XidRange};
use crate::control::{advanced_control, ReplicationControl, Timestamp};
use crate::error::MbLightError;
use crate::pending::{PendingData, PendingKeys};

verus! {

/// Run once before replication starts: upstream checks that each queued row names an
/// existing table, which rows of tables left out at bootstrap would fail.
pub const DROP_TABLENAME_CHECK: &'static str =
    "ALTER TABLE dbmirror2.pending_data DROP CONSTRAINT IF EXISTS tablename_exists;";

/// Where the driver stands within one packet.
#[derive(Debug, Clone, Copy, PartialEq, Eq, Structural)]
pub enum DriverState {
    /// Look whether an earlier run left rows in the queue.
    Start,
    /// Download the next packet and open it.
    Fetch,
    /// Go through the packet's entries.
    Scan,
    /// Replay the queued rows, one transaction per xid, then empty the queue.
    Apply { resumed: bool },
    /// Write the advanced cursor back.
    Advance { resumed: bool },
    /// The packet is applied.
    Done,
}

/// What the caller reports after performing the step of a state.
#[derive(Debug, Clone, Copy, PartialEq, Eq, Structural)]
pub enum DriverEvent {
    /// Whether the queue holds rows.
    QueueChecked { pending: bool },
    /// The packet was downloaded and opened.
    Fetched,
    /// Every entry of the packet was handled.
    Scanned,
    /// The queue was replayed and emptied.
    Applied,
    /// The cursor was written back.
    Advanced,
}

/// The state after `event` in `state`; `None` when the event does not belong there.
/// Rows left by an interrupted run are applied and the cursor advanced before any new
/// packet is fetched.
pub open spec fn next_state(state: DriverState, event: DriverEvent) -> Option<DriverState> {
    match (state, event) {
        (DriverState::Start, DriverEvent::QueueChecked { pending }) => if pending {
            Some(DriverState::Apply { resumed: true })
        } else {
            Some(DriverState::Fetch)
        },
        (DriverState::Fetch, DriverEvent::Fetched) => Some(DriverState::Scan),
        (DriverState::Scan, DriverEvent::Scanned) => Some(DriverState::Apply { resumed: false }),
        (DriverState::Apply { resumed }, DriverEvent::Applied) => Some(DriverState::Advance { resumed }),
        (DriverState::Advance { resumed }, DriverEvent::Advanced) => if resumed {
            Some(DriverState::Start)
        } else {
            Some(DriverState::Done)
        },
        _ => None,
    }
}

/// Moves the driver on.
pub fn driver_step(state: DriverState, event: DriverEvent) -> (r: Option<DriverState>)
    ensures
        r == next_state(state, event),
{
    match (state, event) {
        (DriverState::Start, DriverEvent::QueueChecked { pending }) => if pending {
            Some(DriverState::Apply { resumed: true })
        } else {
            Some(DriverState::Fetch)
        },
        (DriverState::Fetch, DriverEvent::Fetched) => Some(DriverState::Scan),
        (DriverState::Scan, DriverEvent::Scanned) => Some(DriverState::Apply { resumed: false }),
        (DriverState::Apply { resumed }, DriverEvent::Applied) => Some(DriverState::Advance { resumed }),
        (DriverState::Advance { resumed }, DriverEvent::Advanced) => if resumed {
            Some(DriverState::Start)
        } else {
            Some(DriverState::Done)
        },
        _ => None,
    }
}

/// A run that finds rows left in the queue applies them and advances the cursor before
/// it goes back to fetch a packet: the interrupted packet is finished as it would have
/// been.
pub proof fn lemma_resume_finishes_interrupted_packet()
    ensures
        next_state(DriverState::Start, DriverEvent::QueueChecked { pending: true }) == Some(
            DriverState::Apply { resumed: true },
        ),
        next_state(DriverState::Apply { resumed: true }, DriverEvent::Applied) == Some(
            DriverState::Advance { resumed: true },
        ),
        next_state(DriverState::Advance { resumed: true }, DriverEvent::Advanced) == Some(DriverState::Start),
        next_state(DriverState::Start, DriverEvent::QueueChecked { pending: false }) == Some(DriverState::Fetch),
{
}

/// The transaction for a run of one xid depends on the rows of that run alone: once
/// earlier runs are committed and gone from the queue, a resumed apply replays the
/// remaining runs exactly as the interrupted one would have.
pub proof fn lemma_batch_depends_on_its_rows_alone(
    rows: Seq<PendingData>,
    range: XidRange,
    all_keys: Seq<PendingKeys>,
    schemas: Seq<Seq<char>>,
    tables: Seq<Seq<char>>,
)
    requires
        range.start <= range.end <= rows.len(),
    ensures
        batch_statements(rows, range, all_keys, schemas, tables) == batch_statements(
            rows.subrange(range.start as int, range.end as int),
            XidRange { xid: range.xid, start: 0, end: (range.end - range.start) as usize },
            all_keys,
            schemas,
            tables,
        ),
{
    let seg = rows.subrange(range.start as int, range.end as int);
    assert(seg.subrange(0, seg.len() as int) == seg);
}

/// A resumed packet writes back the cursor that a clean finish would have, when the
/// interrupted packet ran no schema upgrade (a resumed run does not know of one).
pub proof fn lemma_resume_advances_like_clean_finish(
    c: ReplicationControl,
    schema_upgrade: Option<i32>,
    now: Timestamp,
)
    requires
        schema_upgrade matches Some(u) ==> c.current_schema_sequence matches Some(s) && u <= s,
    ensures
        advanced_control(c, None, now) == advanced_control(c, schema_upgrade, now),
{
}

/// What the sync loop does after a packet attempt.
#[derive(Debug, Clone, Copy, PartialEq, Eq, Structural)]
pub enum SyncAction {
    /// Go on with the next packet.
    Continue,
    /// Wait for a fresh packet, then try again.
    Wait,
    /// Stop: there is nothing more to apply.
    Stop,
    /// Stop with this error.
    Fail(MbLightError),
}

/// How long the loop waits for a fresh packet, in seconds.
pub const WAIT_FOR_PACKET_SECS: u64 = 900;

/// The sync loop's decision after a packet attempt, and whether to send the reindex signal.
#[derive(Debug, Clone, Copy, PartialEq, Eq, Structural)]
pub struct SyncDecision {
    pub action: SyncAction,
    pub send_reindex_signal: bool,
}

/// The state of the sync loop.
#[derive(Debug, Clone, Copy, PartialEq, Eq, Structural)]
pub struct SyncLoop {
    /// Keep waiting for packets instead of stopping at the end of the queue.
    pub infinite: bool,
    /// Someone listens for the reindex signal.
    pub has_signaler: bool,
    /// The end of the queue was reached and no packet applied since.
    pub at_end: bool,
}

/// The decision after an attempt that ended with `outcome`: a missing packet is the
/// end of the queue, where the loop waits or stops and signals once per arrival at
/// the end; any other error stops the loop.
pub open spec fn sync_decision(s: SyncLoop, outcome: Result<(), MbLightError>) -> (SyncDecision, SyncLoop) {
    match outcome {
        Ok(()) => (
            SyncDecision { action: SyncAction::Continue, send_reindex_signal: false },
            SyncLoop { at_end: false, ..s },
        ),
        Err(MbLightError::NotFound) => (
            SyncDecision {
                action: if s.infinite { SyncAction::Wait } else { SyncAction::Stop },
                send_reindex_signal: s.has_signaler && !s.at_end,
            },
            SyncLoop { at_end: true, ..s },
        ),
        Err(e) => (
            SyncDecision { action: SyncAction::Fail(e), send_reindex_signal: false },
            s,
        ),
    }
}

impl SyncLoop {
    /// A loop that has not reached the end of the queue yet.
    pub fn new(infinite: bool, has_signaler: bool) -> (r: SyncLoop)
        ensures
            r == (SyncLoop { infinite, has_signaler, at_end: false }),
    {
        SyncLoop { infinite, has_signaler, at_end: false }
    }

    /// Decides after a packet attempt.
    pub fn on_outcome(&mut self, outcome: Result<(), MbLightError>) -> (r: SyncDecision)
        ensures
            (r, *final(self)) == sync_decision(*old(self), outcome),
    {
        match outcome {
            Ok(()) => {
                self.at_end = false;
                SyncDecision { action: SyncAction::Continue, send_reindex_signal: false }
            },
            Err(MbLightError::NotFound) => {
                let signal = self.has_signaler && !self.at_end;
                self.at_end = true;
                let action = if self.infinite { SyncAction::Wait } else { SyncAction::Stop };
                SyncDecision { action, send_reindex_signal: signal }
            },
            Err(e) => SyncDecision { action: SyncAction::Fail(e), send_reindex_signal: false },
        }
    }
}

} // verus!
