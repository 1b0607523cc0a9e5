use musicbrainz_light::apply::{compile_batch, retain_applicable, truncate_statements, xid_groups, XidRange};
use musicbrainz_light::control::{ReplicationControl, Timestamp};
use musicbrainz_light::driver::{driver_step, DriverEvent, DriverState, SyncAction, SyncLoop};
use musicbrainz_light::error::{MbLightError, PendingField};
use musicbrainz_light::packet::{
    entry_kind, extract_timestamp, normalize_timestamp, parse_sequence, EntryKind, PacketProgress, SchemaAction,
};
use musicbrainz_light::pending::{PendingData, PendingKeys};
use musicbrainz_light::settings::Settings;

fn control(schema: i32, replication: i32) -> ReplicationControl {
    ReplicationControl {
        current_schema_sequence: Some(schema),
        current_replication_sequence: Some(replication),
        last_replication_date: Some(Timestamp { secs: 1_700_000_000, nanos: 0 }),
    }
}

fn row(seqid: i64, xid: i64, table: &str, id: i64) -> PendingData {
    PendingData {
        seqid,
        xid,
        tablename: table.to_string(),
        op: 'i',
        olddata: None,
        newdata: Some(format!("{{\"id\":{}}}", id)),
    }
}

#[test]
fn replication_sequence_mismatch() {
    let p = PacketProgress::begin(control(27, 10)).unwrap();
    assert_eq!(p.next_sequence, 11);
    assert_eq!(
        p.check_replication_sequence("12\n"),
        Err(MbLightError::SequenceMismatch { expected: 11, got: 12 })
    );
    assert_eq!(
        p.check_replication_sequence("10"),
        Err(MbLightError::SequenceMismatch { expected: 11, got: 10 })
    );
    assert_eq!(p.check_replication_sequence(" 11 \n"), Ok(()));
    assert_eq!(p.check_replication_sequence("eleven"), Err(MbLightError::ParseInt));
}

#[test]
fn schema_upgrade_advances_both_sequences() {
    let mut p = PacketProgress::begin(control(27, 10)).unwrap();
    assert_eq!(p.check_schema_sequence("28\n"), Ok(SchemaAction::Upgrade(28)));
    let now = Timestamp { secs: 1_700_000_100, nanos: 5 };
    let next = p.finish(now).unwrap();
    assert_eq!(next.current_schema_sequence, Some(28));
    assert_eq!(next.current_replication_sequence, Some(11));
    assert_eq!(next.last_replication_date, Some(now));
}

#[test]
fn schema_sequence_boundaries() {
    let mut p = PacketProgress::begin(control(27, 10)).unwrap();
    assert_eq!(p.check_schema_sequence("27"), Ok(SchemaAction::Continue));
    assert_eq!(p.schema_upgrade, None);
    assert_eq!(
        p.check_schema_sequence("29"),
        Err(MbLightError::SchemaMismatch { expected: 27, got: 29 })
    );
    assert_eq!(
        p.check_schema_sequence("26"),
        Err(MbLightError::SchemaMismatch { expected: 27, got: 26 })
    );
    let next = p.finish(Timestamp { secs: 1, nanos: 0 }).unwrap();
    assert_eq!(next.current_schema_sequence, Some(27));
    assert_eq!(next.current_replication_sequence, Some(11));
}

#[test]
fn cursor_needs_both_sequences() {
    let empty = ReplicationControl {
        current_schema_sequence: None,
        current_replication_sequence: None,
        last_replication_date: None,
    };
    assert_eq!(empty.next_replication_sequence(), Err(MbLightError::MissingReplicationSequence));
    assert_eq!(PacketProgress::begin(empty), Err(MbLightError::MissingReplicationSequence));
    assert_eq!(empty.is_next(3), Err(MbLightError::MissingReplicationSequence));
    let top = control(1, i32::MAX);
    assert_eq!(top.next_replication_sequence(), Err(MbLightError::SequenceOverflow));
    let c = control(27, 10);
    assert_eq!(c.is_next(28), Ok(true));
    assert_eq!(c.is_next(27), Ok(false));
    assert!(c.schema_sequence_match(27));
    assert!(!c.schema_sequence_match(28));
}

#[test]
fn packet_url_has_sequence_and_token() {
    let c = control(27, 10);
    assert_eq!(
        c.next_replication_packet_url("https://metabrainz.org/api/musicbrainz", "SECRET-REDACTED").unwrap(),
        "https://metabrainz.org/api/musicbrainz/replication-packets/replication-11.tar.bz2?token=SECRET-REDACTED"
    );
}

#[test]
fn timestamp_with_hour_offset_is_utc() {
    assert_eq!(normalize_timestamp(" 2024-03-01 12:00:00.123+00\n"), "2024-03-01 12:00:00.123+00:00");
    assert_eq!(
        extract_timestamp("2024-03-01 12:00:00.123+00"),
        Ok(Timestamp { secs: 1_709_294_400, nanos: 123_000_000 })
    );
    assert_eq!(
        extract_timestamp("2024-03-01 13:00:00-00"),
        Ok(Timestamp { secs: 1_709_298_000, nanos: 0 })
    );
    assert_eq!(
        extract_timestamp("2024-03-01 14:00:00+02:00"),
        Ok(Timestamp { secs: 1_709_294_400, nanos: 0 })
    );
    assert_eq!(extract_timestamp("yesterday"), Err(MbLightError::DateParse));
}

#[test]
fn entries_dispatch_by_file_name() {
    assert_eq!(entry_kind("mbdump/pending_data"), EntryKind::PendingData);
    assert_eq!(entry_kind("pending_keys"), EntryKind::PendingKeys);
    assert_eq!(entry_kind("./REPLICATION_SEQUENCE"), EntryKind::ReplicationSequence);
    assert_eq!(entry_kind("SCHEMA_SEQUENCE"), EntryKind::SchemaSequence);
    assert_eq!(entry_kind("x/TIMESTAMP"), EntryKind::Timestamp);
    assert_eq!(entry_kind("COPYING"), EntryKind::Other);
    assert_eq!(entry_kind("TIMESTAMP/"), EntryKind::Other);
}

#[test]
fn sequences_parse_like_i32() {
    assert_eq!(parse_sequence("42"), Ok(42));
    assert_eq!(parse_sequence("\t+7 \r\n"), Ok(7));
    assert_eq!(parse_sequence("-2147483648"), Ok(i32::MIN));
    assert_eq!(parse_sequence("2147483647"), Ok(i32::MAX));
    assert_eq!(parse_sequence("2147483648"), Err(MbLightError::ParseInt));
    assert_eq!(parse_sequence(""), Err(MbLightError::ParseInt));
    assert_eq!(parse_sequence("-"), Err(MbLightError::ParseInt));
    assert_eq!(parse_sequence("1 2"), Err(MbLightError::ParseInt));
}

#[test]
fn resumption_applies_leftover_rows_first() {
    let start = driver_step(DriverState::Start, DriverEvent::QueueChecked { pending: true }).unwrap();
    assert_eq!(start, DriverState::Apply { resumed: true });
    let adv = driver_step(start, DriverEvent::Applied).unwrap();
    assert_eq!(adv, DriverState::Advance { resumed: true });
    assert_eq!(driver_step(adv, DriverEvent::Advanced), Some(DriverState::Start));
    assert_eq!(
        driver_step(DriverState::Start, DriverEvent::QueueChecked { pending: false }),
        Some(DriverState::Fetch)
    );
    assert_eq!(driver_step(DriverState::Fetch, DriverEvent::Applied), None);

    let rows: Vec<PendingData> = (0..5).map(|i| row(i, 100, "musicbrainz.artist", i)).collect();
    let keys = vec![PendingKeys { tablename: "musicbrainz.artist".to_string(), keys: vec!["id".to_string()] }];
    let s = Settings::default();
    let kept = retain_applicable(rows, &s);
    let groups = xid_groups(&kept);
    assert_eq!(groups, vec![XidRange { xid: 100, start: 0, end: 5 }]);
    let batch = compile_batch(&kept, groups[0], &keys, &s).unwrap();
    assert_eq!(batch.xid, 100);
    assert_eq!(batch.statements.len(), 6);
    assert_eq!(batch.statements[0], "INSERT INTO musicbrainz.artist (id) VALUES (0)");
    assert_eq!(batch.statements[5], "DELETE FROM dbmirror2.pending_data WHERE xid = 100");
    assert_eq!(
        truncate_statements(),
        vec!["TRUNCATE dbmirror2.pending_data".to_string(), "TRUNCATE dbmirror2.pending_keys".to_string()]
    );
}

#[test]
fn rows_group_by_consecutive_xid() {
    let rows = vec![
        row(1, 5, "musicbrainz.artist", 1),
        row(2, 5, "musicbrainz.artist", 2),
        row(3, -6, "musicbrainz.artist", 3),
        row(4, 5, "musicbrainz.artist", 4),
    ];
    assert_eq!(
        xid_groups(&rows),
        vec![
            XidRange { xid: 5, start: 0, end: 2 },
            XidRange { xid: -6, start: 2, end: 3 },
            XidRange { xid: 5, start: 3, end: 4 },
        ]
    );
    assert_eq!(xid_groups(&Vec::new()), Vec::new());
    let s = Settings::default();
    let batch = compile_batch(&rows, XidRange { xid: -6, start: 2, end: 3 }, &Vec::new(), &s).unwrap();
    assert_eq!(batch.statements[1], "DELETE FROM dbmirror2.pending_data WHERE xid = -6");
}

#[test]
fn xid_group_fails_whole() {
    let mut rows = vec![row(1, 8, "musicbrainz.artist", 1), row(2, 8, "musicbrainz.artist", 2)];
    rows[1].newdata = Some("oops".to_string());
    let s = Settings::default();
    assert_eq!(
        compile_batch(&rows, XidRange { xid: 8, start: 0, end: 2 }, &Vec::new(), &s).map(|b| b.statements),
        Err(MbLightError::MalformedPendingData(PendingField::NewData))
    );
}

#[test]
fn skipped_rows_are_dropped_before_grouping() {
    let rows = vec![
        row(1, 1, "musicbrainz.artist", 1),
        row(2, 1, "cover_art_archive.cover_art", 2),
        row(3, 2, "musicbrainz.release", 3),
    ];
    let mut s = Settings::default();
    s.tables.keep_only = vec!["artist".to_string(), "release".to_string()];
    let kept = retain_applicable(rows, &s);
    let names: Vec<&str> = kept.iter().map(|d| d.tablename.as_str()).collect();
    assert_eq!(names, vec!["musicbrainz.artist", "musicbrainz.release"]);
}

#[test]
fn sync_loop_signals_once_at_end() {
    let mut l = SyncLoop::new(true, true);
    assert_eq!(l.on_outcome(Ok(())).action, SyncAction::Continue);
    let d = l.on_outcome(Err(MbLightError::NotFound));
    assert_eq!(d.action, SyncAction::Wait);
    assert!(d.send_reindex_signal);
    let d = l.on_outcome(Err(MbLightError::NotFound));
    assert!(!d.send_reindex_signal);
    let mut once = SyncLoop::new(false, false);
    let d = once.on_outcome(Err(MbLightError::NotFound));
    assert_eq!(d.action, SyncAction::Stop);
    assert!(!d.send_reindex_signal);
    let d = once.on_outcome(Err(MbLightError::ParseInt));
    assert_eq!(d.action, SyncAction::Fail(MbLightError::ParseInt));
}

#[test]
fn error_messages_name_the_values() {
    assert_eq!(
        MbLightError::SequenceMismatch { expected: 11, got: 12 }.message(),
        "Replication sequence mismatch, expected 11 but got 12"
    );
    assert_eq!(
        MbLightError::SchemaMismatch { expected: 27, got: -3 }.message(),
        "Replication schema mismatch, expected 27 but got -3"
    );
    assert_eq!(
        MbLightError::MissingPendingData(PendingField::KeyColumn).message(),
        "Missing pending data key column"
    );
    assert_eq!(MbLightError::NotFound.message(), "Next replication packet not found");
}
