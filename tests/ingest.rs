use musicbrainz_light::dump::{
    bundle_url, copy_statements, dump_bundles, dump_entry_target, has_data_query, latest_url, latest_version,
    should_skip_table, SkipStep,
};
use musicbrainz_light::progress::{format_minutes_seconds, get_progress_bar, minutes_seconds_text, ProgressStyle};
use musicbrainz_light::settings::{DBSettings, MbLightSettingsExt, Settings};

fn target(path: &str) -> Option<(String, String)> {
    dump_entry_target(path)
}

fn pair(a: &str, b: &str) -> Option<(String, String)> {
    Some((a.to_string(), b.to_string()))
}

#[test]
fn entries_outside_mbdump_are_ignored() {
    assert_eq!(target("TIMESTAMP"), None);
    assert_eq!(target("other/artist"), None);
    assert_eq!(target("mbdump"), None);
}

#[test]
fn sanitised_suffix_is_dropped() {
    assert_eq!(target("mbdump/editor_sanitised"), pair("musicbrainz", "editor"));
    assert_eq!(target("mbdump/statistics.statistic_sanitised"), pair("statistics", "statistic"));
}

#[test]
fn empty_allow_lists_load_everything() {
    let s = Settings::default();
    assert_eq!(target("mbdump/artist"), pair("musicbrainz", "artist"));
    assert_eq!(target("mbdump/cover_art_archive.cover_art"), pair("cover_art_archive", "cover_art"));
    assert_eq!(should_skip_table(&s, "musicbrainz", "artist", None, None), SkipStep::AskTableExists);
    assert_eq!(should_skip_table(&s, "musicbrainz", "artist", Some(true), None), SkipStep::AskHasData);
    assert_eq!(should_skip_table(&s, "musicbrainz", "artist", Some(true), Some(false)), SkipStep::Load);
    assert_eq!(
        should_skip_table(&s, "cover_art_archive", "cover_art", Some(true), Some(false)),
        SkipStep::Load
    );
}

#[test]
fn table_allow_list_filters_entries() {
    let mut s = Settings::default();
    s.tables.keep_only = vec!["artist".to_string()];
    assert_eq!(should_skip_table(&s, "musicbrainz", "artist", Some(true), Some(false)), SkipStep::Load);
    assert_eq!(should_skip_table(&s, "cover_art_archive", "cover_art", None, None), SkipStep::Skip);
}

#[test]
fn loaded_or_missing_tables_are_skipped() {
    let s = Settings::default();
    assert_eq!(should_skip_table(&s, "musicbrainz", "artist", Some(true), Some(true)), SkipStep::Skip);
    assert_eq!(should_skip_table(&s, "musicbrainz", "nothing", Some(false), None), SkipStep::Skip);
}

#[test]
fn bundles_follow_schema_allow_list() {
    let all = dump_bundles(&Settings::default());
    assert_eq!(
        all,
        vec![
            "mbdump.tar.bz2",
            "mbdump-derived.tar.bz2",
            "mbdump-stats.tar.bz2",
            "mbdump-cover-art-archive.tar.bz2",
            "mbdump-even-art-archive.tar.bz2",
        ]
    );
    let mut s = Settings::default();
    s.schema.keep_only = vec!["musicbrainz".to_string(), "cover_art_archive".to_string()];
    assert_eq!(
        dump_bundles(&s),
        vec!["mbdump.tar.bz2", "mbdump-derived.tar.bz2", "mbdump-cover-art-archive.tar.bz2"]
    );
}

#[test]
fn urls_and_statements() {
    assert_eq!(latest_url(), "http://ftp.musicbrainz.org/pub/musicbrainz/data/fullexport/LATEST");
    assert_eq!(latest_version("20240301-001001\n"), "20240301-001001");
    assert_eq!(
        bundle_url("20240301-001001", "mbdump.tar.bz2"),
        "http://ftp.musicbrainz.org/pub/musicbrainz/data/fullexport/20240301-001001/mbdump.tar.bz2"
    );
    let c = copy_statements("musicbrainz", "artist");
    assert_eq!(c.set_unlogged, "ALTER TABLE musicbrainz.artist SET UNLOGGED");
    assert_eq!(c.copy_in, "COPY musicbrainz.artist FROM STDIN");
    assert_eq!(c.set_logged, "ALTER TABLE musicbrainz.artist SET LOGGED");
    assert_eq!(has_data_query("musicbrainz", "artist"), "SELECT EXISTS (SELECT 1 FROM musicbrainz.artist LIMIT 1)");
}

#[test]
fn settings_allow_lists_and_url() {
    let mut s = Settings::default();
    assert!(!s.should_skip_table("artist"));
    assert!(!s.should_skip_schema("musicbrainz"));
    s.tables.keep_only = vec!["artist".to_string()];
    s.schema.keep_only = vec!["musicbrainz".to_string()];
    assert!(!s.should_skip_table("artist"));
    assert!(s.should_skip_table("release"));
    assert!(!s.should_skip_schema("musicbrainz"));
    assert!(s.should_skip_schema("statistics"));
    s.db = DBSettings {
        user: "mb".to_string(),
        password: "pw".to_string(),
        host: "localhost".to_string(),
        port: 5432,
        name: "musicbrainz".to_string(),
    };
    assert_eq!(s.db_url(), "postgres://mb:pw@localhost:5432/musicbrainz");
    assert_eq!(s.db_port(), 5432);
}

#[test]
fn elapsed_time_as_minutes_and_seconds() {
    assert_eq!(minutes_seconds_text(0), "00:00");
    assert_eq!(minutes_seconds_text(125), "02:05");
    assert_eq!(minutes_seconds_text(6000), "100:00");
    assert_eq!(format_minutes_seconds(std::time::Duration::from_millis(61_900)), "01:01");
}

#[test]
fn null_progress_accepts_everything() {
    let pb = get_progress_bar(10).unwrap();
    pb.inc(3);
    pb.finish_with_message("done");
    assert!(ProgressStyle::default_bar().template("{bar}").is_ok());
}
