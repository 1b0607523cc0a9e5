use musicbrainz_light::bootstrap::{
    post_load_scripts, schema_change_path, schema_statements, scripts_to_run, strip_meta_commands, table_scripts,
};
use musicbrainz_light::settings::Settings;
use musicbrainz_light::text::split_once_char;

#[test]
fn meta_commands_are_left_out() {
    assert_eq!(
        strip_meta_commands("\\set ON_ERROR_STOP 1\nBEGIN;\n  \\echo hi\r\nCREATE TABLE t (id int);\r\nCOMMIT;\n"),
        "BEGIN;\nCREATE TABLE t (id int);\nCOMMIT;"
    );
    assert_eq!(strip_meta_commands(""), "");
    assert_eq!(strip_meta_commands("\n\nSELECT 1"), "\n\nSELECT 1");
    assert_eq!(strip_meta_commands("\\i other.sql"), "");
    assert_eq!(strip_meta_commands("SELECT '\\\\';"), "SELECT '\\\\';");
}

#[test]
fn schemas_follow_allow_list() {
    let all = schema_statements(&Settings::default());
    assert_eq!(all.len(), 7);
    assert_eq!(all[0], "CREATE SCHEMA IF NOT EXISTS musicbrainz");
    assert_eq!(all[6], "CREATE SCHEMA IF NOT EXISTS dbmirror2");
    let mut s = Settings::default();
    s.schema.keep_only = vec!["musicbrainz".to_string(), "dbmirror2".to_string()];
    assert_eq!(
        schema_statements(&s),
        vec!["CREATE SCHEMA IF NOT EXISTS musicbrainz", "CREATE SCHEMA IF NOT EXISTS dbmirror2"]
    );
}

#[test]
fn scripts_follow_allow_list() {
    let mut s = Settings::default();
    assert_eq!(scripts_to_run(&s, &table_scripts()).len(), 8);
    assert_eq!(scripts_to_run(&s, &post_load_scripts()).len(), 21);
    s.schema.keep_only = vec!["musicbrainz".to_string()];
    assert_eq!(
        scripts_to_run(&s, &table_scripts()),
        vec!["CreateCollations.sql", "CreateTypes.sql", "CreateTables.sql"]
    );
    let post = scripts_to_run(&s, &post_load_scripts());
    assert_eq!(post.first().map(String::as_str), Some("CreatePrimaryKeys.sql"));
    assert_eq!(post.last().map(String::as_str), Some("ReplicationSetup.sql"));
    assert_eq!(post.len(), 8);
}

#[test]
fn schema_change_script_path() {
    assert_eq!(schema_change_path(28), "admin/sql/update/schema-change/28.all.sql");
}

#[test]
fn split_at_first_dot() {
    assert_eq!(
        split_once_char("a.b.c", '.'),
        Some(("a".to_string(), "b.c".to_string()))
    );
    assert_eq!(split_once_char("abc", '.'), None);
    assert_eq!(split_once_char(".x", '.'), Some((String::new(), "x".to_string())));
}
