use musicbrainz_light::error::{MbLightError, PendingField};
use musicbrainz_light::pending::{compile_pending, decode_row, PendingData, RowData};
use musicbrainz_light::settings::Settings;
use musicbrainz_light::sql::{sql_literal, Cell};

fn record(tablename: &str, op: char, olddata: Option<&str>, newdata: Option<&str>) -> PendingData {
    PendingData {
        seqid: 1,
        xid: 7,
        tablename: tablename.to_string(),
        op,
        olddata: olddata.map(|s| s.to_string()),
        newdata: newdata.map(|s| s.to_string()),
    }
}

fn keys(names: &[&str]) -> Vec<String> {
    names.iter().map(|s| s.to_string()).collect()
}

#[test]
fn update_with_quoted_text() {
    let d = record("musicbrainz.artist", 'u', Some("{\"id\":1}"), Some("{\"name\":\"O'Brien\"}"));
    let sql = d.to_sql_inline(&keys(&["id"]), &Settings::default()).unwrap();
    assert_eq!(sql.as_deref(), Some("UPDATE musicbrainz.artist SET name='O''Brien' WHERE id=1"));
}

#[test]
fn insert_uses_every_new_column() {
    let d = record(
        "musicbrainz.artist",
        'i',
        None,
        Some("{\"id\":5,\"name\":\"Björk\",\"ended\":false,\"comment\":null}"),
    );
    let sql = d.to_sql_inline(&keys(&["id"]), &Settings::default()).unwrap().unwrap();
    assert_eq!(
        sql,
        "INSERT INTO musicbrainz.artist (comment, ended, id, name) VALUES (NULL, FALSE, 5, 'Björk')"
    );
}

#[test]
fn delete_selects_by_every_key_column() {
    let d = record("musicbrainz.l_artist_url", 'd', Some("{\"entity0\":3,\"entity1\":4,\"edits\":2}"), None);
    let sql = d
        .to_sql_inline(&keys(&["entity0", "entity1"]), &Settings::default())
        .unwrap()
        .unwrap();
    assert_eq!(sql, "DELETE FROM musicbrainz.l_artist_url WHERE entity0=3 AND entity1=4");
}

#[test]
fn update_then_delete_same_key() {
    let k = keys(&["id"]);
    let s = Settings::default();
    let up = record("musicbrainz.artist", 'u', Some("{\"id\":9}"), Some("{\"name\":\"A\"}"));
    let del = record("musicbrainz.artist", 'd', Some("{\"id\":9,\"name\":\"A\"}"), None);
    assert_eq!(
        up.to_sql_inline(&k, &s).unwrap().unwrap(),
        "UPDATE musicbrainz.artist SET name='A' WHERE id=9"
    );
    assert_eq!(del.to_sql_inline(&k, &s).unwrap().unwrap(), "DELETE FROM musicbrainz.artist WHERE id=9");
}

#[test]
fn skipped_table_yields_no_statement() {
    let mut s = Settings::default();
    s.tables.keep_only = vec!["artist".to_string()];
    let d = record("musicbrainz.release", 'i', None, Some("{\"id\":1}"));
    assert_eq!(d.to_sql_inline(&keys(&["id"]), &s), Ok(None));
    let mut s2 = Settings::default();
    s2.schema.keep_only = vec!["musicbrainz".to_string()];
    let d2 = record("cover_art_archive.cover_art", 'd', Some("{\"id\":1}"), None);
    assert_eq!(d2.to_sql_inline(&keys(&["id"]), &s2), Ok(None));
}

#[test]
fn missing_and_malformed_fields() {
    let s = Settings::default();
    let k = keys(&["id"]);
    assert_eq!(
        record("musicbrainz.artist", 'i', None, None).to_sql_inline(&k, &s),
        Err(MbLightError::MissingPendingData(PendingField::NewData))
    );
    assert_eq!(
        record("musicbrainz.artist", 'i', None, Some("not json")).to_sql_inline(&k, &s),
        Err(MbLightError::MalformedPendingData(PendingField::NewData))
    );
    assert_eq!(
        record("musicbrainz.artist", 'i', None, Some("{}")).to_sql_inline(&k, &s),
        Err(MbLightError::MalformedPendingData(PendingField::NewData))
    );
    assert_eq!(
        record("musicbrainz.artist", 'd', None, None).to_sql_inline(&k, &s),
        Err(MbLightError::MissingPendingData(PendingField::OldData))
    );
    assert_eq!(
        record("musicbrainz.artist", 'd', Some("[1]"), None).to_sql_inline(&k, &s),
        Err(MbLightError::MalformedPendingData(PendingField::OldData))
    );
    assert_eq!(
        record("musicbrainz.artist", 'd', Some("{\"name\":\"x\"}"), None).to_sql_inline(&k, &s),
        Err(MbLightError::MissingPendingData(PendingField::KeyColumn))
    );
    assert_eq!(
        record("musicbrainz.artist", 'u', Some("{\"id\":1}"), Some("{\"id\":1}")).to_sql_inline(&Vec::new(), &s),
        Err(MbLightError::MissingPendingData(PendingField::Keys))
    );
    assert_eq!(
        record("musicbrainz.artist", 'x', None, Some("{\"id\":1}")).to_sql_inline(&k, &s),
        Err(MbLightError::MalformedPendingData(PendingField::Op))
    );
    assert_eq!(
        record("artist", 'i', None, Some("{\"id\":1}")).to_sql_inline(&k, &s),
        Err(MbLightError::MalformedPendingData(PendingField::Tablename))
    );
}

#[test]
fn literals_quote_and_pass_through() {
    assert_eq!(sql_literal(&Cell::Null), "NULL");
    assert_eq!(sql_literal(&Cell::Bool(true)), "TRUE");
    assert_eq!(sql_literal(&Cell::Bool(false)), "FALSE");
    assert_eq!(sql_literal(&Cell::Number("-1.5".to_string())), "-1.5");
    assert_eq!(sql_literal(&Cell::Text("it's 'x'".to_string())), "'it''s ''x'''");
    assert_eq!(sql_literal(&Cell::Nested("[1,2]".to_string())), "'[1,2]'");
}

#[test]
fn json_rows_decode_by_variant() {
    match decode_row(&Some("{\"a\":\"t\",\"b\":2,\"c\":[1,\"x\"],\"d\":true}".to_string())) {
        RowData::Columns(cols) => {
            assert_eq!(
                cols,
                vec![
                    ("a".to_string(), Cell::Text("t".to_string())),
                    ("b".to_string(), Cell::Number("2".to_string())),
                    ("c".to_string(), Cell::Nested("[1,\"x\"]".to_string())),
                    ("d".to_string(), Cell::Bool(true)),
                ]
            );
        }
        other => panic!("unexpected {:?}", other),
    }
    assert!(matches!(decode_row(&None), RowData::Absent));
    assert!(matches!(decode_row(&Some("{".to_string())), RowData::Malformed));
}

#[test]
fn compile_from_decoded_rows() {
    let new = RowData::Columns(vec![("name".to_string(), Cell::Text("x".to_string()))]);
    let old = RowData::Columns(vec![("id".to_string(), Cell::Number("4".to_string()))]);
    assert_eq!(
        compile_pending("musicbrainz.label", 'u', &old, &new, &keys(&["id"])),
        Ok("UPDATE musicbrainz.label SET name='x' WHERE id=4".to_string())
    );
    assert_eq!(
        compile_pending("musicbrainz.label", 'd', &RowData::Absent, &new, &keys(&["id"])),
        Err(MbLightError::MissingPendingData(PendingField::OldData))
    );
}
