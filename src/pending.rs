//! Captured row changes (`dbmirror2.pending_data` and `dbmirror2.pending_keys`) and
//! the compiler that turns each into the SQL statement that replays it.
use vstd::prelude::*;

use crate::error::{MbLightError, PendingField};
use crate::settings::{skipped_by, MbLightSettingsExt};
use crate::sql::{
    columns_view, delete_sql, insert_sql, key_condition_items, keys_present, update_sql,
    delete_statement, insert_statement, update_statement, Cell, CellView,
};
use crate::text::{split_once, split_once_char, texts};

verus! {

/// One captured row change.
#[derive(Debug, Clone)]
pub struct PendingData {
    /// Order of capture within a packet.
    pub seqid: i64,
    /// Upstream transaction: the unit of atomicity.
    pub xid: i64,
    /// `schema.table`, as written upstream.
    pub tablename: String,
    /// `i` insert, `u` update, `d` delete.
    pub op: char,
    /// The row before the change, as a JSON object.
    pub olddata: Option<String>,
    /// The row after the change, as a JSON object.
    pub newdata: Option<String>,
}

/// The key columns that locate a row of `tablename`.
#[derive(Debug, Clone)]
pub struct PendingKeys {
    pub tablename: String,
    pub keys: Vec<String>,
}

/// A row field of a record, once decoded.
#[derive(Debug, Clone)]
pub enum RowData {
    /// The record holds no such field.
    Absent,
    /// The field is not a JSON object.
    Malformed,
    /// The members of the object, in order.
    Columns(Vec<(String, Cell)>),
}

/// What a `RowData` holds.
pub enum RowDataView {
    Absent,
    Malformed,
    Columns(Seq<(Seq<char>, CellView)>),
}

impl View for RowData {
    type V = RowDataView;

    open spec fn view(&self) -> RowDataView {
        match self {
            RowData::Absent => RowDataView::Absent,
            RowData::Malformed => RowDataView::Malformed,
            RowData::Columns(c) => RowDataView::Columns(columns_view(c@)),
        }
    }
}

/// The members of the JSON object written in `text`, in the order `serde_json` gives
/// them, or `None` when `text` is not a JSON object.
pub uninterp spec fn json_object_columns(text: Seq<char>) -> Option<Seq<(Seq<char>, CellView)>>;

/// A row field, decoded.
pub open spec fn decoded(field: Option<String>) -> RowDataView {
    match field {
        None => RowDataView::Absent,
        Some(t) => match json_object_columns(t@) {
            Some(c) => RowDataView::Columns(c),
            None => RowDataView::Malformed,
        },
    }
}

/// The columns of the row after the change, which must name at least one column.
pub open spec fn new_columns(new: RowDataView) -> Result<Seq<(Seq<char>, CellView)>, MbLightError> {
    match new {
        RowDataView::Absent => Err(MbLightError::MissingPendingData(PendingField::NewData)),
        RowDataView::Malformed => Err(MbLightError::MalformedPendingData(PendingField::NewData)),
        RowDataView::Columns(c) => if c.len() == 0 {
            Err(MbLightError::MalformedPendingData(PendingField::NewData))
        } else {
            Ok(c)
        },
    }
}

/// The columns of the row before the change, which must give a value to every key column.
pub open spec fn old_key_columns(old: RowDataView, keys: Seq<Seq<char>>) -> Result<
    Seq<(Seq<char>, CellView)>,
    MbLightError,
> {
    if keys.len() == 0 {
        Err(MbLightError::MissingPendingData(PendingField::Keys))
    } else {
        match old {
            RowDataView::Absent => Err(MbLightError::MissingPendingData(PendingField::OldData)),
            RowDataView::Malformed => Err(MbLightError::MalformedPendingData(PendingField::OldData)),
            RowDataView::Columns(c) => if keys_present(c, keys) {
                Ok(c)
            } else {
                Err(MbLightError::MissingPendingData(PendingField::KeyColumn))
            },
        }
    }
}

/// The statement that replays a change of `op` on `table`: an insert of the new row,
/// an update of the row that the key columns of the old row select, or its deletion.
pub open spec fn compiled(
    table: Seq<char>,
    op: char,
    old: RowDataView,
    new: RowDataView,
    keys: Seq<Seq<char>>,
) -> Result<Seq<char>, MbLightError> {
    if op == 'i' {
        match new_columns(new) {
            Ok(n) => Ok(insert_sql(table, n)),
            Err(e) => Err(e),
        }
    } else if op == 'u' {
        match new_columns(new) {
            Ok(n) => match old_key_columns(old, keys) {
                Ok(o) => Ok(update_sql(table, n, o, keys)),
                Err(e) => Err(e),
            },
            Err(e) => Err(e),
        }
    } else if op == 'd' {
        match old_key_columns(old, keys) {
            Ok(o) => Ok(delete_sql(table, o, keys)),
            Err(e) => Err(e),
        }
    } else {
        Err(MbLightError::MalformedPendingData(PendingField::Op))
    }
}

/// Whether the allow-lists leave out `schema.table`; a name without a dot names no
/// table and is left in.
pub open spec fn table_skipped(tablename: Seq<char>, schemas: Seq<Seq<char>>, tables: Seq<Seq<char>>) -> bool {
    match split_once(tablename, '.') {
        Some((schema, table)) => skipped_by(schemas, schema) || skipped_by(tables, table),
        None => false,
    }
}

/// What the compiler gives for a record: no statement for a skipped table, and
/// otherwise the statement that `compiled` describes.
pub open spec fn record_statement(
    d: PendingData,
    keys: Seq<Seq<char>>,
    schemas: Seq<Seq<char>>,
    tables: Seq<Seq<char>>,
) -> Result<Option<Seq<char>>, MbLightError> {
    if split_once(d.tablename@, '.') is None {
        Err(MbLightError::MalformedPendingData(PendingField::Tablename))
    } else if table_skipped(d.tablename@, schemas, tables) {
        Ok(None)
    } else {
        match compiled(d.tablename@, d.op, decoded(d.olddata), decoded(d.newdata), keys) {
            Ok(s) => Ok(Some(s)),
            Err(e) => Err(e),
        }
    }
}

/// The text of a compiled statement.
pub open spec fn statement_view(r: Result<Option<String>, MbLightError>) -> Result<Option<Seq<char>>, MbLightError> {
    match r {
        Ok(Some(s)) => Ok(Some(s@)),
        Ok(None) => Ok(None),
        Err(e) => Err(e),
    }
}

/// Relies on `serde_json::from_str` into a `serde_json::Map<String, serde_json::Value>`:
/// the members of a JSON object, each value handed on by its variant (numbers, arrays
/// and objects in their JSON notation), or `None` when `text` is not a JSON object.
#[verifier::external_body]
fn decode_json_object(text: &str) -> (r: Option<Vec<(String, Cell)>>)
    ensures
        match r {
            Some(cols) => json_object_columns(text@) == Some(columns_view(cols@)),
            None => json_object_columns(text@) is None,
        },
{
    let map: serde_json::Map<String, serde_json::Value> = serde_json::from_str(text).ok()?;
    Some(map.into_iter().map(|(name, value)| (name, match value {
        serde_json::Value::Null => Cell::Null,
        serde_json::Value::Bool(b) => Cell::Bool(b),
        serde_json::Value::Number(n) => Cell::Number(n.to_string()),
        serde_json::Value::String(s) => Cell::Text(s),
        nested => Cell::Nested(nested.to_string()),
    })).collect())
}

/// Decodes a row field of a record.
pub fn decode_row(field: &Option<String>) -> (r: RowData)
    ensures
        r@ == decoded(*field),
{
    match field {
        None => RowData::Absent,
        Some(text) => match decode_json_object(text.as_str()) {
            Some(cols) => RowData::Columns(cols),
            None => RowData::Malformed,
        },
    }
}

/// The text of a compiled statement, or its error.
pub open spec fn text_result(r: Result<String, MbLightError>) -> Result<Seq<char>, MbLightError> {
    match r {
        Ok(s) => Ok(s@),
        Err(e) => Err(e),
    }
}

/// The columns of a decoded new row, checked as `new_columns` says.
fn checked_new_columns(new: &RowData) -> (r: Result<&Vec<(String, Cell)>, MbLightError>)
    ensures
        match r {
            Ok(c) => new_columns(new@) == Ok::<_, MbLightError>(columns_view(c@)),
            Err(e) => new_columns(new@) == Err::<Seq<(Seq<char>, CellView)>, _>(e),
        },
{
    match new {
        RowData::Absent => Err(MbLightError::MissingPendingData(PendingField::NewData)),
        RowData::Malformed => Err(MbLightError::MalformedPendingData(PendingField::NewData)),
        RowData::Columns(c) => if c.len() == 0 {
            Err(MbLightError::MalformedPendingData(PendingField::NewData))
        } else {
            Ok(c)
        },
    }
}

/// The `key=literal` conditions that select the old row, checked as `old_key_columns` says.
fn checked_key_conditions(old: &RowData, keys: &Vec<String>) -> (r: Result<Vec<String>, MbLightError>)
    ensures
        match r {
            Ok(conds) => old_key_columns(old@, texts(keys@)) is Ok
                && texts(conds@) == crate::sql::key_conditions(
                    old_key_columns(old@, texts(keys@))->Ok_0,
                    texts(keys@),
                ),
            Err(e) => old_key_columns(old@, texts(keys@)) == Err::<Seq<(Seq<char>, CellView)>, _>(e),
        },
{
    if keys.len() == 0 {
        return Err(MbLightError::MissingPendingData(PendingField::Keys));
    }
    match old {
        RowData::Absent => Err(MbLightError::MissingPendingData(PendingField::OldData)),
        RowData::Malformed => Err(MbLightError::MalformedPendingData(PendingField::OldData)),
        RowData::Columns(c) => match key_condition_items(c, keys) {
            Some(conds) => Ok(conds),
            None => Err(MbLightError::MissingPendingData(PendingField::KeyColumn)),
        },
    }
}

/// Compiles a change of `op` on `table` from its decoded rows and the table's key columns.
pub fn compile_pending(
    table: &str,
    op: char,
    old: &RowData,
    new: &RowData,
    keys: &Vec<String>,
) -> (r: Result<String, MbLightError>)
    ensures
        text_result(r) == compiled(table@, op, old@, new@, texts(keys@)),
{
    if op == 'i' {
        let n = checked_new_columns(new)?;
        Ok(insert_statement(table, n))
    } else if op == 'u' {
        let n = checked_new_columns(new)?;
        let conds = checked_key_conditions(old, keys)?;
        Ok(update_statement(table, n, &conds))
    } else if op == 'd' {
        let conds = checked_key_conditions(old, keys)?;
        Ok(delete_statement(table, &conds))
    } else {
        Err(MbLightError::MalformedPendingData(PendingField::Op))
    }
}

impl PendingData {
    /// The schema and the table that the record names.
    pub fn split_table_schema(&self) -> (r: Option<(String, String)>)
        ensures
            match r {
                Some((schema, table)) => split_once(self.tablename@, '.') == Some((schema@, table@)),
                None => split_once(self.tablename@, '.') is None,
            },
    {
        split_once_char(self.tablename.as_str(), '.')
    }

    /// Whether the settings leave out the table that the record names.
    pub fn is_skipped<S: MbLightSettingsExt>(&self, settings: &S) -> (r: bool)
        ensures
            r == table_skipped(self.tablename@, settings.schema_allow_list(), settings.table_allow_list()),
    {
        match self.split_table_schema() {
            Some((schema, table)) => settings.should_skip_schema(schema.as_str())
                || settings.should_skip_table(table.as_str()),
            None => false,
        }
    }

    /// The statement that replays this change, with `keys` the key columns of its
    /// table; no statement when the settings leave the table out.
    pub fn to_sql_inline<S: MbLightSettingsExt>(&self, keys: &Vec<String>, settings: &S) -> (r: Result<
        Option<String>,
        MbLightError,
    >)
        ensures
            statement_view(r) == record_statement(
                *self,
                texts(keys@),
                settings.schema_allow_list(),
                settings.table_allow_list(),
            ),
    {
        if self.split_table_schema().is_none() {
            return Err(MbLightError::MalformedPendingData(PendingField::Tablename));
        }
        if self.is_skipped(settings) {
            return Ok(None);
        }
        let old = decode_row(&self.olddata);
        let new = decode_row(&self.newdata);
        match compile_pending(self.tablename.as_str(), self.op, &old, &new, keys) {
            Ok(s) => Ok(Some(s)),
            Err(e) => Err(e),
        }
    }
}

} // verus!
