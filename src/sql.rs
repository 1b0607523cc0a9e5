//! SQL text: literals, lists, and the statements that replay a captured row change.
use vstd::prelude::*;
use vstd::string::*;

use crate::text::{chars_of, push_char, texts};

verus! {

/// A column value as captured upstream.
#[derive(Debug, Clone, PartialEq, Eq)]
pub enum Cell {
    Null,
    Bool(bool),
    /// A number, in the notation it was captured in.
    Number(String),
    Text(String),
    /// An array or object, as JSON text.
    Nested(String),
}

/// What a `Cell` holds.
pub enum CellView {
    Null,
    Bool(bool),
    Number(Seq<char>),
    Text(Seq<char>),
    Nested(Seq<char>),
}

impl View for Cell {
    type V = CellView;

    open spec fn view(&self) -> CellView {
        match self {
            Cell::Null => CellView::Null,
            Cell::Bool(b) => CellView::Bool(*b),
            Cell::Number(n) => CellView::Number(n@),
            Cell::Text(t) => CellView::Text(t@),
            Cell::Nested(j) => CellView::Nested(j@),
        }
    }
}

/// Column names with their values, in the order given.
pub open spec fn columns_view(cols: Seq<(String, Cell)>) -> Seq<(Seq<char>, CellView)> {
    cols.map_values(|p: (String, Cell)| (p.0@, p.1@))
}

/// `s` with every single quote doubled.
pub open spec fn escape_quotes(s: Seq<char>) -> Seq<char>
    decreases s.len(),
{
    if s.len() == 0 {
        seq![]
    } else {
        escape_quotes(s.drop_last()) + if s.last() == '\'' {
            seq!['\'', '\'']
        } else {
            seq![s.last()]
        }
    }
}

/// A Postgres string literal holding `s`.
pub open spec fn quoted(s: Seq<char>) -> Seq<char> {
    seq!['\''] + escape_quotes(s) + seq!['\'']
}

/// The Postgres literal for a value.
pub open spec fn literal(c: CellView) -> Seq<char> {
    match c {
        CellView::Null => "NULL"@,
        CellView::Bool(b) => if b { "TRUE"@ } else { "FALSE"@ },
        CellView::Number(n) => n,
        CellView::Text(t) => quoted(t),
        CellView::Nested(j) => quoted(j),
    }
}

/// The items, with `sep` between each two.
pub open spec fn joined(items: Seq<Seq<char>>, sep: Seq<char>) -> Seq<char>
    decreases items.len(),
{
    if items.len() == 0 {
        seq![]
    } else if items.len() == 1 {
        items[0]
    } else {
        joined(items.drop_last(), sep) + sep + items.last()
    }
}

/// `name=literal`.
pub open spec fn assignment(name: Seq<char>, value: CellView) -> Seq<char> {
    name + seq!['='] + literal(value)
}

/// The names of the columns.
pub open spec fn column_names(cols: Seq<(Seq<char>, CellView)>) -> Seq<Seq<char>> {
    cols.map_values(|p: (Seq<char>, CellView)| p.0)
}

/// The literals of the column values.
pub open spec fn column_literals(cols: Seq<(Seq<char>, CellView)>) -> Seq<Seq<char>> {
    cols.map_values(|p: (Seq<char>, CellView)| literal(p.1))
}

/// `name=literal` for each column.
pub open spec fn column_assignments(cols: Seq<(Seq<char>, CellView)>) -> Seq<Seq<char>> {
    cols.map_values(|p: (Seq<char>, CellView)| assignment(p.0, p.1))
}

/// The value of the first column called `name`.
pub open spec fn lookup(cols: Seq<(Seq<char>, CellView)>, name: Seq<char>) -> Option<CellView>
    decreases cols.len(),
{
    if cols.len() == 0 {
        None
    } else if cols[0].0 == name {
        Some(cols[0].1)
    } else {
        lookup(cols.drop_first(), name)
    }
}

/// Every key column has a value among `cols`.
pub open spec fn keys_present(cols: Seq<(Seq<char>, CellView)>, keys: Seq<Seq<char>>) -> bool {
    forall|i: int| 0 <= i < keys.len() ==> lookup(cols, #[trigger] keys[i]) is Some
}

/// `key=literal` for each key column, its value taken from `cols`.
pub open spec fn key_conditions(cols: Seq<(Seq<char>, CellView)>, keys: Seq<Seq<char>>) -> Seq<Seq<char>> {
    keys.map_values(|k: Seq<char>| assignment(k, lookup(cols, k).unwrap()))
}

/// `INSERT INTO <table> (<names>) VALUES (<literals>)`.
pub open spec fn insert_sql(table: Seq<char>, cols: Seq<(Seq<char>, CellView)>) -> Seq<char> {
    "INSERT INTO "@ + table + " ("@ + joined(column_names(cols), ", "@) + ") VALUES ("@
        + joined(column_literals(cols), ", "@) + ")"@
}

/// `UPDATE <table> SET <assignments> WHERE <key conditions>`.
pub open spec fn update_sql(
    table: Seq<char>,
    new_cols: Seq<(Seq<char>, CellView)>,
    old_cols: Seq<(Seq<char>, CellView)>,
    keys: Seq<Seq<char>>,
) -> Seq<char> {
    "UPDATE "@ + table + " SET "@ + joined(column_assignments(new_cols), ", "@) + " WHERE "@
        + joined(key_conditions(old_cols, keys), " AND "@)
}

/// `DELETE FROM <table> WHERE <key conditions>`.
pub open spec fn delete_sql(
    table: Seq<char>,
    old_cols: Seq<(Seq<char>, CellView)>,
    keys: Seq<Seq<char>>,
) -> Seq<char> {
    "DELETE FROM "@ + table + " WHERE "@ + joined(key_conditions(old_cols, keys), " AND "@)
}

/// How Postgres reads the inside of a standard string literal: two single quotes in a
/// row stand for one.
pub open spec fn unescape_quotes(body: Seq<char>) -> Seq<char>
    decreases body.len(),
{
    if body.len() == 0 {
        seq![]
    } else if body.len() >= 2 && body[0] == '\'' && body[1] == '\'' {
        seq!['\''] + unescape_quotes(body.skip(2))
    } else {
        seq![body[0]] + unescape_quotes(body.drop_first())
    }
}

/// The text that Postgres reads from a string literal (quotes around, doubled quotes inside).
pub open spec fn read_string_literal(lit: Seq<char>) -> Seq<char> {
    unescape_quotes(lit.subrange(1, lit.len() - 1))
}

/// Escaping a concatenation escapes each part.
pub proof fn lemma_escape_quotes_concat(a: Seq<char>, b: Seq<char>)
    ensures
        escape_quotes(a + b) == escape_quotes(a) + escape_quotes(b),
    decreases b.len(),
{
    if b.len() == 0 {
        assert(a + b == a);
    } else {
        lemma_escape_quotes_concat(a, b.drop_last());
        assert((a + b).drop_last() == a + b.drop_last());
        assert((a + b).last() == b.last());
    }
}

/// Reading back an escaped text gives the text.
pub proof fn lemma_unescape_escape(s: Seq<char>)
    ensures
        unescape_quotes(escape_quotes(s)) == s,
    decreases s.len(),
{
    if s.len() > 0 {
        let head = seq![s[0]];
        let tail = s.drop_first();
        assert(s == head + tail);
        lemma_escape_quotes_concat(head, tail);
        assert(head.drop_last() == Seq::<char>::empty());
        assert(escape_quotes(Seq::<char>::empty()) == Seq::<char>::empty());
        assert(head.last() == s[0]);
        lemma_unescape_escape(tail);
        let e = escape_quotes(s);
        if s[0] == '\'' {
            assert(escape_quotes(head) =~= seq!['\'', '\'']);
            assert(e.skip(2) == escape_quotes(tail));
        } else {
            assert(escape_quotes(head) =~= seq![s[0]]);
            assert(e.drop_first() == escape_quotes(tail));
        }
    }
}

/// A text written as a string literal is read back by Postgres as the same text, so
/// a row inserted from captured text holds that text exactly.
pub proof fn lemma_string_literal_round_trip(s: Seq<char>)
    ensures
        read_string_literal(quoted(s)) == s,
{
    let q = quoted(s);
    assert(q.subrange(1, q.len() - 1) == escape_quotes(s));
    lemma_unescape_escape(s);
}

/// The `WHERE` clause that locates a row by its key columns.
pub open spec fn where_clause(old_cols: Seq<(Seq<char>, CellView)>, keys: Seq<Seq<char>>) -> Seq<char> {
    " WHERE "@ + joined(key_conditions(old_cols, keys), " AND "@)
}

/// An update and a delete whose old rows agree on the key columns select the same row:
/// both statements end with one `WHERE` clause, so a delete that follows an update of
/// the same key removes the updated row.
pub proof fn lemma_update_and_delete_select_same_row(
    table: Seq<char>,
    new_cols: Seq<(Seq<char>, CellView)>,
    update_old: Seq<(Seq<char>, CellView)>,
    delete_old: Seq<(Seq<char>, CellView)>,
    keys: Seq<Seq<char>>,
)
    requires
        forall|i: int| 0 <= i < keys.len() ==> lookup(update_old, #[trigger] keys[i]) == lookup(delete_old, keys[i]),
    ensures
        update_sql(table, new_cols, update_old, keys) == "UPDATE "@ + table + " SET "@ + joined(
            column_assignments(new_cols),
            ", "@,
        ) + where_clause(delete_old, keys),
        delete_sql(table, delete_old, keys) == "DELETE FROM "@ + table + where_clause(delete_old, keys),
{
    assert(key_conditions(update_old, keys) =~= key_conditions(delete_old, keys));
    let w = joined(key_conditions(delete_old, keys), " AND "@);
    let set = joined(column_assignments(new_cols), ", "@);
    assert(update_sql(table, new_cols, update_old, keys) =~= "UPDATE "@ + table + " SET "@ + set + (" WHERE "@ + w));
    assert(delete_sql(table, delete_old, keys) =~= "DELETE FROM "@ + table + (" WHERE "@ + w));
}

/// Appends `s` as a Postgres string literal.
pub fn push_quoted(out: &mut String, s: &str)
    ensures
        final(out)@ == old(out)@ + quoted(s@),
{
    let cs = chars_of(s);
    push_char(out, '\'');
    let ghost start = out@;
    let mut i: usize = 0;
    while i < cs.len()
        invariant
            i <= cs@.len(),
            cs@ == s@,
            start == old(out)@ + seq!['\''],
            out@ == start + escape_quotes(cs@.take(i as int)),
        decreases cs@.len() - i,
    {
        let c = cs[i];
        assert(cs@.take(i + 1).drop_last() == cs@.take(i as int));
        if c == '\'' {
            push_char(out, '\'');
            push_char(out, '\'');
        } else {
            push_char(out, c);
        }
        i = i + 1;
    }
    assert(cs@.take(cs@.len() as int) == cs@);
    push_char(out, '\'');
}

/// Appends the Postgres literal for `c`.
pub fn push_literal(out: &mut String, c: &Cell)
    ensures
        final(out)@ == old(out)@ + literal(c@),
{
    match c {
        Cell::Null => out.append("NULL"),
        Cell::Bool(b) => {
            if *b {
                out.append("TRUE")
            } else {
                out.append("FALSE")
            }
        },
        Cell::Number(n) => out.append(n.as_str()),
        Cell::Text(t) => push_quoted(out, t.as_str()),
        Cell::Nested(j) => push_quoted(out, j.as_str()),
    }
}

/// The Postgres literal for `c`.
pub fn sql_literal(c: &Cell) -> (r: String)
    ensures
        r@ == literal(c@),
{
    let mut r = String::new();
    push_literal(&mut r, c);
    r
}

/// Appends the items with `sep` between each two.
pub fn push_joined(out: &mut String, items: &Vec<String>, sep: &str)
    ensures
        final(out)@ == old(out)@ + joined(texts(items@), sep@),
{
    let ghost views = texts(items@);
    let mut i: usize = 0;
    while i < items.len()
        invariant
            i <= items@.len(),
            views == texts(items@),
            out@ == old(out)@ + joined(views.take(i as int), sep@),
        decreases items@.len() - i,
    {
        assert(views.take(i + 1).drop_last() == views.take(i as int));
        if i > 0 {
            out.append(sep);
        }
        out.append(items[i].as_str());
        i = i + 1;
    }
    assert(views.take(items@.len() as int) == views);
}

/// Where the first column called `name` stands.
pub fn find_column(cols: &Vec<(String, Cell)>, name: &str) -> (r: Option<usize>)
    ensures
        match r {
            Some(i) => i < cols@.len() && lookup(columns_view(cols@), name@) == Some(cols@[i as int].1@),
            None => lookup(columns_view(cols@), name@) is None,
        },
{
    let ghost view = columns_view(cols@);
    let mut i: usize = 0;
    assert(view.skip(0) == view);
    while i < cols.len()
        invariant
            i <= cols@.len(),
            view == columns_view(cols@),
            lookup(view, name@) == lookup(view.skip(i as int), name@),
        decreases cols@.len() - i,
    {
        assert(view.skip(i as int).drop_first() == view.skip(i + 1));
        if crate::text::str_equal(cols[i].0.as_str(), name) {
            return Some(i);
        }
        i = i + 1;
    }
    None
}

/// The names of the columns, as a list of strings.
pub fn name_items(cols: &Vec<(String, Cell)>) -> (r: Vec<String>)
    ensures
        texts(r@) == column_names(columns_view(cols@)),
{
    let mut r: Vec<String> = Vec::new();
    let mut i: usize = 0;
    while i < cols.len()
        invariant
            i <= cols@.len(),
            r@.len() == i,
            texts(r@) == column_names(columns_view(cols@)).take(i as int),
        decreases cols@.len() - i,
    {
        let ghost prev = r@;
        r.push(String::from_str(cols[i].0.as_str()));
        assert(r@ == prev.push(r@[i as int]));
        i = i + 1;
        assert(texts(r@) =~= column_names(columns_view(cols@)).take(i as int));
    }
    r
}

/// The literals of the column values, as a list of strings.
pub fn literal_items(cols: &Vec<(String, Cell)>) -> (r: Vec<String>)
    ensures
        texts(r@) == column_literals(columns_view(cols@)),
{
    let mut r: Vec<String> = Vec::new();
    let mut i: usize = 0;
    while i < cols.len()
        invariant
            i <= cols@.len(),
            r@.len() == i,
            texts(r@) == column_literals(columns_view(cols@)).take(i as int),
        decreases cols@.len() - i,
    {
        let ghost prev = r@;
        r.push(sql_literal(&cols[i].1));
        assert(r@ == prev.push(r@[i as int]));
        i = i + 1;
        assert(texts(r@) =~= column_literals(columns_view(cols@)).take(i as int));
    }
    r
}

/// `name=literal`, as a string.
fn assignment_item(name: &str, value: &Cell) -> (r: String)
    ensures
        r@ == assignment(name@, value@),
{
    let mut r = String::new();
    r.append(name);
    push_char(&mut r, '=');
    push_literal(&mut r, value);
    r
}

/// `name=literal` for each column, as a list of strings.
pub fn assignment_items(cols: &Vec<(String, Cell)>) -> (r: Vec<String>)
    ensures
        texts(r@) == column_assignments(columns_view(cols@)),
{
    let mut r: Vec<String> = Vec::new();
    let mut i: usize = 0;
    while i < cols.len()
        invariant
            i <= cols@.len(),
            r@.len() == i,
            texts(r@) == column_assignments(columns_view(cols@)).take(i as int),
        decreases cols@.len() - i,
    {
        let ghost prev = r@;
        r.push(assignment_item(cols[i].0.as_str(), &cols[i].1));
        assert(r@ == prev.push(r@[i as int]));
        i = i + 1;
        assert(texts(r@) =~= column_assignments(columns_view(cols@)).take(i as int));
    }
    r
}

/// `key=literal` for each key column, or `None` when a key column has no value in `cols`.
pub fn key_condition_items(cols: &Vec<(String, Cell)>, keys: &Vec<String>) -> (r: Option<Vec<String>>)
    ensures
        match r {
            Some(items) => keys_present(columns_view(cols@), texts(keys@))
                && texts(items@)
                == key_conditions(columns_view(cols@), texts(keys@)),
            None => !keys_present(columns_view(cols@), texts(keys@)),
        },
{
    let ghost kv = texts(keys@);
    let ghost cv = columns_view(cols@);
    let mut r: Vec<String> = Vec::new();
    let mut i: usize = 0;
    while i < keys.len()
        invariant
            i <= keys@.len(),
            r@.len() == i,
            kv == texts(keys@),
            cv == columns_view(cols@),
            forall|k: int| 0 <= k < i ==> lookup(cv, #[trigger] kv[k]) is Some,
            texts(r@) == key_conditions(cv, kv).take(i as int),
        decreases keys@.len() - i,
    {
        match find_column(cols, keys[i].as_str()) {
            Some(j) => {
                let ghost prev = r@;
                r.push(assignment_item(keys[i].as_str(), &cols[j].1));
                assert(r@ == prev.push(r@[i as int]));
            },
            None => {
                assert(lookup(cv, kv[i as int]) is None);
                return None;
            },
        }
        i = i + 1;
        assert(texts(r@) =~= key_conditions(cv, kv).take(i as int));
    }
    assert(key_conditions(cv, kv).take(i as int) == key_conditions(cv, kv));
    Some(r)
}

/// The statement that inserts the row `cols` into `table`.
pub fn insert_statement(table: &str, cols: &Vec<(String, Cell)>) -> (r: String)
    ensures
        r@ == insert_sql(table@, columns_view(cols@)),
{
    let mut r = String::new();
    r.append("INSERT INTO ");
    r.append(table);
    r.append(" (");
    push_joined(&mut r, &name_items(cols), ", ");
    r.append(") VALUES (");
    push_joined(&mut r, &literal_items(cols), ", ");
    r.append(")");
    r
}

/// The statement that sets the columns `new_cols` on the rows that `conditions` select.
pub fn update_statement(table: &str, new_cols: &Vec<(String, Cell)>, conditions: &Vec<String>) -> (r: String)
    ensures
        r@ == "UPDATE "@ + table@ + " SET "@ + joined(column_assignments(columns_view(new_cols@)), ", "@)
            + " WHERE "@ + joined(texts(conditions@), " AND "@),
{
    let mut r = String::new();
    r.append("UPDATE ");
    r.append(table);
    r.append(" SET ");
    push_joined(&mut r, &assignment_items(new_cols), ", ");
    r.append(" WHERE ");
    push_joined(&mut r, conditions, " AND ");
    r
}

/// The statement that deletes the rows that `conditions` select.
pub fn delete_statement(table: &str, conditions: &Vec<String>) -> (r: String)
    ensures
        r@ == "DELETE FROM "@ + table@ + " WHERE "@ + joined(texts(conditions@), " AND "@),
{
    let mut r = String::new();
    r.append("DELETE FROM ");
    r.append(table);
    r.append(" WHERE ");
    push_joined(&mut r, conditions, " AND ");
    r
}

} // verus!
