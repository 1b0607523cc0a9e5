//! Bootstrap ingest of the full-export bundles: which bundles to fetch, which table each
//! archive entry fills, whether to load it, and the statements around its COPY.
use vstd::prelude::*;
use vstd::string::*;

use crate::settings::{skipped_by, MbLightSettingsExt};
use crate::text::{chars_equal, chars_of, copy_range, push_chars, split_once, split_once_char, texts, trim_chars, trimmed};

verus! {

/// Where the full exports are published.
pub const MUSICBRAINZ_FTP: &'static str = "http://ftp.musicbrainz.org/pub/musicbrainz/data/fullexport";

/// The core bundle.
pub const MB_DUMP: &'static str = "mbdump.tar.bz2";

/// The derived-data bundle.
pub const MB_DUMP_DERIVED: &'static str = "mbdump-derived.tar.bz2";

/// The statistics bundle.
pub const MB_DUMP_STATS: &'static str = "mbdump-stats.tar.bz2";

/// The cover-art bundle.
pub const COVER_ART_ARCHIVE: &'static str = "mbdump-cover-art-archive.tar.bz2";

/// The event-art bundle, under the name upstream gives it.
pub const EVENT_ART_ARCHIVE: &'static str = "mbdump-even-art-archive.tar.bz2";

/// `s` starts with `prefix`.
pub open spec fn starts_with(s: Seq<char>, prefix: Seq<char>) -> bool {
    prefix.len() <= s.len() && s.take(prefix.len() as int) == prefix
}

/// `s` without `suffix` at its end, when it ends so.
pub open spec fn without_suffix(s: Seq<char>, suffix: Seq<char>) -> Seq<char> {
    if suffix.len() <= s.len() && s.skip(s.len() - suffix.len()) == suffix {
        s.take(s.len() - suffix.len())
    } else {
        s
    }
}

/// The schema and table that a full-export entry at `path` fills: entries outside
/// `mbdump/` fill none; a trailing `_sanitised` is dropped; a name without a dot
/// is a table of the `musicbrainz` schema.
pub open spec fn dump_target(path: Seq<char>) -> Option<(Seq<char>, Seq<char>)> {
    if starts_with(path, "mbdump/"@) {
        let name = without_suffix(path.skip(7), "_sanitised"@);
        match split_once(name, '.') {
            Some(parts) => Some(parts),
            None => Some(("musicbrainz"@, name)),
        }
    } else {
        None
    }
}

/// Whether `cs` starts with `prefix`.
fn starts_with_chars(cs: &[char], prefix: &str) -> (r: bool)
    ensures
        r == starts_with(cs@, prefix@),
{
    let pc = chars_of(prefix);
    if pc.len() > cs.len() {
        return false;
    }
    let head = copy_range(cs, 0, pc.len());
    chars_equal(head.as_slice(), pc.as_slice())
}

/// `cs` without `suffix` at its end, when it ends so.
fn strip_suffix_chars(cs: &[char], suffix: &str) -> (r: Vec<char>)
    ensures
        r@ == without_suffix(cs@, suffix@),
{
    let sc = chars_of(suffix);
    if sc.len() <= cs.len() {
        let tail = copy_range(cs, cs.len() - sc.len(), cs.len());
        assert(tail@ == cs@.skip(cs@.len() - sc@.len()));
        if chars_equal(tail.as_slice(), sc.as_slice()) {
            return copy_range(cs, 0, cs.len() - sc.len());
        }
    }
    copy_range(cs, 0, cs.len())
}

/// The schema and table that the full-export entry at `path` fills, if any.
pub fn dump_entry_target(path: &str) -> (r: Option<(String, String)>)
    ensures
        match r {
            Some((schema, table)) => dump_target(path@) == Some((schema@, table@)),
            None => dump_target(path@) is None,
        },
{
    let cs = chars_of(path);
    proof {
        reveal_strlit("mbdump/");
    }
    if !starts_with_chars(cs.as_slice(), "mbdump/") {
        return None;
    }
    let rest = copy_range(cs.as_slice(), 7, cs.len());
    let name_chars = strip_suffix_chars(rest.as_slice(), "_sanitised");
    let mut name = String::new();
    push_chars(&mut name, name_chars.as_slice());
    assert(name@ == name_chars@);
    match split_once_char(name.as_str(), '.') {
        Some(parts) => Some(parts),
        None => Some((String::from_str("musicbrainz"), name)),
    }
}

/// The next step in deciding whether to load an entry into `schema.table`.
#[derive(Debug, Clone, Copy, PartialEq, Eq, Structural)]
pub enum SkipStep {
    /// Leave the entry out.
    Skip,
    /// Ask the database whether the table exists.
    AskTableExists,
    /// Ask the database whether the table holds a row.
    AskHasData,
    /// Load the entry.
    Load,
}

/// An entry is left out when the allow-lists leave out its schema or its table, when
/// its table does not exist, or when the table already holds a row; the database is
/// asked only what the decision still needs.
pub open spec fn skip_step(
    schemas: Seq<Seq<char>>,
    tables: Seq<Seq<char>>,
    schema: Seq<char>,
    table: Seq<char>,
    table_exists: Option<bool>,
    has_data: Option<bool>,
) -> SkipStep {
    if skipped_by(schemas, schema) || skipped_by(tables, table) {
        SkipStep::Skip
    } else {
        match table_exists {
            None => SkipStep::AskTableExists,
            Some(false) => SkipStep::Skip,
            Some(true) => match has_data {
                None => SkipStep::AskHasData,
                Some(true) => SkipStep::Skip,
                Some(false) => SkipStep::Load,
            },
        }
    }
}

/// Decides on an entry for `schema.table`, given the database's answers so far.
pub fn should_skip_table<S: MbLightSettingsExt>(
    settings: &S,
    schema: &str,
    table: &str,
    table_exists: Option<bool>,
    has_data: Option<bool>,
) -> (r: SkipStep)
    ensures
        r == skip_step(
            settings.schema_allow_list(),
            settings.table_allow_list(),
            schema@,
            table@,
            table_exists,
            has_data,
        ),
{
    if settings.should_skip_schema(schema) || settings.should_skip_table(table) {
        return SkipStep::Skip;
    }
    match table_exists {
        None => SkipStep::AskTableExists,
        Some(false) => SkipStep::Skip,
        Some(true) => match has_data {
            None => SkipStep::AskHasData,
            Some(true) => SkipStep::Skip,
            Some(false) => SkipStep::Load,
        },
    }
}

/// A table that already holds a row is never loaded again, so ingesting twice loads
/// each table at most once.
pub proof fn lemma_loaded_table_is_not_reloaded(
    schemas: Seq<Seq<char>>,
    tables: Seq<Seq<char>>,
    schema: Seq<char>,
    table: Seq<char>,
    table_exists: Option<bool>,
)
    ensures
        skip_step(schemas, tables, schema, table, table_exists, Some(true)) != SkipStep::Load,
{
}

/// A table that the allow-lists leave out is never loaded, whatever the database says.
pub proof fn lemma_skipped_table_is_not_loaded(
    schemas: Seq<Seq<char>>,
    tables: Seq<Seq<char>>,
    schema: Seq<char>,
    table: Seq<char>,
    table_exists: Option<bool>,
    has_data: Option<bool>,
)
    requires
        skipped_by(schemas, schema) || skipped_by(tables, table),
    ensures
        skip_step(schemas, tables, schema, table, table_exists, has_data) == SkipStep::Skip,
{
}

/// The bundles to fetch: the core and derived bundles, then the statistics, cover-art
/// and event-art bundles for each of those schemas that the allow-list keeps.
pub open spec fn bundles(schemas: Seq<Seq<char>>) -> Seq<Seq<char>> {
    let base = seq![MB_DUMP@, MB_DUMP_DERIVED@];
    let with_stats = if skipped_by(schemas, "statistics"@) { base } else { base.push(MB_DUMP_STATS@) };
    let with_cover = if skipped_by(schemas, "cover_art_archive"@) {
        with_stats
    } else {
        with_stats.push(COVER_ART_ARCHIVE@)
    };
    if skipped_by(schemas, "event_art_archive"@) {
        with_cover
    } else {
        with_cover.push(EVENT_ART_ARCHIVE@)
    }
}

/// The file names of the bundles to fetch.
pub fn dump_bundles<S: MbLightSettingsExt>(settings: &S) -> (r: Vec<String>)
    ensures
        texts(r@) == bundles(settings.schema_allow_list()),
{
    let mut r: Vec<String> = Vec::new();
    r.push(String::from_str(MB_DUMP));
    r.push(String::from_str(MB_DUMP_DERIVED));
    let ghost schemas = settings.schema_allow_list();
    let ghost base = seq![MB_DUMP@, MB_DUMP_DERIVED@];
    assert(texts(r@) =~= base);
    if !settings.should_skip_schema("statistics") {
        r.push(String::from_str(MB_DUMP_STATS));
    }
    let ghost with_stats = if skipped_by(schemas, "statistics"@) { base } else { base.push(MB_DUMP_STATS@) };
    assert(texts(r@) =~= with_stats);
    if !settings.should_skip_schema("cover_art_archive") {
        r.push(String::from_str(COVER_ART_ARCHIVE));
    }
    let ghost with_cover = if skipped_by(schemas, "cover_art_archive"@) {
        with_stats
    } else {
        with_stats.push(COVER_ART_ARCHIVE@)
    };
    assert(texts(r@) =~= with_cover);
    if !settings.should_skip_schema("event_art_archive") {
        r.push(String::from_str(EVENT_ART_ARCHIVE));
    }
    assert(texts(r@) =~= bundles(schemas));
    r
}

/// Where the id of the latest full export is published.
pub fn latest_url() -> (r: String)
    ensures
        r@ == MUSICBRAINZ_FTP@ + "/LATEST"@,
{
    let mut r = String::from_str(MUSICBRAINZ_FTP);
    r.append("/LATEST");
    r
}

/// The id of the latest full export, from the text published for it.
pub fn latest_version(text: &str) -> (r: String)
    ensures
        r@ == trimmed(text@),
{
    let t = trim_chars(chars_of(text).as_slice());
    let mut r = String::new();
    push_chars(&mut r, t.as_slice());
    assert(r@ == t@);
    r
}

/// `{MUSICBRAINZ_FTP}/{latest}/{filename}`.
pub fn bundle_url(latest: &str, filename: &str) -> (r: String)
    ensures
        r@ == MUSICBRAINZ_FTP@ + seq!['/'] + latest@ + seq!['/'] + filename@,
{
    let mut r = String::from_str(MUSICBRAINZ_FTP);
    crate::text::push_char(&mut r, '/');
    r.append(latest);
    crate::text::push_char(&mut r, '/');
    r.append(filename);
    r
}

/// The statements around the bulk load of one table: the table is made unlogged, the
/// rows are copied in one transaction, and the table is made logged again.
#[derive(Debug, Clone)]
pub struct CopyStatements {
    pub set_unlogged: String,
    pub copy_in: String,
    pub set_logged: String,
}

/// `schema.table`.
pub open spec fn qualified(schema: Seq<char>, table: Seq<char>) -> Seq<char> {
    schema + seq!['.'] + table
}

/// `schema.table`.
fn qualified_name(schema: &str, table: &str) -> (r: String)
    ensures
        r@ == qualified(schema@, table@),
{
    let mut r = String::from_str(schema);
    crate::text::push_char(&mut r, '.');
    r.append(table);
    r
}

/// The statements around the bulk load of `schema.table`.
pub fn copy_statements(schema: &str, table: &str) -> (r: CopyStatements)
    ensures
        r.set_unlogged@ == "ALTER TABLE "@ + qualified(schema@, table@) + " SET UNLOGGED"@,
        r.copy_in@ == "COPY "@ + qualified(schema@, table@) + " FROM STDIN"@,
        r.set_logged@ == "ALTER TABLE "@ + qualified(schema@, table@) + " SET LOGGED"@,
{
    let name = qualified_name(schema, table);
    let mut set_unlogged = String::from_str("ALTER TABLE ");
    set_unlogged.append(name.as_str());
    set_unlogged.append(" SET UNLOGGED");
    let mut copy_in = String::from_str("COPY ");
    copy_in.append(name.as_str());
    copy_in.append(" FROM STDIN");
    let mut set_logged = String::from_str("ALTER TABLE ");
    set_logged.append(name.as_str());
    set_logged.append(" SET LOGGED");
    CopyStatements { set_unlogged, copy_in, set_logged }
}

/// The query that asks whether `schema.table` holds a row.
pub fn has_data_query(schema: &str, table: &str) -> (r: String)
    ensures
        r@ == "SELECT EXISTS (SELECT 1 FROM "@ + qualified(schema@, table@) + " LIMIT 1)"@,
{
    let mut r = String::from_str("SELECT EXISTS (SELECT 1 FROM ");
    r.append(qualified_name(schema, table).as_str());
    r.append(" LIMIT 1)");
    r
}

} // verus!
