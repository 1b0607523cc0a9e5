//! The bootstrap plan: the schemas to create and the DDL scripts of the upstream source
//! tree to run before and after the bulk load, each kept only when the schema
//! allow-list keeps its schema.
use vstd::prelude::*;
use vstd::string::*;

use crate::settings::{skipped_by, MbLightSettingsExt};
use crate::sql::joined;
use crate::text::{chars_of, int_text, is_space_char, push_char, push_chars, push_int, texts, trim_start};

verus! {

/// The repository that holds the DDL scripts.
pub const SQL_REPOSITORY_OWNER: &'static str = "metabrainz";

/// The repository that holds the DDL scripts.
pub const SQL_REPOSITORY: &'static str = "musicbrainz-server";

/// Where the DDL scripts lie in the repository.
pub const SQL_DIRECTORY: &'static str = "admin/sql";

/// A schema and a script of the source tree.
pub open spec fn pairs_view(v: Seq<(String, String)>) -> Seq<(Seq<char>, Seq<char>)> {
    v.map_values(|p: (String, String)| (p.0@, p.1@))
}

/// The scripts that create the types and tables, by schema, in the order to run them.
pub open spec fn table_scripts_spec() -> Seq<(Seq<char>, Seq<char>)> {
    seq![
        ("musicbrainz"@, "CreateCollations.sql"@),
        ("musicbrainz"@, "CreateTypes.sql"@),
        ("musicbrainz"@, "CreateTables.sql"@),
        ("cover_art_archive"@, "caa/CreateTables.sql"@),
        ("event_art_archive"@, "eaa/CreateTables.sql"@),
        ("statistics"@, "statistics/CreateTables.sql"@),
        ("documentation"@, "documentation/CreateTables.sql"@),
        ("wikidocs"@, "wikidocs/CreateTables.sql"@),
    ]
}

/// The scripts that add keys, functions, indexes, views, triggers and replication
/// support once the data is loaded, by schema, in the order to run them.
pub open spec fn post_load_scripts_spec() -> Seq<(Seq<char>, Seq<char>)> {
    seq![
        ("musicbrainz"@, "CreatePrimaryKeys.sql"@),
        ("cover_art_archive"@, "caa/CreatePrimaryKeys.sql"@),
        ("event_art_archive"@, "eaa/CreatePrimaryKeys.sql"@),
        ("statistics"@, "statistics/CreatePrimaryKeys.sql"@),
        ("documentation"@, "documentation/CreatePrimaryKeys.sql"@),
        ("wikidocs"@, "wikidocs/CreatePrimaryKeys.sql"@),
        ("musicbrainz"@, "CreateFunctions.sql"@),
        ("musicbrainz"@, "CreateMirrorOnlyFunctions.sql"@),
        ("cover_art_archive"@, "caa/CreateFunctions.sql"@),
        ("event_art_archive"@, "eaa/CreateFunctions.sql"@),
        ("musicbrainz"@, "CreateIndexes.sql"@),
        ("musicbrainz"@, "CreateMirrorIndexes.sql"@),
        ("cover_art_archive"@, "caa/CreateIndexes.sql"@),
        ("event_art_archive"@, "eaa/CreateIndexes.sql"@),
        ("statistics"@, "statistics/CreateIndexes.sql"@),
        ("musicbrainz"@, "CreateViews.sql"@),
        ("cover_art_archive"@, "caa/CreateViews.sql"@),
        ("event_art_archive"@, "eaa/CreateViews.sql"@),
        ("musicbrainz"@, "CreateMirrorOnlyTriggers.sql"@),
        ("musicbrainz"@, "ReplicationSetup.sql"@),
        ("dbmirror2"@, "dbmirror2/ReplicationSetup.sql"@),
    ]
}

/// The schemas of the mirror.
pub open spec fn schemas_spec() -> Seq<Seq<char>> {
    seq!["musicbrainz"@, "cover_art_archive"@, "event_art_archive"@, "statistics"@, "documentation"@, "wikidocs"@, "dbmirror2"@]
}

/// The scripts that create the types and tables.
pub fn table_scripts() -> (r: Vec<(String, String)>)
    ensures
        pairs_view(r@) == table_scripts_spec(),
{
    let mut r: Vec<(String, String)> = Vec::new();
    r.push((String::from_str("musicbrainz"), String::from_str("CreateCollations.sql")));
    r.push((String::from_str("musicbrainz"), String::from_str("CreateTypes.sql")));
    r.push((String::from_str("musicbrainz"), String::from_str("CreateTables.sql")));
    r.push((String::from_str("cover_art_archive"), String::from_str("caa/CreateTables.sql")));
    r.push((String::from_str("event_art_archive"), String::from_str("eaa/CreateTables.sql")));
    r.push((String::from_str("statistics"), String::from_str("statistics/CreateTables.sql")));
    r.push((String::from_str("documentation"), String::from_str("documentation/CreateTables.sql")));
    r.push((String::from_str("wikidocs"), String::from_str("wikidocs/CreateTables.sql")));
    assert(pairs_view(r@) =~= table_scripts_spec());
    r
}

/// The scripts to run once the data is loaded.
pub fn post_load_scripts() -> (r: Vec<(String, String)>)
    ensures
        pairs_view(r@) == post_load_scripts_spec(),
{
    let mut r: Vec<(String, String)> = Vec::new();
    r.push((String::from_str("musicbrainz"), String::from_str("CreatePrimaryKeys.sql")));
    r.push((String::from_str("cover_art_archive"), String::from_str("caa/CreatePrimaryKeys.sql")));
    r.push((String::from_str("event_art_archive"), String::from_str("eaa/CreatePrimaryKeys.sql")));
    r.push((String::from_str("statistics"), String::from_str("statistics/CreatePrimaryKeys.sql")));
    r.push((String::from_str("documentation"), String::from_str("documentation/CreatePrimaryKeys.sql")));
    r.push((String::from_str("wikidocs"), String::from_str("wikidocs/CreatePrimaryKeys.sql")));
    r.push((String::from_str("musicbrainz"), String::from_str("CreateFunctions.sql")));
    r.push((String::from_str("musicbrainz"), String::from_str("CreateMirrorOnlyFunctions.sql")));
    r.push((String::from_str("cover_art_archive"), String::from_str("caa/CreateFunctions.sql")));
    r.push((String::from_str("event_art_archive"), String::from_str("eaa/CreateFunctions.sql")));
    r.push((String::from_str("musicbrainz"), String::from_str("CreateIndexes.sql")));
    r.push((String::from_str("musicbrainz"), String::from_str("CreateMirrorIndexes.sql")));
    r.push((String::from_str("cover_art_archive"), String::from_str("caa/CreateIndexes.sql")));
    r.push((String::from_str("event_art_archive"), String::from_str("eaa/CreateIndexes.sql")));
    r.push((String::from_str("statistics"), String::from_str("statistics/CreateIndexes.sql")));
    r.push((String::from_str("musicbrainz"), String::from_str("CreateViews.sql")));
    r.push((String::from_str("cover_art_archive"), String::from_str("caa/CreateViews.sql")));
    r.push((String::from_str("event_art_archive"), String::from_str("eaa/CreateViews.sql")));
    r.push((String::from_str("musicbrainz"), String::from_str("CreateMirrorOnlyTriggers.sql")));
    r.push((String::from_str("musicbrainz"), String::from_str("ReplicationSetup.sql")));
    r.push((String::from_str("dbmirror2"), String::from_str("dbmirror2/ReplicationSetup.sql")));
    assert(pairs_view(r@) =~= post_load_scripts_spec());
    r
}

/// The scripts whose schema the allow-list keeps, in order.
pub open spec fn kept_scripts(scripts: Seq<(Seq<char>, Seq<char>)>, schemas: Seq<Seq<char>>) -> Seq<Seq<char>>
    decreases scripts.len(),
{
    if scripts.len() == 0 {
        seq![]
    } else if skipped_by(schemas, scripts.last().0) {
        kept_scripts(scripts.drop_last(), schemas)
    } else {
        kept_scripts(scripts.drop_last(), schemas).push(scripts.last().1)
    }
}

/// The paths of the scripts whose schema the settings keep, in order.
pub fn scripts_to_run<S: MbLightSettingsExt>(settings: &S, scripts: &Vec<(String, String)>) -> (r: Vec<String>)
    ensures
        texts(r@) == kept_scripts(pairs_view(scripts@), settings.schema_allow_list()),
{
    let ghost pv = pairs_view(scripts@);
    let mut r: Vec<String> = Vec::new();
    let mut i: usize = 0;
    assert(pv.take(0) =~= Seq::<(Seq<char>, Seq<char>)>::empty());
    assert(texts(r@) =~= Seq::<Seq<char>>::empty());
    while i < scripts.len()
        invariant
            i <= scripts@.len(),
            pv == pairs_view(scripts@),
            texts(r@) == kept_scripts(pv.take(i as int), settings.schema_allow_list()),
        decreases scripts@.len() - i,
    {
        assert(pv.take(i + 1).drop_last() == pv.take(i as int));
        assert(pv.take(i + 1).last() == (scripts@[i as int].0@, scripts@[i as int].1@));
        if !settings.should_skip_schema(scripts[i].0.as_str()) {
            let ghost prev = r@;
            r.push(String::from_str(scripts[i].1.as_str()));
            assert(texts(r@) =~= texts(prev).push(scripts@[i as int].1@));
        }
        i = i + 1;
    }
    assert(pv.take(scripts@.len() as int) == pv);
    r
}

/// `CREATE SCHEMA IF NOT EXISTS <schema>` for each schema that the allow-list keeps.
pub open spec fn create_schema_statements(schemas: Seq<Seq<char>>, keep: Seq<Seq<char>>) -> Seq<Seq<char>>
    decreases schemas.len(),
{
    if schemas.len() == 0 {
        seq![]
    } else if skipped_by(keep, schemas.last()) {
        create_schema_statements(schemas.drop_last(), keep)
    } else {
        create_schema_statements(schemas.drop_last(), keep).push("CREATE SCHEMA IF NOT EXISTS "@ + schemas.last())
    }
}

/// The statements that create the schemas the settings keep.
pub fn schema_statements<S: MbLightSettingsExt>(settings: &S) -> (r: Vec<String>)
    ensures
        texts(r@) == create_schema_statements(schemas_spec(), settings.schema_allow_list()),
{
    let mut names: Vec<String> = Vec::new();
    names.push(String::from_str("musicbrainz"));
    names.push(String::from_str("cover_art_archive"));
    names.push(String::from_str("event_art_archive"));
    names.push(String::from_str("statistics"));
    names.push(String::from_str("documentation"));
    names.push(String::from_str("wikidocs"));
    names.push(String::from_str("dbmirror2"));
    assert(texts(names@) =~= schemas_spec());
    let ghost all = texts(names@);
    let mut r: Vec<String> = Vec::new();
    let mut i: usize = 0;
    assert(all.take(0) =~= Seq::<Seq<char>>::empty());
    assert(texts(r@) =~= Seq::<Seq<char>>::empty());
    while i < names.len()
        invariant
            i <= names@.len(),
            all == texts(names@),
            texts(r@) == create_schema_statements(all.take(i as int), settings.schema_allow_list()),
        decreases names@.len() - i,
    {
        assert(all.take(i + 1).drop_last() == all.take(i as int));
        assert(all.take(i + 1).last() == names@[i as int]@);
        if !settings.should_skip_schema(names[i].as_str()) {
            let mut statement = String::from_str("CREATE SCHEMA IF NOT EXISTS ");
            statement.append(names[i].as_str());
            let ghost prev = r@;
            r.push(statement);
            assert(texts(r@) =~= texts(prev).push("CREATE SCHEMA IF NOT EXISTS "@ + names@[i as int]@));
        }
        i = i + 1;
    }
    assert(all.take(names@.len() as int) == all);
    r
}

/// `line` without a `\r` at its end.
pub open spec fn without_cr(line: Seq<char>) -> Seq<char> {
    if line.len() > 0 && line.last() == '\r' {
        line.drop_last()
    } else {
        line
    }
}

/// The lines of `rest`, the first of which starts with `current`, as `str::lines` cuts
/// them: at each `\n`, with a `\r` before it dropped, and no empty line after a final `\n`.
pub open spec fn lines_from(rest: Seq<char>, current: Seq<char>) -> Seq<Seq<char>>
    decreases rest.len(),
{
    if rest.len() == 0 {
        if current.len() == 0 {
            seq![]
        } else {
            seq![current]
        }
    } else if rest[0] == '\n' {
        seq![without_cr(current)] + lines_from(rest.drop_first(), seq![])
    } else {
        lines_from(rest.drop_first(), current.push(rest[0]))
    }
}

/// A psql meta-command: a line whose first character after white space is `\`.
pub open spec fn is_meta_command(line: Seq<char>) -> bool {
    trim_start(line).len() > 0 && trim_start(line)[0] == '\\'
}

/// The lines that are not psql meta-commands, in order.
pub open spec fn sql_lines(lines: Seq<Seq<char>>) -> Seq<Seq<char>>
    decreases lines.len(),
{
    if lines.len() == 0 {
        seq![]
    } else if is_meta_command(lines.last()) {
        sql_lines(lines.drop_last())
    } else {
        sql_lines(lines.drop_last()).push(lines.last())
    }
}

/// A script as the server is handed it: its psql meta-command lines left out, the other
/// lines joined with `\n`.
pub open spec fn server_script(sql: Seq<char>) -> Seq<char> {
    joined(sql_lines(lines_from(sql, seq![])), seq!['\n'])
}

/// Whether `line` is a psql meta-command.
fn meta_command(line: &Vec<char>) -> (r: bool)
    ensures
        r == is_meta_command(line@),
{
    let n = line.len();
    let mut a: usize = 0;
    assert(line@.subrange(0, n as int) == line@);
    while a < n && is_space_char(line[a])
        invariant
            a <= n == line@.len(),
            trim_start(line@) == trim_start(line@.subrange(a as int, n as int)),
        decreases n - a,
    {
        assert(line@.subrange(a as int, n as int).drop_first() == line@.subrange(a + 1, n as int));
        a = a + 1;
    }
    a < n && line[a] == '\\'
}

/// Leaves out the psql meta-command lines of a script, which the server does not take.
pub fn strip_meta_commands(sql: &str) -> (r: String)
    ensures
        r@ == server_script(sql@),
{
    let cs = chars_of(sql);
    let mut out = String::new();
    let mut any = false;
    let mut current: Vec<char> = Vec::new();
    let ghost mut done: Seq<Seq<char>> = seq![];
    let mut i: usize = 0;
    assert(cs@.skip(0) == cs@);
    assert(out@ == joined(sql_lines(done), seq!['\n']));
    while i < cs.len()
        invariant
            i <= cs@.len(),
            cs@ == sql@,
            lines_from(sql@, seq![]) == done + lines_from(cs@.skip(i as int), current@),
            out@ == joined(sql_lines(done), seq!['\n']),
            any == (sql_lines(done).len() > 0),
        decreases cs@.len() - i,
    {
        let c = cs[i];
        assert(cs@.skip(i as int).drop_first() == cs@.skip(i + 1));
        assert(cs@.skip(i as int)[0] == c);
        if c == '\n' {
            if current.len() > 0 && current[current.len() - 1] == '\r' {
                current.pop();
            }
            proof {
                let line = current@;
                assert(done + (seq![line] + lines_from(cs@.skip(i + 1), seq![])) == done.push(line) + lines_from(cs@.skip(i + 1), seq![]));
                assert(done.push(line).drop_last() == done);
                done = done.push(line);
            }
            append_sql_line(&mut out, &mut any, &current, Ghost(done.drop_last()));
            current = Vec::new();
        } else {
            current.push(c);
        }
        i = i + 1;
    }
    proof {
        assert(cs@.skip(i as int).len() == 0);
        if current@.len() > 0 {
            assert(done + seq![current@] == done.push(current@));
            assert(done.push(current@).drop_last() == done);
        } else {
            assert(done + Seq::<Seq<char>>::empty() == done);
        }
    }
    if current.len() > 0 {
        let ghost before = done;
        append_sql_line(&mut out, &mut any, &current, Ghost(before));
    }
    out
}

/// Appends `line` to the joined lines `out` when it is not a meta-command; `any` tells
/// whether a line was kept so far.
fn append_sql_line(out: &mut String, any: &mut bool, line: &Vec<char>, before: Ghost<Seq<Seq<char>>>)
    requires
        old(out)@ == joined(sql_lines(before@), seq!['\n']),
        *old(any) == (sql_lines(before@).len() > 0),
    ensures
        final(out)@ == joined(sql_lines(before@.push(line@)), seq!['\n']),
        *final(any) == (sql_lines(before@.push(line@)).len() > 0),
{
    let ghost lines = before@.push(line@);
    assert(lines.drop_last() =~= before@);
    assert(lines.last() == line@);
    if !meta_command(line) {
        let ghost kept = sql_lines(before@);
        if *any {
            push_char(out, '\n');
        }
        push_chars(out, line.as_slice());
        *any = true;
        assert(kept.push(line@).drop_last() =~= kept);
    }
}

/// `admin/sql/update/schema-change/<sequence>.all.sql`.
pub open spec fn schema_change_path_spec(sequence: i32) -> Seq<char> {
    "admin/sql/update/schema-change/"@ + int_text(sequence as int) + ".all.sql"@
}

/// Where the script that upgrades the schema to `sequence` lies in the repository.
pub fn schema_change_path(sequence: i32) -> (r: String)
    ensures
        r@ == schema_change_path_spec(sequence),
{
    let mut r = String::from_str("admin/sql/update/schema-change/");
    push_int(&mut r, sequence as i64);
    r.append(".all.sql");
    r
}

} // verus!
