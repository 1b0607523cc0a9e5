//! Applying a packet's captured changes: rows of skipped tables are dropped, the rest
//! are cut into runs of one upstream transaction (xid), and each run becomes one
//! local transaction that replays its rows and then deletes them.
use vstd::prelude::*;
use vstd::string::*;
use itertools::Itertools;

use crate::error::MbLightError;
use crate::pending::{record_statement, table_skipped, PendingData, PendingKeys};
use crate::settings::MbLightSettingsExt;
use crate::text::{int_text, push_int, str_equal, texts};

verus! {

/// The rows that the allow-lists keep, in their order.
pub open spec fn kept_rows(rows: Seq<PendingData>, schemas: Seq<Seq<char>>, tables: Seq<Seq<char>>) -> Seq<PendingData>
    decreases rows.len(),
{
    if rows.len() == 0 {
        seq![]
    } else if table_skipped(rows.last().tablename@, schemas, tables) {
        kept_rows(rows.drop_last(), schemas, tables)
    } else {
        kept_rows(rows.drop_last(), schemas, tables).push(rows.last())
    }
}

/// Drops the rows whose table the settings leave out, keeping the order of the rest.
pub fn retain_applicable<S: MbLightSettingsExt>(rows: Vec<PendingData>, settings: &S) -> (r: Vec<PendingData>)
    ensures
        r@ == kept_rows(rows@, settings.schema_allow_list(), settings.table_allow_list()),
{
    let ghost all = rows@;
    let ghost schemas = settings.schema_allow_list();
    let ghost tables = settings.table_allow_list();
    let mut r: Vec<PendingData> = Vec::new();
    for row in it: rows.into_iter()
        invariant
            it.seq() == all,
            r@ == kept_rows(all.take(it.index() as int), schemas, tables),
            schemas == settings.schema_allow_list(),
            tables == settings.table_allow_list(),
    {
        let ghost i = it.index() as int;
        assert(all.take(i + 1).drop_last() == all.take(i));
        assert(all.take(i + 1).last() == row);
        if !row.is_skipped(settings) {
            r.push(row);
        }
    }
    assert(all.take(all.len() as int) == all);
    r
}

/// The values that runs stand for: each value repeated as often as its run is long.
pub open spec fn run_values(runs: Seq<(i64, usize)>) -> Seq<i64>
    decreases runs.len(),
{
    if runs.len() == 0 {
        seq![]
    } else {
        run_values(runs.drop_last()) + Seq::new(runs.last().1 as nat, |_k: int| runs.last().0)
    }
}

/// Relies on `itertools::Itertools::chunk_by`: consecutive equal values form one run,
/// the runs come in order, each non-empty, and two neighbouring runs differ in value.
#[verifier::external_body]
fn value_runs(values: &Vec<i64>) -> (r: Vec<(i64, usize)>)
    ensures
        run_values(r@) == values@,
        forall|k: int| 0 <= k < r@.len() ==> #[trigger] r@[k].1 > 0,
        forall|k: int| 0 < k < r@.len() ==> r@[k - 1].0 != #[trigger] r@[k].0,
{
    values.iter().chunk_by(|v| **v).into_iter().map(|(v, run)| (v, run.count())).collect()
}

/// The runs before `k` stand for a prefix of what all the runs stand for.
proof fn lemma_run_values_prefix(runs: Seq<(i64, usize)>, k: int)
    requires
        0 <= k <= runs.len(),
    ensures
        run_values(runs.take(k)).len() <= run_values(runs).len(),
        run_values(runs.take(k)) == run_values(runs).take(run_values(runs.take(k)).len() as int),
    decreases runs.len() - k,
{
    assert(runs.take(runs.len() as int) == runs);
    let all = run_values(runs);
    if k < runs.len() {
        lemma_run_values_prefix(runs, k + 1);
        assert(runs.take(k + 1).drop_last() == runs.take(k));
        let a = run_values(runs.take(k));
        let b = run_values(runs.take(k + 1));
        assert(b == a + Seq::new(runs[k].1 as nat, |_j: int| runs[k].0));
        assert(b.take(a.len() as int) =~= a);
        assert(all.take(b.len() as int).take(a.len() as int) =~= all.take(a.len() as int));
    } else {
        assert(all.take(all.len() as int) == all);
    }
}

/// Run `k` covers the values from the end of the runs before it, all equal to its value.
proof fn lemma_run_block(runs: Seq<(i64, usize)>, k: int)
    requires
        0 <= k < runs.len(),
    ensures
        run_values(runs.take(k + 1)).len() == run_values(runs.take(k)).len() + runs[k].1,
        run_values(runs.take(k + 1)).len() <= run_values(runs).len(),
        forall|i: int| run_values(runs.take(k)).len() <= i < run_values(runs.take(k + 1)).len()
            ==> #[trigger] run_values(runs)[i] == runs[k].0,
{
    lemma_run_values_prefix(runs, k + 1);
    assert(runs.take(k + 1).drop_last() == runs.take(k));
    let before = run_values(runs.take(k));
    let upto = run_values(runs.take(k + 1));
    assert(upto == before + Seq::new(runs[k].1 as nat, |_j: int| runs[k].0));
    assert forall|i: int| before.len() <= i < upto.len() implies #[trigger] run_values(runs)[i] == runs[k].0 by {
        assert(upto[i] == run_values(runs)[i]);
    }
}

/// The rows `start..end` of a list of rows, all of upstream transaction `xid`.
#[derive(Debug, Clone, Copy, PartialEq, Eq, Structural)]
pub struct XidRange {
    pub xid: i64,
    pub start: usize,
    pub end: usize,
}

/// `ranges` cut `rows` into its runs of one xid: in order, each non-empty, covering every
/// row once, every row of a range of the range's xid, two neighbouring ranges of
/// different xids.
pub open spec fn xid_partition(rows: Seq<PendingData>, ranges: Seq<XidRange>) -> bool {
    &&& ranges.len() == 0 <==> rows.len() == 0
    &&& ranges.len() > 0 ==> ranges[0].start == 0 && ranges.last().end == rows.len()
    &&& forall|k: int| 0 <= k < ranges.len() ==> #[trigger] ranges[k].start < ranges[k].end
    &&& forall|k: int| 0 < k < ranges.len() ==> ranges[k - 1].end == #[trigger] ranges[k].start
    &&& forall|k: int| 0 < k < ranges.len() ==> ranges[k - 1].xid != #[trigger] ranges[k].xid
    &&& forall|k: int, i: int| 0 <= k < ranges.len() && ranges[k].start <= i < ranges[k].end
        ==> #[trigger] rows[i].xid == #[trigger] ranges[k].xid
}

/// Cuts `rows` into its runs of one xid.
pub fn xid_groups(rows: &Vec<PendingData>) -> (r: Vec<XidRange>)
    ensures
        xid_partition(rows@, r@),
{
    let mut xids: Vec<i64> = Vec::new();
    let mut i: usize = 0;
    while i < rows.len()
        invariant
            i <= rows@.len(),
            xids@.len() == i,
            forall|j: int| 0 <= j < i ==> xids@[j] == #[trigger] rows@[j].xid,
        decreases rows@.len() - i,
    {
        xids.push(rows[i].xid);
        i = i + 1;
    }
    let runs = value_runs(&xids);
    let mut r: Vec<XidRange> = Vec::new();
    let mut offset: usize = 0;
    let mut k: usize = 0;
    assert(runs@.take(0) =~= Seq::<(i64, usize)>::empty());
    while k < runs.len()
        invariant
            k <= runs@.len(),
            r@.len() == k,
            run_values(runs@) == xids@,
            xids@.len() == rows@.len(),
            xids@.len() == xids.len(),
            forall|j: int| 0 <= j < rows@.len() ==> xids@[j] == #[trigger] rows@[j].xid,
            forall|j: int| 0 <= j < runs@.len() ==> #[trigger] runs@[j].1 > 0,
            forall|j: int| 0 < j < runs@.len() ==> runs@[j - 1].0 != #[trigger] runs@[j].0,
            offset == run_values(runs@.take(k as int)).len(),
            offset <= xids@.len(),
            k == 0 ==> offset == 0,
            k > 0 ==> r@[0].start == 0 && r@.last().end == offset,
            forall|j: int| 0 <= j < k ==> #[trigger] r@[j].xid == runs@[j].0,
            forall|j: int| 0 <= j < k ==> #[trigger] r@[j].start < r@[j].end,
            forall|j: int| 0 < j < k ==> r@[j - 1].end == #[trigger] r@[j].start,
            forall|j: int, i: int| 0 <= j < k && r@[j].start <= i < r@[j].end
                ==> #[trigger] rows@[i].xid == #[trigger] r@[j].xid,
        decreases runs@.len() - k,
    {
        let (x, n) = runs[k];
        proof {
            lemma_run_block(runs@, k as int);
            assert(offset + n <= xids@.len());
            assert forall|i: int| offset <= i < offset + n implies #[trigger] rows@[i].xid == x by {
                assert(xids@[i] == run_values(runs@)[i]);
            }
        }
        let ghost prev = r@;
        let range = XidRange { xid: x, start: offset, end: offset + n };
        r.push(range);
        assert(r@ == prev.push(range));
        offset = offset + n;
        k = k + 1;
    }
    assert(runs@.take(runs@.len() as int) == runs@);
    r
}

/// The key columns listed for `tablename`; none when it is not listed.
pub open spec fn keys_for(tablename: Seq<char>, all: Seq<PendingKeys>) -> Seq<Seq<char>>
    decreases all.len(),
{
    if all.len() == 0 {
        seq![]
    } else if all[0].tablename@ == tablename {
        texts(all[0].keys@)
    } else {
        keys_for(tablename, all.drop_first())
    }
}

/// The key columns listed for `tablename`; none when it is not listed.
pub fn find_keys(tablename: &str, all: &Vec<PendingKeys>) -> (r: Vec<String>)
    ensures
        texts(r@) == keys_for(tablename@, all@),
{
    let mut i: usize = 0;
    assert(all@.skip(0) == all@);
    while i < all.len()
        invariant
            i <= all@.len(),
            keys_for(tablename@, all@) == keys_for(tablename@, all@.skip(i as int)),
        decreases all@.len() - i,
    {
        assert(all@.skip(i as int).drop_first() == all@.skip(i + 1));
        if str_equal(all[i].tablename.as_str(), tablename) {
            return all[i].keys.clone();
        }
        i = i + 1;
    }
    Vec::new()
}

/// `DELETE FROM dbmirror2.pending_data WHERE xid = <xid>`.
pub open spec fn remove_by_xid_sql(xid: i64) -> Seq<char> {
    "DELETE FROM dbmirror2.pending_data WHERE xid = "@ + int_text(xid as int)
}

/// The statement that removes the rows of upstream transaction `xid` from the queue.
pub fn remove_by_xid(xid: i64) -> (r: String)
    ensures
        r@ == remove_by_xid_sql(xid),
{
    let mut r = String::new();
    r.append("DELETE FROM dbmirror2.pending_data WHERE xid = ");
    push_int(&mut r, xid);
    r
}

/// The statements that replay `rows` in order, or the first error among them.
pub open spec fn group_statements(
    rows: Seq<PendingData>,
    all_keys: Seq<PendingKeys>,
    schemas: Seq<Seq<char>>,
    tables: Seq<Seq<char>>,
) -> Result<Seq<Seq<char>>, MbLightError>
    decreases rows.len(),
{
    if rows.len() == 0 {
        Ok(seq![])
    } else {
        match group_statements(rows.drop_last(), all_keys, schemas, tables) {
            Err(e) => Err(e),
            Ok(prev) => match record_statement(
                rows.last(),
                keys_for(rows.last().tablename@, all_keys),
                schemas,
                tables,
            ) {
                Err(e) => Err(e),
                Ok(None) => Ok(prev),
                Ok(Some(s)) => Ok(prev.push(s)),
            },
        }
    }
}

/// One local transaction: the statements that replay the rows of upstream transaction
/// `xid`, the last of which removes those rows from the queue.
#[derive(Debug, Clone)]
pub struct XidBatch {
    pub xid: i64,
    pub statements: Vec<String>,
}

/// The transaction for the rows `range` of `rows`, or the first error in compiling them.
pub open spec fn batch_statements(
    rows: Seq<PendingData>,
    range: XidRange,
    all_keys: Seq<PendingKeys>,
    schemas: Seq<Seq<char>>,
    tables: Seq<Seq<char>>,
) -> Result<Seq<Seq<char>>, MbLightError> {
    match group_statements(rows.subrange(range.start as int, range.end as int), all_keys, schemas, tables) {
        Ok(ss) => Ok(ss.push(remove_by_xid_sql(range.xid))),
        Err(e) => Err(e),
    }
}

/// The statements of a batch, or its error.
pub open spec fn batch_view(r: Result<XidBatch, MbLightError>) -> Result<Seq<Seq<char>>, MbLightError> {
    match r {
        Ok(b) => Ok(texts(b.statements@)),
        Err(e) => Err(e),
    }
}

/// Compiles the rows `range` of `rows` into one local transaction.
pub fn compile_batch<S: MbLightSettingsExt>(
    rows: &Vec<PendingData>,
    range: XidRange,
    all_keys: &Vec<PendingKeys>,
    settings: &S,
) -> (r: Result<XidBatch, MbLightError>)
    requires
        range.start <= range.end <= rows@.len(),
    ensures
        batch_view(r) == batch_statements(
            rows@,
            range,
            all_keys@,
            settings.schema_allow_list(),
            settings.table_allow_list(),
        ),
        r is Ok ==> r->Ok_0.xid == range.xid,
{
    let ghost schemas = settings.schema_allow_list();
    let ghost tables = settings.table_allow_list();
    let ghost seg = rows@.subrange(range.start as int, range.end as int);
    let mut statements: Vec<String> = Vec::new();
    let mut i: usize = range.start;
    assert(seg.take(0) =~= Seq::<PendingData>::empty());
    assert(texts(statements@) =~= Seq::<Seq<char>>::empty());
    while i < range.end
        invariant
            range.start <= i <= range.end <= rows@.len(),
            seg == rows@.subrange(range.start as int, range.end as int),
            schemas == settings.schema_allow_list(),
            tables == settings.table_allow_list(),
            group_statements(seg.take(i - range.start), all_keys@, schemas, tables) == Ok::<_, MbLightError>(texts(statements@)),
        decreases range.end - i,
    {
        let ghost j = i - range.start;
        assert(seg.take(j + 1).drop_last() == seg.take(j));
        assert(seg.take(j + 1).last() == rows@[i as int]);
        let keys = find_keys(rows[i].tablename.as_str(), all_keys);
        match rows[i].to_sql_inline(&keys, settings) {
            Ok(Some(s)) => {
                let ghost prev = statements@;
                statements.push(s);
                assert(texts(statements@) =~= texts(prev).push(statements@.last()@));
            },
            Ok(None) => {},
            Err(e) => {
                proof {
                    lemma_group_error_persists(seg, all_keys@, schemas, tables, j + 1);
                    assert(seg.take(seg.len() as int) == seg);
                }
                return Err(e);
            },
        }
        i = i + 1;
    }
    assert(seg.take(i - range.start) == seg);
    let ghost prev = statements@;
    statements.push(remove_by_xid(range.xid));
    assert(texts(statements@) =~= texts(prev).push(remove_by_xid_sql(range.xid)));
    Ok(XidBatch { xid: range.xid, statements })
}

/// Once a row fails to compile, so does every longer run that holds it.
pub proof fn lemma_group_error_persists(
    rows: Seq<PendingData>,
    all_keys: Seq<PendingKeys>,
    schemas: Seq<Seq<char>>,
    tables: Seq<Seq<char>>,
    k: int,
)
    requires
        0 <= k <= rows.len(),
        group_statements(rows.take(k), all_keys, schemas, tables) is Err,
    ensures
        forall|j: int| k <= j <= rows.len() ==> group_statements(#[trigger] rows.take(j), all_keys, schemas, tables)
            == group_statements(rows.take(k), all_keys, schemas, tables),
    decreases rows.len() - k,
{
    if k < rows.len() {
        assert(rows.take(k + 1).drop_last() == rows.take(k));
        lemma_group_error_persists(rows, all_keys, schemas, tables, k + 1);
    }
}

/// A run of rows compiles when every one of its rows compiles, and fails otherwise.
pub proof fn lemma_group_compiles_iff_each_row(
    rows: Seq<PendingData>,
    all_keys: Seq<PendingKeys>,
    schemas: Seq<Seq<char>>,
    tables: Seq<Seq<char>>,
)
    ensures
        group_statements(rows, all_keys, schemas, tables) is Ok <==> forall|i: int| 0 <= i < rows.len()
            ==> (#[trigger] record_statement(rows[i], keys_for(rows[i].tablename@, all_keys), schemas, tables)) is Ok,
    decreases rows.len(),
{
    if rows.len() > 0 {
        let init = rows.drop_last();
        lemma_group_compiles_iff_each_row(init, all_keys, schemas, tables);
        assert forall|i: int| 0 <= i < init.len() implies #[trigger] init[i] == rows[i] by {}
        if group_statements(rows, all_keys, schemas, tables) is Ok {
            assert forall|i: int| 0 <= i < rows.len() implies (#[trigger] record_statement(
                rows[i],
                keys_for(rows[i].tablename@, all_keys),
                schemas,
                tables,
            )) is Ok by {
                if i < init.len() {
                    assert(init[i] == rows[i]);
                }
            }
        }
    }
}

/// Each upstream transaction is applied whole or not at all: the local transaction for
/// a run of rows exists exactly when every row of the run compiles, and it then holds
/// one statement for each row that is not skipped and ends by removing the run's rows
/// from the queue.
pub proof fn lemma_xid_batch_all_or_nothing(
    rows: Seq<PendingData>,
    range: XidRange,
    all_keys: Seq<PendingKeys>,
    schemas: Seq<Seq<char>>,
    tables: Seq<Seq<char>>,
)
    requires
        range.start <= range.end <= rows.len(),
    ensures
        batch_statements(rows, range, all_keys, schemas, tables) is Ok <==> forall|i: int|
            range.start <= i < range.end ==> (#[trigger] record_statement(
                rows[i],
                keys_for(rows[i].tablename@, all_keys),
                schemas,
                tables,
            )) is Ok,
        batch_statements(rows, range, all_keys, schemas, tables) is Ok ==> batch_statements(
            rows,
            range,
            all_keys,
            schemas,
            tables,
        )->Ok_0.last() == remove_by_xid_sql(range.xid),
{
    let seg = rows.subrange(range.start as int, range.end as int);
    lemma_group_compiles_iff_each_row(seg, all_keys, schemas, tables);
    assert forall|i: int| range.start <= i < range.end implies #[trigger] rows[i] == seg[i - range.start] by {}
    if !(batch_statements(rows, range, all_keys, schemas, tables) is Ok) {
        let j = choose|j: int| 0 <= j < seg.len() && !((#[trigger] record_statement(
            seg[j],
            keys_for(seg[j].tablename@, all_keys),
            schemas,
            tables,
        )) is Ok);
        assert(seg[j] == rows[j + range.start]);
    }
}

/// Every row before the end of range `k` lies in one of the ranges up to `k`.
proof fn lemma_ranges_cover_prefix(rows: Seq<PendingData>, ranges: Seq<XidRange>, k: int, i: int)
    requires
        xid_partition(rows, ranges),
        0 <= k < ranges.len(),
        0 <= i < ranges[k].end,
    ensures
        exists|j: int| 0 <= j <= k && ranges[j].start <= i < #[trigger] ranges[j].end,
    decreases k,
{
    if i >= ranges[k].start {
        assert(ranges[k].start <= i < ranges[k].end);
    } else {
        assert(k > 0);
        assert(ranges[k - 1].end == ranges[k].start);
        lemma_ranges_cover_prefix(rows, ranges, k - 1, i);
        let j = choose|j: int| 0 <= j <= k - 1 && ranges[j].start <= i < #[trigger] ranges[j].end;
        assert(ranges[j].start <= i < ranges[j].end);
    }
}

/// Applying a packet leaves no row of it queued: every kept row lies in a run whose
/// transaction, once it commits, has removed the row's xid from the queue; the packet
/// then ends by emptying both queue tables (`truncate_statements`).
pub proof fn lemma_every_row_is_removed(
    rows: Seq<PendingData>,
    ranges: Seq<XidRange>,
    all_keys: Seq<PendingKeys>,
    schemas: Seq<Seq<char>>,
    tables: Seq<Seq<char>>,
    i: int,
)
    requires
        xid_partition(rows, ranges),
        0 <= i < rows.len(),
    ensures
        exists|k: int| {
            &&& 0 <= k < ranges.len()
            &&& ranges[k].start <= i < #[trigger] ranges[k].end
            &&& batch_statements(rows, ranges[k], all_keys, schemas, tables) matches Ok(ss)
                ==> ss.last() == remove_by_xid_sql(rows[i].xid)
        },
{
    let last = ranges.len() - 1;
    lemma_ranges_cover_prefix(rows, ranges, last, i);
    let k = choose|k: int| 0 <= k <= last && ranges[k].start <= i < #[trigger] ranges[k].end;
    assert(rows[i].xid == ranges[k].xid);
}

/// A row whose table the allow-lists leave out yields no statement.
pub proof fn lemma_skipped_table_gets_no_statement(
    d: PendingData,
    keys: Seq<Seq<char>>,
    schemas: Seq<Seq<char>>,
    tables: Seq<Seq<char>>,
)
    requires
        table_skipped(d.tablename@, schemas, tables),
    ensures
        record_statement(d, keys, schemas, tables) == Ok::<Option<Seq<char>>, MbLightError>(None),
{
}

/// No kept row belongs to a table that the allow-lists leave out, and every row that
/// they do not leave out is kept.
pub proof fn lemma_kept_rows_exact(rows: Seq<PendingData>, schemas: Seq<Seq<char>>, tables: Seq<Seq<char>>)
    ensures
        forall|i: int| 0 <= i < kept_rows(rows, schemas, tables).len()
            ==> !table_skipped((#[trigger] kept_rows(rows, schemas, tables)[i]).tablename@, schemas, tables),
        forall|i: int| 0 <= i < rows.len() && !table_skipped((#[trigger] rows[i]).tablename@, schemas, tables)
            ==> kept_rows(rows, schemas, tables).contains(rows[i]),
    decreases rows.len(),
{
    if rows.len() > 0 {
        let init = rows.drop_last();
        lemma_kept_rows_exact(init, schemas, tables);
        let k = kept_rows(rows, schemas, tables);
        let ki = kept_rows(init, schemas, tables);
        assert forall|i: int| 0 <= i < rows.len() && !table_skipped((#[trigger] rows[i]).tablename@, schemas, tables)
            implies k.contains(rows[i]) by {
            if i < init.len() {
                assert(init[i] == rows[i]);
                let j = choose|j: int| 0 <= j < ki.len() && ki[j] == rows[i];
                assert(k[j] == ki[j]);
            } else {
                assert(k[k.len() - 1] == rows[i]);
            }
        }
        assert forall|i: int| 0 <= i < k.len() implies !table_skipped((#[trigger] k[i]).tablename@, schemas, tables) by {
            if i < ki.len() {
                assert(k[i] == ki[i]);
            }
        }
    }
}

/// The statements that close a packet: both queue tables are emptied.
pub fn truncate_statements() -> (r: Vec<String>)
    ensures
        texts(r@) == seq!["TRUNCATE dbmirror2.pending_data"@, "TRUNCATE dbmirror2.pending_keys"@],
{
    let mut r: Vec<String> = Vec::new();
    r.push(String::from_str("TRUNCATE dbmirror2.pending_data"));
    r.push(String::from_str("TRUNCATE dbmirror2.pending_keys"));
    assert(texts(r@) =~= seq!["TRUNCATE dbmirror2.pending_data"@, "TRUNCATE dbmirror2.pending_keys"@]);
    r
}

} // verus!
