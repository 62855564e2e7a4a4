//! Loading the data records of a file into a table, all of them or none.

use crate::config::CliCfg;
use crate::error::{LoadError, RowWidthError};
use crate::field::{columns, Field};
use crate::model::{
    abandoned_log, accepted, appended, committed_log, inserts, law_abandoned_load_changes_nothing,
    law_committed_load_appends, lemma_run_one, run, Store,
};
use crate::record::{Records, StringRecordParamed};
use crate::store::{
    lemma_set_aside_none, lemma_set_aside_one, set_aside_more, swallowed, Inserter, Issued, Session,
    StoreOp,
};
use vstd::prelude::*;

verus! {

/// What a committed load has written.
#[derive(Debug, Clone, Copy, PartialEq, Eq, Structural)]
pub struct LoadOutcome {
    /// The number of records inserted.
    pub rows_written: u64,
    /// The number of fields inserted: the width of the schema for each record.
    pub fields_written: u64,
}

/// The data records among the records `read` from the start of a file: all but the first
/// under a header, else all.
pub open spec fn data_rows(read: Seq<Seq<Seq<char>>>, header_present: bool) -> Seq<Seq<Seq<char>>> {
    if !header_present {
        read
    } else if read.len() >= 1 {
        read.subrange(1, read.len() as int)
    } else {
        Seq::empty()
    }
}

/// Every one of `rows` has `width` fields.
pub open spec fn all_of_width(rows: Seq<Seq<Seq<char>>>, width: nat) -> bool {
    forall|i: int| 0 <= i < rows.len() ==> (#[trigger] rows[i]).len() == width
}

/// Every accepted insert of `log` has a row of `width` fields.
pub open spec fn inserted_width(log: Seq<Issued>, width: nat) -> bool {
    forall|i: int|
        0 <= i < log.len() && (#[trigger] log[i]).ok ==> (log[i].op matches StoreOp::Insert {
            row,
            ..
        } ==> row.len() == width)
}

/// The operations of a load that stopped between its begin and its end: leading rows of
/// `rows` were inserted, and at most one more insert was refused.
pub open spec fn stalled_log(table: Seq<char>, rows: Seq<Seq<Seq<char>>>, log: Seq<Issued>) -> bool {
    let n = log.len() as int;
    ||| {
        &&& n <= rows.len()
        &&& log == inserts(table, rows.take(n))
    }
    ||| {
        &&& 1 <= n <= rows.len() + 1
        &&& log.drop_last() == inserts(table, rows.take(n - 1))
        &&& !log.last().ok
        &&& log.last().op is Insert
    }
}

/// Under a header the first record is never data, and every later record is the data record
/// one place earlier.
pub proof fn law_header_is_not_data(read: Seq<Seq<Seq<char>>>)
    ensures
        data_rows(read, true).len() == if read.len() == 0 {
            0
        } else {
            read.len() - 1
        },
        forall|i: int|
            0 <= i < data_rows(read, true).len() ==> #[trigger] data_rows(read, true)[i] == read[i
                + 1],
        data_rows(read, false) == read,
{
}

/// Holds a data record of `found` fields, the `line`-th record of its file, against the width
/// `expected` of the schema.
pub fn check_row(line: u64, found: usize, expected: usize, ignore_field_count: bool) -> (res: Result<
    (),
    RowWidthError,
>)
    ensures
        res is Err <==> !ignore_field_count && found != expected,
        res matches Err(e) ==> e == (RowWidthError { line, expected, found }),
{
    if !ignore_field_count && found != expected {
        Err(RowWidthError { line, expected, found })
    } else {
        Ok(())
    }
}

/// Whether the `line`-th record of a file is its header.
pub fn is_header(line: u64, header_present: bool) -> (b: bool)
    ensures
        b == (header_present && line == 1),
{
    header_present && line == 1
}

/// Reads `records` to the end and inserts every data record through `ins`, stopping at the
/// first record that cannot be inserted.
///
/// When it returns `Ok`, the stream has ended and one insert was accepted for each data
/// record, in order. When it returns an error, inserts were accepted for leading data records
/// only. With the width policed, no record of another width than `width` was sent, and a data
/// record of another width ends the load with the width error and nothing else.
pub fn insert_all(
    cfg: &CliCfg,
    session: &mut Session<'_>,
    ins: &mut Inserter<'_>,
    records: &mut Records<'_>,
    width: usize,
) -> (res: Result<LoadOutcome, LoadError>)
    requires
        old(records).fresh(),
    ensures
        final(ins).table() == old(ins).table(),
        final(records).same_source_as(old(records)),
        final(records).seen().len() == final(records).count(),
        final(session).inspections() == old(session).inspections(),
        final(session).unreported() == old(session).unreported(),
        final(session).compilations() == old(session).compilations(),
        final(session).log() == old(session).log() + final(session).issued_since(old(session)),
        !cfg.ignore_field_count ==> inserted_width(
            final(session).issued_since(old(session)),
            width as nat,
        ),
        res matches Ok(outcome) ==> {
            let data = data_rows(final(records).seen(), cfg.headeron);
            &&& final(records).ended()
            &&& final(session).issued_since(old(session)) == inserts(old(ins).table(), data)
            &&& outcome.rows_written == data.len()
            &&& outcome.fields_written == data.len() * width
            &&& !cfg.ignore_field_count ==> all_of_width(data, width as nat)
        },
        res is Err ==> stalled_log(
            old(ins).table(),
            data_rows(final(records).seen(), cfg.headeron),
            final(session).issued_since(old(session)),
        ),
        res matches Err(LoadError::RowWidth(e)) ==> {
            let read = final(records).seen();
            &&& !cfg.ignore_field_count
            &&& read.len() > (if cfg.headeron { 1nat } else { 0nat })
            &&& e.line == read.len()
            &&& e.expected == width
            &&& e.found == read.last().len()
            &&& e.found != width
            &&& final(session).issued_since(old(session)) == inserts(
                old(ins).table(),
                data_rows(read, cfg.headeron).drop_last(),
            )
        },
        !cfg.ignore_field_count && !all_of_width(
            data_rows(final(records).seen(), cfg.headeron),
            width as nat,
        ) ==> res matches Err(LoadError::RowWidth(_)),
        res matches Err(e) ==> e is RowWidth || e is StoreAccess || e is Io || e is MalformedRecord
            || e is TooLarge,
{
    let ghost base = session.log();
    let ghost table = ins.table();
    let mut rec = StringRecordParamed::empty();
    let mut line: u64 = 0;
    let mut rows_written: u64 = 0;
    let mut fields_written: u64 = 0;
    let mut more = true;
    assert(session.log() =~= base + inserts(table, data_rows(records.seen(), cfg.headeron)));
    while more
        invariant
            ins.table() == table,
            table == old(ins).table(),
            records.same_source_as(old(records)),
            base == old(session).log(),
            session.inspections() == old(session).inspections(),
            session.unreported() == old(session).unreported(),
            session.compilations() == old(session).compilations(),
            line == records.count(),
            line == records.seen().len(),
            !more ==> records.ended(),
            rows_written == data_rows(records.seen(), cfg.headeron).len(),
            rows_written <= line,
            fields_written == rows_written * width,
            session.log() == base + inserts(table, data_rows(records.seen(), cfg.headeron)),
            !cfg.ignore_field_count ==> all_of_width(
                data_rows(records.seen(), cfg.headeron),
                width as nat,
            ),
        decreases (if more { 1nat } else { 0nat }) + u64::MAX - line,
    {
        let ghost before = records.seen();
        let ghost done = data_rows(before, cfg.headeron);
        match records.next(&mut rec) {
            Err(e) => {
                proof {
                    let issued = session.log().skip(base.len() as int);
                    assert(issued =~= inserts(table, done));
                    assert(done.take(done.len() as int) =~= done);
                    lemma_inserts_have_width(table, done, width as nat);
                }
                return Err(e);
            },
            Ok(false) => {
                more = false;
            },
            Ok(true) => {
                line = line + 1;
                let ghost data = data_rows(records.seen(), cfg.headeron);
                if is_header(line, cfg.headeron) {
                    assert(data =~= done);
                } else {
                    assert(data =~= done.push(rec.fields()));
                    assert(data.drop_last() =~= done);
                    assert(data.take(done.len() as int) =~= done);
                    let found = rec.len();
                    match check_row(line, found, width, cfg.ignore_field_count) {
                        Err(e) => {
                            proof {
                                let issued = session.log().skip(base.len() as int);
                                assert(issued =~= inserts(table, done));
                                lemma_inserts_have_width(table, done, width as nat);
                            }
                            return Err(LoadError::RowWidth(e));
                        },
                        Ok(()) => {},
                    }
                    if fields_written > u64::MAX - (width as u64) {
                        proof {
                            let issued = session.log().skip(base.len() as int);
                            assert(issued =~= inserts(table, done));
                            lemma_inserts_have_width(table, done, width as nat);
                        }
                        return Err(LoadError::TooLarge);
                    }
                    match session.insert(ins, &rec) {
                        Err(e) => {
                            proof {
                                let issued = session.log().skip(base.len() as int);
                                let refused = Issued {
                                    op: StoreOp::Insert { table, row: rec.fields() },
                                    ok: false,
                                };
                                assert(issued =~= inserts(table, done).push(refused));
                                assert(issued.drop_last() =~= inserts(table, done));
                                lemma_inserts_have_width(table, done, width as nat);
                                assert(!cfg.ignore_field_count ==> inserted_width(
                                    issued,
                                    width as nat,
                                )) by {
                                    if !cfg.ignore_field_count {
                                        lemma_refused_insert_keeps_width(
                                            inserts(table, done),
                                            refused,
                                            width as nat,
                                        );
                                    }
                                }
                            }
                            return Err(e);
                        },
                        Ok(()) => {
                            assert((rows_written + 1) * width == rows_written * width + width)
                                by (nonlinear_arith);
                            rows_written = rows_written + 1;
                            fields_written = fields_written + (width as u64);
                            assert(session.log() =~= base + inserts(table, data));
                        },
                    }
                }
            },
        }
    }
    proof {
        let data = data_rows(records.seen(), cfg.headeron);
        assert(session.log().skip(base.len() as int) =~= inserts(table, data));
        lemma_inserts_have_width(table, data, width as nat);
    }
    Ok(LoadOutcome { rows_written, fields_written })
}

/// A begin that the store refused.
pub open spec fn refused_begin() -> Seq<Issued> {
    seq![Issued { op: StoreOp::Begin, ok: false }]
}

/// The operations of a load that failed: none, where the insert statement could not be
/// compiled; a refused begin; or those of a load given up inside its transaction.
pub open spec fn failed_load_log(table: Seq<char>, rows: Seq<Seq<Seq<char>>>, log: Seq<Issued>) -> bool {
    ||| log == Seq::<Issued>::empty()
    ||| log == refused_begin()
    ||| abandoned_log(table, rows, log)
}

/// A load that failed leaves every committed table as it was: nothing of the file stays,
/// whichever record or operation failed, the last one too.
pub proof fn law_failed_load_changes_nothing(
    s: Store,
    table: Seq<char>,
    rows: Seq<Seq<Seq<char>>>,
    log: Seq<Issued>,
)
    requires
        s.working is None,
        failed_load_log(table, rows, log),
    ensures
        run(s, log).committed == s.committed,
{
    if log == Seq::<Issued>::empty() {
    } else if log == refused_begin() {
        lemma_run_one(s, log[0]);
    } else {
        law_abandoned_load_changes_nothing(s, table, rows, log);
    }
}

/// With the width policed, a load either appends to its table all the data records of the
/// file, every one of them of the width of the schema, or leaves every committed table as it
/// was. No record of another width is ever committed.
pub proof fn law_policed_load_is_all_or_nothing(
    s: Store,
    table: Seq<char>,
    rows: Seq<Seq<Seq<char>>>,
    width: nat,
    log: Seq<Issued>,
)
    requires
        s.working is None,
        inserted_width(log, width),
        log == committed_log(table, rows) || failed_load_log(table, rows, log),
    ensures
        ({
            ||| run(s, log).committed == s.committed
            ||| {
                &&& all_of_width(rows, width)
                &&& run(s, log).committed == appended(s.committed, table, rows)
            }
        }),
{
    if log == committed_log(table, rows) {
        assert forall|i: int| 0 <= i < rows.len() implies (#[trigger] rows[i]).len() == width by {
            assert(log[i + 1] == accepted(StoreOp::Insert { table, row: rows[i] }));
        }
        law_committed_load_appends(s, table, rows);
    } else {
        law_failed_load_changes_nothing(s, table, rows, log);
    }
}

/// Inserts every data record of `records` into `tablename` inside one transaction.
///
/// The statement that names the columns of `f_sch` is compiled and the transaction opened;
/// with either refused, nothing else is sent. Every insert goes through that statement, with
/// the fields of the record bound in order to its parameters. Then every data record is inserted (see [`insert_all`]) and the transaction is
/// committed. Whatever fails after the begin, a rollback is sent as the last operation, and
/// the failure that caused it is returned; a refused rollback is set aside in the session and
/// never takes the place of that failure. The outcome is returned only after an accepted
/// commit.
#[verifier::rlimit(40)]
pub fn write_to_db(
    cfg: &CliCfg,
    session: &mut Session<'_>,
    records: &mut Records<'_>,
    tablename: &str,
    f_sch: &Vec<Field>,
) -> (res: Result<LoadOutcome, LoadError>)
    requires
        old(records).fresh(),
    ensures
        final(records).same_source_as(old(records)),
        final(records).seen().len() == final(records).count(),
        final(session).inspections() == old(session).inspections(),
        final(session).compiled_once_since(
            old(session),
            tablename@,
            columns(f_sch@),
            final(session).issued_since(old(session)).len() > 0,
        ),
        set_aside_more(
            old(session).unreported(),
            final(session).unreported(),
            swallowed(final(session).issued_since(old(session))),
        ),
        final(session).log() == old(session).log() + final(session).issued_since(old(session)),
        !cfg.ignore_field_count ==> inserted_width(
            final(session).issued_since(old(session)),
            f_sch.len() as nat,
        ),
        res matches Ok(outcome) ==> {
            let data = data_rows(final(records).seen(), cfg.headeron);
            &&& final(records).ended()
            &&& final(session).issued_since(old(session)) == committed_log(tablename@, data)
            &&& outcome.rows_written == data.len()
            &&& outcome.fields_written == data.len() * f_sch.len()
            &&& !cfg.ignore_field_count ==> all_of_width(data, f_sch.len() as nat)
        },
        res is Err ==> failed_load_log(
            tablename@,
            data_rows(final(records).seen(), cfg.headeron),
            final(session).issued_since(old(session)),
        ),
        res matches Err(LoadError::RowWidth(e)) ==> {
            let read = final(records).seen();
            &&& !cfg.ignore_field_count
            &&& read.len() > (if cfg.headeron { 1nat } else { 0nat })
            &&& e.line == read.len()
            &&& e.expected == f_sch.len()
            &&& e.found == read.last().len()
            &&& e.found != f_sch.len()
            &&& abandoned_log(
                tablename@,
                data_rows(read, cfg.headeron),
                final(session).issued_since(old(session)),
            )
        },
        !cfg.ignore_field_count && !all_of_width(
            data_rows(final(records).seen(), cfg.headeron),
            f_sch.len() as nat,
        ) ==> res matches Err(LoadError::RowWidth(_)),
        res matches Err(e) ==> e is RowWidth || e is StoreAccess || e is Io || e is MalformedRecord
            || e is TooLarge,
{
    let ghost base = session.log();
    let ghost table = tablename@;
    let width = f_sch.len();
    let mut ins = match session.prepare_insert(tablename, f_sch) {
        Ok(ins) => ins,
        Err(e) => {
            assert(session.log().skip(base.len() as int) =~= Seq::<Issued>::empty());
            assert(session.log() =~= base + Seq::<Issued>::empty());
            proof {
                lemma_set_aside_none(session.unreported());
            }
            return Err(e);
        },
    };
    match session.begin() {
        Ok(()) => {},
        Err(e) => {
            assert(session.log().skip(base.len() as int) =~= refused_begin());
            assert(session.log() =~= base + refused_begin());
            proof {
                lemma_set_aside_none(session.unreported());
            }
            return Err(e);
        },
    }
    let ghost opened = session.log();
    assert(opened =~= base + seq![accepted(StoreOp::Begin)]);
    let loaded = insert_all(cfg, session, &mut ins, records, width);
    let ghost data = data_rows(records.seen(), cfg.headeron);
    let ghost sent = session.log().skip(opened.len() as int);
    let ghost inserted = session.log();
    assert(inserted =~= base + (seq![accepted(StoreOp::Begin)] + sent));
    let failure = match loaded {
        Ok(outcome) => match session.commit() {
            Ok(()) => {
                proof {
                    let issued = session.log().skip(base.len() as int);
                    assert(issued =~= committed_log(table, data));
                    assert(session.log() =~= base + issued);
                    assert(issued[0] == accepted(StoreOp::Begin));
                    assert(issued.last() == accepted(StoreOp::Commit));
                    lemma_set_aside_none(session.unreported());
                    lemma_framed_inserts_keep_width(
                        accepted(StoreOp::Begin),
                        sent,
                        seq![accepted(StoreOp::Commit)],
                        width as nat,
                    );
                }
                return Ok(outcome);
            },
            Err(e) => e,
        },
        Err(e) => e,
    };
    let ghost closing = session.log().skip(inserted.len() as int);
    let ghost kept = session.unreported();
    match session.rollback() {
        Ok(()) => {
            proof {
                lemma_set_aside_none(kept);
            }
        },
        Err(refusal) => {
            proof {
                lemma_set_aside_one(kept, refusal);
            }
            session.set_aside(refusal);
        },
    }
    proof {
        let issued = session.log().skip(base.len() as int);
        let n = issued.len() as int;
        assert(issued[0] == accepted(StoreOp::Begin));
        assert(issued.last() == session.log().last());
        let end = seq![issued[n - 1]];
        assert(issued =~= seq![accepted(StoreOp::Begin)] + sent + (closing + end));
        assert(session.log() =~= base + issued);
        assert(issued[n - 1].op is Rollback);
        lemma_framed_inserts_keep_width(accepted(StoreOp::Begin), sent, closing + end, width as nat);
        if closing.len() == 0 {
            if sent.len() <= data.len() && sent == inserts(table, data.take(sent.len() as int)) {
                assert(issued.subrange(1, n - 1) =~= sent);
            } else {
                assert(issued.subrange(1, n - 2) =~= sent.drop_last());
                assert(issued[n - 2] == sent.last());
            }
        } else {
            assert(sent == inserts(table, data));
            assert(data.take(data.len() as int) =~= data);
            assert(issued.subrange(1, n - 2) =~= sent);
            assert(issued[n - 2] == closing[0]);
        }
        assert(abandoned_log(table, data, issued));
    }
    Err(failure)
}

/// Operations that insert nothing, put around a log of inserts of one width, leave a log of
/// inserts of that width.
pub proof fn lemma_framed_inserts_keep_width(
    first: Issued,
    log: Seq<Issued>,
    rest: Seq<Issued>,
    width: nat,
)
    requires
        !(first.op is Insert),
        forall|i: int| 0 <= i < rest.len() ==> !((#[trigger] rest[i]).op is Insert && rest[i].ok),
    ensures
        inserted_width(log, width) ==> inserted_width(seq![first] + log + rest, width),
{
    let whole = seq![first] + log + rest;
    if inserted_width(log, width) {
        assert forall|i: int| 0 <= i < whole.len() && (#[trigger] whole[i]).ok implies (
        whole[i].op matches StoreOp::Insert { row, .. } ==> row.len() == width) by {
            if i == 0 {
            } else if i <= log.len() {
                assert(whole[i] == log[i - 1]);
            } else {
                assert(whole[i] == rest[i - 1 - log.len()]);
            }
        }
    }
}

/// A refused operation after inserts of one width leaves a log of inserts of that width.
pub proof fn lemma_refused_insert_keeps_width(log: Seq<Issued>, refused: Issued, width: nat)
    requires
        inserted_width(log, width),
        !refused.ok,
    ensures
        inserted_width(log.push(refused), width),
{
    let longer = log.push(refused);
    assert forall|i: int| 0 <= i < longer.len() && (#[trigger] longer[i]).ok implies (
    longer[i].op matches StoreOp::Insert { row, .. } ==> row.len() == width) by {
        if i < log.len() {
            assert(longer[i] == log[i]);
        }
    }
}

/// Accepted inserts of rows of one width are inserts of that width.
pub proof fn lemma_inserts_have_width(table: Seq<char>, rows: Seq<Seq<Seq<char>>>, width: nat)
    ensures
        all_of_width(rows, width) ==> inserted_width(inserts(table, rows), width),
{
    if all_of_width(rows, width) {
        assert forall|i: int|
            0 <= i < inserts(table, rows).len() && (#[trigger] inserts(table, rows)[i]).ok implies (
        inserts(table, rows)[i].op matches StoreOp::Insert { row, .. } ==> row.len() == width) by {
            assert(inserts(table, rows)[i].op == StoreOp::Insert { table, row: rows[i] });
        }
    }
}

} // verus!
