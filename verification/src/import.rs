//! Loading one file: probe it, fit it to its table, load it.

use crate::config::CliCfg;
use crate::error::{LoadError, Mismatch};
use crate::field::{columns, Column, Field};
use crate::load::{all_of_width, data_rows, failed_load_log, write_to_db, LoadOutcome};
use crate::model::{
    accepted, committed_log, fresh_load_log, law_fresh_load_holds_its_rows, run, Store, Table,
};
use crate::probe::{came_to_schema, detect_file_schema, probe, Verdict};
use crate::reconcile::{reconcile, reconciled, Plan};
use crate::record::Records;
use crate::sql::table_info_text;
use crate::store::{
    columns_of, table_info_places, lemma_set_aside_none, lemma_set_aside_one, lemma_set_aside_then, set_aside_more,
    swallowed, Issued, Session, StoreOp,
};
use vstd::prelude::*;

verus! {

/// The operations that make a table ready for a load: a drop where the table is to be
/// replaced, then a create where one was sent, accepted or not as `created` says.
pub open spec fn setup_log(
    table: Seq<char>,
    schema: Seq<Column>,
    overwrite: bool,
    created: Option<bool>,
    log: Seq<Issued>,
) -> bool {
    let lead: int = if overwrite {
        1
    } else {
        0
    };
    &&& log.len() == lead + (if created is Some {
        1int
    } else {
        0int
    })
    &&& overwrite ==> log[0].op == (StoreOp::Drop { table })
    &&& created matches Some(ok) ==> log[lead] == (Issued {
        op: StoreOp::Create { table, schema },
        ok,
    })
}

/// The number of leading operations of `log` that drop or create a table: a drop, a create,
/// or a drop and then a create.
pub open spec fn setup_len(log: Seq<Issued>) -> int {
    if log.len() >= 1 && log[0].op is Drop {
        if log.len() >= 2 && log[1].op is Create {
            2
        } else {
            1
        }
    } else if log.len() >= 1 && log[0].op is Create {
        1
    } else {
        0
    }
}

/// The columns of the table that the store was last asked about, as it answered.
pub open spec fn inspected(session: &Session<'_>) -> Seq<Column> {
    columns_of(session.inspections().last().rows)
}

/// Since `before`, the store was asked once about a table, answered in full, and gave columns:
/// the table is there.
pub open spec fn found_table<'a>(after: &Session<'a>, before: &Session<'a>) -> bool {
    &&& after.inspected_once_since(before)
    &&& after.inspections().last().complete
    &&& inspected(after).len() > 0
}

/// A load that went through after its table was created leaves the table with the columns
/// of the file and exactly the data records of the file, whatever the table held before.
/// So a file loaded into a new table, and loaded again with the table replaced, gives the same
/// rows both times.
pub proof fn law_created_table_holds_the_file(
    s: Store,
    table: Seq<char>,
    schema: Seq<Column>,
    rows: Seq<Seq<Seq<char>>>,
    overwrite: bool,
    log: Seq<Issued>,
)
    requires
        s.working is None,
        0 <= setup_len(log) <= log.len(),
        setup_log(table, schema, overwrite, Some(true), log.take(setup_len(log))),
        log.skip(setup_len(log)) == committed_log(table, rows),
    ensures
        run(s, log).committed.contains_key(table),
        run(s, log).committed[table] == (Table { schema, rows }),
{
    let k = setup_len(log);
    let setup = log.take(k);
    let dropped = if overwrite {
        Some(setup[0].ok)
    } else {
        None
    };
    assert(log =~= setup + log.skip(k));
    if overwrite {
        assert(setup[0] == Issued { op: StoreOp::Drop { table }, ok: setup[0].ok });
        assert(setup =~= seq![setup[0], accepted(StoreOp::Create { table, schema })]);
    } else {
        assert(setup =~= seq![accepted(StoreOp::Create { table, schema })]);
    }
    assert(log =~= fresh_load_log(table, schema, rows, dropped));
    law_fresh_load_holds_its_rows(s, table, schema, rows, dropped);
}

/// Gives the columns that `tablename` has in the store, as the store answers when it is asked;
/// a table that is not there has none.
///
/// Where tables are to be replaced, the table is not looked at: a drop is sent, and whether
/// or not the store accepts it, the table counts as not there. A refused drop is set aside in
/// the session and is no failure.
pub fn schema(cfg: &CliCfg, session: &mut Session<'_>, tablename: &str) -> (res: Result<
    Vec<Field>,
    LoadError,
>)
    ensures
        cfg.overwrite_tables ==> {
            &&& res matches Ok(fields)
            &&& fields@.len() == 0
            &&& final(session).log().len() == old(session).log().len() + 1
            &&& final(session).log().drop_last() == old(session).log()
            &&& final(session).log().last().op == (StoreOp::Drop { table: tablename@ })
        },
        cfg.overwrite_tables ==> final(session).inspections() == old(session).inspections(),
        final(session).compilations() == old(session).compilations(),
        set_aside_more(
            old(session).unreported(),
            final(session).unreported(),
            swallowed(final(session).issued_since(old(session))),
        ),
        !cfg.overwrite_tables ==> {
            &&& final(session).log() == old(session).log()
            &&& final(session).inspected_once_since(old(session))
            &&& final(session).inspections().last().table == tablename@
            &&& final(session).inspections().last().query == table_info_text(tablename@)
            &&& final(session).inspections().last().places == table_info_places()
            &&& final(session).inspections().last().complete == (res is Ok)
            &&& res matches Ok(fields) ==> columns(fields@) == columns_of(
                final(session).inspections().last().rows,
            )
        },
        res matches Err(e) ==> e is StoreAccess || e is TooLarge,
{
    if cfg.overwrite_tables {
        match session.drop_table(tablename) {
            Ok(()) => {
                proof {
                    lemma_set_aside_none(session.unreported());
                }
            },
            Err(refusal) => {
                proof {
                    lemma_set_aside_one(session.unreported(), refusal);
                }
                session.set_aside(refusal);
            },
        }
        proof {
            let issued = session.log().skip(old(session).log().len() as int);
            assert(session.log().drop_last() =~= old(session).log());
            assert(issued =~= seq![session.log().last()]);
        }
        Ok(Vec::new())
    } else {
        let res = session.table_columns(tablename);
        proof {
            assert(session.log().skip(old(session).log().len() as int) =~= Seq::<Issued>::empty());
            lemma_set_aside_none(session.unreported());
        }
        res
    }
}

/// Creates `tablename` with the columns of `f_sch`.
pub fn create_table(session: &mut Session<'_>, tablename: &str, f_sch: &Vec<Field>) -> (res: Result<
    (),
    LoadError,
>)
    ensures
        final(session).log() == old(session).log().push(
            Issued {
                op: StoreOp::Create { table: tablename@, schema: columns(f_sch@) },
                ok: res is Ok,
            },
        ),
        final(session).inspections() == old(session).inspections(),
        final(session).unreported() == old(session).unreported(),
        final(session).compilations() == old(session).compilations(),
        res matches Err(e) ==> e is StoreAccess,
{
    session.create_table(tablename, f_sch)
}

/// Fits `tablename` to the schema of a file: creates it where it is not there or is to be
/// replaced, and otherwise checks that the file can be appended to it. What the table has is
/// what the store answers when it is asked (see [`schema`]).
pub fn reconcile_table(
    cfg: &CliCfg,
    session: &mut Session<'_>,
    tablename: &str,
    f_sch: &Vec<Field>,
) -> (res: Result<Plan, LoadError>)
    ensures
        final(session).log() == old(session).log() + final(session).issued_since(old(session)),
        set_aside_more(
            old(session).unreported(),
            final(session).unreported(),
            swallowed(final(session).issued_since(old(session))),
        ),
        cfg.overwrite_tables ==> final(session).inspections() == old(session).inspections(),
        final(session).compilations() == old(session).compilations(),
        !cfg.overwrite_tables ==> {
            &&& final(session).inspected_once_since(old(session))
            &&& final(session).inspections().last().table == tablename@
            &&& final(session).inspections().last().query == table_info_text(tablename@)
            &&& final(session).inspections().last().places == table_info_places()
        },
        match res {
            Ok(Plan::Create) => {
                &&& setup_log(
                    tablename@,
                    columns(f_sch@),
                    cfg.overwrite_tables,
                    Some(true),
                    final(session).issued_since(old(session)),
                )
                &&& !cfg.overwrite_tables ==> {
                    &&& final(session).inspections().last().complete
                    &&& inspected(final(session)).len() == 0
                }
            },
            Ok(Plan::Validate) => {
                &&& !cfg.overwrite_tables
                &&& final(session).issued_since(old(session)) == Seq::<Issued>::empty()
                &&& final(session).inspections().last().complete
                &&& reconciled(inspected(final(session)), columns(f_sch@), cfg.ignore_field_count)
                    == Ok::<Plan, Mismatch>(Plan::Validate)
            },
            Err(LoadError::SchemaMismatch(m)) => {
                &&& !cfg.overwrite_tables
                &&& final(session).issued_since(old(session)) == Seq::<Issued>::empty()
                &&& final(session).inspections().last().complete
                &&& reconciled(inspected(final(session)), columns(f_sch@), cfg.ignore_field_count)
                    == Err::<Plan, Mismatch>(m@)
            },
            Err(e) => {
                &&& e is StoreAccess || e is TooLarge
                &&& {
                    ||| {
                        &&& setup_log(
                            tablename@,
                            columns(f_sch@),
                            cfg.overwrite_tables,
                            Some(false),
                            final(session).issued_since(old(session)),
                        )
                        &&& !cfg.overwrite_tables ==> {
                            &&& final(session).inspections().last().complete
                            &&& inspected(final(session)).len() == 0
                        }
                    }
                    ||| {
                        &&& !cfg.overwrite_tables
                        &&& final(session).issued_since(old(session)) == Seq::<Issued>::empty()
                        &&& !final(session).inspections().last().complete
                    }
                }
            },
        },
{
    let ghost base = session.log();
    let table_schema = match schema(cfg, session, tablename) {
        Ok(fields) => fields,
        Err(e) => {
            assert(session.log().skip(base.len() as int) =~= Seq::<Issued>::empty());
            assert(session.log() =~= base + Seq::<Issued>::empty());
            return Err(e);
        },
    };
    let ghost looked = session.log();
    match reconcile(&table_schema, f_sch, cfg.ignore_field_count) {
        Err(m) => {
            assert(!cfg.overwrite_tables);
            assert(session.log().skip(base.len() as int) =~= Seq::<Issued>::empty());
            assert(session.log() =~= base + Seq::<Issued>::empty());
            Err(LoadError::SchemaMismatch(m))
        },
        Ok(Plan::Validate) => {
            assert(!cfg.overwrite_tables);
            assert(session.log().skip(base.len() as int) =~= Seq::<Issued>::empty());
            assert(session.log() =~= base + Seq::<Issued>::empty());
            Ok(Plan::Validate)
        },
        Ok(Plan::Create) => {
            let made = create_table(session, tablename, f_sch);
            proof {
                let issued = session.log().skip(base.len() as int);
                assert(session.log() =~= base + issued);
                if cfg.overwrite_tables {
                    assert(looked =~= base.push(looked.last()));
                    assert(issued[0] == looked.last());
                }
            }
            match made {
                Ok(()) => Ok(Plan::Create),
                Err(e) => Err(e),
            }
        },
    }
}

/// Loads one file into `tablename`.
///
/// `probe_records` and `data_records` are two streams over the same file, both at its start:
/// the first is probed for the schema, the second is loaded. The file is probed first, and a
/// failed probe sends nothing to the store. Then the table is fitted to the schema (see
/// [`reconcile_table`]), and only then are the data records loaded in one transaction (see
/// [`write_to_db`]).
#[verifier::rlimit(40)]
pub fn load_file(
    cfg: &CliCfg,
    session: &mut Session<'_>,
    probe_records: &mut Records<'_>,
    data_records: &mut Records<'_>,
    tablename: &str,
) -> (res: Result<LoadOutcome, LoadError>)
    requires
        old(probe_records).fresh(),
        old(data_records).fresh(),
    ensures
        final(probe_records).same_source_as(old(probe_records)),
        final(data_records).same_source_as(old(data_records)),
        final(session).log() == old(session).log() + final(session).issued_since(old(session)),
        set_aside_more(
            old(session).unreported(),
            final(session).unreported(),
            swallowed(final(session).issued_since(old(session))),
        ),
        final(session).compilations() == old(session).compilations() || (probe(
            final(probe_records).seen(),
            cfg.headeron,
            cfg.ignore_field_count,
        ) matches Verdict::Schema(found) && final(session).compiled_once_since(
            old(session),
            tablename@,
            found.columns,
            final(session).issued_since(old(session)).len() > setup_len(
                final(session).issued_since(old(session)),
            ),
        )),
        res is Ok ==> final(session).compilations().len() == old(session).compilations().len()
            + 1,
        !came_to_schema(final(probe_records), cfg) ==> {
            &&& res is Err
            &&& final(session).same_store_as(old(session))
            &&& final(session).unreported() == old(session).unreported()
            &&& final(data_records).fresh()
        },
        !cfg.ignore_field_count && (probe(
            final(probe_records).seen(),
            cfg.headeron,
            cfg.ignore_field_count,
        ) matches Verdict::Schema(found) && !all_of_width(
            data_rows(final(data_records).seen(), cfg.headeron),
            found.width,
        )) ==> res matches Err(LoadError::RowWidth(_)),
        res matches Err(LoadError::SchemaInconsistency(e)) ==> {
            &&& probe(final(probe_records).seen(), cfg.headeron, cfg.ignore_field_count) == (
            Verdict::Inconsistent {
                line: e.line as nat,
                found: e.found as nat,
                expected: e.expected as nat,
            })
            &&& final(session).issued_since(old(session)) == Seq::<Issued>::empty()
            &&& final(session).inspections() == old(session).inspections()
            &&& final(data_records).fresh()
        },
        res matches Err(LoadError::EmptySchema) ==> {
            &&& probe(final(probe_records).seen(), cfg.headeron, cfg.ignore_field_count)
                == Verdict::Empty
            &&& final(session).issued_since(old(session)) == Seq::<Issued>::empty()
            &&& final(session).inspections() == old(session).inspections()
            &&& final(data_records).fresh()
        },
        res matches Err(LoadError::SchemaMismatch(m)) ==> {
            &&& probe(
                final(probe_records).seen(),
                cfg.headeron,
                cfg.ignore_field_count,
            ) matches Verdict::Schema(found)
            &&& final(session).inspected_once_since(old(session))
            &&& final(session).inspections().last().table == tablename@
            &&& final(session).inspections().last().complete
            &&& reconciled(inspected(final(session)), found.columns, cfg.ignore_field_count)
                == Err::<Plan, Mismatch>(m@)
            &&& !cfg.overwrite_tables
            &&& final(session).issued_since(old(session)) == Seq::<Issued>::empty()
            &&& final(data_records).fresh()
        },
        res matches Err(LoadError::RowWidth(e)) ==> {
            let read = final(data_records).seen();
            &&& probe(
                final(probe_records).seen(),
                cfg.headeron,
                cfg.ignore_field_count,
            ) matches Verdict::Schema(found)
            &&& !cfg.ignore_field_count
            &&& read.len() > (if cfg.headeron { 1nat } else { 0nat })
            &&& e.line == read.len()
            &&& e.expected == found.width
            &&& e.found == read.last().len()
            &&& e.found != found.width
        },
        !cfg.overwrite_tables && found_table(final(session), old(session)) ==> setup_len(
            final(session).issued_since(old(session)),
        ) == 0,
        !cfg.overwrite_tables && found_table(final(session), old(session)) && (probe(
            final(probe_records).seen(),
            cfg.headeron,
            cfg.ignore_field_count,
        ) matches Verdict::Schema(found) && reconciled(
            inspected(final(session)),
            found.columns,
            cfg.ignore_field_count,
        ) is Err) ==> res matches Err(LoadError::SchemaMismatch(_)),
        res is Err ==> {
            let issued = final(session).issued_since(old(session));
            &&& setup_len(issued) <= issued.len()
            &&& forall|i: int|
                0 <= i < setup_len(issued) ==> (#[trigger] issued[i]).op == (StoreOp::Drop {
                    table: tablename@,
                }) || (issued[i].op matches StoreOp::Create { table, .. } && table == tablename@)
            &&& failed_load_log(
                tablename@,
                data_rows(final(data_records).seen(), cfg.headeron),
                issued.skip(setup_len(issued)),
            )
        },
        res matches Ok(outcome) ==> {
            let data = data_rows(final(data_records).seen(), cfg.headeron);
            let issued = final(session).issued_since(old(session));
            &&& probe(
                final(probe_records).seen(),
                cfg.headeron,
                cfg.ignore_field_count,
            ) matches Verdict::Schema(found)
            &&& final(data_records).ended()
            &&& outcome.rows_written == data.len()
            &&& outcome.fields_written == data.len() * found.width
            &&& !cfg.ignore_field_count ==> all_of_width(data, found.width)
            &&& setup_len(issued) <= 2
            &&& issued.skip(setup_len(issued)) == committed_log(tablename@, data)
            &&& {
                ||| setup_log(
                    tablename@,
                    found.columns,
                    cfg.overwrite_tables,
                    Some(true),
                    issued.take(setup_len(issued)),
                )
                ||| {
                    &&& !cfg.overwrite_tables
                    &&& setup_len(issued) == 0
                    &&& final(session).inspected_once_since(old(session))
                    &&& final(session).inspections().last().table == tablename@
                    &&& final(session).inspections().last().complete
                    &&& reconciled(
                        inspected(final(session)),
                        found.columns,
                        cfg.ignore_field_count,
                    ) == Ok::<Plan, Mismatch>(Plan::Validate)
                }
            }
        },
{
    let ghost base = session.log();
    let file_schema = match detect_file_schema(cfg, probe_records) {
        Ok(found) => found,
        Err(e) => {
            assert(session.log().skip(base.len() as int) =~= Seq::<Issued>::empty());
            assert(session.log() =~= base + Seq::<Issued>::empty());
            assert(Seq::<Issued>::empty().skip(0) =~= Seq::<Issued>::empty());
            proof {
                lemma_set_aside_none(session.unreported());
            }
            return Err(e);
        },
    };
    match reconcile_table(cfg, session, tablename, &file_schema.fields) {
        Ok(_) => {},
        Err(e) => {
            proof {
                let issued = session.log().skip(base.len() as int);
                assert(setup_len(issued) == issued.len());
                assert(issued.skip(setup_len(issued)) =~= Seq::<Issued>::empty());
            }
            return Err(e);
        },
    }
    let ghost setup = session.log().skip(base.len() as int);
    let ghost ready = session.log();
    let ghost kept = session.unreported();
    let res = write_to_db(cfg, session, data_records, tablename, &file_schema.fields);
    proof {
        let load = session.log().skip(ready.len() as int);
        let issued = session.log().skip(base.len() as int);
        let data = data_rows(data_records.seen(), cfg.headeron);
        assert(issued =~= setup + load);
        lemma_set_aside_then(
            old(session).unreported(),
            kept,
            session.unreported(),
            swallowed(setup),
            swallowed(load),
        );
        assert(swallowed(issued) == swallowed(setup) + swallowed(load)) by {
            if setup.len() > 0 {
                assert(issued[0] == setup[0]);
                assert(!(setup.last().op is Rollback));
            }
            if load.len() > 0 {
                assert(issued.last() == load.last());
                assert(issued[setup.len() as int] == load[0]);
                assert(load[0].op is Begin) by {
                    if res is Ok {
                        assert(load[0] == committed_log(tablename@, data)[0]);
                    }
                }
            } else {
                assert(issued =~= setup);
            }
        }
        assert(session.log() =~= base + issued);
        assert(load.len() > 0 ==> load[0].op is Begin) by {
            if load.len() > 0 {
                if res is Ok {
                    assert(load[0] == committed_log(tablename@, data)[0]);
                }
            }
        }
        assert(setup_len(issued) == setup.len()) by {
            if setup.len() >= 1 {
                assert(issued[0] == setup[0]);
            }
            if setup.len() >= 2 {
                assert(issued[1] == setup[1]);
            }
            if load.len() >= 1 {
                assert(issued[setup.len() as int] == load[0]);
            }
        }
        assert(issued.skip(setup_len(issued)) =~= load);
        assert(issued.take(setup_len(issued)) =~= setup);
        assert(issued.len() > setup_len(issued) <==> load.len() > 0);
        assert(session.compiled_once_since(
            old(session),
            tablename@,
            file_schema@.columns,
            load.len() > 0,
        ));
    }
    res
}

} // verus!
