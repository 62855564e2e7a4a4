//! What the operations of a session mean for a store with transactions, and the shapes that
//! the operations of one load take.

use crate::field::Column;
use crate::store::{Issued, StoreOp};
use vstd::prelude::*;

verus! {

/// A table: its columns and its rows, oldest first.
pub struct Table {
    pub schema: Seq<Column>,
    pub rows: Seq<Seq<Seq<char>>>,
}

/// A store: the tables as committed, and the tables as the open transaction sees them, if
/// one is open.
pub struct Store {
    pub committed: Map<Seq<char>, Table>,
    pub working: Option<Map<Seq<char>, Table>>,
}

/// `rows` appended to `table`, where it is there.
pub open spec fn appended(
    tables: Map<Seq<char>, Table>,
    table: Seq<char>,
    rows: Seq<Seq<Seq<char>>>,
) -> Map<Seq<char>, Table> {
    if tables.contains_key(table) {
        tables.insert(table, Table { schema: tables[table].schema, rows: tables[table].rows + rows })
    } else {
        tables
    }
}

/// The tables after an accepted operation on them.
pub open spec fn edited(tables: Map<Seq<char>, Table>, op: StoreOp) -> Map<Seq<char>, Table> {
    match op {
        StoreOp::Drop { table } => tables.remove(table),
        StoreOp::Create { table, schema } => tables.insert(
            table,
            Table { schema, rows: Seq::empty() },
        ),
        StoreOp::Insert { table, row } => appended(tables, table, seq![row]),
        _ => tables,
    }
}

/// The store after one issued operation. An operation that the store refused changes nothing.
/// While a transaction is open, changes stay in it until it is committed; a rollback throws
/// them away.
pub open spec fn step(s: Store, e: Issued) -> Store {
    if !e.ok {
        s
    } else {
        match e.op {
            StoreOp::Begin => if s.working is None {
                Store { committed: s.committed, working: Some(s.committed) }
            } else {
                s
            },
            StoreOp::Commit => match s.working {
                Some(w) => Store { committed: w, working: None },
                None => s,
            },
            StoreOp::Rollback => Store { committed: s.committed, working: None },
            _ => match s.working {
                Some(w) => Store { committed: s.committed, working: Some(edited(w, e.op)) },
                None => Store { committed: edited(s.committed, e.op), working: None },
            },
        }
    }
}

/// The store after the issued operations of `log`, oldest first.
pub open spec fn run(s: Store, log: Seq<Issued>) -> Store
    decreases log.len(),
{
    if log.len() == 0 {
        s
    } else {
        step(run(s, log.drop_last()), log.last())
    }
}

/// An accepted operation.
pub open spec fn accepted(op: StoreOp) -> Issued {
    Issued { op, ok: true }
}

/// One accepted insert into `table` for each of `rows`, in order.
pub open spec fn inserts(table: Seq<char>, rows: Seq<Seq<Seq<char>>>) -> Seq<Issued> {
    Seq::new(rows.len(), |i: int| accepted(StoreOp::Insert { table, row: rows[i] }))
}

/// The operations of a load that went through: a transaction is opened, every row is
/// inserted, the transaction is committed.
pub open spec fn committed_log(table: Seq<char>, rows: Seq<Seq<Seq<char>>>) -> Seq<Issued> {
    seq![accepted(StoreOp::Begin)] + inserts(table, rows) + seq![accepted(StoreOp::Commit)]
}

/// The operations of a load that was given up after its transaction was opened: some of the
/// leading rows of `rows` were inserted, then at most one insert or the commit was refused, and
/// last of all a rollback was sent.
pub open spec fn abandoned_log(table: Seq<char>, rows: Seq<Seq<Seq<char>>>, log: Seq<Issued>) -> bool {
    let n = log.len() as int;
    &&& n >= 2
    &&& log[0] == accepted(StoreOp::Begin)
    &&& log[n - 1].op is Rollback
    &&& {
        ||| {
            &&& n - 2 <= rows.len()
            &&& log.subrange(1, n - 1) == inserts(table, rows.take(n - 2))
        }
        ||| {
            &&& n >= 3
            &&& n - 3 <= rows.len()
            &&& log.subrange(1, n - 2) == inserts(table, rows.take(n - 3))
            &&& !log[n - 2].ok
            &&& (log[n - 2].op is Insert || log[n - 2].op is Commit)
        }
    }
}

/// No operation of `log` ended a transaction.
pub open spec fn keeps_open(log: Seq<Issued>) -> bool {
    forall|i: int|
        0 <= i < log.len() ==> !((#[trigger] log[i]).ok && (log[i].op is Commit || log[i].op
            is Rollback))
}

/// Running two logs one after the other is running them joined.
pub proof fn lemma_run_concat(s: Store, a: Seq<Issued>, b: Seq<Issued>)
    ensures
        run(s, a + b) == run(run(s, a), b),
    decreases b.len(),
{
    if b.len() == 0 {
        assert(a + b =~= a);
    } else {
        assert((a + b).drop_last() =~= a + b.drop_last());
        assert((a + b).last() == b.last());
        lemma_run_concat(s, a, b.drop_last());
    }
}

/// Running a single operation is one step.
pub proof fn lemma_run_one(s: Store, e: Issued)
    ensures
        run(s, seq![e]) == step(s, e),
{
    assert(seq![e].drop_last() =~= Seq::<Issued>::empty());
    assert(run(s, seq![e].drop_last()) == s);
}

/// As long as nothing ends the open transaction, what is committed stays as it was.
pub proof fn lemma_open_transaction_hides(s: Store, log: Seq<Issued>)
    requires
        s.working is Some,
        keeps_open(log),
    ensures
        run(s, log).committed == s.committed,
        run(s, log).working is Some,
    decreases log.len(),
{
    if log.len() > 0 {
        assert(keeps_open(log.drop_last())) by {
            assert forall|i: int| 0 <= i < log.drop_last().len() implies !((
            #[trigger] log.drop_last()[i]).ok && (log.drop_last()[i].op is Commit
                || log.drop_last()[i].op is Rollback)) by {
                assert(log.drop_last()[i] == log[i]);
            }
        }
        lemma_open_transaction_hides(s, log.drop_last());
        assert(log.last() == log[log.len() - 1]);
    }
}

/// Inside an open transaction, accepted inserts append their rows to what the transaction
/// sees.
pub proof fn lemma_run_inserts(s: Store, table: Seq<char>, rows: Seq<Seq<Seq<char>>>)
    requires
        s.working is Some,
    ensures
        run(s, inserts(table, rows)) == (Store {
            committed: s.committed,
            working: Some(appended(s.working->0, table, rows)),
        }),
    decreases rows.len(),
{
    let w = s.working->0;
    if rows.len() == 0 {
        assert(inserts(table, rows) =~= Seq::<Issued>::empty());
        if w.contains_key(table) {
            assert(w[table].rows + rows =~= w[table].rows);
            assert(appended(w, table, rows) =~= w);
        }
    } else {
        let log = inserts(table, rows);
        assert(log.drop_last() =~= inserts(table, rows.drop_last()));
        lemma_run_inserts(s, table, rows.drop_last());
        let mid = appended(w, table, rows.drop_last());
        assert(log.last() == accepted(StoreOp::Insert { table, row: rows.last() }));
        if w.contains_key(table) {
            assert(w[table].rows + rows.drop_last() + seq![rows.last()] =~= w[table].rows + rows);
            assert(appended(mid, table, seq![rows.last()]) =~= appended(w, table, rows));
        }
    }
}

/// A load that was given up leaves every committed table as it was.
pub proof fn law_abandoned_load_changes_nothing(
    s: Store,
    table: Seq<char>,
    rows: Seq<Seq<Seq<char>>>,
    log: Seq<Issued>,
)
    requires
        s.working is None,
        abandoned_log(table, rows, log),
    ensures
        run(s, log).committed == s.committed,
{
    let n = log.len() as int;
    let head = seq![log[0]];
    let middle = log.subrange(1, n - 1);
    let tail = seq![log[n - 1]];
    assert(log =~= head + middle + tail);
    lemma_run_concat(s, head + middle, tail);
    lemma_run_concat(s, head, middle);
    lemma_run_one(s, log[0]);
    lemma_run_one(run(s, head + middle), log[n - 1]);
    let opened = run(s, head);
    assert(opened == Store { committed: s.committed, working: Some(s.committed) });
    assert(keeps_open(middle)) by {
        assert forall|i: int| 0 <= i < middle.len() implies !((#[trigger] middle[i]).ok && (
        middle[i].op is Commit || middle[i].op is Rollback)) by {
            if n - 2 <= rows.len() && middle == inserts(table, rows.take(n - 2)) {
                assert(middle[i] == inserts(table, rows.take(n - 2))[i]);
            } else {
                let done = log.subrange(1, n - 2);
                if i < n - 3 {
                    assert(middle[i] == done[i]);
                    assert(done[i] == inserts(table, rows.take(n - 3))[i]);
                } else {
                    assert(middle[i] == log[n - 2]);
                }
            }
        }
    }
    lemma_open_transaction_hides(opened, middle);
}

/// A load that went through appends exactly its rows to its table, in order, and changes no
/// other table.
pub proof fn law_committed_load_appends(s: Store, table: Seq<char>, rows: Seq<Seq<Seq<char>>>)
    requires
        s.working is None,
    ensures
        run(s, committed_log(table, rows)) == (Store {
            committed: appended(s.committed, table, rows),
            working: None,
        }),
{
    let head = seq![accepted(StoreOp::Begin)];
    let middle = inserts(table, rows);
    let tail = seq![accepted(StoreOp::Commit)];
    lemma_run_concat(s, head + middle, tail);
    lemma_run_concat(s, head, middle);
    lemma_run_one(s, accepted(StoreOp::Begin));
    lemma_run_one(run(s, head + middle), accepted(StoreOp::Commit));
    lemma_run_inserts(run(s, head), table, rows);
}

/// The operations of loading a file into a table that is created for it, after a drop where
/// the table is to be replaced.
pub open spec fn fresh_load_log(
    table: Seq<char>,
    schema: Seq<Column>,
    rows: Seq<Seq<Seq<char>>>,
    dropped: Option<bool>,
) -> Seq<Issued> {
    let create = seq![accepted(StoreOp::Create { table, schema })] + committed_log(table, rows);
    match dropped {
        Some(ok) => seq![Issued { op: StoreOp::Drop { table }, ok }] + create,
        None => create,
    }
}

/// A load into a table that is created for it leaves the table with exactly its rows, whatever
/// the table held before and whether or not a drop came first.
pub proof fn law_fresh_load_holds_its_rows(
    s: Store,
    table: Seq<char>,
    schema: Seq<Column>,
    rows: Seq<Seq<Seq<char>>>,
    dropped: Option<bool>,
)
    requires
        s.working is None,
    ensures
        run(s, fresh_load_log(table, schema, rows, dropped)).working is None,
        run(s, fresh_load_log(table, schema, rows, dropped)).committed.contains_key(table),
        run(s, fresh_load_log(table, schema, rows, dropped)).committed[table] == (Table {
            schema,
            rows,
        }),
{
    let create = seq![accepted(StoreOp::Create { table, schema })];
    let load = committed_log(table, rows);
    let s0 = match dropped {
        Some(ok) => step(s, Issued { op: StoreOp::Drop { table }, ok }),
        None => s,
    };
    match dropped {
        Some(ok) => {
            let d = seq![Issued { op: StoreOp::Drop { table }, ok }];
            lemma_run_concat(s, d, create + load);
            lemma_run_one(s, Issued { op: StoreOp::Drop { table }, ok });
        },
        None => {},
    }
    assert(s0.working is None);
    lemma_run_concat(s0, create, load);
    lemma_run_one(s0, accepted(StoreOp::Create { table, schema }));
    let s1 = run(s0, create);
    law_committed_load_appends(s1, table, rows);
    assert(Seq::<Seq<Seq<char>>>::empty() + rows =~= rows);
}

/// Loading the same rows twice into a table that is new the first time and replaced the second
/// time leaves the table with the same rows both times: as many as the file has.
pub proof fn law_reload_with_overwrite_repeats(
    s: Store,
    table: Seq<char>,
    schema: Seq<Column>,
    rows: Seq<Seq<Seq<char>>>,
    drop_accepted: bool,
)
    requires
        s.working is None,
    ensures
        ({
            let first = run(s, fresh_load_log(table, schema, rows, None));
            let second = run(first, fresh_load_log(table, schema, rows, Some(drop_accepted)));
            &&& first.committed[table].rows == rows
            &&& second.committed[table].rows == rows
            &&& second.committed[table].rows.len() == first.committed[table].rows.len()
        }),
{
    law_fresh_load_holds_its_rows(s, table, schema, rows, None);
    let first = run(s, fresh_load_log(table, schema, rows, None));
    law_fresh_load_holds_its_rows(first, table, schema, rows, Some(drop_accepted));
}

} // verus!
