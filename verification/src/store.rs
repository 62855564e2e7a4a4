//! The table store, reached through the `rusqlite` crate, and a session on it that remembers
//! which operations it has issued.

use crate::error::LoadError;
use crate::field::{columns, Column, Field};
use crate::record::{record_fields, StringRecordParamed};
use crate::sql::{
    create_sql, create_text, drop_sql, drop_text, insert_sql, insert_text, table_info_sql,
    table_info_text,
};
use vstd::prelude::*;

verus! {

/// `rusqlite::Connection`, a connection to a database. It is only handed on.
#[verifier::external_type_specification]
#[verifier::external_body]
pub struct ExConnection(rusqlite::Connection);

/// `rusqlite::Statement`, a compiled statement. It is only handed on.
#[verifier::external_type_specification]
#[verifier::external_body]
pub struct ExStatement<'conn>(rusqlite::Statement<'conn>);

/// `rusqlite::Rows`, the rows that a query is yet to give. It is only handed on.
#[verifier::external_type_specification]
#[verifier::external_body]
pub struct ExRows<'stmt>(rusqlite::Rows<'stmt>);

/// `rusqlite::Error`, a refusal of the database. It is only handed on.
#[verifier::external_type_specification]
#[verifier::external_body]
pub struct ExStoreError(rusqlite::Error);

/// `rusqlite::Connection::execute_batch` runs the statements of `sql`. Whether it succeeds
/// depends on the database, so nothing is claimed of the outcome.
pub assume_specification[ rusqlite::Connection::execute_batch ](
    conn: &rusqlite::Connection,
    sql: &str,
) -> (r: Result<(), rusqlite::Error>)
;

/// `rusqlite::Connection::prepare` compiles one statement. Whether it succeeds depends on the
/// database, so nothing is claimed of the outcome.
pub assume_specification<'a>[ rusqlite::Connection::prepare ](
    conn: &'a rusqlite::Connection,
    sql: &str,
) -> (r: Result<rusqlite::Statement<'a>, rusqlite::Error>)
;

/// `rusqlite::Connection::execute` with no parameters: compiles and runs one statement.
/// Nothing is claimed of the outcome.
#[verifier::external_body]
fn execute_plain(conn: &rusqlite::Connection, sql: &str) -> (r: Result<usize, rusqlite::Error>) {
    conn.execute(sql, [])
}

/// `rusqlite::Statement::execute` with the fields of `rec` bound, in order, to the parameters
/// of the statement. Nothing is claimed of the outcome.
#[verifier::external_body]
fn execute_bound(stmt: &mut rusqlite::Statement<'_>, rec: &csv::StringRecord) -> (r: Result<
    usize,
    rusqlite::Error,
>) {
    stmt.execute(rusqlite::params_from_iter(rec.iter()))
}

/// `rusqlite::Statement::query` with no parameters. Nothing is claimed of the outcome.
#[verifier::external_body]
fn query_plain<'a>(stmt: &'a mut rusqlite::Statement<'_>) -> (r: Result<
    rusqlite::Rows<'a>,
    rusqlite::Error,
>) {
    stmt.query([])
}

/// `rusqlite::Rows::next` steps to the next row of a query, of which `rusqlite::Row::get` takes
/// three values: an ordinal and two texts, at the places given. Nothing is claimed of the
/// outcome.
#[verifier::external_body]
fn next_column(rows: &mut rusqlite::Rows<'_>, places: ColumnPlaces) -> (r: Result<
    Option<(u32, String, String)>,
    rusqlite::Error,
>) {
    match rows.next()? {
        Some(row) => Ok(
            Some((row.get(places.pos_at)?, row.get(places.name_at)?, row.get(places.type_at)?)),
        ),
        None => Ok(None),
    }
}

/// The message that `rusqlite::Error` displays. Nothing is claimed of it.
#[verifier::external_body]
fn store_error_text(e: &rusqlite::Error) -> (s: String) {
    format!("{}", e)
}

/// The error that a refusal of the store becomes.
pub fn store_error(e: &rusqlite::Error) -> (err: LoadError)
    ensures
        err is StoreAccess,
{
    LoadError::StoreAccess(store_error_text(e))
}

/// One row of the store's answer about the columns of a table: the ordinal, the name, and the
/// declared type, each as the store gives it.
pub struct ReportedColumn {
    pub pos: nat,
    pub name: Seq<char>,
    pub declared: Seq<char>,
}

/// The column that a reported row stands for: just what the store gave.
pub open spec fn column_of(row: ReportedColumn) -> Column {
    Column { pos: row.pos, name: row.name, db_type: row.declared }
}

/// The columns that reported rows stand for, in the order of the rows.
pub open spec fn columns_of(rows: Seq<ReportedColumn>) -> Seq<Column> {
    Seq::new(rows.len(), |i: int| column_of(rows[i]))
}

/// Where in a row of the store's answer the ordinal, the name and the declared type of a column
/// stand, counted from zero.
#[derive(Debug, Clone, Copy, PartialEq, Eq, Structural)]
pub struct ColumnPlaces {
    pub pos_at: usize,
    pub name_at: usize,
    pub type_at: usize,
}

/// Where the store puts them: the ordinal first, then the name, then the declared type.
pub open spec fn table_info_places() -> ColumnPlaces {
    ColumnPlaces { pos_at: 0, name_at: 1, type_at: 2 }
}

/// Gives the places at which the store puts ordinal, name and declared type.
pub fn places_in_table_info() -> (places: ColumnPlaces)
    ensures
        places == table_info_places(),
{
    ColumnPlaces { pos_at: 0, name_at: 1, type_at: 2 }
}

/// What the store answered when it was asked for the columns of a table: the query that it
/// was handed, the places of its rows that were read, the rows that it gave, in order, and
/// whether it went on to say that no row is left.
pub struct Inspection {
    pub table: Seq<char>,
    pub query: Seq<char>,
    pub places: ColumnPlaces,
    pub rows: Seq<ReportedColumn>,
    pub complete: bool,
}

/// The column that the store reports at ordinal `pos` under `name` with the declared type
/// `reported`.
pub fn reported_field(pos: u32, name: String, reported: String) -> (f: Field)
    ensures
        f@ == column_of(ReportedColumn { pos: pos as nat, name: name@, declared: reported@ }),
{
    Field { pos, name, db_type: reported }
}

/// An operation that changes the store.
pub enum StoreOp {
    /// Drop a table.
    Drop { table: Seq<char> },
    /// Create a table with the given columns.
    Create { table: Seq<char>, schema: Seq<Column> },
    /// Open a transaction.
    Begin,
    /// Append one row to a table.
    Insert { table: Seq<char>, row: Seq<Seq<char>> },
    /// Make the open transaction permanent.
    Commit,
    /// Undo the open transaction.
    Rollback,
}

/// The statement that is handed to the store for an operation. An insert has no text of its
/// own: it is sent through a compiled statement (see [`Inserter`]) with the record bound to it.
pub open spec fn statement_text(op: StoreOp) -> Option<Seq<char>> {
    match op {
        StoreOp::Drop { table } => Some(drop_text(table)),
        StoreOp::Create { table, schema } => Some(create_text(table, schema)),
        StoreOp::Begin => Some("begin transaction;"@),
        StoreOp::Insert { .. } => None,
        StoreOp::Commit => Some("commit;"@),
        StoreOp::Rollback => Some("rollback;"@),
    }
}

/// An operation that was sent to the store, and whether the store accepted it. An operation is
/// noted only once its statement, [`statement_text`], has been handed to the store.
pub struct Issued {
    pub op: StoreOp,
    pub ok: bool,
}

/// A statement that the store was asked to compile for inserts: the table and the columns that
/// it names, its text, and whether the store accepted it.
pub struct Compiled {
    pub table: Seq<char>,
    pub schema: Seq<Column>,
    pub statement: Seq<char>,
    pub ok: bool,
}

/// The number of refusals among `issued` that do not end a load: that of a drop sent first,
/// and that of a rollback sent last.
pub open spec fn swallowed(issued: Seq<Issued>) -> nat {
    let dropped: nat = if issued.len() > 0 && issued[0].op is Drop && !issued[0].ok {
        1
    } else {
        0
    };
    let undone: nat = if issued.len() > 0 && issued.last().op is Rollback && !issued.last().ok {
        1
    } else {
        0
    };
    dropped + undone
}

/// `after` is `before` with `n` more refusals of the store at its end.
pub open spec fn set_aside_more(before: Seq<LoadError>, after: Seq<LoadError>, n: nat) -> bool {
    &&& after.len() == before.len() + n
    &&& after.take(before.len() as int) == before
    &&& forall|i: int| before.len() <= i < after.len() ==> (#[trigger] after[i]) is StoreAccess
}

/// Nothing more is set aside where the refusals stay as they are.
pub proof fn lemma_set_aside_none(kept: Seq<LoadError>)
    ensures
        set_aside_more(kept, kept, 0),
{
    assert(kept.take(kept.len() as int) =~= kept);
}

/// One more is set aside where one refusal of the store is added.
pub proof fn lemma_set_aside_one(kept: Seq<LoadError>, refusal: LoadError)
    requires
        refusal is StoreAccess,
    ensures
        set_aside_more(kept, kept.push(refusal), 1),
{
    assert(kept.push(refusal).take(kept.len() as int) =~= kept);
}

/// What is set aside in two steps adds up.
pub proof fn lemma_set_aside_then(
    first: Seq<LoadError>,
    second: Seq<LoadError>,
    third: Seq<LoadError>,
    n: nat,
    m: nat,
)
    requires
        set_aside_more(first, second, n),
        set_aside_more(second, third, m),
    ensures
        set_aside_more(first, third, n + m),
{
    let kept = third.take(second.len() as int);
    assert(third.take(first.len() as int) =~= kept.take(first.len() as int));
    assert forall|i: int| first.len() <= i < third.len() implies (#[trigger] third[i])
        is StoreAccess by {
        if i < second.len() {
            assert(kept[i] == third[i]);
            assert(second[i] is StoreAccess);
        }
    }
}

/// A statement that inserts one record into a table.
pub struct Inserter<'conn> {
    stmt: rusqlite::Statement<'conn>,
    table: Ghost<Seq<char>>,
    schema: Ghost<Seq<Column>>,
    text: Ghost<Seq<char>>,
}

impl<'conn> Inserter<'conn> {
    /// The table that the statement inserts into.
    pub closed spec fn table(&self) -> Seq<char> {
        self.table@
    }

    /// The columns that the statement names.
    pub closed spec fn schema(&self) -> Seq<Column> {
        self.schema@
    }

    /// The text that was handed to the store to be compiled.
    pub closed spec fn statement(&self) -> Seq<char> {
        self.text@
    }
}

/// A connection to the store together with the operations issued over it, the answers that
/// it gave about tables, and the insert statements that it was asked to compile, each oldest
/// first. It also keeps the refusals of the store that were
/// not reported as the failure of a load, for whoever wants to tell the user of them.
pub struct Session<'conn> {
    conn: &'conn rusqlite::Connection,
    set_aside: Vec<LoadError>,
    log: Ghost<Seq<Issued>>,
    asked: Ghost<Seq<Inspection>>,
    compiled: Ghost<Seq<Compiled>>,
}

impl<'conn> Session<'conn> {
    /// The operations issued so far, oldest first.
    pub closed spec fn log(&self) -> Seq<Issued> {
        self.log@
    }

    /// What the store answered each time it was asked for the columns of a table, oldest first.
    pub closed spec fn inspections(&self) -> Seq<Inspection> {
        self.asked@
    }

    /// The insert statements that the store was asked to compile, oldest first.
    pub closed spec fn compilations(&self) -> Seq<Compiled> {
        self.compiled@
    }

    /// Since `before`, the store was asked once to compile an insert statement: the one for
    /// `schema` in `table`, which it accepted or not as `ok` says.
    pub open spec fn compiled_once_since(
        &self,
        before: &Session<'conn>,
        table: Seq<char>,
        schema: Seq<Column>,
        ok: bool,
    ) -> bool {
        self.compilations() == before.compilations().push(
            Compiled { table, schema, statement: insert_text(table, schema), ok },
        )
    }

    /// The refusals of the store that were set aside and not yet taken, oldest first.
    pub closed spec fn unreported(&self) -> Seq<LoadError> {
        self.set_aside@
    }

    /// `self` has issued what `before` had and was given the answers that `before` had.
    pub open spec fn same_store_as(&self, before: &Session<'conn>) -> bool {
        &&& self.log() == before.log()
        &&& self.inspections() == before.inspections()
        &&& self.compilations() == before.compilations()
    }

    /// `self` has been given one answer more than `before`: the last one.
    pub open spec fn inspected_once_since(&self, before: &Session<'conn>) -> bool {
        self.inspections() == before.inspections().push(self.inspections().last())
    }

    /// The operations issued since the log was `before` entries long.
    pub open spec fn issued_since(&self, before: &Session<'conn>) -> Seq<Issued> {
        self.log().skip(before.log().len() as int)
    }

    /// A session on `conn` that has issued nothing and asked nothing.
    pub fn new(conn: &'conn rusqlite::Connection) -> (session: Session<'conn>)
        ensures
            session.log() == Seq::<Issued>::empty(),
            session.inspections() == Seq::<Inspection>::empty(),
            session.compilations() == Seq::<Compiled>::empty(),
            session.unreported() == Seq::<LoadError>::empty(),
    {
        Session {
            conn,
            set_aside: Vec::new(),
            log: Ghost(Seq::empty()),
            asked: Ghost(Seq::empty()),
            compiled: Ghost(Seq::empty()),
        }
    }

    /// Sets aside a refusal of the store that is not to end the load.
    pub fn set_aside(&mut self, refusal: LoadError)
        ensures
            final(self).unreported() == old(self).unreported().push(refusal),
            final(self).same_store_as(old(self)),
    {
        self.set_aside.push(refusal);
    }

    /// Hands out the refusals that were set aside, oldest first, and keeps none of them.
    pub fn take_unreported(&mut self) -> (refusals: Vec<LoadError>)
        ensures
            refusals@ == old(self).unreported(),
            final(self).unreported() == Seq::<LoadError>::empty(),
            final(self).same_store_as(old(self)),
    {
        let mut refusals: Vec<LoadError> = Vec::new();
        core::mem::swap(&mut refusals, &mut self.set_aside);
        refusals
    }

    /// Sends the statement of `op` and notes the operation.
    fn issue(&mut self, sql: &str, Ghost(op): Ghost<StoreOp>) -> (res: Result<(), LoadError>)
        requires
            statement_text(op) == Some(sql@),
        ensures
            final(self).log() == old(self).log().push(Issued { op, ok: res is Ok }),
            final(self).inspections() == old(self).inspections(),
            final(self).unreported() == old(self).unreported(),
            final(self).compilations() == old(self).compilations(),
            res matches Err(e) ==> e is StoreAccess,
    {
        let res = match self.conn.execute_batch(sql) {
            Ok(()) => Ok(()),
            Err(e) => Err(store_error(&e)),
        };
        proof {
            self.log@ = self.log@.push(Issued { op, ok: res is Ok });
        }
        res
    }

    /// Sends the statement of `op`, which must be a single one, and notes the operation.
    fn issue_single(&mut self, sql: &str, Ghost(op): Ghost<StoreOp>) -> (res: Result<
        (),
        LoadError,
    >)
        requires
            statement_text(op) == Some(sql@),
        ensures
            final(self).log() == old(self).log().push(Issued { op, ok: res is Ok }),
            final(self).inspections() == old(self).inspections(),
            final(self).unreported() == old(self).unreported(),
            final(self).compilations() == old(self).compilations(),
            res matches Err(e) ==> e is StoreAccess,
    {
        let res = match execute_plain(self.conn, sql) {
            Ok(_) => Ok(()),
            Err(e) => Err(store_error(&e)),
        };
        proof {
            self.log@ = self.log@.push(Issued { op, ok: res is Ok });
        }
        res
    }

    /// Opens a transaction.
    pub fn begin(&mut self) -> (res: Result<(), LoadError>)
        ensures
            final(self).log() == old(self).log().push(Issued { op: StoreOp::Begin, ok: res is Ok }),
            final(self).inspections() == old(self).inspections(),
            final(self).unreported() == old(self).unreported(),
            final(self).compilations() == old(self).compilations(),
            res matches Err(e) ==> e is StoreAccess,
    {
        self.issue("begin transaction;", Ghost(StoreOp::Begin))
    }

    /// Makes the open transaction permanent.
    pub fn commit(&mut self) -> (res: Result<(), LoadError>)
        ensures
            final(self).log() == old(self).log().push(
                Issued { op: StoreOp::Commit, ok: res is Ok },
            ),
            final(self).inspections() == old(self).inspections(),
            final(self).unreported() == old(self).unreported(),
            final(self).compilations() == old(self).compilations(),
            res matches Err(e) ==> e is StoreAccess,
    {
        self.issue("commit;", Ghost(StoreOp::Commit))
    }

    /// Undoes the open transaction.
    pub fn rollback(&mut self) -> (res: Result<(), LoadError>)
        ensures
            final(self).log() == old(self).log().push(
                Issued { op: StoreOp::Rollback, ok: res is Ok },
            ),
            final(self).inspections() == old(self).inspections(),
            final(self).unreported() == old(self).unreported(),
            final(self).compilations() == old(self).compilations(),
            res matches Err(e) ==> e is StoreAccess,
    {
        self.issue("rollback;", Ghost(StoreOp::Rollback))
    }

    /// Drops `tablename`.
    pub fn drop_table(&mut self, tablename: &str) -> (res: Result<(), LoadError>)
        ensures
            final(self).log() == old(self).log().push(
                Issued { op: StoreOp::Drop { table: tablename@ }, ok: res is Ok },
            ),
            final(self).inspections() == old(self).inspections(),
            final(self).unreported() == old(self).unreported(),
            final(self).compilations() == old(self).compilations(),
            res matches Err(e) ==> e is StoreAccess,
    {
        let sql = drop_sql(tablename);
        self.issue(sql.as_str(), Ghost(StoreOp::Drop { table: tablename@ }))
    }

    /// Creates `tablename` with the columns of `f_sch`.
    pub fn create_table(&mut self, tablename: &str, f_sch: &Vec<Field>) -> (res: Result<
        (),
        LoadError,
    >)
        ensures
            final(self).log() == old(self).log().push(
                Issued {
                    op: StoreOp::Create { table: tablename@, schema: columns(f_sch@) },
                    ok: res is Ok,
                },
            ),
            final(self).inspections() == old(self).inspections(),
            final(self).unreported() == old(self).unreported(),
            final(self).compilations() == old(self).compilations(),
            res matches Err(e) ==> e is StoreAccess,
    {
        let sql = create_sql(tablename, f_sch);
        self.issue_single(
            sql.as_str(),
            Ghost(StoreOp::Create { table: tablename@, schema: columns(f_sch@) }),
        )
    }

    /// Compiles the statement that inserts one record with the columns of `f_sch` into
    /// `tablename`, and notes that it was handed to the store. This issues no operation.
    pub fn prepare_insert(&mut self, tablename: &str, f_sch: &Vec<Field>) -> (res: Result<
        Inserter<'conn>,
        LoadError,
    >)
        ensures
            final(self).compilations() == old(self).compilations().push(
                Compiled {
                    table: tablename@,
                    schema: columns(f_sch@),
                    statement: insert_text(tablename@, columns(f_sch@)),
                    ok: res is Ok,
                },
            ),
            final(self).log() == old(self).log(),
            final(self).inspections() == old(self).inspections(),
            final(self).unreported() == old(self).unreported(),
            res matches Ok(ins) ==> {
                &&& ins.table() == tablename@
                &&& ins.schema() == columns(f_sch@)
                &&& ins.statement() == insert_text(tablename@, columns(f_sch@))
            },
            res matches Err(e) ==> e is StoreAccess,
    {
        let conn = self.conn;
        let sql = insert_sql(tablename, f_sch);
        let res = match conn.prepare(sql.as_str()) {
            Ok(stmt) => Ok(
                Inserter {
                    stmt,
                    table: Ghost(tablename@),
                    schema: Ghost(columns(f_sch@)),
                    text: Ghost(sql@),
                },
            ),
            Err(e) => Err(store_error(&e)),
        };
        proof {
            self.compiled@ = self.compiled@.push(
                Compiled {
                    table: tablename@,
                    schema: columns(f_sch@),
                    statement: sql@,
                    ok: res is Ok,
                },
            );
        }
        res
    }

    /// Inserts `rec`, its fields bound in order to the parameters of `ins`.
    pub fn insert(&mut self, ins: &mut Inserter<'_>, rec: &StringRecordParamed) -> (res: Result<
        (),
        LoadError,
    >)
        ensures
            final(self).log() == old(self).log().push(
                Issued {
                    op: StoreOp::Insert { table: old(ins).table(), row: rec.fields() },
                    ok: res is Ok,
                },
            ),
            final(ins).table() == old(ins).table(),
            final(ins).schema() == old(ins).schema(),
            final(ins).statement() == old(ins).statement(),
            final(self).inspections() == old(self).inspections(),
            final(self).unreported() == old(self).unreported(),
            final(self).compilations() == old(self).compilations(),
            res matches Err(e) ==> e is StoreAccess,
    {
        let res = match execute_bound(&mut ins.stmt, rec.raw()) {
            Ok(_) => Ok(()),
            Err(e) => Err(store_error(&e)),
        };
        proof {
            self.log@ = self.log@.push(
                Issued {
                    op: StoreOp::Insert { table: ins.table(), row: rec.fields() },
                    ok: res is Ok,
                },
            );
        }
        res
    }

    /// Asks the store for the columns of `tablename`. This issues no operation.
    ///
    /// The store is handed the query for the columns of the table, and of each row that it
    /// gives, the ordinal, the name and the declared type are read at their places. The
    /// answer is noted, as far as it came. The result is that answer, once the store has said
    /// that no row is left: one column for each row that it gave, in the order in which it
    /// gave them and just as it gave them, so a table that is not there has none. Where the
    /// store refuses to go on, or gives more rows than can be held, the answer stays
    /// incomplete and the result is the error.
    pub fn table_columns(&mut self, tablename: &str) -> (res: Result<Vec<Field>, LoadError>)
        ensures
            final(self).log() == old(self).log(),
            final(self).unreported() == old(self).unreported(),
            final(self).compilations() == old(self).compilations(),
            final(self).inspected_once_since(old(self)),
            final(self).inspections().last().table == tablename@,
            final(self).inspections().last().query == table_info_text(tablename@),
            final(self).inspections().last().places == table_info_places(),
            final(self).inspections().last().complete == (res is Ok),
            res matches Ok(fields) ==> columns(fields@) == columns_of(
                final(self).inspections().last().rows,
            ),
            res matches Err(e) ==> e is StoreAccess || e is TooLarge,
    {
        let ghost before = self.asked@;
        let ghost table = tablename@;
        let conn = self.conn;
        let sql = table_info_sql(tablename);
        let places = places_in_table_info();
        let ghost query = sql@;
        let mut stmt = match conn.prepare(sql.as_str()) {
            Ok(stmt) => stmt,
            Err(e) => {
                proof {
                    self.asked@ = before.push(
                        Inspection { table, query, places, rows: Seq::empty(), complete: false },
                    );
                }
                return Err(store_error(&e));
            },
        };
        let mut rows = match query_plain(&mut stmt) {
            Ok(rows) => rows,
            Err(e) => {
                proof {
                    self.asked@ = before.push(
                        Inspection { table, query, places, rows: Seq::empty(), complete: false },
                    );
                }
                return Err(store_error(&e));
            },
        };
        let mut fields: Vec<Field> = Vec::new();
        let ghost mut given: Seq<ReportedColumn> = Seq::empty();
        assert(columns(fields@) =~= columns_of(given));
        while fields.len() < usize::MAX
            invariant
                self.log() == old(self).log(),
                self.unreported() == old(self).unreported(),
                self.compilations() == old(self).compilations(),
                self.asked@ == before,
                before == old(self).inspections(),
                table == tablename@,
                query == table_info_text(tablename@),
                places == table_info_places(),
                columns(fields@) == columns_of(given),
            decreases usize::MAX - fields.len(),
        {
            match next_column(&mut rows, places) {
                Err(e) => {
                    proof {
                        self.asked@ = before.push(
                            Inspection { table, query, places, rows: given, complete: false },
                        );
                    }
                    return Err(store_error(&e));
                },
                Ok(None) => {
                    proof {
                        self.asked@ = before.push(
                            Inspection { table, query, places, rows: given, complete: true },
                        );
                    }
                    return Ok(fields);
                },
                Ok(Some((pos, name, reported))) => {
                    let ghost row = ReportedColumn {
                        pos: pos as nat,
                        name: name@,
                        declared: reported@,
                    };
                    let ghost held = fields@;
                    fields.push(reported_field(pos, name, reported));
                    proof {
                        assert(columns(fields@) =~= columns(held).push(column_of(row)));
                        assert(columns_of(given.push(row)) =~= columns_of(given).push(
                            column_of(row),
                        ));
                        given = given.push(row);
                    }
                },
            }
        }
        proof {
            self.asked@ = before.push(
                Inspection { table, query, places, rows: given, complete: false },
            );
        }
        Err(LoadError::TooLarge)
    }
}

} // verus!
