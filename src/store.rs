use crate::model::{has_time, lemma_listed_table_finite, lists_exactly, row_view, sorted_by_time};
use vstd::string::to_string_from_display_ensures;
use vstd::prelude::*;

verus! {

#[verifier::external_type_specification]
#[verifier::external_body]
pub struct ExConnection(rusqlite::Connection);

#[verifier::external_type_specification]
#[verifier::external_body]
pub struct ExSqlError(rusqlite::Error);

/// The alarms table of the database behind a connection, as a map from id to
/// time; empty where the table does not exist. The connections of this
/// library are to a private in-memory database, or to a file in SQLite's
/// exclusive locking mode, which keeps the file locked from the connection's
/// first access until it closes: no other connection writes the table
/// meanwhile.
pub uninterp spec fn stored_alarms(c: rusqlite::Connection) -> Map<int, Seq<char>>;

/// The SQL texts of the schema objects on the table `alarms` of the database
/// behind a connection (the table itself, its triggers and declared indexes),
/// as `SCHEMA_QUERY` reads them: empty exactly where there is no such table.
pub uninterp spec fn alarm_schema(c: rusqlite::Connection) -> Seq<Seq<char>>;

/// The text encoding of the database behind a connection, as `PRAGMA encoding`
/// names it (`UTF-8`, `UTF-16le` or `UTF-16be`).
pub uninterp spec fn database_encoding(c: rusqlite::Connection) -> Seq<char>;

const CREATE_TABLE_QUERY: &'static str = "CREATE TABLE IF NOT EXISTS alarms (
                      id    INTEGER PRIMARY KEY,
                      time  TEXT NOT NULL UNIQUE
                      )";

/// The text that SQLite keeps for the table that `CREATE_TABLE_QUERY` makes:
/// the same statement, without `IF NOT EXISTS`.
pub const ALARMS_TABLE_SQL: &'static str = "CREATE TABLE alarms (
                      id    INTEGER PRIMARY KEY,
                      time  TEXT NOT NULL UNIQUE
                      )";

/// The encoding under which SQLite's `BINARY` order on text is the order of
/// code points.
pub const UTF8_ENCODING: &'static str = "UTF-8";

const SCHEMA_QUERY: &'static str =
    "SELECT sql FROM sqlite_master WHERE tbl_name = 'alarms' COLLATE NOCASE AND sql IS NOT NULL ORDER BY sql";

const INSERT_ALARM_QUERY: &'static str = "INSERT INTO alarms (time) VALUES (?)";

const REMOVE_ALARM_QUERY: &'static str = "DELETE FROM alarms WHERE id = ?";

const SELECT_ALARMS_QUERY: &'static str = "SELECT id, time FROM alarms ORDER BY time";

/// The alarms table behind `c` is the one `CREATE_TABLE_QUERY` makes, with no
/// trigger or declared index on it.
spec fn own_schema(c: rusqlite::Connection) -> bool {
    alarm_schema(c) == seq![ALARMS_TABLE_SQL@]
}

/// The database behind `c` stores its text as UTF-8.
spec fn utf8_text(c: rusqlite::Connection) -> bool {
    database_encoding(c) == UTF8_ENCODING@
}

/// The texts of a sequence of strings.
pub open spec fn texts(v: Seq<String>) -> Seq<Seq<char>> {
    v.map_values(|s: String| s@)
}

/// A database with these schema texts on its `alarms` table, in this
/// encoding, is one this store can work on.
pub open spec fn own_store(schema: Seq<Seq<char>>, encoding: Seq<char>) -> bool {
    schema == seq![ALARMS_TABLE_SQL@] && encoding == UTF8_ENCODING@
}

/// Relies on `rusqlite::Connection::open_with_flags`: opens (or creates) the
/// database file at `path`, read-write. Without `SQLITE_OPEN_URI` the path is
/// a plain file name, so no shared cache can be asked for. The tables the file
/// already holds are whatever is on disk.
#[verifier::external_body]
fn open_file(path: &str) -> (r: Result<rusqlite::Connection, rusqlite::Error>)
    ensures
        r is Ok ==> stored_alarms(r->Ok_0).dom().finite(),
{
    rusqlite::Connection::open_with_flags(
        path,
        rusqlite::OpenFlags::SQLITE_OPEN_READ_WRITE | rusqlite::OpenFlags::SQLITE_OPEN_CREATE
            | rusqlite::OpenFlags::SQLITE_OPEN_NO_MUTEX,
    )
}

/// Relies on `rusqlite::Connection::open_in_memory`: a fresh in-memory
/// database, which holds no table. It is opened through `sqlite3_open_v2`,
/// for which SQLite documents UTF-8 as the encoding of a new database.
#[verifier::external_body]
fn open_memory() -> (r: Result<rusqlite::Connection, rusqlite::Error>)
    ensures
        r is Ok ==> stored_alarms(r->Ok_0).dom().finite() && stored_alarms(r->Ok_0).dom().len() == 0,
        r is Ok ==> alarm_schema(r->Ok_0).len() == 0,
        r is Ok ==> database_encoding(r->Ok_0) == UTF8_ENCODING@,
{
    rusqlite::Connection::open_in_memory()
}

/// Relies on `rusqlite::Connection::pragma_update` setting `locking_mode` to
/// `EXCLUSIVE`: from its first read on, the connection keeps its lock on the
/// database file until it closes. The pragma changes no table.
#[verifier::external_body]
fn lock_exclusively(c: &mut rusqlite::Connection) -> (r: Result<(), rusqlite::Error>)
    ensures
        stored_alarms(*final(c)) == stored_alarms(*old(c)),
        alarm_schema(*final(c)) == alarm_schema(*old(c)),
        database_encoding(*final(c)) == database_encoding(*old(c)),
{
    c.pragma_update(None, "locking_mode", "EXCLUSIVE")
}

/// Relies on `rusqlite::Connection::execute` running `CREATE_TABLE_QUERY`:
/// where no table `alarms` exists, it makes one, empty; an existing one is
/// left as it is. The encoding is the one the database already reports: an
/// empty database takes that encoding with its first table.
#[verifier::external_body]
fn create_alarm_table(c: &mut rusqlite::Connection) -> (r: Result<usize, rusqlite::Error>)
    ensures
        stored_alarms(*final(c)) == stored_alarms(*old(c)),
        database_encoding(*final(c)) == database_encoding(*old(c)),
        alarm_schema(*old(c)).len() > 0 ==> alarm_schema(*final(c)) == alarm_schema(*old(c)),
        alarm_schema(*old(c)).len() == 0 ==> stored_alarms(*final(c)).dom().len() == 0,
        alarm_schema(*old(c)).len() == 0 ==> stored_alarms(*final(c)).dom().finite(),
        r is Ok && alarm_schema(*old(c)).len() == 0 ==> own_schema(*final(c)),
{
    c.execute(CREATE_TABLE_QUERY, [])
}

/// Relies on `rusqlite::Connection::prepare` and `rusqlite::Statement::query_map`
/// running `SCHEMA_QUERY`, with `rusqlite::Row::get` reading each text.
#[verifier::external_body]
fn read_alarm_schema(c: &rusqlite::Connection) -> (r: Result<Vec<String>, rusqlite::Error>)
    ensures
        r is Ok ==> texts(r->Ok_0@) == alarm_schema(*c),
{
    let mut statement = c.prepare(SCHEMA_QUERY)?;
    let rows = statement.query_map([], |row| row.get(0))?;
    rows.collect()
}

/// Relies on `rusqlite::Connection::pragma_query_value` reading
/// `PRAGMA encoding`, with `rusqlite::Row::get` reading its text.
#[verifier::external_body]
fn read_encoding(c: &rusqlite::Connection) -> (r: Result<String, rusqlite::Error>)
    ensures
        r is Ok ==> r->Ok_0@ == database_encoding(*c),
{
    c.pragma_query_value(None, "encoding", |row| row.get(0))
}

/// Relies on `rusqlite::Connection::execute` running `INSERT_ALARM_QUERY`:
/// on the table that `CREATE_TABLE_QUERY` makes, which has no trigger, the
/// one statement adds one row under a fresh id or changes nothing, and the
/// `UNIQUE` constraint on `time` refuses a time already stored. Without the
/// table the statement fails and changes nothing.
#[verifier::external_body]
fn insert_alarm_row(c: &mut rusqlite::Connection, time: &str) -> (r: Result<usize, rusqlite::Error>)
    ensures
        alarm_schema(*final(c)) == alarm_schema(*old(c)),
        database_encoding(*final(c)) == database_encoding(*old(c)),
        r is Ok && own_schema(*old(c)) ==> !has_time(stored_alarms(*old(c)), time@) && exists|id: int|
            !stored_alarms(*old(c)).contains_key(id) && stored_alarms(*final(c))
                == stored_alarms(*old(c)).insert(id, time@),
        r is Err && (own_schema(*old(c)) || alarm_schema(*old(c)).len() == 0) ==> stored_alarms(*final(c))
            == stored_alarms(*old(c)),
        own_schema(*old(c)) && has_time(stored_alarms(*old(c)), time@) ==> r is Err,
        alarm_schema(*old(c)).len() == 0 ==> r is Err,
{
    c.execute(INSERT_ALARM_QUERY, [time])
}

/// Relies on `rusqlite::Connection::execute` running `REMOVE_ALARM_QUERY`:
/// on the table that `CREATE_TABLE_QUERY` makes, which has no trigger, the
/// one statement removes the row with that id, if there is one, or changes
/// nothing. Without the table the statement fails and changes nothing.
#[verifier::external_body]
fn delete_alarm_row(c: &mut rusqlite::Connection, id: i32) -> (r: Result<usize, rusqlite::Error>)
    ensures
        alarm_schema(*final(c)) == alarm_schema(*old(c)),
        database_encoding(*final(c)) == database_encoding(*old(c)),
        r is Ok && own_schema(*old(c)) ==> stored_alarms(*final(c)) == stored_alarms(*old(c)).remove(id as int),
        r is Err && (own_schema(*old(c)) || alarm_schema(*old(c)).len() == 0) ==> stored_alarms(*final(c))
            == stored_alarms(*old(c)),
        alarm_schema(*old(c)).len() == 0 ==> r is Err,
{
    c.execute(REMOVE_ALARM_QUERY, [id])
}

/// Relies on `rusqlite::Connection::prepare` and `rusqlite::Statement::query_map`
/// running `SELECT_ALARMS_QUERY`, with `rusqlite::Row::get` reading each row as
/// (id, time). On the table that `CREATE_TABLE_QUERY` makes, every row comes
/// once, and an id that does not fit in `i32` fails the read of its row. The
/// rows come in ascending order of `time` under SQLite's default `BINARY`
/// collation, which compares the stored bytes: in a UTF-8 database, the order
/// of code points.
/// Without the table the statement fails.
#[verifier::external_body]
fn select_alarm_rows(c: &rusqlite::Connection) -> (r: Result<Vec<(i32, String)>, rusqlite::Error>)
    ensures
        r is Ok && own_schema(*c) ==> lists_exactly(row_view(r->Ok_0@), stored_alarms(*c)),
        r is Ok && own_schema(*c) && utf8_text(*c) ==> sorted_by_time(row_view(r->Ok_0@)),
        alarm_schema(*c).len() == 0 ==> r is Err,
{
    let mut statement = c.prepare(SELECT_ALARMS_QUERY)?;
    let rows = statement.query_map([], |row| Ok((row.get(0)?, row.get(1)?)))?;
    rows.collect()
}

/// A stored alarm: its id, which the store assigns, and its time of day as
/// `HH:MM:SS` text.
#[derive(Debug)]
pub struct Alarm {
    pub id: i32,
    pub time: String,
}

impl View for Alarm {
    type V = (int, Seq<char>);

    open spec fn view(&self) -> (int, Seq<char>) {
        (self.id as int, self.time@)
    }
}

/// The (id, time) rows of a sequence of alarms.
pub open spec fn alarm_rows(alarms: Seq<Alarm>) -> Seq<(int, Seq<char>)> {
    alarms.map_values(|a: Alarm| a@)
}

/// A failure of the store: an error of the underlying database, with the
/// engine's own message, or the store's refusal of a database whose `alarms`
/// table it did not make.
#[derive(Debug)]
pub struct StorageError {
    refused: bool,
    message: String,
}

impl View for StorageError {
    type V = Seq<char>;

    closed spec fn view(&self) -> Seq<char> {
        self.message@
    }
}

impl StorageError {
    /// The store refused the database, rather than the engine failing.
    pub closed spec fn is_refusal(&self) -> bool {
        self.refused
    }

    fn from_engine(e: &rusqlite::Error) -> (r: StorageError)
        ensures
            !r.is_refusal(),
            to_string_from_display_ensures::<rusqlite::Error>(e, r.message),
    {
        StorageError { refused: false, message: e.to_string() }
    }

    fn refusal() -> (r: StorageError)
        ensures
            r.is_refusal(),
    {
        StorageError {
            refused: true,
            message: "the database does not hold this store's alarms table in UTF-8".to_owned(),
        }
    }

    /// Whether the store refused the database, rather than the engine failing.
    pub fn refused_store(&self) -> (r: bool)
        ensures
            r == self.is_refusal(),
    {
        self.refused
    }

    /// The message, such as the engine's `UNIQUE constraint failed: alarms.time`.
    pub fn to_string(&self) -> (r: String)
        ensures
            r@ == self@,
    {
        self.message.clone()
    }
}

/// Whether a database whose `alarms` table has the schema texts `schema`, and
/// whose encoding is `encoding`, is one this store works on: the table is the
/// one `use_connection` makes, with nothing else on it, and the text is UTF-8.
pub fn is_own_store(schema: &Vec<String>, encoding: &String) -> (r: bool)
    ensures
        r == own_store(texts(schema@), encoding@),
{
    let table = ALARMS_TABLE_SQL.to_owned();
    let utf8 = UTF8_ENCODING.to_owned();
    if schema.len() == 1 && schema[0] == table && *encoding == utf8 {
        assert(texts(schema@) =~= seq![ALARMS_TABLE_SQL@]);
        true
    } else {
        proof {
            assert(texts(schema@).len() == schema@.len());
            if texts(schema@) == seq![ALARMS_TABLE_SQL@] {
                assert(texts(schema@)[0] == schema@[0]@);
                assert(seq![ALARMS_TABLE_SQL@][0] == ALARMS_TABLE_SQL@);
            }
        }
        false
    }
}

/// The alarm store: one connection to a database that holds the `alarms`
/// table. Its view is that table, from id to time.
pub struct Database {
    conn: rusqlite::Connection,
}

impl View for Database {
    type V = Map<int, Seq<char>>;

    closed spec fn view(&self) -> Map<int, Seq<char>> {
        stored_alarms(self.conn)
    }
}

impl Database {
    /// The database holds a table `alarms`, of any shape.
    pub closed spec fn has_table(&self) -> bool {
        alarm_schema(self.conn).len() > 0
    }

    /// The database stores its text as UTF-8.
    pub closed spec fn is_utf8(&self) -> bool {
        utf8_text(self.conn)
    }

    /// The database holds the table `alarms` that `use_connection` makes, with
    /// nothing else on it, and stores its text as UTF-8: the store's
    /// operations work as stated.
    pub closed spec fn is_ready(&self) -> bool {
        own_schema(self.conn) && utf8_text(self.conn)
    }

    /// Opens the database file at `db_file`, creating it if it is absent, and
    /// takes SQLite's exclusive locking mode, so that no other connection
    /// writes the file while this store is open.
    pub fn new(db_file: &str) -> (r: Result<Database, StorageError>)
        ensures
            r is Ok ==> r->Ok_0@.dom().finite(),
            r is Err ==> !r->Err_0.is_refusal(),
    {
        let mut conn = match open_file(db_file) {
            Ok(conn) => conn,
            Err(e) => {
                return Err(StorageError::from_engine(&e));
            },
        };
        match lock_exclusively(&mut conn) {
            Ok(()) => Ok(Database { conn }),
            Err(e) => Err(StorageError::from_engine(&e)),
        }
    }

    /// Opens a store on a fresh in-memory database, which holds no table and
    /// no alarm, and stores its text as UTF-8.
    pub fn open_in_memory() -> (r: Result<Database, StorageError>)
        ensures
            r is Ok ==> r->Ok_0@ == Map::<int, Seq<char>>::empty(),
            r is Ok ==> !r->Ok_0.has_table() && r->Ok_0.is_utf8(),
            r is Err ==> !r->Err_0.is_refusal(),
    {
        match open_memory() {
            Ok(conn) => {
                let db = Database { conn };
                assert(db@ =~= Map::<int, Seq<char>>::empty());
                Ok(db)
            },
            Err(e) => Err(StorageError::from_engine(&e)),
        }
    }

    /// Creates the alarms table where there is none, then checks that the
    /// database is one this store works on (`is_own_store`), and refuses it
    /// otherwise. Success leaves the store ready. The alarms already stored
    /// stay as they are, and a table made here is empty. A ready store, or a
    /// UTF-8 one without the table, fails only where the engine does.
    pub fn use_connection(&mut self) -> (r: Result<(), StorageError>)
        ensures
            final(self)@ == old(self)@,
            final(self).is_utf8() == old(self).is_utf8(),
            r is Ok ==> final(self).is_ready(),
            old(self).is_ready() ==> final(self).is_ready(),
            !old(self).has_table() ==> final(self)@.dom().finite() && final(self)@.len() == 0,
            r is Err && r->Err_0.is_refusal() ==> !final(self).is_ready(),
            r is Err && (old(self).is_ready() || (!old(self).has_table() && old(self).is_utf8()))
                ==> !r->Err_0.is_refusal(),
    {
        if let Err(e) = create_alarm_table(&mut self.conn) {
            return Err(StorageError::from_engine(&e));
        }
        let schema = match read_alarm_schema(&self.conn) {
            Ok(schema) => schema,
            Err(e) => {
                return Err(StorageError::from_engine(&e));
            },
        };
        let encoding = match read_encoding(&self.conn) {
            Ok(encoding) => encoding,
            Err(e) => {
                return Err(StorageError::from_engine(&e));
            },
        };
        if is_own_store(&schema, &encoding) {
            Ok(())
        } else {
            Err(StorageError::refusal())
        }
    }

    /// Stores a new alarm at `time`, under an id that the store picks. A time
    /// that is already stored is refused, a store without the table refuses
    /// every alarm, and on a ready store a failure changes nothing.
    pub fn add_alarm(&mut self, time: String) -> (r: Result<(), StorageError>)
        ensures
            final(self).is_ready() == old(self).is_ready(),
            final(self).has_table() == old(self).has_table(),
            final(self).is_utf8() == old(self).is_utf8(),
            r is Err ==> !r->Err_0.is_refusal(),
            !old(self).has_table() ==> r is Err,
            old(self).is_ready() && has_time(old(self)@, time@) ==> r is Err,
            r is Ok && old(self).is_ready() ==> exists|id: int|
                !old(self)@.contains_key(id) && final(self)@ == old(self)@.insert(id, time@),
            r is Err && (old(self).is_ready() || !old(self).has_table()) ==> final(self)@ == old(self)@,
            old(self).is_ready() && old(self)@.dom().finite() ==> final(self)@.dom().finite(),
    {
        let ghost before = self@;
        let inserted = insert_alarm_row(&mut self.conn, time.as_str());
        proof {
            if inserted is Ok && own_schema(old(self).conn) {
                let id = choose|id: int| !before.contains_key(id) && self@ == before.insert(id, time@);
                assert(!before.contains_key(id) && self@ == before.insert(id, time@));
            }
        }
        match inserted {
            Ok(_) => Ok(()),
            Err(e) => Err(StorageError::from_engine(&e)),
        }
    }

    /// Removes the alarm with id `id`; an id that is not stored is no error
    /// and changes nothing. A store without the table refuses, and on a ready
    /// store a failure changes nothing.
    pub fn remove_alarm(&mut self, id: i32) -> (r: Result<(), StorageError>)
        ensures
            final(self).is_ready() == old(self).is_ready(),
            final(self).has_table() == old(self).has_table(),
            final(self).is_utf8() == old(self).is_utf8(),
            r is Err ==> !r->Err_0.is_refusal(),
            !old(self).has_table() ==> r is Err,
            r is Ok && old(self).is_ready() ==> final(self)@ == old(self)@.remove(id as int),
            r is Err && (old(self).is_ready() || !old(self).has_table()) ==> final(self)@ == old(self)@,
            old(self).is_ready() && old(self)@.dom().finite() ==> final(self)@.dom().finite(),
    {
        match delete_alarm_row(&mut self.conn, id) {
            Ok(_) => Ok(()),
            Err(e) => Err(StorageError::from_engine(&e)),
        }
    }

    /// Every stored alarm once, in non-decreasing order of time. A store
    /// without the table fails.
    pub fn list_alarms(&self) -> (r: Result<Vec<Alarm>, StorageError>)
        ensures
            !self.has_table() ==> r is Err,
            r is Err ==> !r->Err_0.is_refusal(),
            r is Ok && self.is_ready() ==> lists_exactly(alarm_rows(r->Ok_0@), self@),
            r is Ok && self.is_ready() ==> sorted_by_time(alarm_rows(r->Ok_0@)),
            r is Ok && self.is_ready() ==> self@.dom().finite(),
    {
        let rows = match select_alarm_rows(&self.conn) {
            Ok(rows) => rows,
            Err(e) => {
                return Err(StorageError::from_engine(&e));
            },
        };
        let mut alarms: Vec<Alarm> = Vec::new();
        let mut i: usize = 0;
        while i < rows.len()
            invariant
                i <= rows.len(),
                alarms@.len() == i,
                forall|k: int| 0 <= k < i ==> #[trigger] alarms@[k]@ == row_view(rows@)[k],
            decreases rows.len() - i,
        {
            let row = &rows[i];
            let alarm = Alarm { id: row.0, time: row.1.clone() };
            assert(alarm@ == row_view(rows@)[i as int]);
            alarms.push(alarm);
            i = i + 1;
        }
        assert(alarm_rows(alarms@) =~= row_view(rows@));
        proof {
            if self.is_ready() {
                lemma_listed_table_finite(row_view(rows@), self@);
            }
        }
        Ok(alarms)
    }
}

} // verus!
