//! Appending traffic records to the table of their day.
//!
//! The logger holds no connection. For each record it says which statements
//! are to be run against the store, and the caller runs them. The logger
//! remembers the last table that it was told exists, so that the store is
//! probed once per day and not once per record.

use crate::text::{append_decimal, append_str, decimal};
use vstd::prelude::*;

verus! {

/// The UTC calendar date of an instant given in seconds since the Unix
/// epoch, as year, month and day of month; `None` where the calendar of
/// `chrono` does not reach.
pub uninterp spec fn utc_civil_date(unix_seconds: i64) -> Option<(int, int, int)>;

/// `chrono::DateTime::from_timestamp` with no nanoseconds, then `year`,
/// `month` and `day` of `chrono::Datelike` on the UTC instant it gives.
///
/// The result is the UTC calendar date of `unix_seconds`, and `None` when
/// chrono has no instant for that number. As chrono documents, the month is
/// from 1 to 12 and the day from 1 to 31.
#[verifier::external_body]
fn utc_date(unix_seconds: i64) -> (r: Option<(i32, u32, u32)>)
    ensures
        r is None ==> utc_civil_date(unix_seconds) is None,
        r matches Some((year, month, day)) ==> utc_civil_date(unix_seconds) == Some(
            (year as int, month as int, day as int),
        ) && 1 <= month <= 12 && 1 <= day <= 31,
{
    match chrono::DateTime::from_timestamp(unix_seconds, 0) {
        Some(t) => Some(
            (chrono::Datelike::year(&t), chrono::Datelike::month(&t), chrono::Datelike::day(&t)),
        ),
        None => None,
    }
}

/// Whether a calendar date can name a table: a year of four digits, and a
/// month and a day within the calendar's bounds.
pub open spec fn is_nameable_day(year: int, month: int, day: int) -> bool {
    0 <= year <= 9999 && 1 <= month <= 12 && 1 <= day <= 31
}

/// The eight digits `YYYYMMDD` of a date.
pub open spec fn day_stamp(year: int, month: int, day: int) -> Seq<char> {
    decimal(year, 4) + decimal(month, 2) + decimal(day, 2)
}

/// The name of the table of a date: `traffic_YYYYMMDD`.
pub open spec fn day_table(year: int, month: int, day: int) -> Seq<char> {
    "traffic_"@ + day_stamp(year, month, day)
}

/// The name of the table that holds the records of the instant
/// `unix_seconds`: the table of its UTC date, if that date can name one.
pub open spec fn table_at(unix_seconds: i64) -> Option<Seq<char>> {
    match utc_civil_date(unix_seconds) {
        Some((year, month, day)) => if is_nameable_day(year, month, day) {
            Some(day_table(year, month, day))
        } else {
            None
        },
        None => None,
    }
}

/// The statement that asks the catalogue how many tables have the name
/// bound to its one parameter.
pub open spec fn probe_text() -> Seq<char> {
    "SELECT count(*) as total FROM sqlite_master WHERE type= 'table' AND name = ?;"@
}

/// The statement that creates the table `table`.
pub open spec fn create_text(table: Seq<char>) -> Seq<char> {
    "CREATE TABLE "@ + table
        + " (timestamp INTEGER, from_ip TEXT, from_dns TEXT, to_ip TEXT, to_dns TEXT, packet_size INTEGER, payload_size INTEGER);"@
}

/// The statement that inserts one record, bound to seven parameters, into
/// the table `table`.
pub open spec fn insert_text(table: Seq<char>) -> Seq<char> {
    "INSERT INTO "@ + table + " VALUES (?, ?, ?, ?, ?, ?, ?);"@
}

/// The name of the table of a date, or `None` for a date that can name
/// none.
pub fn table_for_day(year: i32, month: u32, day: u32) -> (r: Option<String>)
    ensures
        r is Some <==> is_nameable_day(year as int, month as int, day as int),
        r matches Some(name) ==> name@ == day_table(year as int, month as int, day as int),
{
    if year < 0 || year > 9999 || month < 1 || month > 12 || day < 1 || day > 31 {
        return None;
    }
    let mut name = String::new();
    append_str(&mut name, "traffic_");
    append_decimal(&mut name, year as u32, 4);
    append_decimal(&mut name, month, 2);
    append_decimal(&mut name, day, 2);
    assert(name@ =~= day_table(year as int, month as int, day as int));
    Some(name)
}

/// The name of the table that holds the records of the instant
/// `unix_seconds`.
pub fn today_table(unix_seconds: i64) -> (r: Option<String>)
    ensures
        r is Some <==> table_at(unix_seconds) is Some,
        r matches Some(name) ==> table_at(unix_seconds) == Some(name@),
{
    match utc_date(unix_seconds) {
        Some((year, month, day)) => table_for_day(year, month, day),
        None => None,
    }
}

/// The catalogue probe.
pub fn probe_statement() -> (r: String)
    ensures
        r@ == probe_text(),
{
    let mut statement = String::new();
    append_str(
        &mut statement,
        "SELECT count(*) as total FROM sqlite_master WHERE type= 'table' AND name = ?;",
    );
    assert(statement@ =~= probe_text());
    statement
}

/// The statement that creates `table`.
pub fn create_statement(table: &str) -> (r: String)
    ensures
        r@ == create_text(table@),
{
    let mut statement = String::new();
    append_str(&mut statement, "CREATE TABLE ");
    append_str(&mut statement, table);
    append_str(
        &mut statement,
        " (timestamp INTEGER, from_ip TEXT, from_dns TEXT, to_ip TEXT, to_dns TEXT, packet_size INTEGER, payload_size INTEGER);",
    );
    assert(statement@ =~= create_text(table@));
    statement
}

/// The statement that inserts one record into `table`.
pub fn insert_statement(table: &str) -> (r: String)
    ensures
        r@ == insert_text(table@),
{
    let mut statement = String::new();
    append_str(&mut statement, "INSERT INTO ");
    append_str(&mut statement, table);
    append_str(&mut statement, " VALUES (?, ?, ?, ?, ?, ?, ?);");
    assert(statement@ =~= insert_text(table@));
    statement
}

/// One row of the traffic log.
#[derive(Debug)]
pub struct TrafficRecord {
    pub unix_seconds: i64,
    pub src_ip: String,
    pub src_dns: String,
    pub dst_ip: String,
    pub dst_dns: String,
    pub frame_len: i64,
    pub payload_len: i64,
}

/// A `TrafficRecord` with its texts as character sequences.
pub struct TrafficRecordView {
    pub unix_seconds: i64,
    pub src_ip: Seq<char>,
    pub src_dns: Seq<char>,
    pub dst_ip: Seq<char>,
    pub dst_dns: Seq<char>,
    pub frame_len: i64,
    pub payload_len: i64,
}

impl View for TrafficRecord {
    type V = TrafficRecordView;

    open spec fn view(&self) -> TrafficRecordView {
        TrafficRecordView {
            unix_seconds: self.unix_seconds,
            src_ip: self.src_ip@,
            src_dns: self.src_dns@,
            dst_ip: self.dst_ip@,
            dst_dns: self.dst_dns@,
            frame_len: self.frame_len,
            payload_len: self.payload_len,
        }
    }
}

/// What is to be run against the store before the day's first insert.
#[derive(Debug)]
pub struct TableSetup {
    /// The table that must exist.
    pub table: String,
    /// Run with `table` as its parameter: the number of tables of that name.
    pub probe: String,
    /// Run when the probe finds none.
    pub create: String,
}

/// A `TableSetup` with its texts as character sequences.
pub struct TableSetupView {
    pub table: Seq<char>,
    pub probe: Seq<char>,
    pub create: Seq<char>,
}

impl View for TableSetup {
    type V = TableSetupView;

    open spec fn view(&self) -> TableSetupView {
        TableSetupView { table: self.table@, probe: self.probe@, create: self.create@ }
    }
}

/// The setup for the table `table`.
pub open spec fn setup_of(table: Seq<char>) -> TableSetupView {
    TableSetupView { table, probe: probe_text(), create: create_text(table) }
}

/// What is to be done with one record.
#[derive(Debug)]
pub enum LogPlan {
    /// The record's instant has no table; the record is discarded.
    Reject,
    /// The table is known to exist: run `statement` with the fields of
    /// `record` as its parameters.
    Insert { table: String, statement: String, record: TrafficRecord },
    /// The table is not known to exist: carry out `setup`, report the table
    /// as ready, and then run `statement` with the fields of `record`.
    Rotate { setup: TableSetup, statement: String, record: TrafficRecord },
}

/// A `LogPlan` with its texts as character sequences.
pub enum LogPlanView {
    Reject,
    Insert { table: Seq<char>, statement: Seq<char>, record: TrafficRecordView },
    Rotate { setup: TableSetupView, statement: Seq<char>, record: TrafficRecordView },
}

impl View for LogPlan {
    type V = LogPlanView;

    open spec fn view(&self) -> LogPlanView {
        match *self {
            LogPlan::Reject => LogPlanView::Reject,
            LogPlan::Insert { table, statement, record } => LogPlanView::Insert {
                table: table@,
                statement: statement@,
                record: record@,
            },
            LogPlan::Rotate { setup, statement, record } => LogPlanView::Rotate {
                setup: setup@,
                statement: statement@,
                record: record@,
            },
        }
    }
}

impl LogPlanView {
    /// The table the plan inserts into, if it inserts.
    pub open spec fn table(self) -> Option<Seq<char>> {
        match self {
            LogPlanView::Reject => None,
            LogPlanView::Insert { table, .. } => Some(table),
            LogPlanView::Rotate { setup, .. } => Some(setup.table),
        }
    }

    /// The record the plan inserts, if it inserts.
    pub open spec fn record(self) -> Option<TrafficRecordView> {
        match self {
            LogPlanView::Reject => None,
            LogPlanView::Insert { record, .. } => Some(record),
            LogPlanView::Rotate { record, .. } => Some(record),
        }
    }
}

/// The plan for `record` when the last table known to exist is `last`.
pub open spec fn log_plan(last: Seq<char>, record: TrafficRecordView) -> LogPlanView {
    match table_at(record.unix_seconds) {
        None => LogPlanView::Reject,
        Some(table) => if table == last {
            LogPlanView::Insert { table, statement: insert_text(table), record }
        } else {
            LogPlanView::Rotate { setup: setup_of(table), statement: insert_text(table), record }
        },
    }
}

/// A sink for traffic records.
pub trait Logger {
    /// Plans the insertion of one record. A plan that inserts, inserts the
    /// record it was given, unchanged.
    fn log_traffic(
        &self,
        timestamp: i64,
        from_ip: &str,
        from_dns: &str,
        to_ip: &str,
        to_dns: &str,
        packet_size: i64,
        payload_size: i64,
    ) -> (r: LogPlan)
        ensures
            r@.record() matches Some(record) ==> record == (TrafficRecordView {
                unix_seconds: timestamp,
                src_ip: from_ip@,
                src_dns: from_dns@,
                dst_ip: to_ip@,
                dst_dns: to_dns@,
                frame_len: packet_size,
                payload_len: payload_size,
            }),
    ;
}

/// The logger for a store with one table per UTC day.
pub struct SQLiteLogger {
    last_today: String,
}

impl SQLiteLogger {
    /// The last table that is known to exist; empty when none is.
    pub closed spec fn last_table(&self) -> Seq<char> {
        self.last_today@
    }

    /// A logger that knows of no table.
    pub fn new() -> (r: SQLiteLogger)
        ensures
            r.last_table() == Seq::<char>::empty(),
    {
        SQLiteLogger { last_today: String::new() }
    }

    /// What is to be run so that the table of the instant `unix_seconds`
    /// exists; `None` when that table is known to exist, or when the
    /// instant has no table.
    pub fn setup_table(&self, unix_seconds: i64) -> (r: Option<TableSetup>)
        ensures
            r is Some <==> table_at(unix_seconds) is Some && table_at(unix_seconds) != Some(
                self.last_table(),
            ),
            r matches Some(setup) ==> Some(setup@.table) == table_at(unix_seconds) && setup@
                == setup_of(setup@.table),
    {
        match today_table(unix_seconds) {
            Some(table) => {
                if table == self.last_today {
                    None
                } else {
                    Some(SQLiteLogger::setup_for(table))
                }
            },
            None => None,
        }
    }

    /// The setup for `table`.
    fn setup_for(table: String) -> (r: TableSetup)
        ensures
            r@ == setup_of(table@),
    {
        let probe = probe_statement();
        let create = create_statement(table.as_str());
        TableSetup { table, probe, create }
    }

    /// Reports that `table` exists in the store: it was found there, or it
    /// was created.
    pub fn table_ready(&mut self, table: String)
        ensures
            final(self).last_table() == table@,
    {
        self.last_today = table;
    }

    /// Plans the insertion of `record`.
    ///
    /// The record goes to the table of the UTC day of its instant. If that
    /// table is the last one known to exist, the plan is the insert alone;
    /// else the plan holds the setup of the table before the insert.
    pub fn append(&self, record: TrafficRecord) -> (r: LogPlan)
        ensures
            r@ == log_plan(self.last_table(), record@),
            r@.table() == table_at(record.unix_seconds),
            r is Insert ==> table_at(record.unix_seconds) == Some(self.last_table()),
    {
        match today_table(record.unix_seconds) {
            Some(table) => {
                let statement = insert_statement(table.as_str());
                if table == self.last_today {
                    LogPlan::Insert { table, statement, record }
                } else {
                    LogPlan::Rotate { setup: SQLiteLogger::setup_for(table), statement, record }
                }
            },
            None => LogPlan::Reject,
        }
    }
}

impl Logger for SQLiteLogger {
    fn log_traffic(
        &self,
        timestamp: i64,
        from_ip: &str,
        from_dns: &str,
        to_ip: &str,
        to_dns: &str,
        packet_size: i64,
        payload_size: i64,
    ) -> (r: LogPlan)
        ensures
            r@ == log_plan(
                self.last_table(),
                TrafficRecordView {
                    unix_seconds: timestamp,
                    src_ip: from_ip@,
                    src_dns: from_dns@,
                    dst_ip: to_ip@,
                    dst_dns: to_dns@,
                    frame_len: packet_size,
                    payload_len: payload_size,
                },
            ),
    {
        let record = TrafficRecord {
            unix_seconds: timestamp,
            src_ip: from_ip.to_owned(),
            src_dns: from_dns.to_owned(),
            dst_ip: to_ip.to_owned(),
            dst_dns: to_dns.to_owned(),
            frame_len: packet_size,
            payload_len: payload_size,
        };
        self.append(record)
    }
}

} // verus!
