use blitz::logger::sqlite_logger::{
    create_statement, insert_statement, probe_statement, table_for_day, today_table, LogPlan,
    Logger, SQLiteLogger, TrafficRecord,
};

fn record(unix_seconds: i64) -> TrafficRecord {
    TrafficRecord {
        unix_seconds,
        src_ip: "198.51.100.7".to_string(),
        src_dns: "client.example".to_string(),
        dst_ip: "203.0.113.9".to_string(),
        dst_dns: "unknown".to_string(),
        frame_len: 62,
        payload_len: 28,
    }
}

fn insert(connection: &rusqlite::Connection, statement: &str, record: &TrafficRecord) -> bool {
    connection
        .execute(
            statement,
            (
                record.unix_seconds,
                &record.src_ip,
                &record.src_dns,
                &record.dst_ip,
                &record.dst_dns,
                record.frame_len,
                record.payload_len,
            ),
        )
        .is_ok()
}

fn carry_out(connection: &rusqlite::Connection, logger: &mut SQLiteLogger, plan: LogPlan) -> bool {
    match plan {
        LogPlan::Reject => false,
        LogPlan::Insert { statement, record, .. } => insert(connection, &statement, &record),
        LogPlan::Rotate { setup, statement, record } => {
            let found: i64 =
                connection.query_row(&setup.probe, [&setup.table], |row| row.get(0)).unwrap();
            if found == 0 {
                connection.execute(&setup.create, ()).unwrap();
            }
            logger.table_ready(setup.table);
            insert(connection, &statement, &record)
        }
    }
}

fn tables(connection: &rusqlite::Connection) -> Vec<String> {
    let mut statement = connection
        .prepare("SELECT name FROM sqlite_master WHERE type = 'table' ORDER BY name")
        .unwrap();
    let names = statement.query_map((), |row| row.get::<_, String>(0)).unwrap();
    names.map(|name| name.unwrap()).collect()
}

fn rows(connection: &rusqlite::Connection, table: &str) -> i64 {
    connection.query_row(&format!("SELECT count(*) FROM {}", table), (), |row| row.get(0)).unwrap()
}

#[test]
fn daily_rotation() {
    let connection = rusqlite::Connection::open_in_memory().unwrap();
    let mut logger = SQLiteLogger::new();
    // 2024-12-31 23:59:58 UTC, and four seconds later
    let clock: i64 = 1_735_689_598;
    let first = logger.append(record(clock));
    assert!(carry_out(&connection, &mut logger, first));
    let second = logger.append(record(clock + 4));
    assert!(carry_out(&connection, &mut logger, second));

    assert_eq!(tables(&connection), vec!["traffic_20241231", "traffic_20250101"]);
    assert_eq!(rows(&connection, "traffic_20241231"), 1);
    assert_eq!(rows(&connection, "traffic_20250101"), 1);
}

#[test]
fn the_store_is_probed_once_per_day() {
    let connection = rusqlite::Connection::open_in_memory().unwrap();
    let mut logger = SQLiteLogger::new();
    let first = logger.append(record(1_700_000_000));
    assert!(matches!(first, LogPlan::Rotate { .. }));
    carry_out(&connection, &mut logger, first);
    for later in [1_700_000_001i64, 1_700_006_399] {
        let plan = logger.append(record(later));
        match &plan {
            LogPlan::Insert { table, statement, .. } => {
                assert_eq!(table, "traffic_20231114");
                assert_eq!(statement, "INSERT INTO traffic_20231114 VALUES (?, ?, ?, ?, ?, ?, ?);");
            }
            _ => panic!("the table is known to exist"),
        }
        assert!(carry_out(&connection, &mut logger, plan));
    }
    assert_eq!(rows(&connection, "traffic_20231114"), 3);
    // the next day rotates again, and so does going back
    assert!(matches!(logger.append(record(1_700_006_400)), LogPlan::Rotate { .. }));
    let next = logger.append(record(1_700_006_400));
    carry_out(&connection, &mut logger, next);
    assert!(matches!(logger.append(record(1_700_000_000)), LogPlan::Rotate { .. }));
}

#[test]
fn a_table_that_exists_is_not_created_again() {
    let connection = rusqlite::Connection::open_in_memory().unwrap();
    let mut first_logger = SQLiteLogger::new();
    let plan = first_logger.append(record(1_700_000_000));
    assert!(carry_out(&connection, &mut first_logger, plan));
    // a logger that starts later finds the table
    let mut second_logger = SQLiteLogger::new();
    let plan = second_logger.append(record(1_700_000_005));
    assert!(carry_out(&connection, &mut second_logger, plan));
    assert_eq!(tables(&connection), vec!["traffic_20231114"]);
    assert_eq!(rows(&connection, "traffic_20231114"), 2);
}

#[test]
fn the_row_holds_the_record() {
    let connection = rusqlite::Connection::open_in_memory().unwrap();
    let mut logger = SQLiteLogger::new();
    let plan = logger.log_traffic(
        1_700_000_000,
        "198.51.100.7",
        "it's; DROP TABLE x",
        "203.0.113.9",
        "unknown",
        1514,
        1480,
    );
    assert!(carry_out(&connection, &mut logger, plan));
    let row: (i64, String, String, String, String, i64, i64) = connection
        .query_row(
            "SELECT timestamp, from_ip, from_dns, to_ip, to_dns, packet_size, payload_size FROM traffic_20231114",
            (),
            |row| {
                Ok((
                    row.get(0)?,
                    row.get(1)?,
                    row.get(2)?,
                    row.get(3)?,
                    row.get(4)?,
                    row.get(5)?,
                    row.get(6)?,
                ))
            },
        )
        .unwrap();
    assert_eq!(
        row,
        (
            1_700_000_000,
            "198.51.100.7".to_string(),
            "it's; DROP TABLE x".to_string(),
            "203.0.113.9".to_string(),
            "unknown".to_string(),
            1514,
            1480
        )
    );
}

#[test]
fn plan_carries_the_statements() {
    let logger = SQLiteLogger::new();
    match logger.append(record(0)) {
        LogPlan::Rotate { setup, statement, record } => {
            assert_eq!(setup.table, "traffic_19700101");
            assert_eq!(
                setup.probe,
                "SELECT count(*) as total FROM sqlite_master WHERE type= 'table' AND name = ?;"
            );
            assert_eq!(
                setup.create,
                "CREATE TABLE traffic_19700101 (timestamp INTEGER, from_ip TEXT, from_dns TEXT, to_ip TEXT, to_dns TEXT, packet_size INTEGER, payload_size INTEGER);"
            );
            assert_eq!(statement, "INSERT INTO traffic_19700101 VALUES (?, ?, ?, ?, ?, ?, ?);");
            assert_eq!(record.unix_seconds, 0);
            assert_eq!(record.src_dns, "client.example");
        }
        _ => panic!("a new logger knows of no table"),
    }
    assert_eq!(probe_statement(), "SELECT count(*) as total FROM sqlite_master WHERE type= 'table' AND name = ?;");
    assert_eq!(insert_statement("t"), "INSERT INTO t VALUES (?, ?, ?, ?, ?, ?, ?);");
    assert_eq!(
        create_statement("t"),
        "CREATE TABLE t (timestamp INTEGER, from_ip TEXT, from_dns TEXT, to_ip TEXT, to_dns TEXT, packet_size INTEGER, payload_size INTEGER);"
    );
}

#[test]
fn setup_table_is_needed_until_the_table_is_ready() {
    let mut logger = SQLiteLogger::new();
    let setup = logger.setup_table(1_735_689_598).unwrap();
    assert_eq!(setup.table, "traffic_20241231");
    assert!(logger.setup_table(1_735_689_598).is_some());
    logger.table_ready(setup.table);
    assert!(logger.setup_table(1_735_689_598).is_none());
    assert!(logger.setup_table(1_735_689_600).is_some());
    assert!(logger.setup_table(i64::MAX).is_none());
}

#[test]
fn table_name_is_the_utc_day() {
    assert_eq!(today_table(0).unwrap(), "traffic_19700101");
    assert_eq!(today_table(86_399).unwrap(), "traffic_19700101");
    assert_eq!(today_table(86_400).unwrap(), "traffic_19700102");
    assert_eq!(today_table(-1).unwrap(), "traffic_19691231");
    assert_eq!(today_table(951_782_400).unwrap(), "traffic_20000229");
    assert_eq!(today_table(1_735_689_598).unwrap(), "traffic_20241231");
    assert_eq!(today_table(1_735_689_602).unwrap(), "traffic_20250101");
    assert_eq!(today_table(253_402_300_799).unwrap(), "traffic_99991231");
    assert_eq!(today_table(-62_167_219_200).unwrap(), "traffic_00000101");
}

#[test]
fn table_name_is_the_day_that_chrono_formats() {
    for unix_seconds in [0i64, 1, 1_000_000_000, 1_700_000_000, 4_102_444_800, -86_401, 2_147_483_647] {
        let day = chrono::DateTime::from_timestamp(unix_seconds, 0).unwrap();
        let expected = format!("traffic_{}", day.format("%Y%m%d"));
        assert_eq!(today_table(unix_seconds).unwrap(), expected);
    }
}

#[test]
fn instants_without_a_table_are_rejected() {
    // the year 10000, the year before the year 0, and instants beyond the calendar
    for unix_seconds in [253_402_300_800i64, -62_167_219_201, i64::MAX, i64::MIN] {
        assert_eq!(today_table(unix_seconds), None);
        assert!(matches!(SQLiteLogger::new().append(record(unix_seconds)), LogPlan::Reject));
    }
}

#[test]
fn table_for_day_pads_with_zeros() {
    assert_eq!(table_for_day(2025, 1, 2).unwrap(), "traffic_20250102");
    assert_eq!(table_for_day(7, 12, 31).unwrap(), "traffic_00071231");
    assert_eq!(table_for_day(0, 1, 1).unwrap(), "traffic_00000101");
    assert_eq!(table_for_day(9999, 12, 31).unwrap(), "traffic_99991231");
    assert_eq!(table_for_day(10000, 1, 1), None);
    assert_eq!(table_for_day(-1, 1, 1), None);
    assert_eq!(table_for_day(2025, 0, 1), None);
    assert_eq!(table_for_day(2025, 13, 1), None);
    assert_eq!(table_for_day(2025, 1, 0), None);
    assert_eq!(table_for_day(2025, 1, 32), None);
}
