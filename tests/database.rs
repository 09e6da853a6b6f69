use clock_alert::scanner::{alarms_or_empty, triggered_alarm_ids};
use clock_alert::store::{is_own_store, Alarm, Database, ALARMS_TABLE_SQL};

fn setup_database_in_memory() -> Database {
    Database::open_in_memory().unwrap()
}

#[test]
fn list_alarms_when_empty() {
    let mut db = setup_database_in_memory();
    assert!(db.use_connection().is_ok());

    let alarms = db.list_alarms().unwrap();

    assert_eq!(alarms.len(), 0);
}

#[test]
fn add_and_list_alarm() {
    let mut db = setup_database_in_memory();
    assert!(db.use_connection().is_ok());

    db.add_alarm("14:34:23".to_string()).unwrap();

    let alarms = db.list_alarms().unwrap();

    assert_eq!(alarms.len(), 1);
    assert_eq!(alarms[0].time, "14:34:23");
}

#[test]
fn add_mutiple_alarms_and_check_ordering() {
    let mut db = setup_database_in_memory();
    assert!(db.use_connection().is_ok());

    db.add_alarm("14:34:23".to_string()).unwrap();
    db.add_alarm("18:37:27".to_string()).unwrap();
    db.add_alarm("18:39:27".to_string()).unwrap();

    let alarms = db.list_alarms().unwrap();

    assert_eq!(alarms.len(), 3);
    assert_eq!(alarms[0].time, "14:34:23");
    assert_eq!(alarms[1].time, "18:37:27");
    assert_eq!(alarms[2].time, "18:39:27");
}

#[test]
fn add_mutiple_same_alarms() {
    let mut db = setup_database_in_memory();
    assert!(db.use_connection().is_ok());

    db.add_alarm("14:34:23".to_string()).unwrap();

    if let Err(err) = db.add_alarm("14:34:23".to_string()) {
        assert_eq!(err.to_string(), "UNIQUE constraint failed: alarms.time");
    } else {
        panic!("Expected a UNIQUE constraint error, but the operation succeeded.");
    }

    let alarms = db.list_alarms().unwrap();

    assert_eq!(alarms.len(), 1);
    assert_eq!(alarms[0].time, "14:34:23");
}

#[test]
fn remove_alarm() {
    let mut db = setup_database_in_memory();
    assert!(db.use_connection().is_ok());

    db.add_alarm("12:00".to_string()).unwrap();

    let alarms = db.list_alarms().unwrap();
    let alarm_id = alarms[0].id;

    db.remove_alarm(alarm_id).unwrap();

    let alarms_after_removal = db.list_alarms().unwrap();
    assert_eq!(alarms_after_removal.len(), 0);
}

#[test]
fn list_is_sorted_whatever_the_insertion_order() {
    let mut db = setup_database_in_memory();
    db.use_connection().unwrap();
    db.add_alarm("18:39:27".to_string()).unwrap();
    db.add_alarm("14:34:23".to_string()).unwrap();
    db.add_alarm("18:37:27".to_string()).unwrap();
    db.add_alarm("00:00:00".to_string()).unwrap();

    let times: Vec<String> = db.list_alarms().unwrap().into_iter().map(|a| a.time).collect();
    assert_eq!(times, vec!["00:00:00", "14:34:23", "18:37:27", "18:39:27"]);
    for pair in times.windows(2) {
        assert!(pair[0] <= pair[1]);
    }
}

#[test]
fn removing_an_absent_id_is_a_no_op() {
    let mut db = setup_database_in_memory();
    db.use_connection().unwrap();
    db.add_alarm("07:30:00".to_string()).unwrap();
    let id = db.list_alarms().unwrap()[0].id;

    assert!(db.remove_alarm(id + 1000).is_ok());
    let alarms = db.list_alarms().unwrap();
    assert_eq!(alarms.len(), 1);
    assert_eq!(alarms[0].id, id);
    assert_eq!(alarms[0].time, "07:30:00");
}

#[test]
fn ids_are_distinct_and_survive_other_removals() {
    let mut db = setup_database_in_memory();
    db.use_connection().unwrap();
    db.add_alarm("08:00:00".to_string()).unwrap();
    db.add_alarm("09:00:00".to_string()).unwrap();
    let alarms = db.list_alarms().unwrap();
    assert_ne!(alarms[0].id, alarms[1].id);

    db.remove_alarm(alarms[0].id).unwrap();
    let left = db.list_alarms().unwrap();
    assert_eq!(left.len(), 1);
    assert_eq!(left[0].id, alarms[1].id);
    assert_eq!(left[0].time, "09:00:00");
}

#[test]
fn count_after_adds_and_removes_in_any_order() {
    let mut db = setup_database_in_memory();
    db.use_connection().unwrap();
    let times = ["01:00:00", "02:00:00", "03:00:00", "04:00:00"];
    for t in times {
        db.add_alarm(t.to_string()).unwrap();
    }
    let ids: Vec<i32> = db.list_alarms().unwrap().iter().map(|a| a.id).collect();
    let absent = ids.iter().max().unwrap() + 1;

    // Removes: ids[2], an absent id, ids[0], ids[2] again.
    db.remove_alarm(ids[2]).unwrap();
    db.remove_alarm(absent).unwrap();
    db.remove_alarm(ids[0]).unwrap();
    db.remove_alarm(ids[2]).unwrap();

    let left = db.list_alarms().unwrap();
    assert_eq!(left.len(), 4 - 2);
    assert_eq!(left[0].time, "02:00:00");
    assert_eq!(left[1].time, "04:00:00");
}

#[test]
fn duplicate_after_removal_can_be_added_again() {
    let mut db = setup_database_in_memory();
    db.use_connection().unwrap();
    db.add_alarm("10:10:10".to_string()).unwrap();
    let id = db.list_alarms().unwrap()[0].id;
    db.remove_alarm(id).unwrap();
    assert!(db.add_alarm("10:10:10".to_string()).is_ok());
    assert_eq!(db.list_alarms().unwrap().len(), 1);
}

#[test]
fn use_connection_is_idempotent() {
    let mut db = setup_database_in_memory();
    db.use_connection().unwrap();
    db.add_alarm("05:05:05".to_string()).unwrap();
    assert!(db.use_connection().is_ok());
    let alarms = db.list_alarms().unwrap();
    assert_eq!(alarms.len(), 1);
    assert_eq!(alarms[0].time, "05:05:05");
}

#[test]
fn operations_fail_before_the_table_exists() {
    let mut db = setup_database_in_memory();
    let listed = db.list_alarms();
    assert!(listed.is_err());
    assert_eq!(listed.err().unwrap().to_string(), "no such table: alarms");
    assert!(db.add_alarm("06:00:00".to_string()).is_err());
    assert!(db.remove_alarm(1).is_err());
}

#[test]
fn failed_listing_reads_as_empty() {
    let db = setup_database_in_memory();
    assert_eq!(alarms_or_empty(db.list_alarms()).len(), 0);
}

#[test]
fn successful_listing_is_kept() {
    let mut db = setup_database_in_memory();
    db.use_connection().unwrap();
    db.add_alarm("11:11:11".to_string()).unwrap();
    let alarms = alarms_or_empty(db.list_alarms());
    assert_eq!(alarms.len(), 1);
    assert_eq!(alarms[0].time, "11:11:11");
}

#[test]
fn triggered_ids_match_the_time_exactly() {
    let alarms = vec![
        Alarm { id: 3, time: "14:34:23".to_string() },
        Alarm { id: 5, time: "14:34:24".to_string() },
        Alarm { id: 9, time: "14:34:23".to_string() },
        Alarm { id: 1, time: "14:34:2".to_string() },
    ];
    assert_eq!(triggered_alarm_ids(&alarms, &"14:34:23".to_string()), vec![3, 9]);
    assert_eq!(triggered_alarm_ids(&alarms, &"14:34:24".to_string()), vec![5]);
    assert_eq!(triggered_alarm_ids(&alarms, &"00:00:00".to_string()), Vec::<i32>::new());
    assert_eq!(triggered_alarm_ids(&Vec::new(), &"14:34:23".to_string()), Vec::<i32>::new());
}

#[test]
fn due_alarm_fires_on_every_matching_check() {
    let mut db = setup_database_in_memory();
    db.use_connection().unwrap();
    db.add_alarm("12:30:00".to_string()).unwrap();
    db.add_alarm("12:31:00".to_string()).unwrap();
    let id = db.list_alarms().unwrap()[0].id;

    let now = "12:30:00".to_string();
    assert_eq!(db.due_alarm_ids(&now), vec![id]);
    assert_eq!(db.due_alarm_ids(&now), vec![id]);
    assert_eq!(db.due_alarm_ids(&"12:30:01".to_string()), Vec::<i32>::new());
}

#[test]
fn check_finds_nothing_when_listing_fails() {
    let db = setup_database_in_memory();
    assert_eq!(db.due_alarm_ids(&"12:30:00".to_string()), Vec::<i32>::new());
}

#[test]
fn store_on_a_temporary_file() {
    let mut db = Database::new("").unwrap();
    db.use_connection().unwrap();
    db.add_alarm("23:59:59".to_string()).unwrap();
    let alarms = db.list_alarms().unwrap();
    assert_eq!(alarms.len(), 1);
    assert_eq!(alarms[0].time, "23:59:59");
}

#[test]
fn a_foreign_alarms_table_is_refused() {
    let path = "/tmp/clock_alert_foreign_schema.sqlite";
    {
        let conn = rusqlite::Connection::open(path).unwrap();
        conn.execute("CREATE TABLE IF NOT EXISTS alarms (id INTEGER, time TEXT)", [])
            .unwrap();
    }
    let mut db = Database::new(path).unwrap();
    let used = db.use_connection();
    assert!(used.is_err());
    assert!(used.as_ref().err().unwrap().refused_store());
    assert_eq!(
        used.err().unwrap().to_string(),
        "the database does not hold this store's alarms table in UTF-8"
    );
}

#[test]
fn a_ready_file_store_keeps_its_alarms() {
    let mut db = Database::new("").unwrap();
    db.use_connection().unwrap();
    db.add_alarm("06:30:00".to_string()).unwrap();
    assert!(db.use_connection().is_ok());
    let alarms = db.list_alarms().unwrap();
    assert_eq!(alarms.len(), 1);
    assert_eq!(alarms[0].time, "06:30:00");
}

#[test]
fn a_second_store_on_the_same_file_is_locked_out() {
    let path = "/tmp/clock_alert_exclusive.sqlite";
    let mut first = Database::new(path).unwrap();
    first.use_connection().unwrap();
    // A write takes the file's exclusive lock, which the store then keeps.
    first.add_alarm("01:02:03".to_string()).unwrap();
    let alarms = first.list_alarms().unwrap();
    let added = alarms.iter().find(|a| a.time == "01:02:03").unwrap().id;
    first.remove_alarm(added).unwrap();
    let before = first.list_alarms().unwrap().len();

    let mut second = Database::new(path).unwrap();
    assert!(second.use_connection().is_err());
    assert!(second.add_alarm("01:02:03".to_string()).is_err());
    assert!(second.list_alarms().is_err());

    assert_eq!(first.list_alarms().unwrap().len(), before);
}

#[test]
fn a_utf16_database_is_refused() {
    let path = "/tmp/clock_alert_utf16.sqlite";
    {
        let conn = rusqlite::Connection::open(path).unwrap();
        conn.pragma_update(None, "encoding", "UTF-16le").unwrap();
        conn.execute(
            "CREATE TABLE IF NOT EXISTS alarms (
                      id    INTEGER PRIMARY KEY,
                      time  TEXT NOT NULL UNIQUE
                      )",
            [],
        )
        .unwrap();
    }
    let mut db = Database::new(path).unwrap();
    let used = db.use_connection();
    assert!(used.is_err());
    assert!(used.err().unwrap().refused_store());
}

#[test]
fn engine_errors_are_not_refusals() {
    let mut db = setup_database_in_memory();
    let added = db.add_alarm("06:00:00".to_string());
    assert!(!added.err().unwrap().refused_store());
    assert!(!db.list_alarms().err().unwrap().refused_store());
}

#[test]
fn own_store_check_on_given_texts() {
    let own = vec![ALARMS_TABLE_SQL.to_string()];
    let utf8 = "UTF-8".to_string();
    assert!(is_own_store(&own, &utf8));
    assert!(!is_own_store(&own, &"UTF-16le".to_string()));
    assert!(!is_own_store(&Vec::new(), &utf8));
    assert!(!is_own_store(
        &vec!["CREATE TABLE alarms (id INTEGER, time TEXT)".to_string()],
        &utf8
    ));
    let with_trigger = vec![
        ALARMS_TABLE_SQL.to_string(),
        "CREATE TRIGGER t AFTER INSERT ON alarms BEGIN SELECT 1; END".to_string(),
    ];
    assert!(!is_own_store(&with_trigger, &utf8));
}
