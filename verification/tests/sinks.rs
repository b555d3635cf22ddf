use std::sync::Arc;
use telemetry_ingest::codec::{
    CodecConfigBase, CodecConfigDB, CodecConfigDataType, CodecConfigDataTypeRust,
    CodecConfigDataTypeSpec, CodecConfigDataTypeSqlite3, CodecConfigMetadata,
};
use telemetry_ingest::config::{ConfigError, GlobalConfig, SerialPortConfig, SystemConfig};
use telemetry_ingest::datetime::Timestamp;
use telemetry_ingest::message::{fan_out, gen_headertable_key, MsgPayload};
use telemetry_ingest::receiver_raw::{
    note_header, plan_raw_message, plan_raw_write, raw_line_time, raw_sink_step, stamp_from,
    timestamp_token, RawError, RawStep,
};
use telemetry_ingest::receiver_sqlite::{
    check_column, create_db_statements, create_table_statement, get_last_modified_file, latest_of,
    insert_statement, judge_schema, plan_insert, schema_check_target, storage_columns,
    table_info_query, table_sink_step, FileEntry, SQLiteErrorType, SchemaVerdict, TableStep,
};
use telemetry_ingest::sink::{route, RouteError, SinkKind};
use telemetry_ingest::tracker::HeaderTable;

fn field(
    name: &str,
    dtype: &str,
    unit: Option<&str>,
    layout: Option<&str>,
    primary: bool,
) -> CodecConfigDataType {
    CodecConfigDataType {
        spec: CodecConfigDataTypeSpec {
            name: name.to_string(),
            description: String::new(),
            dtype: dtype.to_string(),
            unit: None,
            float_number: None,
        },
        rust: CodecConfigDataTypeRust {
            name: name.to_string(),
            dtype: dtype.to_string(),
            unit: layout.map(|s| s.to_string()),
            major_datetime: if primary { Some(true) } else { None },
        },
        sqlite3: CodecConfigDataTypeSqlite3 {
            name: name.to_string(),
            dtype: dtype.to_string(),
            unit: unit.map(|s| s.to_string()),
        },
    }
}

fn minute(framed: bool, raw_save: bool) -> CodecConfigMetadata {
    CodecConfigMetadata {
        name: "minute".to_string(),
        dkind: vec!["MN".to_string()],
        raw_save: Some(raw_save),
        stx_etx: Some(framed),
        formation: vec![
            field("dtime", "TEXT", Some("YYYY-mm-dd HH:MM:SS"), Some("%Y%m%d%H%M"), true),
            field("t", "REAL", None, None, false),
            field("rh", "REAL", None, None, false),
        ],
    }
}

fn hour() -> CodecConfigMetadata {
    CodecConfigMetadata {
        name: "hour".to_string(),
        dkind: vec!["HR".to_string(), "H2".to_string()],
        raw_save: None,
        stx_etx: None,
        formation: vec![field("station", "TEXT", None, None, false)],
    }
}

fn sink(dir: &str, regex: Option<&str>) -> CodecConfigDB {
    CodecConfigDB {
        directory: dir.to_string(),
        regex: regex.map(|s| s.to_string()),
        seperate_by: None,
        pattern: None,
        suffix: None,
    }
}

fn source() -> CodecConfigBase {
    CodecConfigBase {
        tag: "TAG".to_string(),
        rawdata: Some(sink("data/raw", None)),
        l1_data: None,
        sqlite3: Some(sink("data/sqlite3", Some(r"^TAG_\d+\.sql$"))),
        metadatas: vec![minute(true, false), hour()],
    }
}

fn system(codec: Vec<CodecConfigBase>) -> SystemConfig {
    SystemConfig {
        global: GlobalConfig {
            log4rs_cfg: "log.yaml".to_string(),
            serial_port: SerialPortConfig { path: "/dev/ttyS0".to_string(), baudrate: 9600 },
            listen_move_suffix: None,
            listen_list: None,
        },
        codec,
    }
}

fn entry(name: &str, is_file: bool, modified: u128) -> FileEntry {
    FileEntry { name: name.to_string(), is_file, modified }
}

fn lines(v: &[&str]) -> Vec<String> {
    v.iter().map(|s| s.to_string()).collect()
}

#[test]
fn end_to_end_relational_plan() {
    let src = source();
    let plan = plan_insert(
        "TAG",
        src.sqlite3.as_ref().unwrap(),
        &src.metadatas[0],
        "\u{2},202401020005,12.3,45.6,\u{3}",
    )
    .unwrap();
    assert_eq!(plan.path, "data/sqlite3/TAG_20240102.sql");
    assert_eq!(
        plan.statement,
        "INSERT into minute (dtime,t,rh) values ('2024-01-02 00:05:00',12.3,45.6);"
    );
}

#[test]
fn insert_keeps_the_raw_line_when_asked() {
    let rec = minute(false, true);
    assert_eq!(
        insert_statement(&rec, &lines(&["'a'", "1"]), "raw,line\n"),
        "INSERT into minute (dtime,t,rh,rawdata) values ('a',1,'raw,line\n');"
    );
    assert_eq!(
        insert_statement(&minute(false, false), &lines(&[]), "x"),
        "INSERT into minute (dtime,t,rh) values ();"
    );
    assert_eq!(storage_columns(&rec), lines(&["dtime", "t", "rh"]));
}

#[test]
fn no_plan_without_decoding_or_partition_time() {
    let src = source();
    let s = src.sqlite3.as_ref().unwrap();
    assert!(plan_insert("TAG", s, &src.metadatas[0], "202401020005,12.3,45.6").is_none());
    assert!(plan_insert("TAG", s, &src.metadatas[1], "station").is_none());
}

#[test]
fn tables_have_a_column_per_field() {
    assert_eq!(
        create_table_statement(&minute(true, false), "minute"),
        "CREATE TABLE IF NOT EXISTS minute (id INTEGER PRIMARY KEY AUTOINCREMENT, dtime TEXT, t REAL, rh REAL);"
    );
    assert_eq!(
        create_table_statement(&minute(true, true), "m2"),
        "CREATE TABLE IF NOT EXISTS m2 (id INTEGER PRIMARY KEY AUTOINCREMENT, dtime TEXT, t REAL, rh REAL, rawdata TEXT);"
    );
}

#[test]
fn fresh_file_gets_a_table_per_record_kind_and_the_header_archive() {
    let got = create_db_statements(&source());
    assert_eq!(
        got,
        lines(&[
            "CREATE TABLE IF NOT EXISTS minute (id INTEGER PRIMARY KEY AUTOINCREMENT, dtime TEXT, t REAL, rh REAL);",
            "CREATE TABLE IF NOT EXISTS hour (id INTEGER PRIMARY KEY AUTOINCREMENT, station TEXT);",
            "CREATE TABLE IF NOT EXISTS headers (id INTEGER PRIMARY KEY AUTOINCREMENT, tablename TEXT, header TEXT);",
        ])
    );
    let mut shared = source();
    shared.metadatas[1].dkind = vec!["MN".to_string()];
    shared.metadatas.push(CodecConfigMetadata {
        name: "bare".to_string(),
        dkind: vec![],
        raw_save: Some(true),
        stx_etx: None,
        formation: vec![],
    });
    assert_eq!(
        create_db_statements(&shared),
        lines(&[
            "CREATE TABLE IF NOT EXISTS minute (id INTEGER PRIMARY KEY AUTOINCREMENT, dtime TEXT, t REAL, rh REAL);",
            "CREATE TABLE IF NOT EXISTS hour (id INTEGER PRIMARY KEY AUTOINCREMENT, station TEXT);",
            "CREATE TABLE IF NOT EXISTS bare (id INTEGER PRIMARY KEY AUTOINCREMENT, rawdata TEXT);",
            "CREATE TABLE IF NOT EXISTS headers (id INTEGER PRIMARY KEY AUTOINCREMENT, tablename TEXT, header TEXT);",
        ])
    );
    assert_eq!(source().gen_sqlite3_create_table_cmd("XX", "t"), None);
    assert_eq!(
        source().gen_sqlite3_create_table_cmd("H2", "t"),
        Some("CREATE TABLE IF NOT EXISTS t (id INTEGER PRIMARY KEY AUTOINCREMENT, station TEXT);".to_string())
    );
}

#[test]
fn column_check_finds_missing_columns() {
    let src = source();
    let full = vec![lines(&["id", "dtime", "t", "rh"]), lines(&["station", "id"])];
    assert_eq!(check_column(&src, &full), Ok(()));
    let missing = vec![lines(&["id", "dtime", "t"]), lines(&["station", "id"])];
    assert_eq!(check_column(&src, &missing), Err(SQLiteErrorType::NotMatch));
    let empty_table = vec![lines(&["id", "dtime", "t", "rh"]), lines(&[])];
    assert_eq!(check_column(&src, &empty_table), Err(SQLiteErrorType::NotMatch));
    let short = vec![lines(&["id", "dtime", "t", "rh"])];
    assert_eq!(check_column(&src, &short), Err(SQLiteErrorType::Invalid));
}

#[test]
fn verdict_on_a_file() {
    let src = source();
    let full = vec![lines(&["id", "dtime", "t", "rh"]), lines(&["station", "id"])];
    assert_eq!(judge_schema(&src, &Some(full)), SchemaVerdict::Current);
    let missing = vec![lines(&["dtime"]), lines(&["station"])];
    assert_eq!(judge_schema(&src, &Some(missing)), SchemaVerdict::Stale);
    assert_eq!(judge_schema(&src, &Some(vec![])), SchemaVerdict::Skipped);
    assert_eq!(judge_schema(&src, &None), SchemaVerdict::Skipped);
}

#[test]
fn error_names() {
    assert_eq!(SQLiteErrorType::Unknown.describe(), "SQLiteErrorType::Unknown");
    assert_eq!(SQLiteErrorType::Invalid.describe(), "SQLiteErrorType::Invalid");
    assert_eq!(SQLiteErrorType::NotExist.describe(), "SQLiteErrorType::NotExist");
    assert_eq!(SQLiteErrorType::NotMatch.describe(), "SQLiteErrorType::NotMatch");
    assert_eq!(table_info_query("minute"), "PRAGMA table_info(minute);");
}

#[test]
fn last_modified_matching_file_is_picked() {
    let entries = vec![
        entry("TAG_20240101.sql", true, 10),
        entry("TAG_20240102.sql", true, 30),
        entry("TAG_20240103.sql", true, 20),
        entry("OTHER_20240104.sql", true, 99),
        entry("TAG_20240105.sql", false, 98),
    ];
    assert_eq!(
        get_last_modified_file(&entries, r"^TAG_\d+\.sql$"),
        Some("TAG_20240102.sql".to_string())
    );
    assert_eq!(get_last_modified_file(&entries, r"^NONE"), None);
    assert_eq!(get_last_modified_file(&entries, r"("), None);
    assert_eq!(get_last_modified_file(&vec![], r".*"), None);
}

#[test]
fn of_files_modified_together_the_last_one_is_picked() {
    let entries = vec![entry("a", true, 5), entry("b", true, 5), entry("c", true, 4)];
    assert_eq!(get_last_modified_file(&entries, r"."), Some("b".to_string()));
}

#[test]
fn schema_check_looks_at_the_newest_table_file() {
    let entries = vec![entry("TAG_1.sql", true, 1), entry("TAG_2.sql", true, 2), entry("x", true, 3)];
    assert_eq!(schema_check_target(&source(), &entries), Some("data/sqlite3/TAG_2.sql".to_string()));
    let mut no_pattern = source();
    no_pattern.sqlite3 = Some(sink("data/sqlite3", None));
    assert_eq!(schema_check_target(&no_pattern, &entries), None);
    let mut no_sink = source();
    no_sink.sqlite3 = None;
    assert_eq!(schema_check_target(&no_sink, &entries), None);
    assert_eq!(schema_check_target(&source(), &vec![entry("x", true, 3)]), None);
}

#[test]
fn raw_line_is_written_as_it_stands_under_its_day() {
    let src = source();
    let write = |line: &str| {
        plan_raw_write("TAG", src.rawdata.as_ref().unwrap(), &src.metadatas[0], line).unwrap()
    };
    let w = write(" \u{2},202401020005,12.3,45.6,\u{3} ");
    assert_eq!(w.path, "data/raw/TAG_20240102.dat");
    assert_eq!(w.text, " \u{2},202401020005,12.3,45.6,\u{3} \n");
    let w = write("\u{2},202401020005,12.3,45.6,\u{3}");
    assert_eq!(w.text, "\u{2},202401020005,12.3,45.6,\u{3}\n");
    let w = write("\u{2},202401020005,12.3,45.6,\u{3}\n");
    assert_eq!(w.text, "\u{2},202401020005,12.3,45.6,\u{3}\n");
    let w = write("\u{2},202401020005,12.3,45.6,\u{3}\r\n");
    assert_eq!(w.text, "\u{2},202401020005,12.3,45.6,\u{3}\r\n");
    let w = write("\u{2},202401020005,12.3,45.6,\u{3}\n\n");
    assert_eq!(w.text, "\u{2},202401020005,12.3,45.6,\u{3}\n\n");
    let w = write("\u{2},202401020005,12.3,45.6,\u{3}\r");
    assert_eq!(w.text, "\u{2},202401020005,12.3,45.6,\u{3}\r\n");
}

#[test]
fn timestamp_token_is_picked_by_the_schema() {
    let pick = |rec: &CodecConfigMetadata, line: &str| timestamp_token(rec, line);
    assert_eq!(
        pick(&minute(false, false), "202401020005,1,2"),
        Ok(("202401020005".to_string(), "%Y%m%d%H%M".to_string()))
    );
    assert_eq!(
        pick(&minute(true, false), "\u{2},not a time,1"),
        Ok(("not a time".to_string(), "%Y%m%d%H%M".to_string()))
    );
    assert_eq!(pick(&minute(true, false), "202401020005"), Err(RawError::MissingToken));
    assert_eq!(pick(&hour(), "station"), Err(RawError::NoTimestampField));
    let t = Timestamp { year: 2024, month: 1, day: 2, hour: 0, minute: 5, second: 0, nanosecond: 0 };
    assert_eq!(stamp_from(Some(t)), Ok(t));
    assert_eq!(stamp_from(None), Err(RawError::BadTime));
}

#[test]
fn raw_line_time_reads_the_primary_field() {
    let t = Timestamp { year: 2024, month: 1, day: 2, hour: 0, minute: 5, second: 0, nanosecond: 0 };
    assert_eq!(raw_line_time(&minute(false, false), "202401020005,1,2"), Ok(t));
    assert_eq!(raw_line_time(&minute(true, false), "\u{2},202401020005"), Ok(t));
    assert_eq!(raw_line_time(&minute(true, false), "202401020005"), Err(RawError::MissingToken));
    assert_eq!(raw_line_time(&minute(true, false), "202401020005,x"), Err(RawError::BadTime));
    assert_eq!(raw_line_time(&minute(false, false), "yesterday"), Err(RawError::BadTime));
    assert_eq!(raw_line_time(&hour(), "station"), Err(RawError::NoTimestampField));
    let mut no_layout = minute(false, false);
    no_layout.formation[0].rust.unit = None;
    assert_eq!(raw_line_time(&no_layout, "202401020005"), Err(RawError::NoLayout));
    let mut later = minute(false, false);
    later.formation.swap(0, 2);
    assert_eq!(raw_line_time(&later, "1,2"), Err(RawError::MissingToken));
    assert_eq!(raw_line_time(&later, "1,2,202401020005"), Ok(t));
}

#[test]
fn raw_message_is_planned_line_by_line() {
    let src = source();
    let msg = MsgPayload::new(
        "TAG",
        "MN",
        lines(&["\u{2},202401020005,1,2,\u{3}", "broken", "\u{2},202401030000,1,2,\u{3}\n"]),
    );
    let plans = plan_raw_message("TAG", src.rawdata.as_ref().unwrap(), &src.metadatas[0], &msg);
    assert_eq!(plans.len(), 3);
    assert_eq!(plans[0].as_ref().unwrap().path, "data/raw/TAG_20240102.dat");
    assert_eq!(plans[1].as_ref().err(), Some(&RawError::MissingToken));
    assert_eq!(plans[2].as_ref().unwrap().path, "data/raw/TAG_20240103.dat");
    assert_eq!(plans[2].as_ref().unwrap().text, "\u{2},202401030000,1,2,\u{3}\n");
}

#[test]
fn header_message_is_tracked_under_tag_and_kind() {
    let mut table = HeaderTable::new();
    let mut msg = MsgPayload::new("NAHO", "Sec", lines(&["h1\n", "h2\n"]));
    assert!(msg.set_update_header().is_ok());
    assert!(msg.update_header);
    assert_eq!(gen_headertable_key(&msg), "4_NAHO_Sec");
    assert!(note_header(&mut table, &msg));
    assert!(!note_header(&mut table, &msg));
    assert_eq!(table.get("4_NAHO_Sec").unwrap().header, lines(&["h1\n", "h2\n"]));
}

#[test]
fn different_pairs_have_different_keys() {
    let key = |tag: &str, dkind: &str| gen_headertable_key(&MsgPayload::new(tag, dkind, vec![]));
    assert_eq!(key("A_B", "C"), "3_A_B_C");
    assert_eq!(key("A", "B_C"), "1_A_B_C");
    assert_ne!(key("A_B", "C"), key("A", "B_C"));
    assert_ne!(key("", "_"), key("_", ""));
    assert_ne!(key("1_", ""), key("", "1_"));
    assert_eq!(key("", ""), "0__");
    assert_eq!(key("0123456789", "x"), "10_0123456789_x");
    assert_eq!(key("é", "ü"), "1_é_ü");

    let mut header = MsgPayload::new("A", "B", lines(&["h"]));
    let plain = gen_headertable_key(&header);
    header.set_update_header().unwrap();
    header.value.push("more".to_string());
    assert_eq!(gen_headertable_key(&header), plain);

    let mut table = HeaderTable::new();
    let mut first = MsgPayload::new("A_B", "C", lines(&["h"]));
    first.set_update_header().unwrap();
    let mut second = MsgPayload::new("A", "B_C", lines(&["h"]));
    second.set_update_header().unwrap();
    assert!(note_header(&mut table, &first));
    assert!(note_header(&mut table, &second));
    assert!(!note_header(&mut table, &first));
}

#[test]
fn latest_file_is_chosen_among_those_that_fit() {
    let entries = vec![
        entry("a", true, 10),
        entry("b", true, 30),
        entry("c", false, 40),
        entry("d", true, 30),
        entry("e", true, 50),
    ];
    assert_eq!(latest_of(&entries, &vec![true, true, true, true, false]), Some(3));
    assert_eq!(latest_of(&entries, &vec![true, true, true, false, false]), Some(1));
    assert_eq!(latest_of(&entries, &vec![true; 5]), Some(4));
    assert_eq!(latest_of(&entries, &vec![false, false, true, false, false]), None);
    assert_eq!(latest_of(&entries, &vec![true]), Some(0));
    assert_eq!(latest_of(&entries, &vec![]), None);
    assert_eq!(latest_of(&vec![], &vec![true]), None);
}

#[test]
fn new_message_is_data() {
    let msg = MsgPayload::new("T", "K", lines(&["a"]));
    assert_eq!(msg.tag, "T");
    assert_eq!(msg.dkind, "K");
    assert!(!msg.update_header);
    assert_eq!(msg.value, lines(&["a"]));
    let copy = msg.clone();
    assert_eq!(copy.value, msg.value);
    assert_eq!(copy.tag, "T");
}

#[test]
fn every_sink_gets_the_message_once() {
    let msg = Arc::new(MsgPayload::new("T", "K", lines(&["a", "b"])));
    let out = fan_out(&msg, 3);
    assert_eq!(out.len(), 3);
    for m in out.iter() {
        assert!(Arc::ptr_eq(m, &msg));
        assert_eq!(m.value, lines(&["a", "b"]));
    }
    assert_eq!(Arc::strong_count(&msg), 4);
    assert!(fan_out(&msg, 0).is_empty());
}

#[test]
fn messages_are_routed_by_exact_tag_and_kind() {
    let cfg = system(vec![source()]);
    let msg = MsgPayload::new("TAG", "H2", vec![]);
    let r = route(&cfg, &msg, SinkKind::Relational).ok().unwrap();
    assert_eq!(r.source.tag, "TAG");
    assert_eq!(r.sink.directory, "data/sqlite3");
    assert_eq!(r.record.name, "hour");
    let r = route(&cfg, &msg, SinkKind::Raw).ok().unwrap();
    assert_eq!(r.sink.directory, "data/raw");
    assert_eq!(
        route(&cfg, &MsgPayload::new("tag", "H2", vec![]), SinkKind::Raw).err(),
        Some(RouteError::UnsupportedTag)
    );
    assert_eq!(
        route(&cfg, &MsgPayload::new("TAG", "DY", vec![]), SinkKind::Raw).err(),
        Some(RouteError::UnknownRecordKind)
    );
    let mut no_raw = source();
    no_raw.rawdata = None;
    let cfg = system(vec![no_raw]);
    assert_eq!(route(&cfg, &msg, SinkKind::Raw).err(), Some(RouteError::SinkDisabled));
    assert!(route(&cfg, &msg, SinkKind::Relational).is_ok());
}

#[test]
fn tags_are_checked_for_uniqueness() {
    assert!(system(vec![source()]).has_unique_tags());
    assert!(system(vec![]).has_unique_tags());
    assert!(!system(vec![source(), source()]).has_unique_tags());
    let mut other = source();
    other.tag = "OTHER".to_string();
    let cfg = system(vec![source(), other]);
    assert!(cfg.has_unique_tags());
    assert_eq!(cfg.find_codec("OTHER").unwrap().tag, "OTHER");
    assert!(cfg.find_codec("other").is_none());
}

#[test]
fn configuration_is_checked_as_a_whole() {
    assert_eq!(system(vec![source()]).validate(), Ok(()));
    assert_eq!(system(vec![]).validate(), Ok(()));
    assert_eq!(system(vec![source(), source()]).validate(), Err(ConfigError::DuplicateTag));
    let mut twice = source();
    twice.metadatas[0].formation[1].rust.major_datetime = Some(true);
    assert_eq!(system(vec![twice]).validate(), Err(ConfigError::ManyTimestamps));
}

#[test]
fn raw_sink_takes_headers_and_data_in_turn() {
    let cfg = system(vec![source()]);
    let mut table = HeaderTable::new();
    let mut header = MsgPayload::new("TAG", "MN", lines(&["h\n"]));
    header.set_update_header().unwrap();
    assert!(matches!(raw_sink_step(&cfg, &mut table, &header), RawStep::Header { changed: true }));
    assert!(matches!(raw_sink_step(&cfg, &mut table, &header), RawStep::Header { changed: false }));

    let data = MsgPayload::new("TAG", "MN", lines(&["\u{2},202401020005,1,2,\u{3}", "x"]));
    match raw_sink_step(&cfg, &mut table, &data) {
        RawStep::Data { key, writes } => {
            assert_eq!(key, "3_TAG_MN");
            assert_eq!(writes.len(), 2);
            assert_eq!(writes[0].as_ref().unwrap().path, "data/raw/TAG_20240102.dat");
            assert!(writes[1].is_err());
        }
        other => panic!("{:?}", other),
    }
    assert!(table.get("3_TAG_MN").unwrap().is_update);

    let stray = MsgPayload::new("NONE", "MN", lines(&["x"]));
    assert!(matches!(
        raw_sink_step(&cfg, &mut table, &stray),
        RawStep::Unrouted(RouteError::UnsupportedTag)
    ));
    let mut stray_header = MsgPayload::new("NONE", "MN", lines(&["x"]));
    stray_header.set_update_header().unwrap();
    assert!(matches!(
        raw_sink_step(&cfg, &mut table, &stray_header),
        RawStep::Header { changed: true }
    ));
}

#[test]
fn table_sink_takes_headers_and_data_in_turn() {
    let cfg = system(vec![source()]);
    let mut table = HeaderTable::new();
    let mut header = MsgPayload::new("TAG", "MN", lines(&["h\n"]));
    header.set_update_header().unwrap();
    assert!(matches!(
        table_sink_step(&cfg, &mut table, &header),
        TableStep::Header { recheck: true }
    ));
    assert!(matches!(
        table_sink_step(&cfg, &mut table, &header),
        TableStep::Header { recheck: false }
    ));

    let data = MsgPayload::new("TAG", "MN", lines(&["\u{2},202401020005,1,2,\u{3}", "x"]));
    match table_sink_step(&cfg, &mut table, &data) {
        TableStep::Data { setup, inserts } => {
            assert_eq!(setup, create_db_statements(&source()));
            assert_eq!(inserts.len(), 2);
            let plan = inserts[0].as_ref().unwrap();
            assert_eq!(plan.path, "data/sqlite3/TAG_20240102.sql");
            assert_eq!(
                plan.statement,
                "INSERT into minute (dtime,t,rh) values ('2024-01-02 00:05:00',1,2);"
            );
            assert!(inserts[1].is_none());
        }
        other => panic!("{:?}", other),
    }

    let stray = MsgPayload::new("TAG", "XX", lines(&["x"]));
    assert!(matches!(
        table_sink_step(&cfg, &mut table, &stray),
        TableStep::Unrouted(RouteError::UnknownRecordKind)
    ));
}
