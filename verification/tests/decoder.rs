use telemetry_ingest::codec::{
    CodecConfigDataType, CodecConfigDataTypeRust, CodecConfigDataTypeSpec,
    CodecConfigDataTypeSqlite3, CodecConfigMetadata,
};
use telemetry_ingest::datetime::Timestamp;
use telemetry_ingest::decoder::{
    classify, datetime_cell, decode_token, encode_fields, parse_rawdata, quote, FieldKind,
};

fn field(
    name: &str,
    dtype: &str,
    unit: Option<&str>,
    layout: Option<&str>,
    primary: bool,
) -> CodecConfigDataType {
    CodecConfigDataType {
        spec: CodecConfigDataTypeSpec {
            name: name.to_string(),
            description: String::new(),
            dtype: dtype.to_string(),
            unit: None,
            float_number: None,
        },
        rust: CodecConfigDataTypeRust {
            name: name.to_string(),
            dtype: dtype.to_string(),
            unit: layout.map(|s| s.to_string()),
            major_datetime: if primary { Some(true) } else { None },
        },
        sqlite3: CodecConfigDataTypeSqlite3 {
            name: name.to_string(),
            dtype: dtype.to_string(),
            unit: unit.map(|s| s.to_string()),
        },
    }
}

fn minute(framed: bool) -> CodecConfigMetadata {
    CodecConfigMetadata {
        name: "minute".to_string(),
        dkind: vec!["MN".to_string()],
        raw_save: None,
        stx_etx: Some(framed),
        formation: vec![
            field("dtime", "TEXT", Some("YYYY-mm-dd HH:MM:SS"), Some("%Y%m%d%H%M"), true),
            field("t", "REAL", None, None, false),
            field("rh", "REAL", None, None, false),
        ],
    }
}

fn mixed() -> CodecConfigMetadata {
    CodecConfigMetadata {
        name: "mixed".to_string(),
        dkind: vec!["MX".to_string()],
        raw_save: None,
        stx_etx: None,
        formation: vec![
            field("dtime", "TEXT", Some("YYYY-mm-dd HH:MM:SS"), Some("%Y-%m-%d %H:%M:%S"), true),
            field("station", "TEXT", None, None, false),
            field("value", "REAL", None, None, false),
        ],
    }
}

fn chars(s: &str) -> Vec<char> {
    s.chars().collect()
}

#[test]
fn decodes_framed_minute_record() {
    let rec = parse_rawdata("\u{2},202401020005,12.3,45.6,\u{3}", &minute(true)).unwrap();
    assert_eq!(rec.columns, vec!["'2024-01-02 00:05:00'", "12.3", "45.6"]);
    assert_eq!(
        rec.timestamp,
        Some(Timestamp {
            year: 2024,
            month: 1,
            day: 2,
            hour: 0,
            minute: 5,
            second: 0,
            nanosecond: 0
        })
    );
}

#[test]
fn framed_record_ignores_what_follows_the_end() {
    let rec = parse_rawdata("\u{2},202401020005,1,2,\u{3},9F", &minute(true)).unwrap();
    assert_eq!(rec.columns.len(), 3);
}

#[test]
fn rejects_line_without_end_of_text() {
    assert!(parse_rawdata("\u{2},202401020005,12.3,45.6", &minute(true)).is_none());
    assert!(parse_rawdata("\u{2},202401020005,12.3,45.6,x", &minute(true)).is_none());
    assert!(parse_rawdata("\u{2},202401020005,12.3,45.6,\u{3}\u{3}", &minute(true)).is_none());
}

#[test]
fn rejects_line_without_start_of_text() {
    assert!(parse_rawdata("202401020005,12.3,45.6,\u{3}", &minute(true)).is_none());
    assert!(parse_rawdata("x,202401020005,12.3,45.6,\u{3}", &minute(true)).is_none());
}

#[test]
fn control_bytes_glued_to_fields_are_no_framing() {
    assert!(parse_rawdata("\u{2}202401020005,12.3,45.6\u{3}", &minute(true)).is_none());
    assert!(parse_rawdata("\u{2}202401020005,12.3,45.6\u{3}", &minute(false)).is_none());
}

#[test]
fn rejects_line_with_too_few_tokens() {
    assert!(parse_rawdata("202401020005,12.3", &minute(false)).is_none());
    assert!(parse_rawdata("", &minute(false)).is_none());
    assert!(parse_rawdata("\u{2},202401020005,12.3,\u{3}", &minute(true)).is_none());
}

#[test]
fn rejects_field_that_does_not_parse() {
    assert!(parse_rawdata("2024-01-02,12.3,45.6", &minute(false)).is_none());
    assert!(parse_rawdata("202413020005,12.3,45.6", &minute(false)).is_none());
}

#[test]
fn unframed_record_takes_extra_tokens() {
    let rec = parse_rawdata("202401020005,12.3,45.6,extra", &minute(false)).unwrap();
    assert_eq!(rec.columns, vec!["'2024-01-02 00:05:00'", "12.3", "45.6"]);
}

#[test]
fn round_trip_of_datetime_text_and_number() {
    let tokens = ["2024-01-02 03:04:05", "station 7", "-1.50"];
    let line = tokens.join(",");
    let rec = parse_rawdata(&line, &mixed()).unwrap();
    assert_eq!(rec.columns, vec!["'2024-01-02 03:04:05'", "'station 7'", "-1.50"]);
    assert_eq!(
        rec.timestamp,
        Some(Timestamp {
            year: 2024,
            month: 1,
            day: 2,
            hour: 3,
            minute: 4,
            second: 5,
            nanosecond: 0
        })
    );
}

#[test]
fn numbers_pass_unchecked() {
    let rec = parse_rawdata("202401020005,abc,", &minute(false)).unwrap();
    assert_eq!(rec.columns, vec!["'2024-01-02 00:05:00'", "abc", ""]);
}

#[test]
fn time_of_day_is_canonical_and_quoted() {
    let f = field("tmax", "TEXT", Some("HH:MM:SS"), Some("%H%M"), false);
    let (lit, stamp) = decode_token(&f, &chars("0715")).unwrap();
    assert_eq!(lit, "'07:15:00'");
    assert_eq!(stamp, None);
    assert!(decode_token(&f, &chars("2515")).is_none());
}

#[test]
fn datetime_without_layout_is_rejected() {
    let f = field("dtime", "TEXT", Some("YYYY-mm-dd HH:MM:SS"), None, true);
    assert!(decode_token(&f, &chars("202401020005")).is_none());
}

#[test]
fn only_the_primary_field_gives_the_partition_time() {
    let f = field("other", "TEXT", Some("YYYY-mm-dd HH:MM:SS"), Some("%Y%m%d%H%M"), false);
    let (lit, stamp) = decode_token(&f, &chars("202401020005")).unwrap();
    assert_eq!(lit, "'2024-01-02 00:05:00'");
    assert_eq!(stamp, None);
}

#[test]
fn classify_goes_by_storage_type_and_unit() {
    assert!(matches!(
        classify(&field("a", "TEXT", Some("YYYY-mm-dd HH:MM:SS"), None, false)),
        FieldKind::DateTime
    ));
    assert!(matches!(classify(&field("a", "TEXT", Some("HH:MM:SS"), None, false)), FieldKind::TimeOfDay));
    assert!(matches!(classify(&field("a", "TEXT", Some("degC"), None, false)), FieldKind::Text));
    assert!(matches!(classify(&field("a", "TEXT", None, None, false)), FieldKind::Text));
    assert!(matches!(classify(&field("a", "REAL", Some("HH:MM:SS"), None, false)), FieldKind::Plain));
    assert!(matches!(classify(&field("a", "text", None, None, false)), FieldKind::Plain));
}

#[test]
fn quote_wraps_in_single_quotes() {
    assert_eq!(quote(&chars("ab c")), "'ab c'");
    assert_eq!(quote(&chars("")), "''");
}

#[test]
fn parser_cwb_case1() {
    let timestr = "2024-01-02 00:01:02";
    let f = field("dtime", "TEXT", Some("YYYY-mm-dd HH:MM:SS"), Some("%Y-%m-%d %H:%M:%S"), true);
    let (lit, stamp) = decode_token(&f, &chars(timestr)).expect("System error");
    assert_eq!(lit, "'2024-01-02 00:01:02'");
    assert_eq!(
        stamp,
        Some(Timestamp {
            year: 2024,
            month: 1,
            day: 2,
            hour: 0,
            minute: 1,
            second: 2,
            nanosecond: 0
        })
    );
    println!("{:?}", stamp);
}

#[test]
fn encoded_fields_decode_again() {
    let tokens: Vec<String> =
        ["202401020005", "12.3", "45.6"].iter().map(|s| s.to_string()).collect();
    let framed = encode_fields(&minute(true), &tokens);
    assert_eq!(framed, "\u{2},202401020005,12.3,45.6,\u{3}");
    let plain = encode_fields(&minute(false), &tokens);
    assert_eq!(plain, "202401020005,12.3,45.6");
    for (line, rec) in [(framed, minute(true)), (plain, minute(false))] {
        let got = parse_rawdata(&line, &rec).unwrap();
        assert_eq!(got.columns, vec!["'2024-01-02 00:05:00'", "12.3", "45.6"]);
    }
    assert_eq!(encode_fields(&minute(true), &vec![]), "\u{2},\u{3}");
    assert_eq!(encode_fields(&minute(false), &vec![]), "");
}

#[test]
fn datetime_field_is_finished_from_what_was_read_and_written() {
    let t = Timestamp { year: 2024, month: 1, day: 2, hour: 0, minute: 5, second: 0, nanosecond: 0 };
    let primary = field("dtime", "TEXT", Some("YYYY-mm-dd HH:MM:SS"), Some("%Y%m%d%H%M"), true);
    let other = field("dtime", "TEXT", Some("YYYY-mm-dd HH:MM:SS"), Some("%Y%m%d%H%M"), false);
    let lit = || Some("'2024-01-02 00:05:00'".to_string());
    assert_eq!(datetime_cell(&primary, Some(t), lit()), Some((lit().unwrap(), Some(t))));
    assert_eq!(datetime_cell(&other, Some(t), lit()), Some((lit().unwrap(), None)));
    assert_eq!(datetime_cell(&primary, None, lit()), None);
    assert_eq!(datetime_cell(&primary, Some(t), None), None);
    assert_eq!(datetime_cell(&primary, None, None), None);
}
