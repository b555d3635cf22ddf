use telemetry_ingest::codec::{
    parse_face, CodecConfig, CodecConfigBase, CodecConfigDB, CodecConfigDataType,
    CodecConfigDataTypeRust, CodecConfigDataTypeSpec, CodecConfigDataTypeSqlite3,
    CodecConfigMetadata, Face, NameError,
};

fn field(spec: &str, rust: &str, sql: &str, primary: Option<bool>) -> CodecConfigDataType {
    CodecConfigDataType {
        spec: CodecConfigDataTypeSpec {
            name: spec.to_string(),
            description: "d".to_string(),
            dtype: "float".to_string(),
            unit: Some("hPa".to_string()),
            float_number: Some(1),
        },
        rust: CodecConfigDataTypeRust {
            name: rust.to_string(),
            dtype: "f64".to_string(),
            unit: None,
            major_datetime: primary,
        },
        sqlite3: CodecConfigDataTypeSqlite3 {
            name: sql.to_string(),
            dtype: "REAL".to_string(),
            unit: None,
        },
    }
}

fn record(name: &str, dkind: &[&str], fields: Vec<CodecConfigDataType>) -> CodecConfigMetadata {
    CodecConfigMetadata {
        name: name.to_string(),
        dkind: dkind.iter().map(|s| s.to_string()).collect(),
        raw_save: None,
        stx_etx: None,
        formation: fields,
    }
}

fn sample() -> CodecConfigMetadata {
    record(
        "minute",
        &["MN"],
        vec![
            field("Pressure", "dd_p1", "p1", None),
            field("Time", "dtime", "dtime", Some(true)),
            field("Pressure", "dd_p2", "p2", Some(true)),
        ],
    )
}

#[test]
fn datetime_info_is_the_first_marked_field() {
    let (idx, f) = sample().get_datetime_info().unwrap();
    assert_eq!(idx, 1);
    assert_eq!(f.rust.name, "dtime");
    assert_eq!(f.spec.description, "d");
    assert_eq!(f.spec.float_number, Some(1));
}

#[test]
fn datetime_info_needs_a_marked_field() {
    let rec = record("x", &[], vec![field("a", "b", "c", None), field("a", "b", "c", Some(false))]);
    assert!(rec.get_datetime_info().is_none());
    assert!(record("x", &[], vec![]).get_datetime_info().is_none());
}

#[test]
fn names_translate_between_all_pairs() {
    let rec = sample();
    assert_eq!(rec.convert_data_name("rust", "dd_p1", "spec"), Ok("Pressure"));
    assert_eq!(rec.convert_data_name("sqlite", "p1", "spec"), Ok("Pressure"));
    assert_eq!(rec.convert_data_name("sqlite3", "p2", "spec"), Ok("Pressure"));
    assert_eq!(rec.convert_data_name("spec", "Time", "rust"), Ok("dtime"));
    assert_eq!(rec.convert_data_name("sqlite", "p2", "rust"), Ok("dd_p2"));
    assert_eq!(rec.convert_data_name("sqlite3", "p2", "rust"), Ok("dd_p2"));
    assert_eq!(rec.convert_data_name("spec", "Time", "sqlite"), Ok("dtime"));
    assert_eq!(rec.convert_data_name("spec", "Time", "sqlite3"), Ok("dtime"));
    assert_eq!(rec.convert_data_name("rust", "dd_p2", "sqlite"), Ok("p2"));
    assert_eq!(rec.convert_data_name("rust", "dd_p2", "sqlite3"), Ok("p2"));
}

#[test]
fn translation_takes_the_first_field_of_that_name() {
    assert_eq!(sample().convert_data_name("spec", "Pressure", "rust"), Ok("dd_p1"));
}

#[test]
fn unknown_name_and_unsupported_pair_are_told_apart() {
    let rec = sample();
    assert_eq!(rec.convert_data_name("spec", "Nothing", "rust"), Err(NameError::UnknownName));
    assert_eq!(rec.convert_data_name("rust", "dd_p1", "rust"), Err(NameError::UnsupportedPair));
    assert_eq!(rec.convert_data_name("sqlite", "p1", "sqlite3"), Err(NameError::UnsupportedPair));
    assert_eq!(rec.convert_data_name("json", "dd_p1", "spec"), Err(NameError::UnsupportedPair));
    assert_eq!(rec.convert_data_name("rust", "dd_p1", "Spec"), Err(NameError::UnsupportedPair));
    assert_eq!(rec.convert_data_name("json", "Nothing", "spec"), Err(NameError::UnsupportedPair));
    assert_eq!(rec.convert_data_name("spec", "Nothing", "yaml"), Err(NameError::UnsupportedPair));
}

#[test]
fn labels_name_the_three_descriptions() {
    assert_eq!(parse_face("spec"), Some(Face::Spec));
    assert_eq!(parse_face("rust"), Some(Face::Rust));
    assert_eq!(parse_face("sqlite"), Some(Face::Sqlite));
    assert_eq!(parse_face("sqlite3"), Some(Face::Sqlite));
    assert_eq!(parse_face(""), None);
    assert_eq!(parse_face("sqlite4"), None);
}

#[test]
fn record_kind_is_found_by_marker() {
    let base = CodecConfigBase {
        tag: "CWB".to_string(),
        rawdata: Some(CodecConfigDB {
            directory: "data".to_string(),
            regex: None,
            seperate_by: None,
            pattern: None,
            suffix: None,
        }),
        l1_data: None,
        sqlite3: None,
        metadatas: vec![
            record("minute", &["MN", "M2"], vec![]),
            record("hour", &["HR"], vec![]),
            record("again", &["HR"], vec![]),
        ],
    };
    assert_eq!(base.get_data_config("M2").unwrap().name, "minute");
    assert_eq!(base.get_data_config("HR").unwrap().name, "hour");
    assert!(base.get_data_config("DY").is_none());
    assert!(base.get_data_config("mn").is_none());
    let wrapped = CodecConfig { inner: base };
    assert_eq!(wrapped.inner.tag, "CWB");
}

#[test]
fn selects_matches_markers_exactly() {
    let rec = record("minute", &["MN"], vec![]);
    assert!(rec.selects("MN"));
    assert!(!rec.selects("M"));
    assert!(!rec.selects(""));
}

#[test]
fn at_most_one_primary_timestamp() {
    assert!(!sample().has_single_primary());
    assert!(record("x", &[], vec![]).has_single_primary());
    assert!(record("x", &[], vec![field("a", "b", "c", Some(true))]).has_single_primary());
    assert!(record(
        "x",
        &[],
        vec![field("a", "b", "c", Some(false)), field("a", "b", "c", Some(true)), field("a", "b", "c", None)]
    )
    .has_single_primary());
}
