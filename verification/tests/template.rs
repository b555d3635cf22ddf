use regex::Regex;
use telemetry_ingest::codec::{CodecConfigDB, CodecConfigMetadata};
use telemetry_ingest::datetime::Timestamp;
use telemetry_ingest::template::{
    expand_placeholders, fill_slot, generate_db_filepath, join_path, parse_slot,
    placeholder_get_tag, plain_file_name, value_of, PathOptions, Slot, TemplateError,
};

fn record(name: &str) -> CodecConfigMetadata {
    CodecConfigMetadata {
        name: name.to_string(),
        dkind: vec![],
        raw_save: None,
        stx_etx: None,
        formation: vec![],
    }
}

fn sink(dir: &str, by: Option<&str>, pattern: Option<&str>, suffix: Option<&str>) -> CodecConfigDB {
    CodecConfigDB {
        directory: dir.to_string(),
        regex: None,
        seperate_by: by.map(|s| s.to_string()),
        pattern: pattern.map(|s| s.to_string()),
        suffix: suffix.map(|s| s.to_string()),
    }
}

fn at() -> PathOptions {
    PathOptions {
        datetime: Some(Timestamp {
            year: 2024,
            month: 1,
            day: 2,
            hour: 0,
            minute: 5,
            second: 7,
            nanosecond: 0,
        }),
    }
}

fn never() -> PathOptions {
    PathOptions { datetime: None }
}

#[test]
fn tag_is_what_stands_between_the_braces() {
    assert_eq!(placeholder_get_tag("{{DATE}}"), Some("DATE"));
    assert_eq!(placeholder_get_tag("{{}}"), Some(""));
    assert_eq!(placeholder_get_tag("{{a}}}}"), Some("a}}"));
    assert_eq!(placeholder_get_tag("{{é}}"), Some("é"));
}

#[test]
fn tag_needs_both_pairs_of_braces() {
    assert_eq!(placeholder_get_tag("{{}"), None);
    assert_eq!(placeholder_get_tag("{DATE}}"), None);
    assert_eq!(placeholder_get_tag("{{DATE}"), None);
    assert_eq!(placeholder_get_tag(" {{DATE}}"), None);
    assert_eq!(placeholder_get_tag("{{DATE}} "), None);
    assert_eq!(placeholder_get_tag(""), None);
    assert_eq!(placeholder_get_tag("{{"), None);
}

#[test]
fn re_placeholder() {
    let re = Regex::new(r"\{\{.*?\}\}").unwrap();
    let raw = "{{datetime}}_{{metadatas.name}}.dat";
    let mut pattern = raw.to_string();
    let mut seen = Vec::new();

    let tmp = re.find_iter(raw);
    for placeholder in tmp {
        let val = placeholder_get_tag(placeholder.as_str()).unwrap();
        println!("{}", val);
        seen.push(val.to_string());

        match val {
            "datetime" => {
                pattern = pattern.replace(placeholder.as_str(), "1970-01-01");
            }
            _ => {}
        }
    }
    println!("{:?}", pattern);
    assert_eq!(seen, vec!["datetime", "metadatas.name"]);
    assert_eq!(pattern, "1970-01-01_{{metadatas.name}}.dat");
}

#[test]
fn placeholders_are_found_in_the_pattern() {
    let rec = record("minute");
    let raw = "{{datetime}}_{{metadatas.name}}.dat";
    assert_eq!(rec.replace_placeholder(raw, &at()), Err(TemplateError::Unsupported));
    assert_eq!(
        rec.replace_placeholder("a{{DATE}}b{{TIME}}c{{metadatas.name}}{{DATE}}", &at()),
        Ok("a20240102b000507cminute20240102".to_string())
    );
    assert_eq!(rec.replace_placeholder("{DATE}_{{DATE}", &at()), Ok("{DATE}_{{DATE}".to_string()));
    assert_eq!(rec.replace_placeholder("{{DA\nTE}}", &at()), Ok("{{DA\nTE}}".to_string()));
}

#[test]
fn slots_are_named_by_their_tags() {
    assert_eq!(parse_slot("metadatas.name"), Some(Slot::Name));
    assert_eq!(parse_slot("metadatas.name.more"), None);
    assert_eq!(parse_slot("metadatas.name."), None);
    assert_eq!(parse_slot("metadatas.names"), None);
    assert_eq!(parse_slot("metadatas."), None);
    assert_eq!(parse_slot("metadatas"), None);
    assert_eq!(parse_slot("DATETIME"), Some(Slot::DateTime));
    assert_eq!(parse_slot("DATE"), Some(Slot::Date));
    assert_eq!(parse_slot("TIME"), Some(Slot::Time));
    assert_eq!(parse_slot("date"), None);
    assert_eq!(parse_slot(""), None);
}

#[test]
fn slots_are_filled_from_name_and_partition_time() {
    assert_eq!(fill_slot(Slot::Name, "minute", &never()), Some("minute".to_string()));
    assert_eq!(fill_slot(Slot::DateTime, "minute", &at()), Some("20240102000507".to_string()));
    assert_eq!(fill_slot(Slot::Date, "minute", &at()), Some("20240102".to_string()));
    assert_eq!(fill_slot(Slot::Time, "minute", &at()), Some("000507".to_string()));
    assert_eq!(fill_slot(Slot::Date, "minute", &never()), None);
    assert_eq!(value_of("{{TIME}}", "m", &at()), Some("000507".to_string()));
    assert_eq!(value_of("{{OTHER}}", "m", &at()), None);
    assert_eq!(value_of("TIME", "m", &at()), None);
}

#[test]
fn a_time_that_is_no_calendar_value_fills_nothing() {
    let opts = PathOptions {
        datetime: Some(Timestamp {
            year: 2024,
            month: 13,
            day: 2,
            hour: 0,
            minute: 0,
            second: 0,
            nanosecond: 0,
        }),
    };
    assert_eq!(fill_slot(Slot::Date, "minute", &opts), None);
    assert_eq!(plain_file_name("TAG", "dat", &opts), "TAG.dat");
}

#[test]
fn pattern_expands_every_placeholder() {
    let rec = record("minute");
    assert_eq!(
        rec.replace_placeholder("{{metadatas.name}}_{{DATETIME}}.dat", &at()),
        Ok("minute_20240102000507.dat".to_string())
    );
    assert_eq!(
        rec.replace_placeholder("{{DATE}}/{{TIME}}-{{DATE}}", &at()),
        Ok("20240102/000507-20240102".to_string())
    );
    assert_eq!(rec.replace_placeholder("plain.dat", &at()), Ok("plain.dat".to_string()));
    assert_eq!(rec.replace_placeholder("", &never()), Ok(String::new()));
}

#[test]
fn unknown_placeholder_gives_up_the_expansion() {
    let rec = record("minute");
    assert_eq!(rec.replace_placeholder("{{YEAR}}.dat", &at()), Err(TemplateError::Unsupported));
    assert_eq!(rec.replace_placeholder("{{DATE}}.dat", &never()), Err(TemplateError::Unsupported));
    assert_eq!(
        rec.replace_placeholder("{{metadatas.dkind}}.dat", &at()),
        Err(TemplateError::Unsupported)
    );
}

#[test]
fn expansion_works_through_the_finds_in_order() {
    let finds = vec!["{{DATE}}".to_string(), "{{metadatas.name}}".to_string()];
    assert_eq!(
        expand_placeholders("{{metadatas.name}}-{{DATE}}-{{DATE}}", &finds, "{{DATE}}", &at()),
        Ok("{{DATE}}-20240102-20240102".to_string())
    );
    assert_eq!(
        expand_placeholders("x", &vec!["nothing".to_string()], "n", &at()),
        Err(TemplateError::Unsupported)
    );
    assert_eq!(expand_placeholders("x{{DATE}}", &vec![], "n", &at()), Ok("x{{DATE}}".to_string()));
}

#[test]
fn join_puts_one_separator_between() {
    assert_eq!(join_path("data", "a.dat"), "data/a.dat");
    assert_eq!(join_path("data/", "a.dat"), "data/a.dat");
    assert_eq!(join_path("", "a.dat"), "a.dat");
    assert_eq!(join_path("/", "a.dat"), "/a.dat");
    assert_eq!(join_path("data", ""), "data/");
}

#[test]
fn plain_name_has_the_day_when_there_is_a_time() {
    assert_eq!(plain_file_name("TAG", "sql", &at()), "TAG_20240102.sql");
    assert_eq!(plain_file_name("TAG", "sql", &never()), "TAG.sql");
    assert_eq!(plain_file_name("", "", &never()), ".");
}

#[test]
fn path_without_pattern_is_tag_day_and_suffix() {
    let rec = record("minute");
    assert_eq!(
        generate_db_filepath("TAG", &sink("data/sqlite3", None, None, None), &rec, &at(), "sql"),
        "data/sqlite3/TAG_20240102.sql"
    );
    assert_eq!(
        generate_db_filepath("TAG", &sink("data", None, None, Some("txt")), &rec, &at(), "dat"),
        "data/TAG_20240102.txt"
    );
    assert_eq!(
        generate_db_filepath("TAG", &sink("data", None, None, None), &rec, &never(), "dat"),
        "data/TAG.dat"
    );
}

#[test]
fn path_partitions_by_record_kind() {
    let rec = record("minute");
    assert_eq!(
        generate_db_filepath(
            "TAG",
            &sink("data", Some("metadatas.name"), None, None),
            &rec,
            &at(),
            "dat"
        ),
        "data/minute/TAG_20240102.dat"
    );
    assert_eq!(
        generate_db_filepath("TAG", &sink("data", Some("name"), None, None), &rec, &at(), "dat"),
        "data/TAG_20240102.dat"
    );
}

#[test]
fn path_uses_the_pattern_and_falls_back() {
    let rec = record("minute");
    assert_eq!(
        generate_db_filepath(
            "TAG",
            &sink("data", None, Some("{{metadatas.name}}_{{DATE}}.csv"), Some("x")),
            &rec,
            &at(),
            "dat"
        ),
        "data/minute_20240102.csv"
    );
    assert_eq!(
        generate_db_filepath(
            "TAG",
            &sink("data", None, Some("{{WHAT}}_{{DATE}}.csv"), Some("x")),
            &rec,
            &at(),
            "dat"
        ),
        "data/TAG_20240102.x"
    );
    assert_eq!(
        generate_db_filepath(
            "TAG",
            &sink("data", None, Some("{{DATE}}.csv"), None),
            &rec,
            &never(),
            "dat"
        ),
        "data/TAG.dat"
    );
}
