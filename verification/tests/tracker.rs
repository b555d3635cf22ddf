use telemetry_ingest::tracker::{
    cal_hash, is_update_header, plan_header_file, HeaderAction, HeaderTable,
};

fn lines(v: &[&str]) -> Vec<String> {
    v.iter().map(|s| s.to_string()).collect()
}

#[test]
fn hash_of_nothing_is_the_basis() {
    assert_eq!(cal_hash(&vec![]), 0xcbf29ce484222325);
}

#[test]
fn hash_follows_the_formula() {
    let prime: u64 = 0x100000001b3;
    let mut h: u64 = 0xcbf29ce484222325;
    h = (h ^ 0x61).wrapping_mul(prime);
    h = (h ^ 0x110000).wrapping_mul(prime);
    assert_eq!(cal_hash(&lines(&["a"])), h);
    assert_eq!(h, 0x179be207cec1f1e4);
}

#[test]
fn hash_tells_line_breaks_apart() {
    assert_ne!(cal_hash(&lines(&["ab", "c"])), cal_hash(&lines(&["a", "bc"])));
    assert_ne!(cal_hash(&lines(&["abc"])), cal_hash(&lines(&["abc", ""])));
    assert_ne!(cal_hash(&lines(&[""])), cal_hash(&lines(&[])));
    assert_eq!(cal_hash(&lines(&["x", "y"])), cal_hash(&lines(&["x", "y"])));
}

#[test]
fn same_header_twice_is_unchanged() {
    let mut table = HeaderTable::new();
    let h = lines(&["TOA5,station\n", "TIMESTAMP,RECORD\n"]);
    assert!(is_update_header(&mut table, "NAHO_Sec", &h));
    assert!(!is_update_header(&mut table, "NAHO_Sec", &h));
    let v = table.get("NAHO_Sec").unwrap();
    assert_eq!(v.header, h);
    assert_eq!(v.hash, cal_hash(&h));
    assert!(v.is_update);
}

#[test]
fn keys_are_tracked_apart() {
    let mut table = HeaderTable::new();
    let h = lines(&["a"]);
    assert!(is_update_header(&mut table, "k1", &h));
    assert!(is_update_header(&mut table, "k2", &h));
    assert!(!is_update_header(&mut table, "k1", &h));
    assert!(table.get("k3").is_none());
    table.settle("k1");
    assert!(!table.get("k1").unwrap().is_update);
    assert!(table.get("k2").unwrap().is_update);
    table.settle("k3");
    assert!(table.get("k3").is_none());
}

#[test]
fn changed_header_rotates_exactly_once() {
    let mut table = HeaderTable::new();
    let first = lines(&["h1"]);
    let second = lines(&["h2"]);
    assert!(is_update_header(&mut table, "k", &first));
    match plan_header_file(&table, "k", false) {
        HeaderAction::Create(h) => assert_eq!(h, first),
        _ => panic!("the missing file is created"),
    }
    table.settle("k");
    assert!(matches!(plan_header_file(&table, "k", true), HeaderAction::Keep));

    assert!(is_update_header(&mut table, "k", &second));
    match plan_header_file(&table, "k", true) {
        HeaderAction::RotateThenCreate(h) => assert_eq!(h, second),
        _ => panic!("the file is rotated"),
    }
    table.settle("k");
    assert!(matches!(plan_header_file(&table, "k", true), HeaderAction::Keep));

    assert!(!is_update_header(&mut table, "k", &second));
    assert!(matches!(plan_header_file(&table, "k", true), HeaderAction::Keep));
    assert!(!table.get("k").unwrap().is_update);
}

#[test]
fn a_key_without_header_gets_a_bare_file() {
    let table = HeaderTable::new();
    match plan_header_file(&table, "k", false) {
        HeaderAction::Create(h) => assert!(h.is_empty()),
        _ => panic!("the missing file is created"),
    }
    assert!(matches!(plan_header_file(&table, "k", true), HeaderAction::Keep));
}

#[test]
fn a_missing_file_is_created_even_when_the_header_was_written() {
    let mut table = HeaderTable::new();
    let h = lines(&["h"]);
    is_update_header(&mut table, "k", &h);
    table.settle("k");
    match plan_header_file(&table, "k", false) {
        HeaderAction::Create(got) => assert_eq!(got, h),
        _ => panic!("the missing file is created"),
    }
}
