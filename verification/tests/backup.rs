use telemetry_ingest::backup::{backup_candidate, choose_backup_name, BackupError};
use telemetry_ingest::text::{contains_text, is_single, push_decimal};

fn names(v: &[&str]) -> Vec<String> {
    v.iter().map(|s| s.to_string()).collect()
}

#[test]
fn candidate_keeps_stem_and_extension() {
    assert_eq!(backup_candidate("data.dat", 1), "data_1.dat");
    assert_eq!(backup_candidate("dir/data.dat", 12), "dir/data_12.dat");
    assert_eq!(backup_candidate("a.b/data", 3), "a.b/data_3");
    assert_eq!(backup_candidate("a/b.tar.gz", 7), "a/b.tar_7.gz");
    assert_eq!(backup_candidate("data", 99), "data_99");
    assert_eq!(backup_candidate(".hidden", 1), ".hidden_1");
    assert_eq!(backup_candidate("dir/.hidden", 1), "dir/.hidden_1");
    assert_eq!(backup_candidate("data.", 2), "data_2.");
    assert_eq!(backup_candidate("", 1), "_1");
    assert_eq!(backup_candidate("dir/", 1), "dir/_1");
}

#[test]
fn second_backup_takes_the_second_name() {
    let existing = names(&["data.dat", "data_1.dat"]);
    assert_eq!(choose_backup_name("data.dat", &existing), Ok("data_2.dat".to_string()));
}

#[test]
fn first_backup_takes_the_first_name() {
    assert_eq!(choose_backup_name("data.dat", &names(&["data.dat"])), Ok("data_1.dat".to_string()));
    assert_eq!(choose_backup_name("data.dat", &vec![]), Ok("data_1.dat".to_string()));
}

#[test]
fn the_smallest_free_number_is_taken() {
    let existing = names(&["d/x_1.sql", "d/x_2.sql", "d/x_4.sql"]);
    assert_eq!(choose_backup_name("d/x.sql", &existing), Ok("d/x_3.sql".to_string()));
}

#[test]
fn names_run_out_below_one_hundred() {
    let mut existing: Vec<String> = Vec::new();
    for n in 1..99 {
        existing.push(format!("data_{}.dat", n));
    }
    assert_eq!(choose_backup_name("data.dat", &existing), Ok("data_99.dat".to_string()));
    existing.push("data_99.dat".to_string());
    assert_eq!(choose_backup_name("data.dat", &existing), Err(BackupError::Exhausted));
    existing.push("data_100.dat".to_string());
    assert_eq!(choose_backup_name("data.dat", &existing), Err(BackupError::Exhausted));
}

#[test]
fn decimal_digits() {
    let mut out: Vec<char> = vec!['n'];
    push_decimal(&mut out, 0);
    push_decimal(&mut out, 7);
    push_decimal(&mut out, 10);
    push_decimal(&mut out, 18446744073709551615);
    let s: String = out.iter().collect();
    assert_eq!(s, "n071018446744073709551615");
}

#[test]
fn contains_is_exact() {
    let v = names(&["a", "bc"]);
    assert!(contains_text(&v, "bc"));
    assert!(!contains_text(&v, "b"));
    assert!(!contains_text(&vec![], ""));
}

#[test]
fn single_character_tokens() {
    assert!(is_single(&vec!['\u{2}'], '\u{2}'));
    assert!(!is_single(&vec!['\u{2}', 'x'], '\u{2}'));
    assert!(!is_single(&vec![], '\u{2}'));
    assert!(!is_single(&vec!['x'], '\u{2}'));
}
