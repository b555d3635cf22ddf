//! The decisions of the sink that keeps decoded records in tables.

use vstd::prelude::*;
use crate::codec::{
    first_selected, is_marked, none_selected, CodecConfigBase, CodecConfigDB, CodecConfigMetadata,
    FieldModel, RecordModel, SinkModel, SourceModel,
};
use crate::config::SystemConfig;
use crate::decoder::{decode_line, parse_rawdata};
use crate::message::{gen_headertable_key, header_key, MessageModel, MsgPayload};
use crate::sink::{route, routed_to, sink_of, unrouted, RouteError, SinkKind};
use crate::tracker::{is_update_header, track, HeaderModel, HeaderTable};
use crate::pattern::{is_match, pattern_matches};
use crate::template::{db_path, generate_db_filepath, join_path, under, PathOptions};
use crate::text::{contains_text, from_chars, join_strings, join_with, push_str, texts};

verus! {

/// Why the tables of a file do not serve.
#[derive(Clone, Copy, Debug, PartialEq, Eq, Structural)]
pub enum SQLiteErrorType {
    Unknown,
    /// The file could not be looked into.
    Invalid,
    NotExist,
    /// A column of the schema is missing.
    NotMatch,
}

impl SQLiteErrorType {
    /// The name of the error, as it is logged.
    pub fn describe(&self) -> (r: String)
        ensures
            r@ == match *self {
                SQLiteErrorType::Unknown => "SQLiteErrorType::Unknown"@,
                SQLiteErrorType::Invalid => "SQLiteErrorType::Invalid"@,
                SQLiteErrorType::NotExist => "SQLiteErrorType::NotExist"@,
                SQLiteErrorType::NotMatch => "SQLiteErrorType::NotMatch"@,
            },
    {
        match self {
            SQLiteErrorType::Unknown => "SQLiteErrorType::Unknown".to_owned(),
            SQLiteErrorType::Invalid => "SQLiteErrorType::Invalid".to_owned(),
            SQLiteErrorType::NotExist => "SQLiteErrorType::NotExist".to_owned(),
            SQLiteErrorType::NotMatch => "SQLiteErrorType::NotMatch".to_owned(),
        }
    }
}

/// The storage column names of the first `n` fields.
pub open spec fn column_names(fields: Seq<FieldModel>, n: int) -> Seq<Seq<char>> {
    Seq::new(n as nat, |i: int| fields[i].sqlite3.name)
}

/// The statement that stores one decoded record: the literals under the
/// storage column names, and the raw line under `rawdata` when the record
/// kind keeps it.
pub open spec fn insert_text(rec: RecordModel, columns: Seq<Seq<char>>, line: Seq<char>) -> Seq<char> {
    let names = join_with(column_names(rec.formation, rec.formation.len() as int), ',');
    let data = join_with(columns, ',');
    if rec.raw_save == Some(true) {
        "INSERT into "@ + rec.name + " ("@ + names + ",rawdata) values ("@ + data + ",'"@ + line
            + "');"@
    } else {
        "INSERT into "@ + rec.name + " ("@ + names + ") values ("@ + data + ");"@
    }
}

/// The storage column names of a record kind, in the order of the schema.
pub fn storage_columns(dconfig: &CodecConfigMetadata) -> (r: Vec<String>)
    ensures
        texts(r@) == column_names(dconfig@.formation, dconfig@.formation.len() as int),
{
    let mut out: Vec<String> = Vec::new();
    let mut i: usize = 0;
    while i < dconfig.formation.len()
        invariant
            i <= dconfig.formation.len(),
            out@.len() == i,
            forall|j: int| 0 <= j < i ==> out@[j]@ == dconfig@.formation[j].sqlite3.name,
        decreases dconfig.formation.len() - i,
    {
        out.push(dconfig.formation[i].sqlite3.name.clone());
        i += 1;
    }
    assert(texts(out@) =~= column_names(dconfig@.formation, dconfig@.formation.len() as int));
    out
}

/// The statement that stores the literals `columns` of one record of the
/// kind `dconfig`, decoded from the raw line `line`.
pub fn insert_statement(dconfig: &CodecConfigMetadata, columns: &Vec<String>, line: &str) -> (r:
    String)
    ensures
        r@ == insert_text(dconfig@, texts(columns@), line@),
{
    let names = join_strings(&storage_columns(dconfig), ',');
    let data = join_strings(columns, ',');
    let mut out: Vec<char> = Vec::new();
    assert(out@ + "INSERT into "@ == "INSERT into "@);
    push_str(&mut out, "INSERT into ");
    push_str(&mut out, dconfig.name.as_str());
    push_str(&mut out, " (");
    push_str(&mut out, names.as_str());
    if is_marked(&dconfig.raw_save) {
        push_str(&mut out, ",rawdata) values (");
        push_str(&mut out, data.as_str());
        push_str(&mut out, ",'");
        push_str(&mut out, line);
        push_str(&mut out, "');");
    } else {
        push_str(&mut out, ") values (");
        push_str(&mut out, data.as_str());
        push_str(&mut out, ");");
    }
    from_chars(&out)
}

/// One record to store: the file that takes it and the statement that stores
/// it.
#[derive(Debug)]
pub struct InsertPlan {
    pub path: String,
    pub statement: String,
}

/// The suffix of table files when the sink names none.
pub open spec fn table_suffix() -> Seq<char> {
    "sql"@
}

/// What storing a raw line comes to: nothing unless the line decodes and
/// carries a partition time; else the file that the partition time selects
/// and the statement that stores the decoded record.
pub open spec fn insert_plan(tag: Seq<char>, sink: SinkModel, rec: RecordModel, line: Seq<char>) -> Option<
    (Seq<char>, Seq<char>),
> {
    match decode_line(rec, line) {
        Some(d) => match d.timestamp {
            Some(t) => Some(
                (
                    db_path(tag, sink, rec, Some(t), table_suffix()),
                    insert_text(rec, d.columns, line),
                ),
            ),
            None => None,
        },
        None => None,
    }
}

/// The model of the plan for one line.
pub open spec fn plan_model(r: Option<InsertPlan>) -> Option<(Seq<char>, Seq<char>)> {
    match r {
        Some(p) => Some((p.path@, p.statement@)),
        None => None,
    }
}

/// Plans the storing of one raw line of the kind `dconfig` of the source
/// `tag` into the sink `sink`.
pub fn plan_insert(tag: &str, sink: &CodecConfigDB, dconfig: &CodecConfigMetadata, line: &str) -> (r:
    Option<InsertPlan>)
    ensures
        plan_model(r) == insert_plan(tag@, sink@, dconfig@, line@),
{
    let rec = match parse_rawdata(line, dconfig) {
        Some(rec) => rec,
        None => {
            return None;
        },
    };
    let t = match rec.timestamp {
        Some(t) => t,
        None => {
            return None;
        },
    };
    let opts = PathOptions { datetime: Some(t) };
    let path = generate_db_filepath(tag, sink, dconfig, &opts, "sql");
    let statement = insert_statement(dconfig, &rec.columns, line);
    Some(InsertPlan { path, statement })
}

/// The column definitions of a table for the first `n` fields: the row
/// number, then each field with its storage name and storage type.
pub open spec fn column_defs(fields: Seq<FieldModel>, n: int) -> Seq<char>
    decreases n,
{
    if n <= 0 {
        "id INTEGER PRIMARY KEY AUTOINCREMENT"@
    } else {
        column_defs(fields, n - 1) + ", "@ + fields[n - 1].sqlite3.name + " "@ + fields[n
            - 1].sqlite3.dtype
    }
}

/// The statement that creates the table `name` for records of the kind `rec`:
/// a column per field, and a column for the raw line when the record kind
/// keeps it.
pub open spec fn create_table_text(rec: RecordModel, name: Seq<char>) -> Seq<char> {
    let defs = column_defs(rec.formation, rec.formation.len() as int);
    if rec.raw_save == Some(true) {
        "CREATE TABLE IF NOT EXISTS "@ + name + " ("@ + defs + ", rawdata TEXT);"@
    } else {
        "CREATE TABLE IF NOT EXISTS "@ + name + " ("@ + defs + ");"@
    }
}

/// The statement that creates the table in which header blocks are archived.
pub open spec fn header_archive_text() -> Seq<char> {
    "CREATE TABLE IF NOT EXISTS headers (id INTEGER PRIMARY KEY AUTOINCREMENT, tablename TEXT, header TEXT);"@
}

/// The statement that creates the table `name` for records of the kind
/// `dconfig`.
pub fn create_table_statement(dconfig: &CodecConfigMetadata, name: &str) -> (r: String)
    ensures
        r@ == create_table_text(dconfig@, name@),
{
    let mut defs: Vec<char> = Vec::new();
    assert(defs@ + "id INTEGER PRIMARY KEY AUTOINCREMENT"@
        == "id INTEGER PRIMARY KEY AUTOINCREMENT"@);
    push_str(&mut defs, "id INTEGER PRIMARY KEY AUTOINCREMENT");
    let mut i: usize = 0;
    while i < dconfig.formation.len()
        invariant
            i <= dconfig.formation.len(),
            defs@ == column_defs(dconfig@.formation, i as int),
        decreases dconfig.formation.len() - i,
    {
        let f = &dconfig.formation[i];
        assert(f@ == dconfig@.formation[i as int]);
        push_str(&mut defs, ", ");
        push_str(&mut defs, f.sqlite3.name.as_str());
        push_str(&mut defs, " ");
        push_str(&mut defs, f.sqlite3.dtype.as_str());
        i += 1;
    }
    let mut out: Vec<char> = Vec::new();
    assert(out@ + "CREATE TABLE IF NOT EXISTS "@ == "CREATE TABLE IF NOT EXISTS "@);
    push_str(&mut out, "CREATE TABLE IF NOT EXISTS ");
    push_str(&mut out, name);
    push_str(&mut out, " (");
    crate::text::push_all(&mut out, &defs, 0, defs.len());
    assert(defs@.subrange(0, defs.len() as int) == defs@);
    if is_marked(&dconfig.raw_save) {
        push_str(&mut out, ", rawdata TEXT);");
    } else {
        push_str(&mut out, ");");
    }
    from_chars(&out)
}

/// The position of the first record kind at or after `i` that `marker`
/// selects.
pub open spec fn selected_from(records: Seq<RecordModel>, marker: Seq<char>, i: int) -> Option<int>
    decreases records.len() - i,
{
    if i < 0 || i >= records.len() {
        None
    } else if records[i].dkind.contains(marker) {
        Some(i)
    } else {
        selected_from(records, marker, i + 1)
    }
}

proof fn lemma_selected_from(records: Seq<RecordModel>, marker: Seq<char>, i: int, k: int)
    requires
        0 <= i <= k < records.len(),
        records[k].dkind.contains(marker),
        forall|j: int| i <= j < k ==> !(#[trigger] records[j]).dkind.contains(marker),
    ensures
        selected_from(records, marker, i) == Some(k),
    decreases k - i,
{
    if i < k {
        lemma_selected_from(records, marker, i + 1, k);
    }
}

proof fn lemma_none_selected_from(records: Seq<RecordModel>, marker: Seq<char>, i: int)
    requires
        0 <= i,
        none_selected(records, marker),
    ensures
        selected_from(records, marker, i) is None,
    decreases records.len() - i,
{
    if i < records.len() {
        lemma_none_selected_from(records, marker, i + 1);
    }
}

/// The statement that creates the table `name` with the columns of the first
/// record kind that the marker `dkind` selects, if there is one.
pub open spec fn table_for_marker(src: SourceModel, dkind: Seq<char>, name: Seq<char>) -> Option<
    Seq<char>,
> {
    match selected_from(src.metadatas, dkind, 0) {
        Some(k) => Some(create_table_text(src.metadatas[k], name)),
        None => None,
    }
}

/// The statements that create the tables of the first `m` record kinds:
/// one table per record kind, under its name and with its own columns.
pub open spec fn record_tables(src: SourceModel, m: int) -> Seq<Seq<char>>
    decreases m,
{
    if m <= 0 {
        Seq::empty()
    } else {
        record_tables(src, m - 1).push(
            create_table_text(src.metadatas[m - 1], src.metadatas[m - 1].name),
        )
    }
}

/// The statements that set up a fresh file for a source: one table for every
/// record kind, in the order of the schema, and the table of archived header
/// blocks last.
pub open spec fn setup_texts(src: SourceModel) -> Seq<Seq<char>> {
    record_tables(src, src.metadatas.len() as int).push(header_archive_text())
}

impl CodecConfigBase {
    /// The statement that creates the table `name` with the columns of the
    /// first record kind that the marker `dkind` selects.
    pub fn gen_sqlite3_create_table_cmd(&self, dkind: &str, name: &str) -> (r: Option<String>)
        ensures
            crate::text::opt_text(r) == table_for_marker(self@, dkind@, name@),
    {
        match self.get_data_config(dkind) {
            Some(m) => {
                let text = create_table_statement(m, name);
                proof {
                    let k = choose|k: int|
                        first_selected(self@.metadatas, dkind@, k) && *m
                            == #[trigger] self.metadatas@[k];
                    assert(self@.metadatas[k] == m@);
                    lemma_selected_from(self@.metadatas, dkind@, 0, k);
                }
                Some(text)
            },
            None => {
                proof {
                    lemma_none_selected_from(self@.metadatas, dkind@, 0);
                }
                None
            },
        }
    }
}

/// The statements that set up a fresh file for a source.
pub fn create_db_statements(config: &CodecConfigBase) -> (r: Vec<String>)
    ensures
        texts(r@) == setup_texts(config@),
{
    let mut out: Vec<String> = Vec::new();
    let mut m: usize = 0;
    assert(texts(out@) == record_tables(config@, 0));
    while m < config.metadatas.len()
        invariant
            m <= config.metadatas.len(),
            texts(out@) == record_tables(config@, m as int),
        decreases config.metadatas.len() - m,
    {
        let mem = &config.metadatas[m];
        assert(mem@ == config@.metadatas[m as int]);
        let ghost before = texts(out@);
        let text = create_table_statement(mem, mem.name.as_str());
        out.push(text);
        assert(texts(out@) == before.push(text@));
        m += 1;
    }
    let ghost before = texts(out@);
    let last =
        "CREATE TABLE IF NOT EXISTS headers (id INTEGER PRIMARY KEY AUTOINCREMENT, tablename TEXT, header TEXT);".to_owned();
    out.push(last);
    assert(texts(out@) == before.push(last@));
    out
}

/// The query that lists the columns of the table `name`.
pub fn table_info_query(name: &str) -> (r: String)
    ensures
        r@ == "PRAGMA table_info("@ + name@ + ");"@,
{
    let mut out: Vec<char> = Vec::new();
    assert(out@ + "PRAGMA table_info("@ == "PRAGMA table_info("@);
    push_str(&mut out, "PRAGMA table_info(");
    push_str(&mut out, name);
    push_str(&mut out, ");");
    from_chars(&out)
}

/// Every storage column of the first `n` fields is among `found`.
pub open spec fn columns_present(fields: Seq<FieldModel>, found: Seq<Seq<char>>, n: int) -> bool {
    forall|j: int| 0 <= j < n ==> found.contains((#[trigger] fields[j]).sqlite3.name)
}

/// Every storage column of every one of the first `m` record kinds is among
/// the columns found for its table.
pub open spec fn tables_present(src: SourceModel, found: Seq<Seq<Seq<char>>>, m: int) -> bool {
    forall|i: int|
        0 <= i < m ==> columns_present(
            (#[trigger] src.metadatas[i]).formation,
            found[i],
            src.metadatas[i].formation.len() as int,
        )
}

/// The columns found in the tables of a file, as texts.
pub open spec fn found_columns(tables: Seq<Vec<String>>) -> Seq<Seq<Seq<char>>> {
    Seq::new(tables.len(), |i: int| texts(tables[i]@))
}

/// What the columns found in a file say of it: `tables` holds, for each
/// record kind in the order of the schema, the columns of its table.
pub open spec fn column_check(src: SourceModel, found: Seq<Seq<Seq<char>>>) -> Result<
    (),
    SQLiteErrorType,
> {
    if found.len() != src.metadatas.len() {
        Err(SQLiteErrorType::Invalid)
    } else if tables_present(src, found, src.metadatas.len() as int) {
        Ok(())
    } else {
        Err(SQLiteErrorType::NotMatch)
    }
}

/// Whether the record kind `dconfig` finds all its storage columns among
/// `found`.
pub fn has_columns(dconfig: &CodecConfigMetadata, found: &Vec<String>) -> (r: bool)
    ensures
        r == columns_present(dconfig@.formation, texts(found@), dconfig@.formation.len() as int),
{
    let mut j: usize = 0;
    while j < dconfig.formation.len()
        invariant
            j <= dconfig.formation.len(),
            columns_present(dconfig@.formation, texts(found@), j as int),
        decreases dconfig.formation.len() - j,
    {
        let f = &dconfig.formation[j];
        assert(f@ == dconfig@.formation[j as int]);
        if !contains_text(found, f.sqlite3.name.as_str()) {
            return false;
        }
        j += 1;
    }
    true
}

/// Checks the columns found in the tables of a file against the schema:
/// `tables` holds, for each record kind in the order of the schema, the
/// columns of its table. A column of the schema that is missing makes the
/// file stale.
pub fn check_column(config: &CodecConfigBase, tables: &Vec<Vec<String>>) -> (r: Result<
    (),
    SQLiteErrorType,
>)
    ensures
        r == column_check(config@, found_columns(tables@)),
{
    if tables.len() != config.metadatas.len() {
        return Err(SQLiteErrorType::Invalid);
    }
    let mut i: usize = 0;
    while i < config.metadatas.len()
        invariant
            i <= config.metadatas.len(),
            tables.len() == config.metadatas.len(),
            tables_present(config@, found_columns(tables@), i as int),
        decreases config.metadatas.len() - i,
    {
        let mem = &config.metadatas[i];
        assert(mem@ == config@.metadatas[i as int]);
        assert(found_columns(tables@)[i as int] == texts(tables@[i as int]@));
        if !has_columns(mem, &tables[i]) {
            return Err(SQLiteErrorType::NotMatch);
        }
        i += 1;
    }
    Ok(())
}

/// What is due to a file after its tables have been looked into.
#[derive(Clone, Copy, Debug, PartialEq, Eq, Structural)]
pub enum SchemaVerdict {
    /// The file serves the schema.
    Current,
    /// A column is missing: the file is set aside, so that a fresh one is
    /// made at the next write.
    Stale,
    /// The file could not be judged; it is left alone this time.
    Skipped,
}

/// The verdict on a file: `tables` is what was found in it, or nothing when
/// it could not be read.
pub open spec fn verdict_of(src: SourceModel, found: Option<Seq<Seq<Seq<char>>>>) -> SchemaVerdict {
    match found {
        None => SchemaVerdict::Skipped,
        Some(f) => match column_check(src, f) {
            Ok(_) => SchemaVerdict::Current,
            Err(SQLiteErrorType::NotMatch) => SchemaVerdict::Stale,
            Err(_) => SchemaVerdict::Skipped,
        },
    }
}

/// The columns found, if any were.
pub open spec fn opt_found(tables: Option<Vec<Vec<String>>>) -> Option<Seq<Seq<Seq<char>>>> {
    match tables {
        Some(t) => Some(found_columns(t@)),
        None => None,
    }
}

/// Judges a file by the columns found in its tables.
pub fn judge_schema(config: &CodecConfigBase, tables: &Option<Vec<Vec<String>>>) -> (r:
    SchemaVerdict)
    ensures
        r == verdict_of(config@, opt_found(*tables)),
{
    match tables {
        None => SchemaVerdict::Skipped,
        Some(t) => match check_column(config, t) {
            Ok(_) => SchemaVerdict::Current,
            Err(SQLiteErrorType::NotMatch) => SchemaVerdict::Stale,
            Err(_) => SchemaVerdict::Skipped,
        },
    }
}

/// What is known of one entry of a directory.
#[derive(Debug)]
pub struct FileEntry {
    pub name: String,
    pub is_file: bool,
    /// When the entry was last modified, in nanoseconds since the epoch.
    pub modified: u128,
}

/// An entry is a candidate when it is a file and its name matches the
/// pattern.
pub open spec fn eligible(e: FileEntry, pattern: Seq<char>) -> bool {
    e.is_file && pattern_matches(pattern, e.name@) == Some(true)
}

/// `i` is the candidate that was modified last; of several modified at the
/// same time, the one that stands last.
pub open spec fn latest(entries: Seq<FileEntry>, pattern: Seq<char>, i: int) -> bool {
    &&& 0 <= i < entries.len()
    &&& eligible(entries[i], pattern)
    &&& forall|j: int|
        0 <= j < entries.len() && eligible(#[trigger] entries[j], pattern) ==> entries[j].modified
            < entries[i].modified || (entries[j].modified == entries[i].modified && j <= i)
}

/// No entry is a candidate.
pub open spec fn none_eligible(entries: Seq<FileEntry>, pattern: Seq<char>) -> bool {
    forall|j: int| 0 <= j < entries.len() ==> !eligible(#[trigger] entries[j], pattern)
}

/// Whether the place `j` of `fits` is set; a place that `fits` does not have
/// counts as not set.
pub open spec fn fit(fits: Seq<bool>, j: int) -> bool {
    0 <= j < fits.len() && fits[j]
}

/// `i` is the entry that was modified last among the files whose place in
/// `fits` is set; of several modified at the same time, the one that stands
/// last.
pub open spec fn chosen(entries: Seq<FileEntry>, fits: Seq<bool>, i: int) -> bool {
    &&& 0 <= i < entries.len()
    &&& entries[i].is_file && fit(fits, i)
    &&& forall|j: int|
        0 <= j < entries.len() && (#[trigger] entries[j]).is_file && fit(fits, j)
            ==> entries[j].modified < entries[i].modified || (entries[j].modified
            == entries[i].modified && j <= i)
}

/// No entry is a file whose place in `fits` is set.
pub open spec fn none_chosen(entries: Seq<FileEntry>, fits: Seq<bool>) -> bool {
    forall|j: int| 0 <= j < entries.len() ==> !((#[trigger] entries[j]).is_file && fit(fits, j))
}

/// Picks the entry that was modified last among the files whose names were
/// found to match: `fits` tells for each entry whether its name matches.
pub fn latest_of(entries: &Vec<FileEntry>, fits: &Vec<bool>) -> (r: Option<usize>)
    ensures
        match r {
            Some(i) => chosen(entries@, fits@, i as int),
            None => none_chosen(entries@, fits@),
        },
{
    let mut best: Option<usize> = None;
    let mut k: usize = 0;
    while k < entries.len()
        invariant
            k <= entries.len(),
            match best {
                Some(i) => chosen(entries@.take(k as int), fits@, i as int),
                None => none_chosen(entries@.take(k as int), fits@),
            },
        decreases entries.len() - k,
    {
        let e = &entries[k];
        let ghost seen = entries@.take(k as int);
        let ghost next = entries@.take(k + 1);
        assert(forall|j: int| 0 <= j < k ==> next[j] == seen[j]);
        assert(next[k as int] == *e);
        if e.is_file && k < fits.len() && fits[k] {
            let newer = match best {
                Some(i) => entries[i].modified <= e.modified,
                None => true,
            };
            if newer {
                best = Some(k);
            }
        }
        k += 1;
    }
    assert(entries@.take(entries.len() as int) == entries@);
    best
}

/// The name of the file that was modified last among the files of a
/// directory whose names match `pattern`.
pub fn get_last_modified_file(entries: &Vec<FileEntry>, pattern: &str) -> (r: Option<String>)
    ensures
        match r {
            Some(name) => exists|i: int|
                latest(entries@, pattern@, i) && name@ == (#[trigger] entries@[i]).name@,
            None => none_eligible(entries@, pattern@),
        },
{
    let mut fits: Vec<bool> = Vec::new();
    let mut k: usize = 0;
    while k < entries.len()
        invariant
            k <= entries.len(),
            fits@.len() == k,
            forall|j: int|
                0 <= j < k ==> fits@[j] == (pattern_matches(pattern@, (#[trigger] entries@[j]).name@)
                    == Some(true)),
        decreases entries.len() - k,
    {
        let fit = match is_match(pattern, entries[k].name.as_str()) {
            Some(b) => b,
            None => false,
        };
        fits.push(fit);
        k += 1;
    }
    match latest_of(entries, &fits) {
        Some(i) => {
            assert(latest(entries@, pattern@, i as int));
            Some(entries[i].name.clone())
        },
        None => None,
    }
}

/// The file whose tables are checked against the schema of a source: the
/// file of the relational sink that was modified last among those that the
/// discovery pattern of the sink matches. There is none when the source has
/// no relational sink, the sink has no discovery pattern, or no file
/// qualifies.
pub open spec fn check_target(
    src: SourceModel,
    entries: Seq<FileEntry>,
    out: Option<Seq<char>>,
) -> bool {
    match src.sqlite3 {
        Some(sink) => match sink.regex {
            Some(p) => match out {
                Some(path) => exists|i: int|
                    latest(entries, p, i) && path == under(
                        sink.directory,
                        (#[trigger] entries[i]).name@,
                    ),
                None => none_eligible(entries, p),
            },
            None => out is None,
        },
        None => out is None,
    }
}

/// Picks the file whose tables are checked against the schema of `config`,
/// out of the entries of the directory of its relational sink.
pub fn schema_check_target(config: &CodecConfigBase, entries: &Vec<FileEntry>) -> (r: Option<
    String,
>)
    ensures
        check_target(config@, entries@, crate::text::opt_text(r)),
{
    let sink = match &config.sqlite3 {
        Some(sink) => sink,
        None => {
            return None;
        },
    };
    let pattern = match &sink.regex {
        Some(p) => p,
        None => {
            return None;
        },
    };
    match get_last_modified_file(entries, pattern.as_str()) {
        Some(name) => {
            let path = join_path(sink.directory.as_str(), name.as_str());
            proof {
                let i = choose|i: int|
                    latest(entries@, pattern@, i) && name@ == (#[trigger] entries@[i]).name@;
                assert(path@ == under(sink@.directory, entries@[i].name@));
            }
            Some(path)
        },
        None => None,
    }
}

/// What the sink does with one message.
#[derive(Debug)]
pub enum TableStep {
    /// The message was a header block. When the header changed, the files of
    /// the sink are checked against the schema again.
    Header { recheck: bool },
    /// The message finds no schema to be stored by and is dropped.
    Unrouted(RouteError),
    /// The message holds data: `inserts` holds the plan for each of its
    /// lines, and `setup` the statements that set up a file that does not
    /// exist yet.
    Data { setup: Vec<String>, inserts: Vec<Option<InsertPlan>> },
}

/// The plans `inserts` are those of the lines `lines` for the source `s` of
/// the configuration and its record kind `k`, and `setup` sets up a fresh
/// file of that source.
pub open spec fn inserts_for(
    config: SystemConfig,
    s: int,
    k: int,
    lines: Seq<Seq<char>>,
    setup: Seq<String>,
    inserts: Seq<Option<InsertPlan>>,
) -> bool {
    &&& texts(setup) == setup_texts(config.codec@[s]@)
    &&& inserts.len() == lines.len()
    &&& forall|i: int|
        0 <= i < inserts.len() ==> plan_model(#[trigger] inserts[i]) == insert_plan(
            config.codec@[s].tag@,
            sink_of(config.codec@[s], SinkKind::Relational).unwrap()@,
            config.codec@[s].metadatas@[k]@,
            lines[i],
        )
}

/// What the sink owes a message, given the headers it tracks.
///
/// A header block is offered to the tracker under the key of the message; a
/// changed header asks for a new check of the files. A data message is
/// stored by the schema that its tag and its record kind select, line by
/// line; the tracker stays as it is.
pub open spec fn table_step(
    config: SystemConfig,
    before: Map<Seq<char>, HeaderModel>,
    msg: MessageModel,
    after: Map<Seq<char>, HeaderModel>,
    step: TableStep,
) -> bool {
    if msg.update_header {
        step matches TableStep::Header { recheck } && (after, recheck) == track(
            before,
            header_key(msg.tag, msg.dkind),
            msg.value,
        )
    } else {
        after == before && match step {
            TableStep::Header { .. } => false,
            TableStep::Unrouted(e) => unrouted(config, msg.tag, msg.dkind, SinkKind::Relational, e),
            TableStep::Data { setup, inserts } => exists|s: int, r: int|
                #![trigger routed_to(config, msg.tag, msg.dkind, SinkKind::Relational, s, r)]
                routed_to(config, msg.tag, msg.dkind, SinkKind::Relational, s, r) && inserts_for(
                    config,
                    s,
                    r,
                    msg.value,
                    setup@,
                    inserts@,
                ),
        }
    }
}

/// Decides what the sink does with `msg`.
pub fn table_sink_step(config: &SystemConfig, table: &mut HeaderTable, msg: &MsgPayload) -> (r:
    TableStep)
    ensures
        table_step(*config, old(table)@, msg@, final(table)@, r),
{
    if msg.update_header {
        let key = gen_headertable_key(msg);
        let recheck = is_update_header(table, key.as_str(), &msg.value);
        return TableStep::Header { recheck };
    }
    let found = match route(config, msg, SinkKind::Relational) {
        Ok(found) => found,
        Err(e) => {
            return TableStep::Unrouted(e);
        },
    };
    let mut inserts: Vec<Option<InsertPlan>> = Vec::new();
    let mut i: usize = 0;
    while i < msg.value.len()
        invariant
            i <= msg.value.len(),
            inserts@.len() == i,
            forall|j: int|
                0 <= j < i ==> plan_model(#[trigger] inserts@[j]) == insert_plan(
                    found.source.tag@,
                    found.sink@,
                    found.record@,
                    msg@.value[j],
                ),
        decreases msg.value.len() - i,
    {
        let plan = plan_insert(
            found.source.tag.as_str(),
            found.sink,
            found.record,
            msg.value[i].as_str(),
        );
        assert(msg@.value[i as int] == msg.value@[i as int]@);
        inserts.push(plan);
        i += 1;
    }
    let setup = create_db_statements(found.source);
    proof {
        let (s, r) = choose|s: int, r: int|
            routed_to(*config, msg@.tag, msg@.dkind, SinkKind::Relational, s, r) && *found.source
                == #[trigger] config.codec@[s] && Some(*found.sink) == sink_of(
                config.codec@[s],
                SinkKind::Relational,
            ) && *found.record == #[trigger] config.codec@[s].metadatas@[r];
        assert(inserts_for(*config, s, r, msg@.value, setup@, inserts@));
    }
    TableStep::Data { setup, inserts }
}

} // verus!
