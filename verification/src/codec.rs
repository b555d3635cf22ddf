//! The schema of a source: its sinks, its record kinds and their fields.

use vstd::prelude::*;
use crate::text::{copy_opt, opt_text, texts};

verus! {

/// Wrapper that carries the schema of one source.
#[derive(Debug)]
pub struct CodecConfig<InnerType> {
    pub inner: InnerType,
}

/// How a field is described to people.
#[derive(Debug)]
pub struct CodecConfigDataTypeSpec {
    pub name: String,
    pub description: String,
    pub dtype: String,
    pub unit: Option<String>,
    pub float_number: Option<i64>,
}

/// How a field is parsed at run time.
#[derive(Debug)]
pub struct CodecConfigDataTypeRust {
    pub name: String,
    pub dtype: String,
    pub unit: Option<String>,
    pub major_datetime: Option<bool>,
}

/// How a field is stored.
#[derive(Debug)]
pub struct CodecConfigDataTypeSqlite3 {
    pub name: String,
    pub dtype: String,
    pub unit: Option<String>,
}

/// One field of a record, in its three descriptions.
#[derive(Debug)]
pub struct CodecConfigDataType {
    pub spec: CodecConfigDataTypeSpec,
    pub rust: CodecConfigDataTypeRust,
    pub sqlite3: CodecConfigDataTypeSqlite3,
}

/// The spec description of a field as a value of the model.
pub struct SpecFace {
    pub name: Seq<char>,
    pub description: Seq<char>,
    pub dtype: Seq<char>,
    pub unit: Option<Seq<char>>,
    pub float_number: Option<i64>,
}

/// The runtime description of a field as a value of the model.
pub struct RustFace {
    pub name: Seq<char>,
    pub dtype: Seq<char>,
    pub unit: Option<Seq<char>>,
    pub major_datetime: Option<bool>,
}

/// The storage description of a field as a value of the model.
pub struct StoreFace {
    pub name: Seq<char>,
    pub dtype: Seq<char>,
    pub unit: Option<Seq<char>>,
}

/// A field as a value of the model: its three descriptions.
pub struct FieldModel {
    pub spec: SpecFace,
    pub rust: RustFace,
    pub sqlite3: StoreFace,
}

impl View for CodecConfigDataTypeSpec {
    type V = SpecFace;

    open spec fn view(&self) -> SpecFace {
        SpecFace {
            name: self.name@,
            description: self.description@,
            dtype: self.dtype@,
            unit: opt_text(self.unit),
            float_number: self.float_number,
        }
    }
}

impl View for CodecConfigDataTypeRust {
    type V = RustFace;

    open spec fn view(&self) -> RustFace {
        RustFace {
            name: self.name@,
            dtype: self.dtype@,
            unit: opt_text(self.unit),
            major_datetime: self.major_datetime,
        }
    }
}

impl View for CodecConfigDataTypeSqlite3 {
    type V = StoreFace;

    open spec fn view(&self) -> StoreFace {
        StoreFace { name: self.name@, dtype: self.dtype@, unit: opt_text(self.unit) }
    }
}

impl View for CodecConfigDataType {
    type V = FieldModel;

    open spec fn view(&self) -> FieldModel {
        FieldModel { spec: self.spec@, rust: self.rust@, sqlite3: self.sqlite3@ }
    }
}

impl Clone for CodecConfigDataTypeSpec {
    fn clone(&self) -> (r: Self)
        ensures
            r@ == self@,
    {
        CodecConfigDataTypeSpec {
            name: self.name.clone(),
            description: self.description.clone(),
            dtype: self.dtype.clone(),
            unit: copy_opt(&self.unit),
            float_number: self.float_number,
        }
    }
}

impl Clone for CodecConfigDataTypeRust {
    fn clone(&self) -> (r: Self)
        ensures
            r@ == self@,
    {
        CodecConfigDataTypeRust {
            name: self.name.clone(),
            dtype: self.dtype.clone(),
            unit: copy_opt(&self.unit),
            major_datetime: self.major_datetime,
        }
    }
}

impl Clone for CodecConfigDataTypeSqlite3 {
    fn clone(&self) -> (r: Self)
        ensures
            r@ == self@,
    {
        CodecConfigDataTypeSqlite3 {
            name: self.name.clone(),
            dtype: self.dtype.clone(),
            unit: copy_opt(&self.unit),
        }
    }
}

impl Clone for CodecConfigDataType {
    fn clone(&self) -> (r: Self)
        ensures
            r@ == self@,
    {
        CodecConfigDataType {
            spec: self.spec.clone(),
            rust: self.rust.clone(),
            sqlite3: self.sqlite3.clone(),
        }
    }
}

/// The schema of one record kind.
#[derive(Debug)]
pub struct CodecConfigMetadata {
    pub name: String,
    pub dkind: Vec<String>,
    pub raw_save: Option<bool>,
    pub stx_etx: Option<bool>,
    pub formation: Vec<CodecConfigDataType>,
}

/// Where and under which names one sink stores its files.
#[derive(Debug)]
pub struct CodecConfigDB {
    pub directory: String,
    pub regex: Option<String>,
    pub seperate_by: Option<String>,
    pub pattern: Option<String>,
    pub suffix: Option<String>,
}

/// The schema of one source.
#[derive(Debug)]
pub struct CodecConfigBase {
    pub tag: String,
    pub rawdata: Option<CodecConfigDB>,
    pub l1_data: Option<CodecConfigDB>,
    pub sqlite3: Option<CodecConfigDB>,
    pub metadatas: Vec<CodecConfigMetadata>,
}

/// The schema of a record kind as a value of the model.
pub struct RecordModel {
    pub name: Seq<char>,
    pub dkind: Seq<Seq<char>>,
    pub raw_save: Option<bool>,
    pub stx_etx: Option<bool>,
    pub formation: Seq<FieldModel>,
}

/// The configuration of a sink as a value of the model.
pub struct SinkModel {
    pub directory: Seq<char>,
    pub regex: Option<Seq<char>>,
    pub seperate_by: Option<Seq<char>>,
    pub pattern: Option<Seq<char>>,
    pub suffix: Option<Seq<char>>,
}

/// The schema of a source as a value of the model.
pub struct SourceModel {
    pub tag: Seq<char>,
    pub rawdata: Option<SinkModel>,
    pub l1_data: Option<SinkModel>,
    pub sqlite3: Option<SinkModel>,
    pub metadatas: Seq<RecordModel>,
}

/// The models of a list of fields.
pub open spec fn field_models(v: Seq<CodecConfigDataType>) -> Seq<FieldModel> {
    Seq::new(v.len(), |i: int| v[i]@)
}

/// The models of a list of record kinds.
pub open spec fn record_models(v: Seq<CodecConfigMetadata>) -> Seq<RecordModel> {
    Seq::new(v.len(), |i: int| v[i]@)
}

/// The model of an optional sink.
pub open spec fn opt_sink(o: Option<CodecConfigDB>) -> Option<SinkModel> {
    match o {
        Some(s) => Some(s@),
        None => None,
    }
}

impl View for CodecConfigMetadata {
    type V = RecordModel;

    open spec fn view(&self) -> RecordModel {
        RecordModel {
            name: self.name@,
            dkind: texts(self.dkind@),
            raw_save: self.raw_save,
            stx_etx: self.stx_etx,
            formation: field_models(self.formation@),
        }
    }
}

impl View for CodecConfigDB {
    type V = SinkModel;

    open spec fn view(&self) -> SinkModel {
        SinkModel {
            directory: self.directory@,
            regex: opt_text(self.regex),
            seperate_by: opt_text(self.seperate_by),
            pattern: opt_text(self.pattern),
            suffix: opt_text(self.suffix),
        }
    }
}

impl View for CodecConfigBase {
    type V = SourceModel;

    open spec fn view(&self) -> SourceModel {
        SourceModel {
            tag: self.tag@,
            rawdata: opt_sink(self.rawdata),
            l1_data: opt_sink(self.l1_data),
            sqlite3: opt_sink(self.sqlite3),
            metadatas: record_models(self.metadatas@),
        }
    }
}

/// Why the name of a field could not be translated.
#[derive(Clone, Copy, Debug, PartialEq, Eq, Structural)]
pub enum NameError {
    /// The two labels do not name two different descriptions.
    UnsupportedPair,
    /// No field carries the name.
    UnknownName,
}

/// One of the three descriptions of a field.
#[derive(Clone, Copy, Debug, PartialEq, Eq, Structural)]
pub enum Face {
    Spec,
    Rust,
    Sqlite,
}

/// The description that a label names: `spec`, `rust`, and `sqlite` or
/// `sqlite3`; no other label names one.
pub open spec fn face_of(label: Seq<char>) -> Option<Face> {
    if label == "spec"@ {
        Some(Face::Spec)
    } else if label == "rust"@ {
        Some(Face::Rust)
    } else if label == "sqlite"@ || label == "sqlite3"@ {
        Some(Face::Sqlite)
    } else {
        None
    }
}

/// The name of a field in one of its descriptions.
pub open spec fn name_in(f: FieldModel, face: Face) -> Seq<char> {
    match face {
        Face::Spec => f.spec.name,
        Face::Rust => f.rust.name,
        Face::Sqlite => f.sqlite3.name,
    }
}

/// `i` is the first field whose name in `face` is `name`.
pub open spec fn first_named(fields: Seq<FieldModel>, face: Face, name: Seq<char>, i: int) -> bool {
    &&& 0 <= i < fields.len()
    &&& name_in(fields[i], face) == name
    &&& forall|j: int| 0 <= j < i ==> name_in(#[trigger] fields[j], face) != name
}

/// No field's name in `face` is `name`.
pub open spec fn none_named(fields: Seq<FieldModel>, face: Face, name: Seq<char>) -> bool {
    forall|j: int| 0 <= j < fields.len() ==> name_in(#[trigger] fields[j], face) != name
}

/// A translation between two descriptions is offered when both labels name a
/// description and the two differ.
pub open spec fn translation(from: Seq<char>, to: Seq<char>) -> Option<(Face, Face)> {
    match (face_of(from), face_of(to)) {
        (Some(a), Some(b)) => if a != b {
            Some((a, b))
        } else {
            None
        },
        _ => None,
    }
}

/// `i` is the first field marked as the primary timestamp.
pub open spec fn first_primary(fields: Seq<FieldModel>, i: int) -> bool {
    &&& 0 <= i < fields.len()
    &&& fields[i].rust.major_datetime == Some(true)
    &&& forall|j: int| 0 <= j < i ==> (#[trigger] fields[j]).rust.major_datetime != Some(true)
}

/// No field is marked as the primary timestamp.
pub open spec fn no_primary(fields: Seq<FieldModel>) -> bool {
    forall|j: int| 0 <= j < fields.len() ==> (#[trigger] fields[j]).rust.major_datetime != Some(true)
}

/// At most one field is marked as the primary timestamp.
pub open spec fn single_primary(fields: Seq<FieldModel>) -> bool {
    forall|i: int, j: int|
        0 <= i < fields.len() && 0 <= j < fields.len()
        && (#[trigger] fields[i]).rust.major_datetime == Some(true)
        && (#[trigger] fields[j]).rust.major_datetime == Some(true) ==> i == j
}

/// Reads a label as one of the three descriptions.
pub fn parse_face(label: &str) -> (r: Option<Face>)
    ensures
        r == face_of(label@),
{
    if crate::text::same_text(label, "spec") {
        Some(Face::Spec)
    } else if crate::text::same_text(label, "rust") {
        Some(Face::Rust)
    } else if crate::text::same_text(label, "sqlite") || crate::text::same_text(label, "sqlite3") {
        Some(Face::Sqlite)
    } else {
        None
    }
}

impl CodecConfigDataType {
    /// The name of this field in one of its descriptions.
    pub fn name_of(&self, face: Face) -> (r: &str)
        ensures
            r@ == name_in(self@, face),
    {
        match face {
            Face::Spec => self.spec.name.as_str(),
            Face::Rust => self.rust.name.as_str(),
            Face::Sqlite => self.sqlite3.name.as_str(),
        }
    }
}

impl CodecConfigMetadata {
    /// The schema is well formed when at most one field is the primary
    /// timestamp.
    pub open spec fn wf(&self) -> bool {
        single_primary(self@.formation)
    }

    /// The first field marked as the primary timestamp, with its position.
    pub fn get_datetime_info(&self) -> (r: Option<(usize, CodecConfigDataType)>)
        ensures
            match r {
                Some((i, f)) => first_primary(self@.formation, i as int) && f@
                    == self@.formation[i as int],
                None => no_primary(self@.formation),
            },
    {
        let mut i: usize = 0;
        while i < self.formation.len()
            invariant
                i <= self.formation.len(),
                forall|j: int|
                    0 <= j < i ==> (#[trigger] self@.formation[j]).rust.major_datetime != Some(
                        true,
                    ),
            decreases self.formation.len() - i,
        {
            let f = &self.formation[i];
            if is_marked(&f.rust.major_datetime) {
                return Some((i, f.clone()));
            }
            i += 1;
        }
        None
    }

    /// Translates the name of a field from one description into another.
    ///
    /// The field is the first one that carries `name` in the description
    /// `from`; the result is its name in the description `to`. When there is
    /// none, the error says why: the pair of labels offers no translation, or
    /// no field carries the name.
    pub fn convert_data_name(&self, from: &str, name: &str, to: &str) -> (r: Result<
        &str,
        NameError,
    >)
        ensures
            match translation(from@, to@) {
                Some((a, b)) => match r {
                    Ok(out) => exists|i: int|
                        first_named(self@.formation, a, name@, i) && out@ == name_in(
                            #[trigger] self@.formation[i],
                            b,
                        ),
                    Err(e) => e == NameError::UnknownName && none_named(
                        self@.formation,
                        a,
                        name@,
                    ),
                },
                None => r == Err::<&str, NameError>(NameError::UnsupportedPair),
            },
    {
        let a = match parse_face(from) {
            Some(a) => a,
            None => {
                return Err(NameError::UnsupportedPair);
            },
        };
        let b = match parse_face(to) {
            Some(b) => b,
            None => {
                return Err(NameError::UnsupportedPair);
            },
        };
        if a == b {
            return Err(NameError::UnsupportedPair);
        }
        let mut i: usize = 0;
        while i < self.formation.len()
            invariant
                i <= self.formation.len(),
                translation(from@, to@) == Some((a, b)),
                forall|j: int| 0 <= j < i ==> name_in(#[trigger] self@.formation[j], a) != name@,
            decreases self.formation.len() - i,
        {
            let f = &self.formation[i];
            if crate::text::same_text(f.name_of(a), name) {
                let out = f.name_of(b);
                assert(f@ == self@.formation[i as int]);
                assert(first_named(self@.formation, a, name@, i as int));
                assert(out@ == name_in(self@.formation[i as int], b));
                return Ok(out);
            }
            i += 1;
        }
        Err(NameError::UnknownName)
    }

    /// Whether at most one field is marked as the primary timestamp.
    pub fn has_single_primary(&self) -> (r: bool)
        ensures
            r == self.wf(),
    {
        let mut found: Option<usize> = None;
        let mut i: usize = 0;
        while i < self.formation.len()
            invariant
                i <= self.formation.len(),
                match found {
                    Some(p) => p < i && self@.formation[p as int].rust.major_datetime == Some(true)
                        && forall|j: int|
                        0 <= j < i && j != p ==> (#[trigger] self@.formation[j]).rust.major_datetime
                            != Some(true),
                    None => forall|j: int|
                        0 <= j < i ==> (#[trigger] self@.formation[j]).rust.major_datetime != Some(
                            true,
                        ),
                },
            decreases self.formation.len() - i,
        {
            if is_marked(&self.formation[i].rust.major_datetime) {
                assert(self@.formation[i as int].rust.major_datetime == Some(true));
                if let Some(p) = found {
                    assert(!single_primary(self@.formation)) by {
                        if single_primary(self@.formation) {
                            assert(self@.formation[p as int].rust.major_datetime == Some(true));
                            assert(p as int == i as int);
                        }
                    }
                    return false;
                }
                found = Some(i);
            }
            i += 1;
        }
        true
    }

    /// Whether `marker` is one of the raw-line markers that select this
    /// record kind.
    pub fn selects(&self, marker: &str) -> (r: bool)
        ensures
            r == self@.dkind.contains(marker@),
    {
        let mut i: usize = 0;
        while i < self.dkind.len()
            invariant
                i <= self.dkind.len(),
                forall|j: int| 0 <= j < i ==> self@.dkind[j] != marker@,
            decreases self.dkind.len() - i,
        {
            if crate::text::same_text(self.dkind[i].as_str(), marker) {
                assert(self@.dkind[i as int] == marker@);
                return true;
            }
            i += 1;
        }
        false
    }
}

/// Whether an optional flag is set.
pub fn is_marked(flag: &Option<bool>) -> (r: bool)
    ensures
        r == (*flag == Some(true)),
{
    match flag {
        Some(b) => *b,
        None => false,
    }
}

/// `i` is the first record kind of `records` that `marker` selects.
pub open spec fn first_selected(records: Seq<RecordModel>, marker: Seq<char>, i: int) -> bool {
    &&& 0 <= i < records.len()
    &&& records[i].dkind.contains(marker)
    &&& forall|j: int| 0 <= j < i ==> !(#[trigger] records[j]).dkind.contains(marker)
}

/// `marker` selects no record kind of `records`.
pub open spec fn none_selected(records: Seq<RecordModel>, marker: Seq<char>) -> bool {
    forall|j: int| 0 <= j < records.len() ==> !(#[trigger] records[j]).dkind.contains(marker)
}

impl CodecConfigBase {
    /// The first record kind that the raw-line marker `dkind` selects.
    pub fn get_data_config(&self, dkind: &str) -> (r: Option<&CodecConfigMetadata>)
        ensures
            match r {
                Some(m) => exists|i: int|
                    first_selected(self@.metadatas, dkind@, i) && *m == #[trigger] self.metadatas@[i],
                None => none_selected(self@.metadatas, dkind@),
            },
    {
        let mut i: usize = 0;
        while i < self.metadatas.len()
            invariant
                i <= self.metadatas.len(),
                forall|j: int| 0 <= j < i ==> !(#[trigger] self@.metadatas[j]).dkind.contains(dkind@),
            decreases self.metadatas.len() - i,
        {
            if self.metadatas[i].selects(dkind) {
                assert(first_selected(self@.metadatas, dkind@, i as int));
                return Some(&self.metadatas[i]);
            }
            i += 1;
        }
        None
    }
}

} // verus!
