//! Destination paths from a directory, a naming pattern and a partition time.

use vstd::prelude::*;
use vstd::string::StrSliceExecFns;
use crate::codec::{CodecConfigDB, CodecConfigMetadata, RecordModel, SinkModel};
use crate::datetime::{formatted_datetime, write_datetime, Timestamp};
use crate::pattern::{find_all, pattern_finds};
use crate::text::{
    ends_with, from_chars, has_prefix, has_suffix, opt_text, push_all, push_str, replace_all,
    replaced, same_text, starts_with, texts, to_chars,
};

verus! {

/// Why a naming pattern could not be expanded.
#[derive(Clone, Copy, Debug, PartialEq, Eq, Structural)]
pub enum TemplateError {
    /// The placeholders could not be looked for.
    BadPattern,
    /// A placeholder is not known, or what it stands for is not available.
    Unsupported,
}

/// What a path may depend on besides the schema.
#[derive(Debug)]
pub struct PathOptions {
    /// The partition time of the record.
    pub datetime: Option<Timestamp>,
}

/// What a placeholder stands for.
#[derive(Clone, Copy, Debug, PartialEq, Eq, Structural)]
pub enum Slot {
    /// The name of the record kind.
    Name,
    /// The partition time as year, month, day, hour, minute and second.
    DateTime,
    /// The partition time as year, month and day.
    Date,
    /// The partition time as hour, minute and second.
    Time,
}

/// The text between the double braces of a placeholder.
pub open spec fn tag_of(p: Seq<char>) -> Option<Seq<char>> {
    if has_prefix(p, seq!['{', '{']) && has_suffix(p.skip(2), seq!['}', '}']) {
        Some(p.subrange(2, p.len() - 2))
    } else {
        None
    }
}

/// The slot that a tag names: `metadatas.name`, `DATETIME`, `DATE` and
/// `TIME`. No other tag names one.
pub open spec fn slot_of(tag: Seq<char>) -> Option<Slot> {
    if tag == "metadatas.name"@ {
        Some(Slot::Name)
    } else if tag == "DATETIME"@ {
        Some(Slot::DateTime)
    } else if tag == "DATE"@ {
        Some(Slot::Date)
    } else if tag == "TIME"@ {
        Some(Slot::Time)
    } else {
        None
    }
}

/// The layout in which the partition time fills a slot.
pub open spec fn slot_layout(slot: Slot) -> Seq<char> {
    match slot {
        Slot::Name => Seq::empty(),
        Slot::DateTime => "%Y%m%d%H%M%S"@,
        Slot::Date => "%Y%m%d"@,
        Slot::Time => "%H%M%S"@,
    }
}

/// The text that fills a slot.
pub open spec fn slot_value(slot: Slot, name: Seq<char>, stamp: Option<Timestamp>) -> Option<
    Seq<char>,
> {
    match slot {
        Slot::Name => Some(name),
        _ => match stamp {
            Some(t) => formatted_datetime(t, slot_layout(slot)),
            None => None,
        },
    }
}

/// The text that stands in for a placeholder.
pub open spec fn placeholder_value(p: Seq<char>, name: Seq<char>, stamp: Option<Timestamp>) -> Option<
    Seq<char>,
> {
    match tag_of(p) {
        Some(tag) => match slot_of(tag) {
            Some(slot) => slot_value(slot, name, stamp),
            None => None,
        },
        None => None,
    }
}

/// `text` with the placeholders `finds` expanded one after the other, each in
/// all its occurrences. There is no result as soon as one of them has no
/// value.
pub open spec fn expand_from(
    text: Seq<char>,
    finds: Seq<Seq<char>>,
    name: Seq<char>,
    stamp: Option<Timestamp>,
) -> Option<Seq<char>>
    decreases finds.len(),
{
    if finds.len() == 0 {
        Some(text)
    } else {
        match placeholder_value(finds[0], name, stamp) {
            Some(v) => expand_from(replaced(text, finds[0], v), finds.skip(1), name, stamp),
            None => None,
        }
    }
}

/// The text between the double braces of a placeholder.
pub fn placeholder_get_tag<'a>(placeholder: &'a str) -> (r: Option<&'a str>)
    ensures
        opt_text_ref(r) == tag_of(placeholder@),
{
    let chars = to_chars(placeholder);
    let mut open: Vec<char> = Vec::new();
    open.push('{');
    open.push('{');
    let mut close: Vec<char> = Vec::new();
    close.push('}');
    close.push('}');
    assert(open@ == seq!['{', '{']);
    assert(close@ == seq!['}', '}']);
    if !starts_with(&chars, &open) {
        return None;
    }
    let mut rest: Vec<char> = Vec::new();
    push_all(&mut rest, &chars, 2, chars.len());
    assert(rest@ == placeholder@.skip(2));
    if !ends_with(&rest, &close) {
        return None;
    }
    Some(placeholder.substring_char(2, chars.len() - 2))
}

/// The text of an optional string slice.
pub open spec fn opt_text_ref(o: Option<&str>) -> Option<Seq<char>> {
    match o {
        Some(s) => Some(s@),
        None => None,
    }
}

/// The slot that `tag` names.
pub fn parse_slot(tag: &str) -> (r: Option<Slot>)
    ensures
        r == slot_of(tag@),
{
    if same_text(tag, "metadatas.name") {
        Some(Slot::Name)
    } else if same_text(tag, "DATETIME") {
        Some(Slot::DateTime)
    } else if same_text(tag, "DATE") {
        Some(Slot::Date)
    } else if same_text(tag, "TIME") {
        Some(Slot::Time)
    } else {
        None
    }
}

/// The text that fills `slot`.
pub fn fill_slot(slot: Slot, name: &str, opts: &PathOptions) -> (r: Option<String>)
    ensures
        opt_text(r) == slot_value(slot, name@, opts.datetime),
{
    let layout = match slot {
        Slot::Name => {
            return Some(name.to_owned());
        },
        Slot::DateTime => "%Y%m%d%H%M%S",
        Slot::Date => "%Y%m%d",
        Slot::Time => "%H%M%S",
    };
    match &opts.datetime {
        Some(t) => write_datetime(t, layout),
        None => None,
    }
}

/// The text that stands in for the placeholder `p`.
pub fn value_of(p: &str, name: &str, opts: &PathOptions) -> (r: Option<String>)
    ensures
        opt_text(r) == placeholder_value(p@, name@, opts.datetime),
{
    let tag = match placeholder_get_tag(p) {
        Some(tag) => tag,
        None => {
            return None;
        },
    };
    match parse_slot(tag) {
        Some(slot) => fill_slot(slot, name, opts),
        None => None,
    }
}

/// Expands the placeholders `finds` in `raw`, one after the other and each in
/// all its occurrences, for a record kind called `name`. The expansion is
/// given up as soon as a placeholder has no value.
pub fn expand_placeholders(raw: &str, finds: &Vec<String>, name: &str, opts: &PathOptions) -> (r:
    Result<String, TemplateError>)
    ensures
        match expand_from(raw@, texts(finds@), name@, opts.datetime) {
            Some(out) => r matches Ok(s) && s@ == out,
            None => r == Err::<String, TemplateError>(TemplateError::Unsupported),
        },
{
    let mut cur = to_chars(raw);
    let mut i: usize = 0;
    assert(texts(finds@).skip(0) == texts(finds@));
    while i < finds.len()
        invariant
            i <= finds.len(),
            expand_from(cur@, texts(finds@).skip(i as int), name@, opts.datetime) == expand_from(
                raw@,
                texts(finds@),
                name@,
                opts.datetime,
            ),
        decreases finds.len() - i,
    {
        let ghost rest = texts(finds@).skip(i as int);
        assert(rest[0] == finds@[i as int]@);
        assert(rest.skip(1) == texts(finds@).skip(i + 1));
        let p = finds[i].as_str();
        let v = match value_of(p, name, opts) {
            Some(v) => v,
            None => {
                return Err(TemplateError::Unsupported);
            },
        };
        let from = to_chars(p);
        let to = to_chars(v.as_str());
        cur = replace_all(&cur, &from, &to);
        i += 1;
    }
    assert(texts(finds@).skip(finds.len() as int) == Seq::<Seq<char>>::empty());
    Ok(from_chars(&cur))
}

/// The pattern that finds the placeholders of a naming pattern: two opening
/// braces, as little as possible, two closing braces.
pub open spec fn placeholder_pattern() -> Seq<char> {
    "\\{\\{.*?\\}\\}"@
}

/// What expanding the placeholders of `raw` gives for a record kind called
/// `name`.
pub open spec fn expansion(raw: Seq<char>, name: Seq<char>, stamp: Option<Timestamp>) -> Result<
    Seq<char>,
    TemplateError,
> {
    match pattern_finds(placeholder_pattern(), raw) {
        Some(finds) => match expand_from(raw, finds, name, stamp) {
            Some(out) => Ok(out),
            None => Err(TemplateError::Unsupported),
        },
        None => Err(TemplateError::BadPattern),
    }
}

/// The text of the result of an expansion.
pub open spec fn result_text(r: Result<String, TemplateError>) -> Result<Seq<char>, TemplateError> {
    match r {
        Ok(s) => Ok(s@),
        Err(e) => Err(e),
    }
}

impl CodecConfigMetadata {
    /// Expands the placeholders of the naming pattern `raw` for this record
    /// kind: `{{metadatas.name}}` becomes its name, `{{DATETIME}}`, `{{DATE}}`
    /// and `{{TIME}}` the partition time in digits. A placeholder that is not
    /// known, or a time placeholder without a partition time, gives up the
    /// expansion.
    pub fn replace_placeholder(&self, raw: &str, opts: &PathOptions) -> (r: Result<
        String,
        TemplateError,
    >)
        ensures
            result_text(r) == expansion(raw@, self@.name, opts.datetime),
    {
        match find_all("\\{\\{.*?\\}\\}", raw) {
            Some(finds) => expand_placeholders(raw, &finds, self.name.as_str(), opts),
            None => Err(TemplateError::BadPattern),
        }
    }
}

/// A path and a segment under it, with one separator between them. An empty
/// path leaves the segment alone.
pub open spec fn under(dir: Seq<char>, segment: Seq<char>) -> Seq<char> {
    if dir.len() == 0 {
        segment
    } else if dir.last() == '/' {
        dir + segment
    } else {
        dir + seq!['/'] + segment
    }
}

/// The selector that asks for one directory per record kind.
pub open spec fn by_record_kind(selector: Option<Seq<char>>) -> bool {
    selector == Some("metadatas.name"@)
}

/// The directory that takes the files of a record kind: the directory of the
/// sink, and under it the name of the record kind when the sink partitions
/// by record kind.
pub open spec fn target_dir(sink: SinkModel, rec: RecordModel) -> Seq<char> {
    if by_record_kind(sink.seperate_by) {
        under(sink.directory, rec.name)
    } else {
        sink.directory
    }
}

/// The suffix of the files of a sink.
pub open spec fn suffix_of(sink: SinkModel, default_suffix: Seq<char>) -> Seq<char> {
    match sink.suffix {
        Some(s) => s,
        None => default_suffix,
    }
}

/// The file name made without a pattern: the tag, the day of the partition
/// time after an underscore if there is one, a dot and the suffix.
pub open spec fn plain_name(tag: Seq<char>, suffix: Seq<char>, stamp: Option<Timestamp>) -> Seq<
    char,
> {
    let day = match stamp {
        Some(t) => formatted_datetime(t, "%Y%m%d"@),
        None => None,
    };
    match day {
        Some(d) => tag + seq!['_'] + d + seq!['.'] + suffix,
        None => tag + seq!['.'] + suffix,
    }
}

/// The file name of a record: the expanded pattern of the sink, or the plain
/// name when the sink has no pattern or its expansion was given up.
pub open spec fn file_name(
    tag: Seq<char>,
    sink: SinkModel,
    rec: RecordModel,
    stamp: Option<Timestamp>,
    default_suffix: Seq<char>,
) -> Seq<char> {
    let plain = plain_name(tag, suffix_of(sink, default_suffix), stamp);
    match sink.pattern {
        Some(p) => match expansion(p, rec.name, stamp) {
            Ok(n) => n,
            Err(_) => plain,
        },
        None => plain,
    }
}

/// The destination path of a record.
pub open spec fn db_path(
    tag: Seq<char>,
    sink: SinkModel,
    rec: RecordModel,
    stamp: Option<Timestamp>,
    default_suffix: Seq<char>,
) -> Seq<char> {
    under(target_dir(sink, rec), file_name(tag, sink, rec, stamp, default_suffix))
}

/// Puts `segment` under `dir`.
pub fn join_path(dir: &str, segment: &str) -> (r: String)
    ensures
        r@ == under(dir@, segment@),
{
    let mut out = to_chars(dir);
    if out.len() > 0 && out[out.len() - 1] != '/' {
        out.push('/');
    }
    push_str(&mut out, segment);
    from_chars(&out)
}

/// The file name made without a pattern.
pub fn plain_file_name(tag: &str, suffix: &str, opts: &PathOptions) -> (r: String)
    ensures
        r@ == plain_name(tag@, suffix@, opts.datetime),
{
    let day = match &opts.datetime {
        Some(t) => write_datetime(t, "%Y%m%d"),
        None => None,
    };
    let mut out = to_chars(tag);
    match day {
        Some(d) => {
            out.push('_');
            push_str(&mut out, d.as_str());
        },
        None => {},
    }
    out.push('.');
    push_str(&mut out, suffix);
    from_chars(&out)
}

/// The destination path of a record of the kind `dconfig` of the source
/// `tag`, in the sink `cfg`.
///
/// The directory of the sink is followed by the name of the record kind when
/// the sink partitions by record kind. The file name is the expanded naming
/// pattern; without a pattern, or when its expansion is given up, it is the
/// tag, the day of the partition time if there is one, and the suffix of the
/// sink or else `default_suffix`.
pub fn generate_db_filepath(
    tag: &str,
    cfg: &CodecConfigDB,
    dconfig: &CodecConfigMetadata,
    opts: &PathOptions,
    default_suffix: &str,
) -> (r: String)
    ensures
        r@ == db_path(tag@, cfg@, dconfig@, opts.datetime, default_suffix@),
{
    let dir = match &cfg.seperate_by {
        Some(sel) => {
            if same_text(sel.as_str(), "metadatas.name") {
                join_path(cfg.directory.as_str(), dconfig.name.as_str())
            } else {
                cfg.directory.clone()
            }
        },
        None => cfg.directory.clone(),
    };
    let expanded = match &cfg.pattern {
        Some(p) => match dconfig.replace_placeholder(p.as_str(), opts) {
            Ok(n) => Some(n),
            Err(_) => None,
        },
        None => None,
    };
    let name = match expanded {
        Some(n) => n,
        None => {
            let suffix = match &cfg.suffix {
                Some(s) => s.as_str(),
                None => default_suffix,
            };
            plain_file_name(tag, suffix, opts)
        },
    };
    join_path(dir.as_str(), name.as_str())
}

} // verus!
