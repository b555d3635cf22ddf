//! The decisions of the sink that keeps raw lines in flat files.

use vstd::prelude::*;
use crate::codec::{
    is_marked, no_primary, CodecConfigDB, CodecConfigMetadata, FieldModel, RecordModel, SinkModel,
};
use crate::datetime::{parsed_datetime, read_datetime, Timestamp};
use crate::decoder::lead;
use crate::config::SystemConfig;
use crate::message::{gen_headertable_key, header_key, MessageModel, MsgPayload};
use crate::sink::{route, routed_to, sink_of, unrouted, RouteError, SinkKind};
use crate::template::{db_path, generate_db_filepath, PathOptions};
use crate::text::{from_chars, split_chars, split_on, to_chars};
use crate::tracker::{is_update_header, track, HeaderModel, HeaderTable};

verus! {

/// Why a raw line is not written.
#[derive(Clone, Copy, Debug, PartialEq, Eq, Structural)]
pub enum RawError {
    /// The record kind has no primary timestamp.
    NoTimestampField,
    /// The line has no token at the place of the primary timestamp.
    MissingToken,
    /// The primary timestamp has no layout to be read in.
    NoLayout,
    /// The token does not read as a date and time.
    BadTime,
}

/// A line to append and the file that takes it.
#[derive(Debug)]
pub struct RawWrite {
    pub path: String,
    pub text: String,
}

/// The position of the first primary timestamp at or after `i`.
pub open spec fn primary_from(fields: Seq<FieldModel>, i: int) -> Option<int>
    decreases fields.len() - i,
{
    if i < 0 || i >= fields.len() {
        None
    } else if fields[i].rust.major_datetime == Some(true) {
        Some(i)
    } else {
        primary_from(fields, i + 1)
    }
}

/// The token of a raw line that holds its partition time, and the layout it
/// is read in: the token at the place of the first primary timestamp. With
/// control-byte framing the place is one further, behind the start-of-text
/// token.
pub open spec fn stamp_token(rec: RecordModel, line: Seq<char>) -> Result<
    (Seq<char>, Seq<char>),
    RawError,
> {
    match primary_from(rec.formation, 0) {
        None => Err(RawError::NoTimestampField),
        Some(p) => {
            let tokens = split_on(line, ',');
            let at = p + lead(rec);
            if at >= tokens.len() {
                Err(RawError::MissingToken)
            } else {
                match rec.formation[p].rust.unit {
                    None => Err(RawError::NoLayout),
                    Some(fmt) => Ok((tokens[at], fmt)),
                }
            }
        },
    }
}

/// What a token that was read comes to: the value, or the error of a token
/// that did not read.
pub open spec fn stamp_read(parsed: Option<Timestamp>) -> Result<Timestamp, RawError> {
    match parsed {
        Some(t) => Ok(t),
        None => Err(RawError::BadTime),
    }
}

/// The partition time of a raw line: what its timestamp token reads as.
pub open spec fn raw_line_stamp(rec: RecordModel, line: Seq<char>) -> Result<Timestamp, RawError> {
    match stamp_token(rec, line) {
        Ok((token, fmt)) => stamp_read(parsed_datetime(token, fmt)),
        Err(e) => Err(e),
    }
}

/// The texts of a token and its layout.
pub open spec fn token_model(r: Result<(String, String), RawError>) -> Result<
    (Seq<char>, Seq<char>),
    RawError,
> {
    match r {
        Ok((token, fmt)) => Ok((token@, fmt@)),
        Err(e) => Err(e),
    }
}

/// The suffix of raw files when the sink names none.
pub open spec fn raw_suffix() -> Seq<char> {
    "dat"@
}

/// A line as it is written: the line as it stands, closed by one line feed.
/// A line that already ends in a line feed is written as it is; every other
/// line gets one at its end.
pub open spec fn closed_line(line: Seq<char>) -> Seq<char> {
    if line.len() > 0 && line.last() == '\n' {
        line
    } else {
        line.push('\n')
    }
}

/// Nothing of a line is lost or changed when it is written: the written text
/// starts with the whole line, ends in a line feed, and is at most one
/// character longer. A text that is closed already stays as it is.
pub proof fn lemma_closed_line(line: Seq<char>)
    ensures
        closed_line(line).take(line.len() as int) == line,
        closed_line(line).last() == '\n',
        line.len() <= closed_line(line).len() <= line.len() + 1,
        closed_line(closed_line(line)) == closed_line(line),
{
}

/// What is written for a raw line, and where: the line as it stands, closed
/// by one line feed, into the file that the partition time of the line
/// selects.
pub open spec fn raw_write(tag: Seq<char>, sink: SinkModel, rec: RecordModel, line: Seq<char>) -> Result<
    (Seq<char>, Seq<char>),
    RawError,
> {
    match raw_line_stamp(rec, line) {
        Ok(t) => Ok((db_path(tag, sink, rec, Some(t), raw_suffix()), closed_line(line))),
        Err(e) => Err(e),
    }
}

/// The model of the plan for one line.
pub open spec fn write_model(r: Result<RawWrite, RawError>) -> Result<
    (Seq<char>, Seq<char>),
    RawError,
> {
    match r {
        Ok(w) => Ok((w.path@, w.text@)),
        Err(e) => Err(e),
    }
}

proof fn lemma_primary_from(fields: Seq<FieldModel>, i: int, p: int)
    requires
        0 <= i <= p < fields.len(),
        fields[p].rust.major_datetime == Some(true),
        forall|j: int| i <= j < p ==> (#[trigger] fields[j]).rust.major_datetime != Some(true),
    ensures
        primary_from(fields, i) == Some(p),
    decreases p - i,
{
    if i < p {
        lemma_primary_from(fields, i + 1, p);
    }
}

proof fn lemma_no_primary_from(fields: Seq<FieldModel>, i: int)
    requires
        0 <= i,
        no_primary(fields),
    ensures
        primary_from(fields, i) is None,
    decreases fields.len() - i,
{
    if i < fields.len() {
        lemma_no_primary_from(fields, i + 1);
    }
}

/// The partition time that a timestamp token gives, once it has been read.
pub fn stamp_from(parsed: Option<Timestamp>) -> (r: Result<Timestamp, RawError>)
    ensures
        r == stamp_read(parsed),
{
    match parsed {
        Some(t) => Ok(t),
        None => Err(RawError::BadTime),
    }
}

/// The partition time of a raw line of the kind `dconfig`.
pub fn raw_line_time(dconfig: &CodecConfigMetadata, line: &str) -> (r: Result<Timestamp, RawError>)
    ensures
        r == raw_line_stamp(dconfig@, line@),
{
    match timestamp_token(dconfig, line) {
        Ok((token, fmt)) => stamp_from(read_datetime(token.as_str(), fmt.as_str())),
        Err(e) => Err(e),
    }
}

/// Picks the token of a raw line of the kind `dconfig` that holds its
/// partition time, with the layout it is read in.
pub fn timestamp_token(dconfig: &CodecConfigMetadata, line: &str) -> (r: Result<
    (String, String),
    RawError,
>)
    ensures
        token_model(r) == stamp_token(dconfig@, line@),
{
    let (p, field) = match dconfig.get_datetime_info() {
        Some(info) => info,
        None => {
            proof {
                lemma_no_primary_from(dconfig@.formation, 0);
            }
            return Err(RawError::NoTimestampField);
        },
    };
    proof {
        lemma_primary_from(dconfig@.formation, 0, p as int);
    }
    let chars = to_chars(line);
    let tokens = split_chars(&chars, ',');
    let offset: usize = if is_marked(&dconfig.stx_etx) {
        1
    } else {
        0
    };
    if tokens.len() <= offset || tokens.len() - offset <= p {
        return Err(RawError::MissingToken);
    }
    let fmt = match &field.rust.unit {
        Some(fmt) => fmt.clone(),
        None => {
            return Err(RawError::NoLayout);
        },
    };
    let token = from_chars(&tokens[p + offset]);
    assert(token@ == split_on(line@, ',')[p + offset]);
    Ok((token, fmt))
}

/// Plans the write of one raw line of the kind `dconfig` of the source `tag`
/// into the sink `sink`.
pub fn plan_raw_write(tag: &str, sink: &CodecConfigDB, dconfig: &CodecConfigMetadata, line: &str) -> (r:
    Result<RawWrite, RawError>)
    ensures
        write_model(r) == raw_write(tag@, sink@, dconfig@, line@),
{
    let t = match raw_line_time(dconfig, line) {
        Ok(t) => t,
        Err(e) => {
            return Err(e);
        },
    };
    let opts = PathOptions { datetime: Some(t) };
    let path = generate_db_filepath(tag, sink, dconfig, &opts, "dat");
    let mut text = to_chars(line);
    if text.len() == 0 || text[text.len() - 1] != '\n' {
        text.push('\n');
    }
    Ok(RawWrite { path, text: from_chars(&text) })
}

/// Plans the writes of the lines of a data message, one plan per line and in
/// the order of the lines.
pub fn plan_raw_message(
    tag: &str,
    sink: &CodecConfigDB,
    dconfig: &CodecConfigMetadata,
    msg: &MsgPayload,
) -> (r: Vec<Result<RawWrite, RawError>>)
    ensures
        r@.len() == msg@.value.len(),
        forall|i: int|
            0 <= i < r@.len() ==> write_model(#[trigger] r@[i]) == raw_write(
                tag@,
                sink@,
                dconfig@,
                msg@.value[i],
            ),
{
    let mut out: Vec<Result<RawWrite, RawError>> = Vec::new();
    let mut i: usize = 0;
    while i < msg.value.len()
        invariant
            i <= msg.value.len(),
            out@.len() == i,
            forall|j: int|
                0 <= j < i ==> write_model(#[trigger] out@[j]) == raw_write(
                    tag@,
                    sink@,
                    dconfig@,
                    msg@.value[j],
                ),
        decreases msg.value.len() - i,
    {
        let w = plan_raw_write(tag, sink, dconfig, msg.value[i].as_str());
        assert(msg@.value[i as int] == msg.value@[i as int]@);
        out.push(w);
        i += 1;
    }
    out
}

/// Takes in a header message: the header block is offered to the tracker
/// under the key of the message. Tells whether the header changed.
pub fn note_header(table: &mut HeaderTable, msg: &MsgPayload) -> (r: bool)
    ensures
        (final(table)@, r) == track(
            old(table)@,
            header_key(msg@.tag, msg@.dkind),
            msg@.value,
        ),
{
    let key = gen_headertable_key(msg);
    is_update_header(table, key.as_str(), &msg.value)
}

/// What the sink does with one message.
#[derive(Debug)]
pub enum RawStep {
    /// The message was a header block; `changed` tells whether the header
    /// differs from the one tracked before.
    Header { changed: bool },
    /// The message finds no schema to be stored by and is dropped.
    Unrouted(RouteError),
    /// The message holds data: `key` is the key of its header, and `writes`
    /// holds the plan for each of its lines.
    Data { key: String, writes: Vec<Result<RawWrite, RawError>> },
}

/// The plans `writes` are those of the lines `lines` for the source `s` of
/// the configuration and its record kind `k`.
pub open spec fn writes_for(
    config: SystemConfig,
    s: int,
    k: int,
    lines: Seq<Seq<char>>,
    writes: Seq<Result<RawWrite, RawError>>,
) -> bool {
    &&& writes.len() == lines.len()
    &&& forall|i: int|
        0 <= i < writes.len() ==> write_model(#[trigger] writes[i]) == raw_write(
            config.codec@[s].tag@,
            sink_of(config.codec@[s], SinkKind::Raw).unwrap()@,
            config.codec@[s].metadatas@[k]@,
            lines[i],
        )
}

/// What the sink owes a message, given the headers it tracks.
///
/// A header block is offered to the tracker under the key of the message and
/// nothing is written. A data message is stored by the schema that its tag
/// and its record kind select, line by line; the tracker stays as it is.
pub open spec fn raw_step(
    config: SystemConfig,
    before: Map<Seq<char>, HeaderModel>,
    msg: MessageModel,
    after: Map<Seq<char>, HeaderModel>,
    step: RawStep,
) -> bool {
    let key = header_key(msg.tag, msg.dkind);
    if msg.update_header {
        step matches RawStep::Header { changed } && (after, changed) == track(
            before,
            key,
            msg.value,
        )
    } else {
        after == before && match step {
            RawStep::Header { .. } => false,
            RawStep::Unrouted(e) => unrouted(config, msg.tag, msg.dkind, SinkKind::Raw, e),
            RawStep::Data { key: k, writes } => k@ == key && exists|s: int, r: int|
                #![trigger routed_to(config, msg.tag, msg.dkind, SinkKind::Raw, s, r)]
                routed_to(config, msg.tag, msg.dkind, SinkKind::Raw, s, r) && writes_for(
                    config,
                    s,
                    r,
                    msg.value,
                    writes@,
                ),
        }
    }
}

/// Decides what the sink does with `msg`.
pub fn raw_sink_step(config: &SystemConfig, table: &mut HeaderTable, msg: &MsgPayload) -> (r:
    RawStep)
    ensures
        raw_step(*config, old(table)@, msg@, final(table)@, r),
{
    if msg.update_header {
        let changed = note_header(table, msg);
        return RawStep::Header { changed };
    }
    let found = match route(config, msg, SinkKind::Raw) {
        Ok(found) => found,
        Err(e) => {
            return RawStep::Unrouted(e);
        },
    };
    let writes = plan_raw_message(found.source.tag.as_str(), found.sink, found.record, msg);
    let key = gen_headertable_key(msg);
    proof {
        let (s, r) = choose|s: int, r: int|
            routed_to(*config, msg@.tag, msg@.dkind, SinkKind::Raw, s, r) && *found.source
                == #[trigger] config.codec@[s] && Some(*found.sink) == sink_of(
                config.codec@[s],
                SinkKind::Raw,
            ) && *found.record == #[trigger] config.codec@[s].metadatas@[r];
        assert(writes_for(*config, s, r, msg@.value, writes@));
    }
    RawStep::Data { key, writes }
}

} // verus!
