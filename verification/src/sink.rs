//! What the sinks share: finding the schema that a message is stored by.

use vstd::prelude::*;
use crate::codec::{
    first_selected, none_selected, CodecConfigBase, CodecConfigDB, CodecConfigMetadata,
};
use crate::config::{first_tagged, none_tagged, SystemConfig};
use crate::message::MsgPayload;

verus! {

/// The storage destinations of a source.
#[derive(Clone, Copy, Debug, PartialEq, Eq, Structural)]
pub enum SinkKind {
    /// Flat files of raw lines.
    Raw,
    /// Files of tables.
    Relational,
}

/// Why a message finds no schema to be stored by.
#[derive(Clone, Copy, Debug, PartialEq, Eq, Structural)]
pub enum RouteError {
    /// No source has the tag of the message.
    UnsupportedTag,
    /// The source does not store into this sink.
    SinkDisabled,
    /// The source has no record kind for the message.
    UnknownRecordKind,
}

/// The schema that a message is stored by.
#[derive(Debug)]
pub struct Route<'a> {
    pub source: &'a CodecConfigBase,
    pub sink: &'a CodecConfigDB,
    pub record: &'a CodecConfigMetadata,
}

/// The configuration of one sink of a source.
pub open spec fn sink_of(source: CodecConfigBase, kind: SinkKind) -> Option<CodecConfigDB> {
    match kind {
        SinkKind::Raw => source.rawdata,
        SinkKind::Relational => source.sqlite3,
    }
}

/// The message `msg` is stored by the source `s` and its record kind `k`.
pub open spec fn routed_to(
    config: SystemConfig,
    tag: Seq<char>,
    dkind: Seq<char>,
    kind: SinkKind,
    s: int,
    k: int,
) -> bool {
    &&& first_tagged(config.codec@, tag, s)
    &&& sink_of(config.codec@[s], kind) is Some
    &&& first_selected(config.codec@[s]@.metadatas, dkind, k)
}

/// Why the message `msg` is not stored, if it is not.
pub open spec fn unrouted(
    config: SystemConfig,
    tag: Seq<char>,
    dkind: Seq<char>,
    kind: SinkKind,
    e: RouteError,
) -> bool {
    match e {
        RouteError::UnsupportedTag => none_tagged(config.codec@, tag),
        RouteError::SinkDisabled => exists|s: int|
            first_tagged(config.codec@, tag, s) && sink_of(#[trigger] config.codec@[s], kind) is None,
        RouteError::UnknownRecordKind => exists|s: int|
            first_tagged(config.codec@, tag, s) && sink_of(#[trigger] config.codec@[s], kind) is Some
                && none_selected(config.codec@[s]@.metadatas, dkind),
    }
}

/// Finds the schema that `msg` is stored by in the sink `kind`: the source
/// with exactly the tag of the message, its configuration for the sink, and
/// its first record kind that the record-kind label of the message selects.
pub fn route<'a>(config: &'a SystemConfig, msg: &MsgPayload, kind: SinkKind) -> (r: Result<
    Route<'a>,
    RouteError,
>)
    ensures
        match r {
            Ok(route) => exists|s: int, k: int|
                routed_to(*config, msg@.tag, msg@.dkind, kind, s, k) && *route.source
                    == #[trigger] config.codec@[s] && Some(*route.sink) == sink_of(
                    config.codec@[s],
                    kind,
                ) && *route.record == #[trigger] config.codec@[s].metadatas@[k],
            Err(e) => unrouted(*config, msg@.tag, msg@.dkind, kind, e),
        },
{
    let source = match config.find_codec(msg.tag.as_str()) {
        Some(c) => c,
        None => {
            return Err(RouteError::UnsupportedTag);
        },
    };
    let ghost s = choose|s: int|
        first_tagged(config.codec@, msg@.tag, s) && *source == #[trigger] config.codec@[s];
    let slot = match kind {
        SinkKind::Raw => &source.rawdata,
        SinkKind::Relational => &source.sqlite3,
    };
    let sink = match slot {
        Some(sink) => sink,
        None => {
            assert(sink_of(config.codec@[s], kind) is None);
            return Err(RouteError::SinkDisabled);
        },
    };
    let record = match source.get_data_config(msg.dkind.as_str()) {
        Some(m) => m,
        None => {
            assert(sink_of(config.codec@[s], kind) is Some);
            return Err(RouteError::UnknownRecordKind);
        },
    };
    proof {
        let k = choose|k: int|
            first_selected(source@.metadatas, msg@.dkind, k) && *record
                == #[trigger] source.metadatas@[k];
        assert(routed_to(*config, msg@.tag, msg@.dkind, kind, s, k));
        assert(*record == config.codec@[s].metadatas@[k]);
    }
    Ok(Route { source, sink, record })
}

} // verus!
