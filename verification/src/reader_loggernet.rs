//! The decisions of the reader of polled drop files.

use vstd::prelude::*;
use crate::config::{ListenConfig, ListenModel, SystemConfig};
use crate::message::{MessageModel, MsgPayload};
use crate::text::{from_chars, opt_text, push_str, same_text, texts, to_chars};
use crate::tracker::{is_update_header, track, HeaderModel, HeaderTable};

verus! {

/// The number of lines that one data message holds at most.
pub const BATCH_LIMIT: usize = 100;

/// Why the reader cannot be set up.
#[derive(Clone, Copy, Debug, PartialEq, Eq, Structural)]
pub enum ListenError {
    /// The configuration lists no polled files.
    EmptyList,
    /// No polled file belongs to the source.
    NoTarget,
}

/// The models of a list of polled files.
pub open spec fn listen_models(v: Seq<ListenConfig>) -> Seq<ListenModel> {
    Seq::new(v.len(), |i: int| v[i]@)
}

/// The polled files among `list` that belong to the source `tag`, in the
/// order of the list.
pub open spec fn kept(list: Seq<ListenModel>, tag: Seq<char>) -> Seq<ListenModel>
    decreases list.len(),
{
    if list.len() == 0 {
        Seq::empty()
    } else if list.last().tag == tag {
        kept(list.drop_last(), tag).push(list.last())
    } else {
        kept(list.drop_last(), tag)
    }
}

/// The polled files that the reader of the source `tag` looks after.
pub open spec fn targets(list: Option<Vec<ListenConfig>>, tag: Seq<char>) -> Result<
    Seq<ListenModel>,
    ListenError,
> {
    match list {
        None => Err(ListenError::EmptyList),
        Some(l) => if kept(listen_models(l@), tag).len() == 0 {
            Err(ListenError::NoTarget)
        } else {
            Ok(kept(listen_models(l@), tag))
        },
    }
}

/// The models of the outcome of the choice of polled files.
pub open spec fn targets_model(r: Result<Vec<ListenConfig>, ListenError>) -> Result<
    Seq<ListenModel>,
    ListenError,
> {
    match r {
        Ok(v) => Ok(listen_models(v@)),
        Err(e) => Err(e),
    }
}

/// Chooses the polled files that the reader of the source `tag` looks after.
pub fn listen_targets(config: &SystemConfig, tag: &str) -> (r: Result<Vec<ListenConfig>, ListenError>)
    ensures
        targets_model(r) == targets(config.global.listen_list, tag@),
{
    let list = match &config.global.listen_list {
        Some(list) => list,
        None => {
            return Err(ListenError::EmptyList);
        },
    };
    let mut out: Vec<ListenConfig> = Vec::new();
    let mut i: usize = 0;
    assert(listen_models(list@).take(0) == Seq::<ListenModel>::empty());
    assert(listen_models(out@) == Seq::<ListenModel>::empty());
    while i < list.len()
        invariant
            i <= list.len(),
            listen_models(out@) == kept(listen_models(list@).take(i as int), tag@),
        decreases list.len() - i,
    {
        let ghost next = listen_models(list@).take(i + 1);
        assert(next.drop_last() == listen_models(list@).take(i as int));
        assert(next.last() == list@[i as int]@);
        if same_text(list[i].tag.as_str(), tag) {
            let ghost before = listen_models(out@);
            let copy = list[i].clone();
            out.push(copy);
            assert(listen_models(out@) == before.push(copy@));
        }
        i += 1;
    }
    assert(listen_models(list@).take(list.len() as int) == listen_models(list@));
    if out.len() == 0 {
        return Err(ListenError::NoTarget);
    }
    Ok(out)
}

/// How one polled file is read.
#[derive(Debug)]
pub struct ReadPlan {
    /// The path that the lines are read from.
    pub read_from: String,
    /// Whether the file is first renamed to `read_from`.
    pub rename: bool,
    /// Whether the file is removed once it has been read.
    pub remove_after: bool,
}

/// A plan for reading a polled file, as a value of the model.
pub struct ReadPlanModel {
    pub read_from: Seq<char>,
    pub rename: bool,
    pub remove_after: bool,
}

impl View for ReadPlan {
    type V = ReadPlanModel;

    open spec fn view(&self) -> ReadPlanModel {
        ReadPlanModel {
            read_from: self.read_from@,
            rename: self.rename,
            remove_after: self.remove_after,
        }
    }
}

/// The suffix that a file gets while it is read.
pub open spec fn lock_suffix(configured: Option<Seq<char>>) -> Seq<char> {
    match configured {
        Some(s) => s,
        None => "lock"@,
    }
}

/// How a polled file is read: under its own path, or, when it is to be moved
/// first, under its path followed by a dot and the lock suffix.
pub open spec fn read_plan(target: ListenModel, move_suffix: Option<Seq<char>>) -> ReadPlanModel {
    match target.flags {
        Some(flags) => ReadPlanModel {
            read_from: if flags.f_move == Some(true) {
                target.path + seq!['.'] + lock_suffix(move_suffix)
            } else {
                target.path
            },
            rename: flags.f_move == Some(true),
            remove_after: flags.f_remove_after_used == Some(true),
        },
        None => ReadPlanModel { read_from: target.path, rename: false, remove_after: false },
    }
}

/// Plans how the polled file `target` is read.
pub fn plan_read(target: &ListenConfig, move_suffix: &Option<String>) -> (r: ReadPlan)
    ensures
        r@ == read_plan(target@, opt_text(*move_suffix)),
{
    let flags = match target.flags {
        Some(flags) => flags,
        None => {
            return ReadPlan { read_from: target.path.clone(), rename: false, remove_after: false };
        },
    };
    let rename = crate::codec::is_marked(&flags.f_move);
    let remove_after = crate::codec::is_marked(&flags.f_remove_after_used);
    if !rename {
        return ReadPlan { read_from: target.path.clone(), rename, remove_after };
    }
    let mut out = to_chars(target.path.as_str());
    out.push('.');
    assert(out@ == target@.path + seq!['.']);
    match move_suffix {
        Some(s) => {
            push_str(&mut out, s.as_str());
        },
        None => {
            push_str(&mut out, "lock");
        },
    }
    assert(out@ == target@.path + seq!['.'] + lock_suffix(opt_text(*move_suffix)));
    ReadPlan { read_from: from_chars(&out), rename, remove_after }
}

/// The lines of a file in batches: as many full batches as the lines give, and
/// the rest in a last batch that is never empty unless there are no lines at
/// all; then it is the only batch.
pub open spec fn batches(lines: Seq<Seq<char>>) -> Seq<Seq<Seq<char>>>
    decreases lines.len(),
{
    if lines.len() <= BATCH_LIMIT {
        seq![lines]
    } else {
        seq![lines.take(BATCH_LIMIT as int)] + batches(lines.skip(BATCH_LIMIT as int))
    }
}

/// The data messages that carry the batches.
pub open spec fn data_messages(tag: Seq<char>, dkind: Seq<char>, lines: Seq<Seq<char>>) -> Seq<
    MessageModel,
> {
    Seq::new(
        batches(lines).len(),
        |i: int| MessageModel { tag, dkind, update_header: false, value: batches(lines)[i] },
    )
}

/// The models of a list of messages.
pub open spec fn message_models(v: Seq<MsgPayload>) -> Seq<MessageModel> {
    Seq::new(v.len(), |i: int| v[i]@)
}

/// Packs the data lines of a file into messages of at most a hundred lines,
/// in the order of the lines.
pub fn batch_lines(tag: &str, dkind: &str, lines: &Vec<String>) -> (r: Vec<MsgPayload>)
    ensures
        message_models(r@) == data_messages(tag@, dkind@, texts(lines@)),
{
    let mut out: Vec<MsgPayload> = Vec::new();
    let mut start: usize = 0;
    let ghost all = texts(lines@);
    let ghost mut done: Seq<Seq<Seq<char>>> = Seq::empty();
    assert(all.skip(0) == all);
    assert(done + batches(all) == batches(all));
    while lines.len() - start > BATCH_LIMIT
        invariant
            start <= lines.len(),
            all == texts(lines@),
            out@.len() == done.len(),
            done + batches(all.skip(start as int)) == batches(all),
            forall|i: int|
                0 <= i < out@.len() ==> (#[trigger] out@[i])@ == (MessageModel {
                    tag: tag@,
                    dkind: dkind@,
                    update_header: false,
                    value: done[i],
                }),
        decreases lines.len() - start,
    {
        let chunk = copy_range(lines, start, start + BATCH_LIMIT);
        let ghost rest = all.skip(start as int);
        assert(rest.take(BATCH_LIMIT as int) == all.subrange(start as int, start + BATCH_LIMIT));
        assert(rest.skip(BATCH_LIMIT as int) == all.skip(start + BATCH_LIMIT));
        proof {
            let old_done = done;
            done = done.push(rest.take(BATCH_LIMIT as int));
            assert(done + batches(rest.skip(BATCH_LIMIT as int)) == old_done + (seq![
                rest.take(BATCH_LIMIT as int),
            ] + batches(rest.skip(BATCH_LIMIT as int))));
        }
        out.push(MsgPayload::new(tag, dkind, chunk));
        start += BATCH_LIMIT;
    }
    let chunk = copy_range(lines, start, lines.len());
    let ghost rest = all.skip(start as int);
    assert(rest == all.subrange(start as int, lines.len() as int));
    proof {
        done = done.push(rest);
    }
    out.push(MsgPayload::new(tag, dkind, chunk));
    assert(done == batches(all));
    assert(message_models(out@) =~= data_messages(tag@, dkind@, all));
    out
}

/// A copy of the lines from `from` up to `to`.
pub fn copy_range(lines: &Vec<String>, from: usize, to: usize) -> (r: Vec<String>)
    requires
        from <= to <= lines.len(),
    ensures
        texts(r@) == texts(lines@).subrange(from as int, to as int),
{
    let mut out: Vec<String> = Vec::new();
    let mut i: usize = from;
    while i < to
        invariant
            from <= i <= to <= lines.len(),
            out@.len() == i - from,
            forall|j: int| 0 <= j < out@.len() ==> out@[j]@ == lines@[from + j]@,
        decreases to - i,
    {
        out.push(lines[i].clone());
        i += 1;
    }
    assert(texts(out@) =~= texts(lines@).subrange(from as int, to as int));
    out
}

/// The message that carries a header block.
pub open spec fn header_message(tag: Seq<char>, dkind: Seq<char>, block: Seq<Seq<char>>) -> MessageModel {
    MessageModel { tag, dkind, update_header: true, value: block }
}

/// What is sent for one reading of a polled file, and what the tracker holds
/// afterwards. A file that is to start with a header block and has too few
/// lines for it is passed over. A header block is sent, ahead of the data,
/// only when it differs from the one sent last under `key`.
pub open spec fn burst(
    m: Map<Seq<char>, HeaderModel>,
    target: ListenModel,
    key: Seq<char>,
    header: Seq<Seq<char>>,
    lines: Seq<Seq<char>>,
) -> (Map<Seq<char>, HeaderModel>, Option<Seq<MessageModel>>) {
    let data = data_messages(target.tag, target.dkind, lines);
    match target.header {
        Some(h) => if header.len() < h.number {
            (m, None)
        } else if track(m, key, header).1 {
            (
                track(m, key, header).0,
                Some(seq![header_message(target.tag, target.dkind, header)] + data),
            )
        } else {
            (m, Some(data))
        },
        None => (m, Some(data)),
    }
}

/// The models of an optional list of messages.
pub open spec fn opt_messages(v: Option<Vec<MsgPayload>>) -> Option<Seq<MessageModel>> {
    match v {
        Some(v) => Some(message_models(v@)),
        None => None,
    }
}

/// Decides what is sent for one reading of the polled file `target`:
/// `header` holds the lines read for its header block and `lines` the data
/// lines that follow. The header is tracked under `key`.
pub fn plan_burst(
    table: &mut HeaderTable,
    target: &ListenConfig,
    key: &str,
    header: &Vec<String>,
    lines: &Vec<String>,
) -> (r: Option<Vec<MsgPayload>>)
    ensures
        (final(table)@, opt_messages(r)) == burst(
            old(table)@,
            target@,
            key@,
            texts(header@),
            texts(lines@),
        ),
{
    let mut out: Vec<MsgPayload> = Vec::new();
    if let Some(h) = target.header {
        if header.len() < h.number {
            return None;
        }
        if is_update_header(table, key, header) {
            let mut msg = MsgPayload::new(
                target.tag.as_str(),
                target.dkind.as_str(),
                crate::text::copy_lines(header),
            );
            let _ = msg.set_update_header();
            out.push(msg);
        }
    }
    let ghost head = message_models(out@);
    let data = batch_lines(target.tag.as_str(), target.dkind.as_str(), lines);
    let mut i: usize = 0;
    while i < data.len()
        invariant
            i <= data.len(),
            message_models(out@) == head + message_models(data@).take(i as int),
        decreases data.len() - i,
    {
        let ghost before = message_models(out@);
        let m = data[i].clone();
        out.push(m);
        assert(message_models(out@) == before.push(m@));
        assert(message_models(data@).take(i + 1) == message_models(data@).take(i as int).push(
            data@[i as int]@,
        ));
        i += 1;
    }
    assert(message_models(data@).take(data.len() as int) == message_models(data@));
    Some(out)
}

} // verus!
