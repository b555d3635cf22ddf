//! The decisions of the reader of the instrument link.

use vstd::prelude::*;
use crate::message::{MessageModel, MsgPayload};
use crate::text::{from_chars, push_all, split_chars, split_on, texts, to_chars};

verus! {

/// Why a transmission is dropped.
#[derive(Clone, Copy, Debug, PartialEq, Eq, Structural)]
pub enum FrameError {
    /// The transmission holds no start-of-text byte.
    NoStart,
    /// The transmission holds no end-of-text character.
    NoEnd,
    /// A start-of-text character follows the end-of-text character.
    StartAfterEnd,
    /// The payload has no third field to tell the record kind.
    NoRecordKind,
}

/// The record kind of a payload: its third field.
pub open spec fn dkind_of(msg: Seq<char>) -> Option<Seq<char>> {
    let t = split_on(msg, ',');
    if t.len() > 2 {
        Some(t[2])
    } else {
        None
    }
}

/// The record kind of a payload: its third field.
pub fn get_dkind(msg: &str) -> (r: Option<String>)
    ensures
        crate::text::opt_text(r) == dkind_of(msg@),
{
    let chars = to_chars(msg);
    let tokens = split_chars(&chars, ',');
    assert(crate::text::rows(tokens@).len() == tokens@.len());
    if tokens.len() > 2 {
        assert(crate::text::rows(tokens@)[2] == tokens@[2]@);
        Some(from_chars(&tokens[2]))
    } else {
        None
    }
}

/// `i` is the first position of `c` in `s`.
pub open spec fn first_at<T>(s: Seq<T>, c: T, i: int) -> bool {
    &&& 0 <= i < s.len()
    &&& s[i] == c
    &&& forall|j: int| 0 <= j < i ==> s[j] != c
}

/// The first position of `c` in `s`.
pub fn find_char(s: &Vec<char>, c: char) -> (r: Option<usize>)
    ensures
        match r {
            Some(i) => first_at(s@, c, i as int),
            None => !s@.contains(c),
        },
{
    let mut i: usize = 0;
    while i < s.len()
        invariant
            i <= s.len(),
            forall|j: int| 0 <= j < i ==> s@[j] != c,
        decreases s.len() - i,
    {
        if s[i] == c {
            return Some(i);
        }
        i += 1;
    }
    None
}

/// The first position of the byte `b` in `s`.
pub fn find_byte(s: &Vec<u8>, b: u8) -> (r: Option<usize>)
    ensures
        match r {
            Some(i) => first_at(s@, b, i as int),
            None => !s@.contains(b),
        },
{
    let mut i: usize = 0;
    while i < s.len()
        invariant
            i <= s.len(),
            forall|j: int| 0 <= j < i ==> s@[j] != b,
        decreases s.len() - i,
    {
        if s[i] == b {
            return Some(i);
        }
        i += 1;
    }
    None
}

/// The message that carries one transmission of the instrument.
pub open spec fn transmission(payload: Seq<char>, dkind: Seq<char>) -> MessageModel {
    MessageModel { tag: "CWB"@, dkind, update_header: false, value: seq![payload] }
}

/// What a line read from the link comes to. The payload reaches up to the
/// first end-of-text character; what follows it must hold no start-of-text
/// character.
pub open spec fn framed_line(buffer: Seq<char>, r: Result<MessageModel, FrameError>) -> bool {
    match r {
        Err(FrameError::NoEnd) => !buffer.contains(crate::ETX),
        Err(FrameError::NoStart) => false,
        Err(FrameError::StartAfterEnd) => exists|e: int|
            #![trigger buffer.skip(e + 1)]
            first_at(buffer, crate::ETX, e) && buffer.skip(e + 1).contains(crate::STX),
        Err(FrameError::NoRecordKind) => exists|e: int|
            #![trigger buffer.skip(e + 1)]
            first_at(buffer, crate::ETX, e) && !buffer.skip(e + 1).contains(crate::STX)
                && dkind_of(buffer.take(e + 1)) is None,
        Ok(m) => exists|e: int|
            #![trigger buffer.skip(e + 1)]
            first_at(buffer, crate::ETX, e) && !buffer.skip(e + 1).contains(crate::STX)
                && dkind_of(buffer.take(e + 1)) is Some && m == transmission(
                buffer.take(e + 1),
                dkind_of(buffer.take(e + 1)).unwrap(),
            ),
    }
}

/// The model of a framing result.
pub open spec fn frame_model(r: Result<MsgPayload, FrameError>) -> Result<MessageModel, FrameError> {
    match r {
        Ok(m) => Ok(m@),
        Err(e) => Err(e),
    }
}

fn single_line(payload: String) -> (r: Vec<String>)
    ensures
        texts(r@) == seq![payload@],
{
    let mut v: Vec<String> = Vec::new();
    v.push(payload);
    assert(texts(v@) =~= seq![payload@]);
    v
}

/// Frames a line read from the link as a message.
pub fn frame_line(buffer: &str) -> (r: Result<MsgPayload, FrameError>)
    ensures
        framed_line(buffer@, frame_model(r)),
{
    let chars = to_chars(buffer);
    let e = match find_char(&chars, crate::ETX) {
        Some(e) => e,
        None => {
            return Err(FrameError::NoEnd);
        },
    };
    let mut rest: Vec<char> = Vec::new();
    push_all(&mut rest, &chars, e + 1, chars.len());
    assert(rest@ == buffer@.skip(e + 1));
    if find_char(&rest, crate::STX).is_some() {
        assert(buffer@.skip(e + 1).contains(crate::STX));
        return Err(FrameError::StartAfterEnd);
    }
    let mut head: Vec<char> = Vec::new();
    push_all(&mut head, &chars, 0, e + 1);
    assert(head@ == buffer@.take(e + 1));
    let payload = from_chars(&head);
    let dkind = match get_dkind(payload.as_str()) {
        Some(d) => d,
        None => {
            return Err(FrameError::NoRecordKind);
        },
    };
    let msg = MsgPayload::new("CWB", dkind.as_str(), single_line(payload));
    assert(msg@ == transmission(buffer@.take(e + 1), dkind@));
    Ok(msg)
}

/// What bytes come to when they are read as text, with every malformed
/// sequence replaced by the replacement character.
pub uninterp spec fn lossy_text(bytes: Seq<u8>) -> Seq<char>;

/// Reads bytes as text with `String::from_utf8_lossy`. The contract only names
/// the outcome: the same bytes always give the same text.
#[verifier::external_body]
pub(crate) fn decode_lossy(bytes: &Vec<u8>) -> (r: String)
    ensures
        r@ == lossy_text(bytes@),
{
    String::from_utf8_lossy(bytes).into_owned()
}

/// What the bytes of a transmission come to. The payload starts at the first
/// start-of-text byte and reaches to the end.
pub open spec fn framed_bytes(buffer: Seq<u8>, r: Result<MessageModel, FrameError>) -> bool {
    match r {
        Err(FrameError::NoStart) => !buffer.contains(2u8),
        Err(FrameError::NoRecordKind) => exists|s: int|
            #![trigger buffer.skip(s)]
            first_at(buffer, 2u8, s) && dkind_of(lossy_text(buffer.skip(s))) is None,
        Err(_) => false,
        Ok(m) => exists|s: int|
            #![trigger buffer.skip(s)]
            first_at(buffer, 2u8, s) && dkind_of(lossy_text(buffer.skip(s))) is Some && m
                == transmission(
                lossy_text(buffer.skip(s)),
                dkind_of(lossy_text(buffer.skip(s))).unwrap(),
            ),
    }
}

/// Frames the payload of a transmission, already read as text, as a message.
pub fn frame_payload(payload: String) -> (r: Result<MsgPayload, FrameError>)
    ensures
        match dkind_of(payload@) {
            Some(d) => frame_model(r) == Ok::<MessageModel, FrameError>(
                transmission(payload@, d),
            ),
            None => frame_model(r) == Err::<MessageModel, FrameError>(FrameError::NoRecordKind),
        },
{
    let dkind = match get_dkind(payload.as_str()) {
        Some(d) => d,
        None => {
            return Err(FrameError::NoRecordKind);
        },
    };
    Ok(MsgPayload::new("CWB", dkind.as_str(), single_line(payload)))
}

/// Frames the bytes of a transmission, read up to an end-of-text byte, as a
/// message.
pub fn frame_bytes(buffer: &Vec<u8>) -> (r: Result<MsgPayload, FrameError>)
    ensures
        framed_bytes(buffer@, frame_model(r)),
{
    let s = match find_byte(buffer, 2u8) {
        Some(s) => s,
        None => {
            return Err(FrameError::NoStart);
        },
    };
    let mut raw: Vec<u8> = Vec::new();
    let mut i: usize = s;
    while i < buffer.len()
        invariant
            s <= i <= buffer.len(),
            raw@ == buffer@.subrange(s as int, i as int),
        decreases buffer.len() - i,
    {
        raw.push(buffer[i]);
        i += 1;
    }
    assert(raw@ == buffer@.skip(s as int));
    frame_payload(decode_lossy(&raw))
}

} // verus!
