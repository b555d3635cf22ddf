//! The unit that travels from the sources to the sinks.

use std::sync::Arc;
use vstd::prelude::*;
use crate::text::{
    copy_lines, decimal, from_chars, lemma_decimal_digits, lemma_decimal_injective,
    lemma_decimal_len, push_all, push_decimal, push_str, texts, to_chars,
};

verus! {

/// A batch of raw lines of one record kind of one source, or one header block.
#[derive(Debug)]
pub struct MsgPayload {
    pub tag: String,
    pub dkind: String,
    /// Set when `value` is a header block and not data.
    pub update_header: bool,
    pub value: Vec<String>,
}

/// A message as a value of the model.
pub struct MessageModel {
    pub tag: Seq<char>,
    pub dkind: Seq<char>,
    pub update_header: bool,
    pub value: Seq<Seq<char>>,
}

impl View for MsgPayload {
    type V = MessageModel;

    open spec fn view(&self) -> MessageModel {
        MessageModel {
            tag: self.tag@,
            dkind: self.dkind@,
            update_header: self.update_header,
            value: texts(self.value@),
        }
    }
}

/// Why a message could not be changed. No setter fails so far; the type keeps
/// their signatures open for one that may.
#[derive(Clone, Copy, Debug, PartialEq, Eq, Structural)]
pub enum MsgError {
    /// The message does not take the change.
    Refused,
}

impl Clone for MsgPayload {
    fn clone(&self) -> (r: Self)
        ensures
            r@ == self@,
    {
        MsgPayload {
            tag: self.tag.clone(),
            dkind: self.dkind.clone(),
            update_header: self.update_header,
            value: copy_lines(&self.value),
        }
    }
}

impl MsgPayload {
    /// A data message.
    pub fn new(tag: &str, dkind: &str, value: Vec<String>) -> (r: Self)
        ensures
            r@ == (MessageModel {
                tag: tag@,
                dkind: dkind@,
                update_header: false,
                value: texts(value@),
            }),
            r.value == value,
    {
        MsgPayload {
            tag: tag.to_owned(),
            dkind: dkind.to_owned(),
            update_header: false,
            value,
        }
    }

    /// Marks the message as a header block. Nothing else changes, and the
    /// call always succeeds.
    pub fn set_update_header(&mut self) -> (r: Result<(), MsgError>)
        ensures
            r is Ok,
            final(self)@ == (MessageModel { update_header: true, ..old(self)@ }),
    {
        self.update_header = true;
        Ok(())
    }
}

/// The key under which the header of a message is tracked. It stands for the
/// pair of tag and record kind: the number of characters of the tag, an
/// underscore, the tag, an underscore and the record kind. The length in
/// front tells where the tag ends, so two different pairs never share a key.
pub open spec fn header_key(tag: Seq<char>, dkind: Seq<char>) -> Seq<char> {
    decimal(tag.len()) + seq!['_'] + tag + seq!['_'] + dkind
}

/// The key under which the header of `msg` is tracked. It depends on the tag
/// and the record kind of the message and on nothing else.
pub fn gen_headertable_key(msg: &MsgPayload) -> (r: String)
    ensures
        r@ == header_key(msg@.tag, msg@.dkind),
{
    let tag = to_chars(msg.tag.as_str());
    let mut out: Vec<char> = Vec::new();
    push_decimal(&mut out, tag.len() as u64);
    out.push('_');
    push_all(&mut out, &tag, 0, tag.len());
    assert(tag@.subrange(0, tag.len() as int) == tag@);
    out.push('_');
    push_str(&mut out, msg.dkind.as_str());
    from_chars(&out)
}

/// Different pairs of tag and record kind have different keys.
pub proof fn lemma_header_key_injective(
    tag1: Seq<char>,
    dkind1: Seq<char>,
    tag2: Seq<char>,
    dkind2: Seq<char>,
)
    requires
        header_key(tag1, dkind1) == header_key(tag2, dkind2),
    ensures
        tag1 == tag2,
        dkind1 == dkind2,
{
    let key = header_key(tag1, dkind1);
    let d1 = decimal(tag1.len());
    let d2 = decimal(tag2.len());
    lemma_decimal_digits(tag1.len());
    lemma_decimal_digits(tag2.len());
    lemma_decimal_len(tag1.len());
    lemma_decimal_len(tag2.len());
    let l1 = d1.len() as int;
    let l2 = d2.len() as int;
    assert(key[l1] == '_');
    assert(header_key(tag2, dkind2)[l2] == '_');
    assert(forall|i: int| 0 <= i < l1 ==> key[i] == d1[i]);
    assert(forall|i: int| 0 <= i < l2 ==> header_key(tag2, dkind2)[i] == d2[i]);
    if l1 < l2 {
        assert(key[l1] == d2[l1]);
    }
    if l2 < l1 {
        assert(key[l2] == d1[l2]);
    }
    assert(l1 == l2);
    assert(d1 =~= key.take(l1));
    assert(d2 =~= key.take(l1));
    lemma_decimal_injective(tag1.len(), tag2.len());
    let n = tag1.len() as int;
    assert(tag1 =~= key.subrange(l1 + 1, l1 + 1 + n));
    assert(tag2 =~= header_key(tag2, dkind2).subrange(l1 + 1, l1 + 1 + n));
    assert(dkind1 =~= key.skip(l1 + n + 2));
    assert(dkind2 =~= header_key(tag2, dkind2).skip(l1 + n + 2));
}

/// Makes another handle to a shared message with `Arc::clone`: the new handle
/// points to the same message.
#[verifier::external_body]
pub(crate) fn share(msg: &Arc<MsgPayload>) -> (r: Arc<MsgPayload>)
    ensures
        r == *msg,
{
    Arc::clone(msg)
}

/// One handle to `msg` for each of `sinks` sinks, in the order of the sinks.
/// Every sink gets the message once, and gets it as it came in.
pub fn fan_out(msg: &Arc<MsgPayload>, sinks: usize) -> (out: Vec<Arc<MsgPayload>>)
    ensures
        out@.len() == sinks,
        forall|i: int| 0 <= i < sinks ==> #[trigger] out@[i] == *msg,
{
    let mut out: Vec<Arc<MsgPayload>> = Vec::new();
    let mut i: usize = 0;
    while i < sinks
        invariant
            i <= sinks,
            out@.len() == i,
            forall|j: int| 0 <= j < i ==> #[trigger] out@[j] == *msg,
        decreases sinks - i,
    {
        out.push(share(msg));
        i += 1;
    }
    out
}

} // verus!
