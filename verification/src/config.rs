//! The configuration of a running system.

use vstd::prelude::*;
use crate::codec::CodecConfigBase;
use crate::text::same_text;

verus! {

/// The serial device that the instrument is read from.
#[derive(Debug)]
pub struct SerialPortConfig {
    pub path: String,
    pub baudrate: u32,
}

/// What is done to a polled file around reading it.
#[derive(Clone, Copy, Debug, PartialEq, Eq, Structural)]
pub struct ListenConfigFlags {
    pub f_move: Option<bool>,
    pub f_remove_after_used: Option<bool>,
}

/// The header block of a polled file.
#[derive(Clone, Copy, Debug, PartialEq, Eq, Structural)]
pub struct ListenConfigHeader {
    /// The number of lines that the header block has.
    pub number: usize,
}

/// One polled file.
#[derive(Debug)]
pub struct ListenConfig {
    pub name: String,
    pub path: String,
    pub ftype: String,
    pub tag: String,
    pub dkind: String,
    pub header: Option<ListenConfigHeader>,
    pub flags: Option<ListenConfigFlags>,
}

/// A polled file as a value of the model.
pub struct ListenModel {
    pub name: Seq<char>,
    pub path: Seq<char>,
    pub ftype: Seq<char>,
    pub tag: Seq<char>,
    pub dkind: Seq<char>,
    pub header: Option<ListenConfigHeader>,
    pub flags: Option<ListenConfigFlags>,
}

impl View for ListenConfig {
    type V = ListenModel;

    open spec fn view(&self) -> ListenModel {
        ListenModel {
            name: self.name@,
            path: self.path@,
            ftype: self.ftype@,
            tag: self.tag@,
            dkind: self.dkind@,
            header: self.header,
            flags: self.flags,
        }
    }
}

impl Clone for ListenConfig {
    fn clone(&self) -> (r: Self)
        ensures
            r@ == self@,
    {
        ListenConfig {
            name: self.name.clone(),
            path: self.path.clone(),
            ftype: self.ftype.clone(),
            tag: self.tag.clone(),
            dkind: self.dkind.clone(),
            header: self.header,
            flags: self.flags,
        }
    }
}

/// What holds for the system as a whole.
#[derive(Debug)]
pub struct GlobalConfig {
    pub log4rs_cfg: String,
    pub serial_port: SerialPortConfig,
    pub listen_move_suffix: Option<String>,
    pub listen_list: Option<Vec<ListenConfig>>,
}

/// The whole configuration: the global part and one schema per source. The
/// schemas stand in a list; a message finds its schema by its tag.
#[derive(Debug)]
pub struct SystemConfig {
    pub global: GlobalConfig,
    pub codec: Vec<CodecConfigBase>,
}

/// `i` is the first schema of `codec` with the tag `tag`.
pub open spec fn first_tagged(codec: Seq<CodecConfigBase>, tag: Seq<char>, i: int) -> bool {
    &&& 0 <= i < codec.len()
    &&& codec[i].tag@ == tag
    &&& forall|j: int| 0 <= j < i ==> (#[trigger] codec[j]).tag@ != tag
}

/// No schema of `codec` has the tag `tag`.
pub open spec fn none_tagged(codec: Seq<CodecConfigBase>, tag: Seq<char>) -> bool {
    forall|j: int| 0 <= j < codec.len() ==> (#[trigger] codec[j]).tag@ != tag
}

/// No two schemas of `codec` share a tag.
pub open spec fn unique_tags(codec: Seq<CodecConfigBase>) -> bool {
    forall|i: int, j: int|
        0 <= i < codec.len() && 0 <= j < codec.len() && (#[trigger] codec[i]).tag@ == (
        #[trigger] codec[j]).tag@ ==> i == j
}

impl SystemConfig {
    /// The configuration is well formed when every tag names one schema.
    pub open spec fn wf(&self) -> bool {
        unique_tags(self.codec@)
    }

    /// The schema of the source `tag`: the match is exact.
    pub fn find_codec(&self, tag: &str) -> (r: Option<&CodecConfigBase>)
        ensures
            match r {
                Some(c) => exists|i: int|
                    first_tagged(self.codec@, tag@, i) && *c == #[trigger] self.codec@[i],
                None => none_tagged(self.codec@, tag@),
            },
    {
        let mut i: usize = 0;
        while i < self.codec.len()
            invariant
                i <= self.codec.len(),
                forall|j: int| 0 <= j < i ==> (#[trigger] self.codec@[j]).tag@ != tag@,
            decreases self.codec.len() - i,
        {
            if same_text(self.codec[i].tag.as_str(), tag) {
                assert(first_tagged(self.codec@, tag@, i as int));
                return Some(&self.codec[i]);
            }
            i += 1;
        }
        None
    }

    /// Whether no two schemas share a tag.
    pub fn has_unique_tags(&self) -> (r: bool)
        ensures
            r == self.wf(),
    {
        let mut i: usize = 0;
        while i < self.codec.len()
            invariant
                i <= self.codec.len(),
                forall|a: int, b: int|
                    0 <= a < i && 0 <= b < self.codec.len() && (#[trigger] self.codec@[a]).tag@ == (
                    #[trigger] self.codec@[b]).tag@ ==> a == b,
            decreases self.codec.len() - i,
        {
            let mut j: usize = 0;
            while j < self.codec.len()
                invariant
                    i < self.codec.len(),
                    j <= self.codec.len(),
                    forall|b: int|
                        0 <= b < j && self.codec@[i as int].tag@ == (#[trigger] self.codec@[b]).tag@
                            ==> i == b,
                decreases self.codec.len() - j,
            {
                if j != i && same_text(self.codec[i].tag.as_str(), self.codec[j].tag.as_str()) {
                    return false;
                }
                j += 1;
            }
            i += 1;
        }
        true
    }
}

/// Why a configuration is refused.
#[derive(Clone, Copy, Debug, PartialEq, Eq, Structural)]
pub enum ConfigError {
    /// Two sources share a tag.
    DuplicateTag,
    /// A record kind marks more than one field as its primary timestamp.
    ManyTimestamps,
}

/// Every record kind of the first `n` sources marks at most one field as its
/// primary timestamp.
pub open spec fn records_wf(codec: Seq<CodecConfigBase>, n: int) -> bool {
    forall|i: int, k: int|
        0 <= i < n && 0 <= k < codec[i].metadatas@.len() ==> (
        #[trigger] codec[i].metadatas@[k]).wf()
}

impl SystemConfig {
    /// Checks the configuration as a whole: every tag names one source, and
    /// every record kind has at most one primary timestamp.
    pub fn validate(&self) -> (r: Result<(), ConfigError>)
        ensures
            r == if !self.wf() {
                Err::<(), ConfigError>(ConfigError::DuplicateTag)
            } else if !records_wf(self.codec@, self.codec@.len() as int) {
                Err(ConfigError::ManyTimestamps)
            } else {
                Ok(())
            },
    {
        if !self.has_unique_tags() {
            return Err(ConfigError::DuplicateTag);
        }
        let mut i: usize = 0;
        while i < self.codec.len()
            invariant
                i <= self.codec.len(),
                self.wf(),
                records_wf(self.codec@, i as int),
            decreases self.codec.len() - i,
        {
            let source = &self.codec[i];
            let mut k: usize = 0;
            while k < source.metadatas.len()
                invariant
                    i < self.codec.len(),
                    self.wf(),
                    *source == self.codec@[i as int],
                    k <= source.metadatas.len(),
                    records_wf(self.codec@, i as int),
                    forall|j: int| 0 <= j < k ==> (#[trigger] source.metadatas@[j]).wf(),
                decreases source.metadatas.len() - k,
            {
                if !source.metadatas[k].has_single_primary() {
                    assert(!self.codec@[i as int].metadatas@[k as int].wf());
                    assert(!records_wf(self.codec@, self.codec@.len() as int));
                    return Err(ConfigError::ManyTimestamps);
                }
                k += 1;
            }
            i += 1;
        }
        Ok(())
    }
}

} // verus!
