//! Detection of header changes by content hash.

use vstd::prelude::*;
use crate::text::{copy_lines, same_text, texts, to_chars};

verus! {

/// The value a hash starts from.
pub const HASH_BASIS: u64 = 0xcbf29ce484222325;

/// The multiplier of one hashing step.
pub const HASH_PRIME: u64 = 0x100000001b3;

/// The value that closes a line in the hash of a header block.
pub const LINE_END: u64 = 0x110000;

/// One hashing step.
pub open spec fn mix(h: u64, x: u64) -> u64 {
    vstd::wrapping::u64_specs::wrapping_mul(h ^ x, HASH_PRIME)
}

/// The number that stands for a character in the hash.
pub open spec fn code(c: char) -> u64 {
    c as u32 as u64
}

/// The hash of a text, continued from `h`.
pub open spec fn hash_text(h: u64, s: Seq<char>) -> u64
    decreases s.len(),
{
    if s.len() == 0 {
        h
    } else {
        mix(hash_text(h, s.drop_last()), code(s.last()))
    }
}

/// The hash of a list of lines, continued from `h`.
pub open spec fn hash_lines(h: u64, lines: Seq<Seq<char>>) -> u64
    decreases lines.len(),
{
    if lines.len() == 0 {
        h
    } else {
        mix(hash_text(hash_lines(h, lines.drop_last()), lines.last()), LINE_END)
    }
}

/// The content hash of a header block.
pub open spec fn content_hash(lines: Seq<Seq<char>>) -> u64 {
    hash_lines(HASH_BASIS, lines)
}

fn step(h: u64, x: u64) -> (r: u64)
    ensures
        r == mix(h, x),
{
    (h ^ x).wrapping_mul(HASH_PRIME)
}

fn hash_line(h: u64, line: &str) -> (r: u64)
    ensures
        r == hash_text(h, line@),
{
    let chars = to_chars(line);
    let mut acc = h;
    let mut i: usize = 0;
    assert(chars@.take(0) == Seq::<char>::empty());
    while i < chars.len()
        invariant
            i <= chars.len(),
            acc == hash_text(h, chars@.take(i as int)),
        decreases chars.len() - i,
    {
        let c = chars[i];
        assert(chars@.take(i + 1).drop_last() == chars@.take(i as int));
        assert(chars@.take(i + 1).last() == c);
        acc = step(acc, c as u32 as u64);
        i += 1;
    }
    assert(chars@.take(chars.len() as int) == chars@);
    acc
}

/// The content hash of a header block.
pub fn cal_hash(lines: &Vec<String>) -> (r: u64)
    ensures
        r == content_hash(texts(lines@)),
{
    let mut acc = HASH_BASIS;
    let mut i: usize = 0;
    assert(texts(lines@).take(0) == Seq::<Seq<char>>::empty());
    while i < lines.len()
        invariant
            i <= lines.len(),
            acc == hash_lines(HASH_BASIS, texts(lines@).take(i as int)),
        decreases lines.len() - i,
    {
        assert(texts(lines@).take(i + 1).drop_last() == texts(lines@).take(i as int));
        assert(texts(lines@).take(i + 1).last() == lines@[i as int]@);
        acc = hash_line(acc, lines[i].as_str());
        acc = step(acc, LINE_END);
        i += 1;
    }
    assert(texts(lines@).take(lines.len() as int) == texts(lines@));
    acc
}

/// What a sink remembers of the header of one key.
#[derive(Debug)]
pub struct HeaderTableValue {
    pub hash: u64,
    pub header: Vec<String>,
    /// Set while the header has changed and has not been written out yet.
    pub is_update: bool,
}

/// What is remembered of a header, as a value of the model.
pub struct HeaderModel {
    pub hash: u64,
    pub header: Seq<Seq<char>>,
    pub is_update: bool,
}

impl View for HeaderTableValue {
    type V = HeaderModel;

    open spec fn view(&self) -> HeaderModel {
        HeaderModel { hash: self.hash, header: texts(self.header@), is_update: self.is_update }
    }
}

#[derive(Debug)]
struct Entry {
    key: String,
    value: HeaderTableValue,
}

/// The headers that one sink tracks, by key. A key occurs at most once.
#[derive(Debug)]
pub struct HeaderTable {
    entries: Vec<Entry>,
}

spec fn key_at(entries: Seq<Entry>, key: Seq<char>, i: int) -> bool {
    0 <= i < entries.len() && entries[i].key@ == key
}

spec fn distinct_keys(entries: Seq<Entry>) -> bool {
    forall|i: int, j: int|
        0 <= i < entries.len() && 0 <= j < entries.len() && (#[trigger] entries[i]).key@ == (
        #[trigger] entries[j]).key@ ==> i == j
}

spec fn as_map(entries: Seq<Entry>) -> Map<Seq<char>, HeaderModel> {
    Map::new(
        |k: Seq<char>| exists|i: int| key_at(entries, k, i),
        |k: Seq<char>| entries[choose|i: int| key_at(entries, k, i)].value@,
    )
}

impl View for HeaderTable {
    type V = Map<Seq<char>, HeaderModel>;

    closed spec fn view(&self) -> Map<Seq<char>, HeaderModel> {
        as_map(self.entries@)
    }
}

/// The table after a header block has been offered for `key`, and whether the
/// header changed: it did unless the key is tracked with the same hash. A
/// changed header is stored and marked as not yet written out.
pub open spec fn track(
    m: Map<Seq<char>, HeaderModel>,
    key: Seq<char>,
    lines: Seq<Seq<char>>,
) -> (Map<Seq<char>, HeaderModel>, bool) {
    let h = content_hash(lines);
    if m.contains_key(key) && m[key].hash == h {
        (m, false)
    } else {
        (m.insert(key, HeaderModel { hash: h, header: lines, is_update: true }), true)
    }
}

/// The table after the header of `key` has been written out.
pub open spec fn settled(m: Map<Seq<char>, HeaderModel>, key: Seq<char>) -> Map<
    Seq<char>,
    HeaderModel,
> {
    if m.contains_key(key) {
        m.insert(key, HeaderModel { is_update: false, ..m[key] })
    } else {
        m
    }
}

impl HeaderTable {
    #[verifier::type_invariant]
    spec fn inv(&self) -> bool {
        distinct_keys(self.entries@)
    }

    /// A table that tracks nothing.
    pub fn new() -> (r: Self)
        ensures
            r@ == Map::<Seq<char>, HeaderModel>::empty(),
    {
        let r = HeaderTable { entries: Vec::new() };
        assert(r@ =~= Map::<Seq<char>, HeaderModel>::empty());
        r
    }

    /// Moves the entries out and leaves an empty table behind.
    fn take_entries(&mut self) -> (r: Vec<Entry>)
        ensures
            r == old(self).entries,
    {
        let mut taken = HeaderTable { entries: Vec::new() };
        core::mem::swap(self, &mut taken);
        let HeaderTable { entries } = taken;
        entries
    }

    fn position(&self, key: &str) -> (r: Option<usize>)
        ensures
            match r {
                Some(i) => key_at(self.entries@, key@, i as int),
                None => forall|i: int| !key_at(self.entries@, key@, i),
            },
    {
        let mut i: usize = 0;
        while i < self.entries.len()
            invariant
                i <= self.entries.len(),
                forall|j: int| 0 <= j < i ==> !key_at(self.entries@, key@, j),
            decreases self.entries.len() - i,
        {
            if same_text(self.entries[i].key.as_str(), key) {
                return Some(i);
            }
            i += 1;
        }
        None
    }

    /// What is remembered of `key`, if it is tracked.
    pub fn get(&self, key: &str) -> (r: Option<&HeaderTableValue>)
        ensures
            match r {
                Some(v) => self@.contains_key(key@) && v@ == self@[key@],
                None => !self@.contains_key(key@),
            },
    {
        proof {
            use_type_invariant(self);
        }
        match self.position(key) {
            Some(i) => {
                proof {
                    let k = choose|k: int| key_at(self.entries@, key@, k);
                    assert(k == i);
                }
                Some(&self.entries[i].value)
            },
            None => None,
        }
    }

    /// Marks the header of `key` as written out. An untracked key changes
    /// nothing.
    pub fn settle(&mut self, key: &str)
        ensures
            final(self)@ == settled(old(self)@, key@),
    {
        proof {
            use_type_invariant(&*self);
        }
        match self.position(key) {
            Some(i) => {
                let ghost before = self.entries@;
                let e = &self.entries[i];
                let fresh = Entry {
                    key: e.key.clone(),
                    value: HeaderTableValue {
                        hash: e.value.hash,
                        header: copy_lines(&e.value.header),
                        is_update: false,
                    },
                };
                proof {
                    lemma_lookup(before, i as int);
                }
                let mut entries = self.take_entries();
                entries.set(i, fresh);
                proof {
                    lemma_replace(before, entries@, i as int);
                }
                *self = HeaderTable { entries };
            },
            None => {},
        }
    }
}

proof fn lemma_lookup(entries: Seq<Entry>, i: int)
    requires
        distinct_keys(entries),
        0 <= i < entries.len(),
    ensures
        as_map(entries).contains_key(entries[i].key@),
        as_map(entries)[entries[i].key@] == entries[i].value@,
{
    let key = entries[i].key@;
    assert(key_at(entries, key, i));
    let k = choose|k: int| key_at(entries, key, k);
    assert(k == i);
}

proof fn lemma_replace(before: Seq<Entry>, after: Seq<Entry>, i: int)
    requires
        distinct_keys(before),
        0 <= i < before.len(),
        after.len() == before.len(),
        after[i].key@ == before[i].key@,
        forall|j: int| 0 <= j < before.len() && j != i ==> after[j] == before[j],
    ensures
        distinct_keys(after),
        as_map(after) =~= as_map(before).insert(before[i].key@, after[i].value@),
{
    assert forall|a: int, b: int|
        0 <= a < after.len() && 0 <= b < after.len() && (#[trigger] after[a]).key@ == (
        #[trigger] after[b]).key@ implies a == b by {
        assert(before[a].key@ == after[a].key@);
        assert(before[b].key@ == after[b].key@);
    }
    let target = as_map(before).insert(before[i].key@, after[i].value@);
    assert forall|k: Seq<char>| as_map(after).contains_key(k) <==> target.contains_key(k) by {
        if as_map(after).contains_key(k) {
            let a = choose|a: int| key_at(after, k, a);
            assert(before[a].key@ == after[a].key@);
            assert(key_at(before, k, a));
        }
        if target.contains_key(k) {
            if k == before[i].key@ {
                assert(key_at(after, k, i));
            } else {
                let a = choose|a: int| key_at(before, k, a);
                assert(before[a].key@ == after[a].key@);
                assert(key_at(after, k, a));
            }
        }
    }
    assert forall|k: Seq<char>| as_map(after).contains_key(k) implies as_map(after)[k]
        == target[k] by {
        let a = choose|a: int| key_at(after, k, a);
        assert(before[a].key@ == after[a].key@);
        lemma_lookup(after, a);
        if a != i {
            lemma_lookup(before, a);
        }
    }
}

proof fn lemma_append(before: Seq<Entry>, e: Entry)
    requires
        distinct_keys(before),
        forall|j: int| !key_at(before, e.key@, j),
    ensures
        distinct_keys(before.push(e)),
        as_map(before.push(e)) =~= as_map(before).insert(e.key@, e.value@),
{
    let after = before.push(e);
    assert forall|a: int, b: int|
        0 <= a < after.len() && 0 <= b < after.len() && (#[trigger] after[a]).key@ == (
        #[trigger] after[b]).key@ implies a == b by {
        if a < before.len() {
            assert(key_at(before, after[a].key@, a));
        }
        if b < before.len() {
            assert(key_at(before, after[b].key@, b));
        }
    }
    let target = as_map(before).insert(e.key@, e.value@);
    assert forall|k: Seq<char>| as_map(after).contains_key(k) <==> target.contains_key(k) by {
        if as_map(after).contains_key(k) {
            let a = choose|a: int| key_at(after, k, a);
            if a < before.len() {
                assert(key_at(before, k, a));
            }
        }
        if target.contains_key(k) {
            if k == e.key@ {
                assert(key_at(after, k, before.len() as int));
            } else {
                let a = choose|a: int| key_at(before, k, a);
                assert(key_at(after, k, a));
            }
        }
    }
    assert forall|k: Seq<char>| as_map(after).contains_key(k) implies as_map(after)[k]
        == target[k] by {
        let a = choose|a: int| key_at(after, k, a);
        lemma_lookup(after, a);
        if a < before.len() {
            assert(after[a] == before[a]);
            lemma_lookup(before, a);
        }
    }
}

/// Offers a header block for `key` and tells whether the header changed.
///
/// The header is unchanged when the key is tracked with the hash of the new
/// block; the table then stays as it is. Otherwise the block and its hash are
/// stored under the key and marked as not yet written out.
pub fn is_update_header(table: &mut HeaderTable, key: &str, header: &Vec<String>) -> (r: bool)
    ensures
        (final(table)@, r) == track(old(table)@, key@, texts(header@)),
{
    proof {
        use_type_invariant(&*table);
    }
    let hash = cal_hash(header);
    let ghost before = table.entries@;
    match table.position(key) {
        Some(i) => {
            proof {
                lemma_lookup(before, i as int);
            }
            if table.entries[i].value.hash == hash {
                return false;
            }
            let fresh = Entry {
                key: key.to_owned(),
                value: HeaderTableValue { hash, header: copy_lines(header), is_update: true },
            };
            let mut entries = table.take_entries();
            entries.set(i, fresh);
            proof {
                lemma_replace(before, entries@, i as int);
            }
            *table = HeaderTable { entries };
            true
        },
        None => {
            let fresh = Entry {
                key: key.to_owned(),
                value: HeaderTableValue { hash, header: copy_lines(header), is_update: true },
            };
            let ghost added = fresh;
            let mut entries = table.take_entries();
            entries.push(fresh);
            proof {
                lemma_append(before, added);
                assert(!as_map(before).contains_key(key@));
            }
            *table = HeaderTable { entries };
            true
        },
    }
}

/// What a sink does to the file of a key before it appends data.
#[derive(Debug)]
pub enum HeaderAction {
    /// The file stays as it is.
    Keep,
    /// The file is created with these header lines.
    Create(Vec<String>),
    /// The file is renamed aside and created anew with these header lines.
    RotateThenCreate(Vec<String>),
}

/// What is due to a file, as a value of the model.
pub enum HeaderPlan {
    Keep,
    Create(Seq<Seq<char>>),
    RotateThenCreate(Seq<Seq<char>>),
}

impl View for HeaderAction {
    type V = HeaderPlan;

    open spec fn view(&self) -> HeaderPlan {
        match self {
            HeaderAction::Keep => HeaderPlan::Keep,
            HeaderAction::Create(h) => HeaderPlan::Create(texts(h@)),
            HeaderAction::RotateThenCreate(h) => HeaderPlan::RotateThenCreate(texts(h@)),
        }
    }
}

/// What is due to the file of `key` before data is appended to it.
///
/// A missing file is created, with the tracked header if there is one and
/// without a header otherwise. A file that exists is renamed aside and created
/// anew when the tracked header has changed and has not been written out; else
/// it stays.
pub open spec fn header_plan(m: Map<Seq<char>, HeaderModel>, key: Seq<char>, exists: bool) -> HeaderPlan {
    if m.contains_key(key) {
        if !exists {
            HeaderPlan::Create(m[key].header)
        } else if m[key].is_update {
            HeaderPlan::RotateThenCreate(m[key].header)
        } else {
            HeaderPlan::Keep
        }
    } else {
        if !exists {
            HeaderPlan::Create(Seq::empty())
        } else {
            HeaderPlan::Keep
        }
    }
}

/// Decides what is due to the file of `key` before data is appended to it,
/// given whether the file exists.
pub fn plan_header_file(table: &HeaderTable, key: &str, exists: bool) -> (r: HeaderAction)
    ensures
        r@ == header_plan(table@, key@, exists),
{
    match table.get(key) {
        Some(v) => {
            if !exists {
                HeaderAction::Create(copy_lines(&v.header))
            } else if v.is_update {
                HeaderAction::RotateThenCreate(copy_lines(&v.header))
            } else {
                HeaderAction::Keep
            }
        },
        None => {
            if !exists {
                let none: Vec<String> = Vec::new();
                assert(texts(none@) =~= Seq::<Seq<char>>::empty());
                HeaderAction::Create(none)
            } else {
                HeaderAction::Keep
            }
        },
    }
}

/// The same header offered twice is unchanged the second time: the table stays
/// as it is, and once the header has been written out nothing is due to a file
/// that exists.
pub proof fn lemma_same_header_twice(
    m: Map<Seq<char>, HeaderModel>,
    key: Seq<char>,
    lines: Seq<Seq<char>>,
)
    ensures
        track(track(m, key, lines).0, key, lines) == (track(m, key, lines).0, false),
        header_plan(
            track(settled(track(m, key, lines).0, key), key, lines).0,
            key,
            true,
        ) is Keep,
{
    let m1 = track(m, key, lines).0;
    assert(m1.contains_key(key) && m1[key].hash == content_hash(lines));
    let m2 = settled(m1, key);
    assert(m2.contains_key(key) && m2[key].hash == content_hash(lines));
}

/// A header whose hash differs from the tracked one causes exactly one
/// rotation: the header is reported as changed, the file that exists is
/// renamed aside and created with the new header, and once that is done the
/// same header is unchanged and nothing more is due to the file.
pub proof fn lemma_changed_header_rotates_once(
    m: Map<Seq<char>, HeaderModel>,
    key: Seq<char>,
    lines: Seq<Seq<char>>,
)
    requires
        m.contains_key(key),
        m[key].hash != content_hash(lines),
    ensures
        track(m, key, lines).1,
        header_plan(track(m, key, lines).0, key, true) == HeaderPlan::RotateThenCreate(lines),
        track(settled(track(m, key, lines).0, key), key, lines) == (
            settled(track(m, key, lines).0, key),
            false,
        ),
        header_plan(settled(track(m, key, lines).0, key), key, true) is Keep,
{
    let m1 = track(m, key, lines).0;
    assert(m1.contains_key(key) && m1[key].hash == content_hash(lines));
    let m2 = settled(m1, key);
    assert(m2.contains_key(key) && m2[key].hash == content_hash(lines));
}

/// Offering a header for one key leaves every other key as it was.
pub proof fn lemma_track_other_keys(
    m: Map<Seq<char>, HeaderModel>,
    key: Seq<char>,
    lines: Seq<Seq<char>>,
    other: Seq<char>,
)
    requires
        other != key,
    ensures
        track(m, key, lines).0.contains_key(other) == m.contains_key(other),
        m.contains_key(other) ==> track(m, key, lines).0[other] == m[other],
{
}

} // verus!
