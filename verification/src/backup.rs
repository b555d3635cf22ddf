//! Names under which a file is set aside before it is replaced.

use vstd::prelude::*;
use crate::text::{
    contains_text, decimal, from_chars, lemma_decimal_injective, lemma_decimal_len, push_all,
    push_decimal, texts, to_chars,
};

verus! {

/// The first number that is not tried any more.
pub const BACKUP_LIMIT: u32 = 100;

/// Why no backup name could be chosen.
#[derive(Clone, Copy, Debug, PartialEq, Eq, Structural)]
pub enum BackupError {
    /// Every name from the first to the last number is taken.
    Exhausted,
}

/// Where the file name starts in a path: after the last `/`, or at the start.
pub open spec fn name_start(path: Seq<char>) -> int
    decreases path.len(),
{
    if path.len() == 0 {
        0
    } else if path.last() == '/' {
        path.len() as int
    } else {
        name_start(path.drop_last())
    }
}

/// The last position of a `.` that lies after `lo` and before `hi`.
pub open spec fn last_dot(path: Seq<char>, lo: int, hi: int) -> Option<int>
    decreases hi - lo,
{
    if hi <= lo + 1 {
        None
    } else if path[hi - 1] == '.' {
        Some(hi - 1)
    } else {
        last_dot(path, lo, hi - 1)
    }
}

/// Where the extension starts in a path: at the last `.` of the file name
/// that is not its first character, or at the end if there is none. The stem
/// is what stands before it.
pub open spec fn ext_start(path: Seq<char>) -> int {
    match last_dot(path, name_start(path), path.len() as int) {
        Some(i) => i,
        None => path.len() as int,
    }
}

/// The `n`-th backup name of a path: the stem, an underscore, the number, and
/// the extension as it was.
pub open spec fn candidate(path: Seq<char>, n: nat) -> Seq<char> {
    let e = ext_start(path);
    path.take(e) + seq!['_'] + decimal(n) + path.skip(e)
}

proof fn lemma_name_start_bounds(path: Seq<char>)
    ensures
        0 <= name_start(path) <= path.len(),
    decreases path.len(),
{
    if path.len() > 0 && path.last() != '/' {
        lemma_name_start_bounds(path.drop_last());
    }
}

proof fn lemma_last_dot_bounds(path: Seq<char>, lo: int, hi: int)
    requires
        0 <= lo,
        hi <= path.len(),
    ensures
        match last_dot(path, lo, hi) {
            Some(i) => lo < i < hi,
            None => true,
        },
    decreases hi - lo,
{
    if hi > lo + 1 && path[hi - 1] != '.' {
        lemma_last_dot_bounds(path, lo, hi - 1);
    }
}

/// The extension starts inside the path or at its end.
pub proof fn lemma_ext_start_bounds(path: Seq<char>)
    ensures
        0 <= ext_start(path) <= path.len(),
{
    lemma_name_start_bounds(path);
    lemma_last_dot_bounds(path, name_start(path), path.len() as int);
}

fn find_name_start(path: &Vec<char>) -> (r: usize)
    ensures
        r == name_start(path@),
        r <= path.len(),
{
    let mut i: usize = path.len();
    assert(path@.take(i as int) == path@);
    while i > 0
        invariant
            i <= path.len(),
            name_start(path@) == name_start(path@.take(i as int)),
        decreases i,
    {
        if path[i - 1] == '/' {
            return i;
        }
        assert(path@.take(i as int).drop_last() == path@.take(i - 1));
        i -= 1;
    }
    i
}

fn find_ext_start(path: &Vec<char>) -> (r: usize)
    ensures
        r == ext_start(path@),
        r <= path.len(),
{
    let lo = find_name_start(path);
    let mut i: usize = path.len();
    while i - lo > 1
        invariant
            lo <= i <= path.len(),
            lo == name_start(path@),
            last_dot(path@, lo as int, path.len() as int) == last_dot(path@, lo as int, i as int),
        decreases i,
    {
        if path[i - 1] == '.' {
            return i - 1;
        }
        i -= 1;
    }
    path.len()
}

/// The `n`-th backup name of `path`.
pub fn backup_candidate(path: &str, n: u32) -> (r: String)
    ensures
        r@ == candidate(path@, n as nat),
{
    let chars = to_chars(path);
    let e = find_ext_start(&chars);
    let mut out: Vec<char> = Vec::new();
    push_all(&mut out, &chars, 0, e);
    out.push('_');
    push_decimal(&mut out, n as u64);
    push_all(&mut out, &chars, e, chars.len());
    assert(chars@.subrange(0, e as int) == path@.take(e as int));
    assert(chars@.subrange(e as int, chars.len() as int) == path@.skip(e as int));
    assert(out@ == candidate(path@, n as nat));
    from_chars(&out)
}

/// `n` is the number of the backup name to use: the smallest from 1 up to the
/// limit whose name is not taken.
pub open spec fn first_free(path: Seq<char>, taken: Seq<Seq<char>>, n: nat) -> bool {
    &&& 1 <= n < BACKUP_LIMIT
    &&& !taken.contains(candidate(path, n))
    &&& forall|m: nat| 1 <= m < n ==> taken.contains(#[trigger] candidate(path, m))
}

/// Every backup name up to the limit is taken.
pub open spec fn all_taken(path: Seq<char>, taken: Seq<Seq<char>>) -> bool {
    forall|m: nat| 1 <= m < BACKUP_LIMIT ==> taken.contains(#[trigger] candidate(path, m))
}

/// Chooses the name under which `path` is set aside, given the names that
/// exist already: the backup name with the smallest number that is free. When
/// every number below the limit is taken there is no name.
pub fn choose_backup_name(path: &str, existing: &Vec<String>) -> (r: Result<String, BackupError>)
    ensures
        match r {
            Ok(name) => exists|n: nat|
                first_free(path@, texts(existing@), n) && name@ == #[trigger] candidate(path@, n),
            Err(e) => e == BackupError::Exhausted && all_taken(path@, texts(existing@)),
        },
{
    let mut n: u32 = 1;
    while n < BACKUP_LIMIT
        invariant
            1 <= n <= BACKUP_LIMIT,
            forall|m: nat| 1 <= m < n ==> texts(existing@).contains(#[trigger] candidate(path@, m)),
        decreases BACKUP_LIMIT - n,
    {
        let name = backup_candidate(path, n);
        if !contains_text(existing, name.as_str()) {
            assert(first_free(path@, texts(existing@), n as nat));
            return Ok(name);
        }
        n += 1;
    }
    Err(BackupError::Exhausted)
}

/// Backup names do not collide: different numbers give different names, and
/// no backup name is the path itself.
pub proof fn lemma_candidates_distinct(path: Seq<char>, a: nat, b: nat)
    ensures
        candidate(path, a) == candidate(path, b) ==> a == b,
        candidate(path, a) != path,
{
    lemma_ext_start_bounds(path);
    lemma_decimal_len(a);
    let e = ext_start(path);
    let ca = candidate(path, a);
    let cb = candidate(path, b);
    assert(ca.len() == path.len() + 1 + decimal(a).len());
    assert(cb.len() == path.len() + 1 + decimal(b).len());
    if ca == cb {
        let k = decimal(a).len() as int;
        assert(ca.subrange(e + 1, e + 1 + k) == decimal(a));
        assert(cb.subrange(e + 1, e + 1 + k) == decimal(b));
        lemma_decimal_injective(a, b);
    }
}

/// The choice is settled by the names that are taken: two numbers that both
/// are the first free one are the same number.
pub proof fn lemma_first_free_unique(path: Seq<char>, taken: Seq<Seq<char>>, a: nat, b: nat)
    requires
        first_free(path, taken, a),
        first_free(path, taken, b),
    ensures
        a == b,
{
    if a < b {
        assert(taken.contains(candidate(path, a)));
    }
    if b < a {
        assert(taken.contains(candidate(path, b)));
    }
}

/// The numbers only grow: when more names are taken, the first free number is
/// not smaller than before.
pub proof fn lemma_first_free_monotonic(
    path: Seq<char>,
    taken: Seq<Seq<char>>,
    more: Seq<Seq<char>>,
    a: nat,
    b: nat,
)
    requires
        forall|s: Seq<char>| taken.contains(s) ==> more.contains(s),
        first_free(path, taken, a),
        first_free(path, more, b),
    ensures
        a <= b,
{
    if b < a {
        assert(taken.contains(candidate(path, b)));
    }
}

/// After a backup under the first free name, the next backup takes a later
/// number and leaves the earlier backup alone.
pub proof fn lemma_next_backup_is_later(path: Seq<char>, taken: Seq<Seq<char>>, a: nat, b: nat)
    requires
        first_free(path, taken, a),
        first_free(path, taken.push(candidate(path, a)), b),
    ensures
        a < b,
        candidate(path, b) != candidate(path, a),
{
    let more = taken.push(candidate(path, a));
    assert(more[taken.len() as int] == candidate(path, a));
    assert(more.contains(candidate(path, a)));
    assert forall|s: Seq<char>| taken.contains(s) implies more.contains(s) by {
        let i = choose|i: int| 0 <= i < taken.len() && taken[i] == s;
        assert(more[i] == s);
    }
    lemma_first_free_monotonic(path, taken, more, a, b);
    lemma_candidates_distinct(path, a, b);
}

} // verus!
