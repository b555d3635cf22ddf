//! Character-level helpers shared by the decoder, the templater and the sinks.

use vstd::prelude::*;

verus! {

/// The fields of `s` when cut at every occurrence of `d`: always at least one
/// field, and one more than the number of delimiters in `s`.
pub open spec fn split_on(s: Seq<char>, d: char) -> Seq<Seq<char>>
    decreases s.len(),
{
    if s.len() == 0 {
        seq![Seq::<char>::empty()]
    } else {
        let head = split_on(s.drop_last(), d);
        if s.last() == d {
            head.push(Seq::<char>::empty())
        } else {
            head.drop_last().push(head.last().push(s.last()))
        }
    }
}

/// The text obtained by writing the `parts` one after another with `d` between
/// neighbours.
pub open spec fn join_with(parts: Seq<Seq<char>>, d: char) -> Seq<char>
    decreases parts.len(),
{
    if parts.len() == 0 {
        Seq::<char>::empty()
    } else if parts.len() == 1 {
        parts[0]
    } else {
        join_with(parts.drop_last(), d).push(d) + parts.last()
    }
}

/// The texts held by a list of strings.
pub open spec fn texts(v: Seq<String>) -> Seq<Seq<char>> {
    Seq::new(v.len(), |i: int| v[i]@)
}

/// The texts held by a list of character vectors.
pub open spec fn rows(v: Seq<Vec<char>>) -> Seq<Seq<char>> {
    Seq::new(v.len(), |i: int| v[i]@)
}

/// The text of an optional string.
pub open spec fn opt_text(o: Option<String>) -> Option<Seq<char>> {
    match o {
        Some(s) => Some(s@),
        None => None,
    }
}

/// A copy of an optional string.
pub fn copy_opt(o: &Option<String>) -> (r: Option<String>)
    ensures
        opt_text(r) == opt_text(*o),
{
    match o {
        Some(s) => Some(s.clone()),
        None => None,
    }
}

/// A copy of a list of strings.
pub fn copy_lines(v: &Vec<String>) -> (r: Vec<String>)
    ensures
        texts(r@) == texts(v@),
{
    let mut r: Vec<String> = Vec::new();
    let mut i: usize = 0;
    while i < v.len()
        invariant
            i <= v.len(),
            r@.len() == i,
            forall|j: int| 0 <= j < i ==> r@[j]@ == v@[j]@,
        decreases v.len() - i,
    {
        r.push(v[i].clone());
        i += 1;
    }
    assert(texts(r@) =~= texts(v@));
    r
}

/// The characters of `s`, in order.
pub fn to_chars(s: &str) -> (v: Vec<char>)
    ensures
        v@ == s@,
{
    broadcast use vstd::string::group_string_axioms;

    let mut v: Vec<char> = Vec::new();
    for c in it: s.chars()
        invariant
            it.seq() == s@,
            v@ == s@.take(it.index() as int),
    {
        v.push(c);
    }
    assert(s@.take(s@.len() as int) == s@);
    v
}

/// Builds a string from characters with `String::from_iter`; the contract says
/// that the string holds exactly the characters handed in, in the same order.
#[verifier::external_body]
pub(crate) fn from_chars(v: &Vec<char>) -> (s: String)
    ensures
        s@ == v@,
{
    String::from_iter(v.iter())
}

/// Whether two strings hold the same text.
pub fn same_text(a: &str, b: &str) -> (r: bool)
    ensures
        r == (a@ == b@),
{
    let x = a.to_owned();
    let y = b.to_owned();
    x == y
}

/// Whether two character vectors hold the same text.
pub fn same_chars(a: &Vec<char>, b: &Vec<char>) -> (r: bool)
    ensures
        r == (a@ == b@),
{
    if a.len() != b.len() {
        return false;
    }
    let mut i: usize = 0;
    while i < a.len()
        invariant
            a.len() == b.len(),
            i <= a.len(),
            a@.take(i as int) == b@.take(i as int),
        decreases a.len() - i,
    {
        if a[i] != b[i] {
            return false;
        }
        assert(a@.take(i + 1) == a@.take(i as int).push(a@[i as int]));
        assert(b@.take(i + 1) == b@.take(i as int).push(b@[i as int]));
        i += 1;
    }
    assert(a@.take(a.len() as int) == a@);
    assert(b@.take(b.len() as int) == b@);
    true
}

/// Cuts `s` at every occurrence of `d`.
pub fn split_chars(s: &Vec<char>, d: char) -> (r: Vec<Vec<char>>)
    ensures
        rows(r@) == split_on(s@, d),
{
    let mut done: Vec<Vec<char>> = Vec::new();
    let mut cur: Vec<char> = Vec::new();
    let mut i: usize = 0;
    assert(s@.take(0) == Seq::<char>::empty());
    assert(rows(done@).push(cur@) == seq![Seq::<char>::empty()]);
    while i < s.len()
        invariant
            i <= s.len(),
            rows(done@).push(cur@) == split_on(s@.take(i as int), d),
        decreases s.len() - i,
    {
        let c = s[i];
        proof {
            let t = s@.take(i + 1);
            assert(t.drop_last() == s@.take(i as int));
            assert(t.last() == c);
            let head = split_on(s@.take(i as int), d);
            assert(head.last() == cur@);
            assert(head.drop_last() == rows(done@));
        }
        if c == d {
            let ghost before = rows(done@);
            done.push(cur);
            cur = Vec::new();
            assert(rows(done@) == before.push(done@.last()@));
        } else {
            cur.push(c);
        }
        i += 1;
    }
    assert(s@.take(s.len() as int) == s@);
    let ghost before = rows(done@);
    done.push(cur);
    assert(rows(done@) == before.push(done@.last()@));
    done
}

/// A split always yields at least one field.
pub proof fn lemma_split_nonempty(s: Seq<char>, d: char)
    ensures
        split_on(s, d).len() >= 1,
    decreases s.len(),
{
    if s.len() > 0 {
        lemma_split_nonempty(s.drop_last(), d);
    }
}

/// Text without a delimiter, written after `s`, lengthens the last field of
/// `s` and leaves the others alone.
pub proof fn lemma_split_append(s: Seq<char>, t: Seq<char>, d: char)
    requires
        !t.contains(d),
    ensures
        split_on(s + t, d) == split_on(s, d).drop_last().push(split_on(s, d).last() + t),
    decreases t.len(),
{
    lemma_split_nonempty(s, d);
    let base = split_on(s, d);
    if t.len() == 0 {
        assert(s + t == s);
        assert(base.last() + t == base.last());
        assert(base.drop_last().push(base.last()) == base);
    } else {
        let t0 = t.drop_last();
        assert(!t0.contains(d)) by {
            if t0.contains(d) {
                let k = choose|k: int| 0 <= k < t0.len() && t0[k] == d;
                assert(t[k] == d);
            }
        }
        lemma_split_append(s, t0, d);
        assert((s + t).drop_last() == s + t0);
        assert((s + t).last() == t.last());
        assert(t[t.len() - 1] == t.last());
        assert(t.last() != d);
        let head = split_on(s + t0, d);
        assert(head.last() == base.last() + t0);
        assert(head.drop_last() == base.drop_last());
        assert((base.last() + t0).push(t.last()) == base.last() + t);
    }
}

/// Fields without a delimiter come back unchanged when the text that joins
/// them is split again.
pub proof fn lemma_split_join(parts: Seq<Seq<char>>, d: char)
    requires
        parts.len() >= 1,
        forall|i: int| 0 <= i < parts.len() ==> !(#[trigger] parts[i]).contains(d),
    ensures
        split_on(join_with(parts, d), d) == parts,
    decreases parts.len(),
{
    if parts.len() == 1 {
        let e = Seq::<char>::empty();
        lemma_split_append(e, parts[0], d);
        assert(e + parts[0] == parts[0]);
        assert(split_on(e, d) == seq![e]);
        assert(seq![e].drop_last().push(e + parts[0]) == parts);
    } else {
        let front = parts.drop_last();
        assert forall|i: int| 0 <= i < front.len() implies !(#[trigger] front[i]).contains(d) by {
            assert(front[i] == parts[i]);
        }
        lemma_split_join(front, d);
        let s = join_with(front, d).push(d);
        assert(s.drop_last() == join_with(front, d));
        assert(split_on(s, d) == front.push(Seq::<char>::empty()));
        lemma_split_append(s, parts.last(), d);
        assert(Seq::<char>::empty() + parts.last() == parts.last());
        assert(front.push(Seq::<char>::empty()).drop_last() == front);
        assert(front.push(parts.last()) == parts);
    }
}

/// The fields of a split, joined again, give the text back.
pub proof fn lemma_join_split(s: Seq<char>, d: char)
    ensures
        join_with(split_on(s, d), d) == s,
    decreases s.len(),
{
    if s.len() > 0 {
        let s0 = s.drop_last();
        let head = split_on(s0, d);
        lemma_join_split(s0, d);
        lemma_split_nonempty(s0, d);
        assert(s0.push(s.last()) == s);
        if s.last() == d {
            let now = head.push(Seq::<char>::empty());
            assert(now.drop_last() == head);
            assert(join_with(head, d).push(d) + Seq::<char>::empty() == join_with(head, d).push(d));
        } else {
            let grown = head.last().push(s.last());
            let now = head.drop_last().push(grown);
            assert(now.drop_last() == head.drop_last());
            assert(now.last() == grown);
            if head.len() == 1 {
                assert(now[0] == grown);
                assert(head[0] == head.last());
            } else {
                let front = join_with(head.drop_last(), d).push(d);
                assert(front + grown == (front + head.last()).push(s.last()));
            }
        }
    } else {
        assert(split_on(s, d)[0] == s);
    }
}

/// Every field of a split is free of the delimiter and made of characters of
/// the text.
pub proof fn lemma_split_fields(s: Seq<char>, d: char)
    ensures
        forall|i: int, k: int|
            0 <= i < split_on(s, d).len() && 0 <= k < split_on(s, d)[i].len() ==> {
                &&& (#[trigger] split_on(s, d)[i][k]) != d
                &&& s.contains(split_on(s, d)[i][k])
            },
    decreases s.len(),
{
    if s.len() > 0 {
        let s0 = s.drop_last();
        lemma_split_fields(s0, d);
        lemma_split_nonempty(s0, d);
        let head = split_on(s0, d);
        let now = split_on(s, d);
        assert forall|i: int, k: int| 0 <= i < now.len() && 0 <= k < now[i].len() implies {
            &&& (#[trigger] now[i][k]) != d
            &&& s.contains(now[i][k])
        } by {
            let c = now[i][k];
            if s.last() != d && i == head.len() - 1 && k == head.last().len() {
                assert(s[s.len() - 1] == c);
            } else {
                assert(c == head[i][k]);
                assert(s0.contains(c));
                let j = choose|j: int| 0 <= j < s0.len() && s0[j] == c;
                assert(s[j] == c);
            }
        }
    }
}

/// Writes the characters of `s` from `from` up to `to` at the end of `out`.
pub fn push_all(out: &mut Vec<char>, s: &Vec<char>, from: usize, to: usize)
    requires
        from <= to <= s.len(),
    ensures
        final(out)@ == old(out)@ + s@.subrange(from as int, to as int),
{
    let mut i: usize = from;
    assert(s@.subrange(from as int, from as int) == Seq::<char>::empty());
    assert(out@ + Seq::<char>::empty() == out@);
    while i < to
        invariant
            from <= i <= to <= s.len(),
            out@ == old(out)@ + s@.subrange(from as int, i as int),
        decreases to - i,
    {
        out.push(s[i]);
        assert(s@.subrange(from as int, i + 1) == s@.subrange(from as int, i as int).push(
            s@[i as int],
        ));
        i += 1;
    }
}

/// Writes `s` at the end of `out`.
pub fn push_str(out: &mut Vec<char>, s: &str)
    ensures
        final(out)@ == old(out)@ + s@,
{
    let chars = to_chars(s);
    push_all(out, &chars, 0, chars.len());
    assert(chars@.subrange(0, chars.len() as int) == chars@);
}

/// Whether `pat` stands in `s` at position `i`.
pub fn matches_at(s: &Vec<char>, i: usize, pat: &Vec<char>) -> (r: bool)
    requires
        i + pat.len() <= s.len(),
    ensures
        r == (s@.subrange(i as int, i + pat.len()) == pat@),
{
    let mut k: usize = 0;
    while k < pat.len()
        invariant
            k <= pat.len(),
            i + pat.len() <= s.len(),
            s@.subrange(i as int, i + k) == pat@.take(k as int),
        decreases pat.len() - k,
    {
        if s[i + k] != pat[k] {
            assert(s@.subrange(i as int, i + pat.len())[k as int] != pat@[k as int]);
            return false;
        }
        assert(s@.subrange(i as int, i + k + 1) == s@.subrange(i as int, i + k).push(
            s@[i + k],
        ));
        assert(pat@.take(k + 1) == pat@.take(k as int).push(pat@[k as int]));
        k += 1;
    }
    assert(pat@.take(pat.len() as int) == pat@);
    true
}

/// Whether `s` begins with `pat`.
pub open spec fn has_prefix(s: Seq<char>, pat: Seq<char>) -> bool {
    pat.len() <= s.len() && s.take(pat.len() as int) == pat
}

/// Whether `s` ends with `pat`.
pub open spec fn has_suffix(s: Seq<char>, pat: Seq<char>) -> bool {
    pat.len() <= s.len() && s.skip(s.len() - pat.len()) == pat
}

/// Whether `s` begins with `pat`.
pub fn starts_with(s: &Vec<char>, pat: &Vec<char>) -> (r: bool)
    ensures
        r == has_prefix(s@, pat@),
{
    if pat.len() > s.len() {
        return false;
    }
    assert(s@.subrange(0, 0 + pat.len()) == s@.take(pat.len() as int));
    matches_at(s, 0, pat)
}

/// Whether `s` ends with `pat`.
pub fn ends_with(s: &Vec<char>, pat: &Vec<char>) -> (r: bool)
    ensures
        r == has_suffix(s@, pat@),
{
    if pat.len() > s.len() {
        return false;
    }
    let at = s.len() - pat.len();
    assert(s@.subrange(at as int, at + pat.len()) == s@.skip(s.len() - pat.len()));
    matches_at(s, at, pat)
}

/// `s` with every occurrence of `from` replaced by `to`, the occurrences
/// taken from the left and without overlap. An empty `from` replaces nothing.
pub open spec fn replaced(s: Seq<char>, from: Seq<char>, to: Seq<char>) -> Seq<char>
    decreases s.len(),
{
    if from.len() == 0 || s.len() < from.len() {
        s
    } else if s.take(from.len() as int) == from {
        to + replaced(s.skip(from.len() as int), from, to)
    } else {
        seq![s[0]] + replaced(s.skip(1), from, to)
    }
}

/// Replaces every occurrence of `from` in `s` by `to`.
pub fn replace_all(s: &Vec<char>, from: &Vec<char>, to: &Vec<char>) -> (r: Vec<char>)
    ensures
        r@ == replaced(s@, from@, to@),
{
    let mut out: Vec<char> = Vec::new();
    if from.len() == 0 {
        push_all(&mut out, s, 0, s.len());
        assert(s@.subrange(0, s.len() as int) == s@);
        return out;
    }
    let mut i: usize = 0;
    assert(s@.skip(0) == s@);
    while i < s.len()
        invariant
            i <= s.len(),
            from.len() > 0,
            out@ + replaced(s@.skip(i as int), from@, to@) == replaced(s@, from@, to@),
        decreases s.len() - i,
    {
        let ghost rest = s@.skip(i as int);
        if s.len() - i < from.len() {
            push_all(&mut out, s, i, s.len());
            assert(s@.subrange(i as int, s.len() as int) == rest);
            i = s.len();
            assert(s@.skip(i as int) == Seq::<char>::empty());
        } else if matches_at(s, i, from) {
            assert(rest.take(from.len() as int) == s@.subrange(i as int, i + from.len()));
            assert(rest.skip(from.len() as int) == s@.skip(i + from.len()));
            let ghost before = out@;
            push_all(&mut out, to, 0, to.len());
            assert(to@.subrange(0, to.len() as int) == to@);
            assert(before + (to@ + replaced(rest.skip(from.len() as int), from@, to@)) == (before
                + to@) + replaced(rest.skip(from.len() as int), from@, to@));
            i += from.len();
        } else {
            assert(rest.take(from.len() as int) == s@.subrange(i as int, i + from.len()));
            assert(rest.skip(1) == s@.skip(i + 1));
            let ghost before = out@;
            out.push(s[i]);
            assert(before + (seq![rest[0]] + replaced(rest.skip(1), from@, to@)) == before.push(
                rest[0],
            ) + replaced(rest.skip(1), from@, to@));
            i += 1;
        }
    }
    assert(s@.skip(s.len() as int) == Seq::<char>::empty());
    assert(out@ + Seq::<char>::empty() == out@);
    out
}

/// Writes the `parts` one after another with `d` between neighbours.
pub fn join_strings(parts: &Vec<String>, d: char) -> (r: String)
    ensures
        r@ == join_with(texts(parts@), d),
{
    let mut out: Vec<char> = Vec::new();
    let mut i: usize = 0;
    assert(texts(parts@).take(0) == Seq::<Seq<char>>::empty());
    while i < parts.len()
        invariant
            i <= parts.len(),
            out@ == join_with(texts(parts@).take(i as int), d),
        decreases parts.len() - i,
    {
        let ghost done = texts(parts@).take(i as int);
        let ghost next = texts(parts@).take(i + 1);
        assert(next.drop_last() == done);
        assert(next.last() == parts@[i as int]@);
        if i > 0 {
            out.push(d);
        } else {
            assert(next[0] == next.last());
            assert(out@ + parts@[i as int]@ == parts@[i as int]@);
        }
        push_str(&mut out, parts[i].as_str());
        i += 1;
    }
    assert(texts(parts@).take(parts.len() as int) == texts(parts@));
    from_chars(&out)
}

/// Whether `name` is one of `names`.
pub fn contains_text(names: &Vec<String>, name: &str) -> (r: bool)
    ensures
        r == texts(names@).contains(name@),
{
    let mut i: usize = 0;
    while i < names.len()
        invariant
            i <= names.len(),
            forall|j: int| 0 <= j < i ==> texts(names@)[j] != name@,
        decreases names.len() - i,
    {
        if same_text(names[i].as_str(), name) {
            assert(texts(names@)[i as int] == name@);
            return true;
        }
        i += 1;
    }
    false
}

/// Whether `token` is the single character `c`.
pub fn is_single(token: &Vec<char>, c: char) -> (r: bool)
    ensures
        r == (token@ == seq![c]),
{
    if token.len() == 1 && token[0] == c {
        assert(token@ =~= seq![c]);
        true
    } else {
        false
    }
}

/// The character of a digit.
pub open spec fn digit_char(d: int) -> char {
    if d == 0 {
        '0'
    } else if d == 1 {
        '1'
    } else if d == 2 {
        '2'
    } else if d == 3 {
        '3'
    } else if d == 4 {
        '4'
    } else if d == 5 {
        '5'
    } else if d == 6 {
        '6'
    } else if d == 7 {
        '7'
    } else if d == 8 {
        '8'
    } else {
        '9'
    }
}

/// A number in decimal digits.
pub open spec fn decimal(n: nat) -> Seq<char>
    decreases n,
{
    if n < 10 {
        seq![digit_char(n as int)]
    } else {
        decimal(n / 10).push(digit_char((n % 10) as int))
    }
}

fn digit(d: u64) -> (r: char)
    requires
        d < 10,
    ensures
        r == digit_char(d as int),
{
    if d == 0 {
        '0'
    } else if d == 1 {
        '1'
    } else if d == 2 {
        '2'
    } else if d == 3 {
        '3'
    } else if d == 4 {
        '4'
    } else if d == 5 {
        '5'
    } else if d == 6 {
        '6'
    } else if d == 7 {
        '7'
    } else if d == 8 {
        '8'
    } else {
        '9'
    }
}

/// Writes `n` in decimal digits at the end of `out`.
pub fn push_decimal(out: &mut Vec<char>, n: u64)
    ensures
        final(out)@ == old(out)@ + decimal(n as nat),
    decreases n,
{
    if n < 10 {
        out.push(digit(n));
        assert(out@ == old(out)@ + decimal(n as nat));
    } else {
        push_decimal(out, n / 10);
        out.push(digit(n % 10));
        assert(out@ == old(out)@ + decimal(n as nat));
    }
}

/// A number has at least one digit, and at least two from ten on.
pub proof fn lemma_decimal_len(n: nat)
    ensures
        decimal(n).len() >= 1,
        n >= 10 ==> decimal(n).len() >= 2,
    decreases n,
{
    if n >= 10 {
        lemma_decimal_len(n / 10);
    }
}

/// Different numbers have different digits.
pub proof fn lemma_decimal_injective(a: nat, b: nat)
    requires
        decimal(a) == decimal(b),
    ensures
        a == b,
    decreases a,
{
    lemma_decimal_len(a);
    lemma_decimal_len(b);
    if a < 10 && b < 10 {
        assert(decimal(a)[0] == digit_char(a as int));
        assert(decimal(b)[0] == digit_char(b as int));
    } else if a >= 10 && b >= 10 {
        assert(decimal(a).last() == digit_char((a % 10) as int));
        assert(decimal(b).last() == digit_char((b % 10) as int));
        assert(decimal(a).drop_last() == decimal(a / 10));
        assert(decimal(b).drop_last() == decimal(b / 10));
        lemma_decimal_injective(a / 10, b / 10);
    } else {
        assert(decimal(a).len() == decimal(b).len());
    }
}

/// The digits of a number are decimal digit characters.
pub proof fn lemma_decimal_digits(n: nat)
    ensures
        forall|i: int| 0 <= i < decimal(n).len() ==> '0' <= #[trigger] decimal(n)[i] <= '9',
    decreases n,
{
    if n >= 10 {
        lemma_decimal_digits(n / 10);
        let head = decimal(n / 10);
        assert forall|i: int| 0 <= i < decimal(n).len() implies '0' <= #[trigger] decimal(n)[i]
            <= '9' by {
            if i < head.len() {
                assert(decimal(n)[i] == head[i]);
            } else {
                assert(decimal(n)[i] == digit_char((n % 10) as int));
            }
        }
    } else {
        assert(decimal(n)[0] == digit_char(n as int));
    }
}

} // verus!
