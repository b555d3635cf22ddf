//! Field-by-field reading of the fixed-layout records of the instrument.

use vstd::prelude::*;
use crate::datetime::{parsed_datetime, parsed_time, read_datetime, read_time, TimeOfDay, Timestamp};
use crate::text::{from_chars, rows, same_chars, same_text, split_chars, split_on, texts, to_chars};

verus! {

/// Why a fixed-layout record is refused.
#[derive(Clone, Copy, Debug, PartialEq, Eq, Structural)]
pub enum ParseError {
    /// The record is of another kind, or its framing is broken.
    Invalid,
    /// The record has no field left.
    Exhausted,
    /// The field is no whole number.
    BadInteger,
    /// The field is no decimal number.
    BadFloat,
    /// The field is no date and time.
    BadDateTime,
    /// The field is no time of day.
    BadTime,
}

/// The fields of a record that have not been read yet.
#[derive(Debug)]
pub struct Splitter {
    tokens: Vec<String>,
    next: usize,
}

impl View for Splitter {
    type V = Seq<Seq<char>>;

    closed spec fn view(&self) -> Seq<Seq<char>> {
        texts(self.tokens@).skip(self.next as int)
    }
}

impl Splitter {
    #[verifier::type_invariant]
    spec fn inv(&self) -> bool {
        self.next <= self.tokens@.len()
    }

    /// The fields of `data`, cut at the commas.
    pub fn new(data: &str) -> (r: Self)
        ensures
            r@ == split_on(data@, ','),
    {
        let chars = to_chars(data);
        let parts = split_chars(&chars, ',');
        let mut tokens: Vec<String> = Vec::new();
        let mut i: usize = 0;
        while i < parts.len()
            invariant
                i <= parts.len(),
                tokens@.len() == i,
                forall|j: int| 0 <= j < i ==> tokens@[j]@ == parts@[j]@,
            decreases parts.len() - i,
        {
            tokens.push(from_chars(&parts[i]));
            i += 1;
        }
        assert(texts(tokens@) =~= rows(parts@));
        assert(texts(tokens@).skip(0) == texts(tokens@));
        Splitter { tokens, next: 0 }
    }

    /// Takes the next field, if one is left.
    pub fn next(&mut self) -> (r: Option<String>)
        ensures
            match r {
                Some(s) => old(self)@.len() > 0 && s@ == old(self)@[0] && final(self)@ == old(
                    self,
                )@.skip(1),
                None => old(self)@.len() == 0 && final(self)@ == old(self)@,
            },
    {
        proof {
            use_type_invariant(&*self);
        }
        if self.next < self.tokens.len() {
            let s = self.tokens[self.next].clone();
            assert(texts(self.tokens@).skip(self.next as int).skip(1) == texts(self.tokens@).skip(
                self.next + 1,
            ));
            self.next = self.next + 1;
            Some(s)
        } else {
            None
        }
    }
}

/// The fields that are left once one has been taken.
pub open spec fn rest(fields: Seq<Seq<char>>) -> Seq<Seq<char>> {
    if fields.len() == 0 {
        fields
    } else {
        fields.skip(1)
    }
}

/// The text of a result.
pub open spec fn ok_text(r: Result<String, ParseError>) -> Result<Seq<char>, ParseError> {
    match r {
        Ok(s) => Ok(s@),
        Err(e) => Err(e),
    }
}

/// The next field as it stands.
pub fn parse_string(spliter: &mut Splitter) -> (r: Result<String, ParseError>)
    ensures
        final(spliter)@ == rest(old(spliter)@),
        ok_text(r) == if old(spliter)@.len() == 0 {
            Err::<Seq<char>, ParseError>(ParseError::Exhausted)
        } else {
            Ok(old(spliter)@[0])
        },
{
    match spliter.next() {
        Some(val) => Ok(val),
        None => Err(ParseError::Exhausted),
    }
}

/// The value of a decimal digit.
pub open spec fn digit_of(c: char) -> Option<int> {
    if c == '0' {
        Some(0)
    } else if c == '1' {
        Some(1)
    } else if c == '2' {
        Some(2)
    } else if c == '3' {
        Some(3)
    } else if c == '4' {
        Some(4)
    } else if c == '5' {
        Some(5)
    } else if c == '6' {
        Some(6)
    } else if c == '7' {
        Some(7)
    } else if c == '8' {
        Some(8)
    } else if c == '9' {
        Some(9)
    } else {
        None
    }
}

/// Whether a text is made of decimal digits.
pub open spec fn all_digits(s: Seq<char>) -> bool {
    forall|i: int| 0 <= i < s.len() ==> digit_of(#[trigger] s[i]) is Some
}

/// The number that decimal digits stand for.
pub open spec fn digits_value(s: Seq<char>) -> int
    decreases s.len(),
{
    if s.len() == 0 {
        0
    } else {
        10 * digits_value(s.drop_last()) + digit_of(s.last()).unwrap()
    }
}

/// The digits of a numeral: what follows its sign, if it has one.
pub open spec fn numeral_body(s: Seq<char>) -> Seq<char> {
    if s.len() > 0 && (s[0] == '-' || s[0] == '+') {
        s.skip(1)
    } else {
        s
    }
}

/// The whole number that a text stands for: an optional sign and at least
/// one decimal digit, nothing else, and a value that fits.
pub open spec fn integer_of(s: Seq<char>) -> Option<i64> {
    let body = numeral_body(s);
    let v = if s.len() > 0 && s[0] == '-' {
        -digits_value(body)
    } else {
        digits_value(body)
    };
    if body.len() > 0 && all_digits(body) && i64::MIN <= v <= i64::MAX {
        Some(v as i64)
    } else {
        None
    }
}

proof fn lemma_value_grows(s: Seq<char>, k: int)
    requires
        all_digits(s),
        0 <= k <= s.len(),
    ensures
        0 <= digits_value(s.take(k)) <= digits_value(s),
    decreases s.len(),
{
    if s.len() == 0 {
        assert(s.take(k) == s);
    } else if k == s.len() {
        assert(s.take(k) == s);
        assert(all_digits(s.drop_last()));
        lemma_value_grows(s.drop_last(), k - 1);
        assert(digit_of(s.last()) is Some);
    } else {
        assert(all_digits(s.drop_last()));
        assert(s.take(k) == s.drop_last().take(k));
        lemma_value_grows(s.drop_last(), k);
        lemma_value_grows(s.drop_last(), s.len() - 1);
        assert(s.drop_last().take(s.len() - 1) == s.drop_last());
        assert(digit_of(s.last()) is Some);
    }
}

fn digit_value(c: char) -> (r: Option<u8>)
    ensures
        match r {
            Some(d) => digit_of(c) == Some(d as int),
            None => digit_of(c) is None,
        },
{
    if c == '0' {
        Some(0)
    } else if c == '1' {
        Some(1)
    } else if c == '2' {
        Some(2)
    } else if c == '3' {
        Some(3)
    } else if c == '4' {
        Some(4)
    } else if c == '5' {
        Some(5)
    } else if c == '6' {
        Some(6)
    } else if c == '7' {
        Some(7)
    } else if c == '8' {
        Some(8)
    } else if c == '9' {
        Some(9)
    } else {
        None
    }
}

/// Reads a text as a whole number.
pub fn read_integer(text: &str) -> (r: Option<i64>)
    ensures
        r == integer_of(text@),
{
    let chars = to_chars(text);
    if chars.len() == 0 {
        return None;
    }
    let negative = chars[0] == '-';
    let start: usize = if chars[0] == '-' || chars[0] == '+' {
        1
    } else {
        0
    };
    let ghost body = numeral_body(text@);
    assert(body == chars@.skip(start as int));
    if start == chars.len() {
        return None;
    }
    let limit: i128 = 0x8000_0000_0000_0000;
    let mut acc: i128 = 0;
    let mut i: usize = start;
    assert(body.take(0) == Seq::<char>::empty());
    while i < chars.len()
        invariant
            start <= i <= chars.len(),
            start <= 1,
            limit == 0x8000_0000_0000_0000,
            body == chars@.skip(start as int),
            body == numeral_body(text@),
            all_digits(body.take(i - start)),
            acc == digits_value(body.take(i - start)),
            0 <= acc <= limit,
        decreases chars.len() - i,
    {
        let ghost seen = body.take(i - start);
        let ghost next = body.take(i - start + 1);
        assert(next.drop_last() == seen);
        assert(next.last() == chars@[i as int]);
        let d = match digit_value(chars[i]) {
            Some(d) => d,
            None => {
                assert(digit_of(body[i - start]) is None);
                return None;
            },
        };
        assert(all_digits(next)) by {
            assert forall|j: int| 0 <= j < next.len() implies digit_of(#[trigger] next[j]) is Some by {
                if j < seen.len() {
                    assert(next[j] == seen[j]);
                }
            }
        }
        acc = acc * 10 + d as i128;
        if acc > limit {
            proof {
                if all_digits(body) {
                    lemma_value_grows(body, i - start + 1);
                }
            }
            return None;
        }
        i += 1;
    }
    assert(body.take(chars.len() - start) == body);
    let v: i128 = if negative {
        -acc
    } else {
        acc
    };
    if v < -0x8000_0000_0000_0000 || v > 0x7fff_ffff_ffff_ffff {
        return None;
    }
    Some(v as i64)
}

/// The next field as a whole number.
pub fn parse_integer(spliter: &mut Splitter) -> (r: Result<i64, ParseError>)
    ensures
        final(spliter)@ == rest(old(spliter)@),
        r == if old(spliter)@.len() == 0 {
            Err::<i64, ParseError>(ParseError::Exhausted)
        } else {
            match integer_of(old(spliter)@[0]) {
                Some(v) => Ok(v),
                None => Err(ParseError::BadInteger),
            }
        },
{
    match spliter.next() {
        Some(val) => match read_integer(val.as_str()) {
            Some(v) => Ok(v),
            None => Err(ParseError::BadInteger),
        },
        None => Err(ParseError::Exhausted),
    }
}

/// The layout of the dates and times of the fixed-layout records.
pub open spec fn record_time_layout() -> Seq<char> {
    "%Y%m%d%H%M"@
}

/// The layout of the times of day of the fixed-layout records.
pub open spec fn record_clock_layout() -> Seq<char> {
    "%H%M"@
}

/// The next field as a date and time.
pub fn parse_datetime(spliter: &mut Splitter) -> (r: Result<Timestamp, ParseError>)
    ensures
        final(spliter)@ == rest(old(spliter)@),
        r == if old(spliter)@.len() == 0 {
            Err::<Timestamp, ParseError>(ParseError::Exhausted)
        } else {
            match parsed_datetime(old(spliter)@[0], record_time_layout()) {
                Some(t) => Ok(t),
                None => Err(ParseError::BadDateTime),
            }
        },
{
    match spliter.next() {
        Some(val) => match read_datetime(val.as_str(), "%Y%m%d%H%M") {
            Some(t) => Ok(t),
            None => Err(ParseError::BadDateTime),
        },
        None => Err(ParseError::Exhausted),
    }
}

/// The next field as a time of day.
pub fn parse_time(spliter: &mut Splitter) -> (r: Result<TimeOfDay, ParseError>)
    ensures
        final(spliter)@ == rest(old(spliter)@),
        r == if old(spliter)@.len() == 0 {
            Err::<TimeOfDay, ParseError>(ParseError::Exhausted)
        } else {
            match parsed_time(old(spliter)@[0], record_clock_layout()) {
                Some(t) => Ok(t),
                None => Err(ParseError::BadTime),
            }
        },
{
    match spliter.next() {
        Some(val) => match read_time(val.as_str(), "%H%M") {
            Some(t) => Ok(t),
            None => Err(ParseError::BadTime),
        },
        None => Err(ParseError::Exhausted),
    }
}

/// The kinds of fixed-layout records.
#[derive(Clone, Copy, Debug, PartialEq, Eq, Structural)]
pub enum RecordKind {
    Min,
    Hour,
    Day,
    SoilMin,
    SoilHour,
    SoilDay,
}

/// Whether the field at `i` is `word`.
pub open spec fn field_is(t: Seq<Seq<char>>, i: int, word: Seq<char>) -> bool {
    i < t.len() && t[i] == word
}

/// Whether the fields are those of a record of the kind `kind`: the third
/// field names the kind. Hourly and daily records carry `HR` or `HH` there.
pub open spec fn kind_accepts(kind: RecordKind, t: Seq<Seq<char>>) -> bool {
    match kind {
        RecordKind::Min => field_is(t, 2, "MN"@),
        RecordKind::Hour | RecordKind::Day => field_is(t, 2, "HR"@) || field_is(t, 2, "HH"@),
        RecordKind::SoilMin => field_is(t, 2, "SM"@),
        RecordKind::SoilHour => field_is(t, 2, "SH"@),
        RecordKind::SoilDay => field_is(t, 2, "SD"@),
    }
}

/// Whether a record opens as one of the kind `kind`: its fields are those of
/// the kind and its first field is the start-of-text character alone.
pub open spec fn opens_as(data: Seq<char>, kind: RecordKind) -> bool {
    let t = split_on(data, ',');
    kind_accepts(kind, t) && t[0] == seq![crate::STX]
}

impl Splitter {
    /// Whether the field that stands `k` places ahead is `word`.
    pub fn ahead_is(&self, k: usize, word: &str) -> (r: bool)
        ensures
            r == field_is(self@, k as int, word@),
    {
        proof {
            use_type_invariant(self);
        }
        if k < self.tokens.len() - self.next {
            same_text(self.tokens[self.next + k].as_str(), word)
        } else {
            false
        }
    }
}

/// Opens a record of the kind `kind`: checks its kind and its start, and
/// hands over the fields that follow the start-of-text field.
pub fn open_record(data: &str, kind: RecordKind) -> (r: Result<Splitter, ParseError>)
    ensures
        match r {
            Ok(s) => opens_as(data@, kind) && s@ == split_on(data@, ',').skip(1),
            Err(e) => e == ParseError::Invalid && !opens_as(data@, kind),
        },
{
    let mut words = Splitter::new(data);
    let accepted = match kind {
        RecordKind::Min => words.ahead_is(2, "MN"),
        RecordKind::Hour | RecordKind::Day => words.ahead_is(2, "HR") || words.ahead_is(2, "HH"),
        RecordKind::SoilMin => words.ahead_is(2, "SM"),
        RecordKind::SoilHour => words.ahead_is(2, "SH"),
        RecordKind::SoilDay => words.ahead_is(2, "SD"),
    };
    if !accepted {
        return Err(ParseError::Invalid);
    }
    proof {
        reveal_strlit("\u{2}");
    }
    if !words.ahead_is(0, "\u{2}") {
        assert("\u{2}"@ == seq![crate::STX]);
        return Err(ParseError::Invalid);
    }
    assert("\u{2}"@ == seq![crate::STX]);
    let _ = words.next();
    Ok(words)
}

/// Closes a record: the next field must be the end-of-text character alone.
pub fn close_record(spliter: &mut Splitter) -> (r: Result<(), ParseError>)
    ensures
        final(spliter)@ == rest(old(spliter)@),
        r is Ok <==> old(spliter)@.len() > 0 && old(spliter)@[0] == seq![crate::ETX],
        r is Err ==> r == Err::<(), ParseError>(ParseError::Invalid),
{
    match spliter.next() {
        Some(val) => {
            let c = to_chars(val.as_str());
            if crate::text::is_single(&c, crate::ETX) {
                Ok(())
            } else {
                Err(ParseError::Invalid)
            }
        },
        None => Err(ParseError::Invalid),
    }
}

/// Whether a character is a decimal digit.
pub open spec fn is_digit(c: char) -> bool {
    digit_of(c) is Some
}

/// The number of decimal digits that a text starts with.
pub open spec fn lead_digits(s: Seq<char>) -> nat
    decreases s.len(),
{
    if s.len() > 0 && is_digit(s[0]) {
        1 + lead_digits(s.skip(1))
    } else {
        0
    }
}

/// The length of the sign that a text starts with.
pub open spec fn sign_len(s: Seq<char>) -> int {
    if s.len() > 0 && (s[0] == '+' || s[0] == '-') {
        1
    } else {
        0
    }
}

/// A letter of the words for the values that are no numbers, in lower case;
/// every other character as it is.
pub open spec fn fold(c: char) -> char {
    if c == 'I' {
        'i'
    } else if c == 'N' {
        'n'
    } else if c == 'F' {
        'f'
    } else if c == 'T' {
        't'
    } else if c == 'Y' {
        'y'
    } else if c == 'A' {
        'a'
    } else {
        c
    }
}

/// Whether a text is one of the words `inf`, `infinity` and `nan`, in any
/// mix of cases.
pub open spec fn is_special(s: Seq<char>) -> bool {
    let f = s.map_values(|c: char| fold(c));
    f == "inf"@ || f == "infinity"@ || f == "nan"@
}

/// Whether a text is an exponent or empty: `e` or `E`, an optional sign, and
/// at least one digit up to the end.
pub open spec fn exponent_ok(s: Seq<char>) -> bool {
    s.len() == 0 || ((s[0] == 'e' || s[0] == 'E') && {
        let t = s.skip(1);
        let u = t.skip(sign_len(t));
        u.len() > 0 && lead_digits(u) == u.len()
    })
}

/// Whether a text is a decimal number without a sign: digits with at most one
/// point among them, at least one digit in all, and an optional exponent.
pub open spec fn number_ok(s: Seq<char>) -> bool {
    let a = lead_digits(s);
    let r = s.skip(a as int);
    if r.len() > 0 && r[0] == '.' {
        let f = r.skip(1);
        let b = lead_digits(f);
        a + b >= 1 && exponent_ok(f.skip(b as int))
    } else {
        a >= 1 && exponent_ok(r)
    }
}

/// Whether a text reads as a decimal number: an optional sign, and then a
/// number or one of the words for the values that are no numbers.
pub open spec fn float_text(s: Seq<char>) -> bool {
    let b = s.skip(sign_len(s));
    number_ok(b) || is_special(b)
}

/// Counts the decimal digits of `s` from the position `from` on.
pub fn count_digits(s: &Vec<char>, from: usize) -> (n: usize)
    requires
        from <= s.len(),
    ensures
        n == lead_digits(s@.skip(from as int)),
        from + n <= s.len(),
{
    let mut k: usize = from;
    while k < s.len() && digit_value(s[k]).is_some()
        invariant
            from <= k <= s.len(),
            lead_digits(s@.skip(from as int)) == (k - from) + lead_digits(s@.skip(k as int)),
        decreases s.len() - k,
    {
        assert(s@.skip(k as int)[0] == s@[k as int]);
        assert(s@.skip(k as int).skip(1) == s@.skip(k + 1));
        k += 1;
    }
    proof {
        if k < s.len() {
            assert(s@.skip(k as int)[0] == s@[k as int]);
        }
    }
    k - from
}

fn sign_at(s: &Vec<char>, from: usize) -> (n: usize)
    requires
        from <= s.len(),
    ensures
        n == sign_len(s@.skip(from as int)),
        from + n <= s.len(),
{
    if from < s.len() && (s[from] == '+' || s[from] == '-') {
        1
    } else {
        0
    }
}

fn exponent_at(s: &Vec<char>, from: usize) -> (r: bool)
    requires
        from <= s.len(),
    ensures
        r == exponent_ok(s@.skip(from as int)),
{
    if from == s.len() {
        return true;
    }
    let ghost rest = s@.skip(from as int);
    assert(rest[0] == s@[from as int]);
    if s[from] != 'e' && s[from] != 'E' {
        return false;
    }
    assert(rest.skip(1) == s@.skip(from + 1));
    let at = from + 1 + sign_at(s, from + 1);
    assert(s@.skip(from + 1).skip(sign_len(s@.skip(from + 1))) == s@.skip(at as int));
    let n = count_digits(s, at);
    n > 0 && at + n == s.len()
}

fn special_at(s: &Vec<char>, from: usize) -> (r: bool)
    requires
        from <= s.len(),
    ensures
        r == is_special(s@.skip(from as int)),
{
    let mut folded: Vec<char> = Vec::new();
    let mut k: usize = from;
    let ghost rest = s@.skip(from as int);
    while k < s.len()
        invariant
            from <= k <= s.len(),
            rest == s@.skip(from as int),
            folded@ == rest.take(k - from).map_values(|c: char| fold(c)),
        decreases s.len() - k,
    {
        let c = s[k];
        let f = if c == 'I' {
            'i'
        } else if c == 'N' {
            'n'
        } else if c == 'F' {
            'f'
        } else if c == 'T' {
            't'
        } else if c == 'Y' {
            'y'
        } else if c == 'A' {
            'a'
        } else {
            c
        };
        folded.push(f);
        assert(rest.take(k - from + 1) == rest.take(k - from).push(c));
        assert(folded@ =~= rest.take(k - from + 1).map_values(|c: char| fold(c)));
        k += 1;
    }
    assert(rest.take(s.len() - from) == rest);
    same_chars(&folded, &to_chars("inf")) || same_chars(&folded, &to_chars("infinity"))
        || same_chars(&folded, &to_chars("nan"))
}

/// Whether `text` reads as a decimal number.
pub fn is_float_text(text: &str) -> (r: bool)
    ensures
        r == float_text(text@),
{
    let s = to_chars(text);
    assert(s@.skip(0) == s@);
    let start = sign_at(&s, 0);
    if special_at(&s, start) {
        return true;
    }
    let ghost body = s@.skip(start as int);
    let a = count_digits(&s, start);
    let at = start + a;
    assert(body.skip(a as int) == s@.skip(at as int));
    if at < s.len() && s[at] == '.' {
        assert(s@.skip(at as int)[0] == s@[at as int]);
        assert(s@.skip(at as int).skip(1) == s@.skip(at + 1));
        let b = count_digits(&s, at + 1);
        assert(s@.skip(at + 1).skip(b as int) == s@.skip(at + 1 + b));
        a + b >= 1 && exponent_at(&s, at + 1 + b)
    } else {
        proof {
            if at < s.len() {
                assert(s@.skip(at as int)[0] == s@[at as int]);
            }
        }
        a >= 1 && exponent_at(&s, at)
    }
}

/// The next field as the text of a decimal number.
pub fn parse_float(spliter: &mut Splitter) -> (r: Result<String, ParseError>)
    ensures
        final(spliter)@ == rest(old(spliter)@),
        ok_text(r) == if old(spliter)@.len() == 0 {
            Err::<Seq<char>, ParseError>(ParseError::Exhausted)
        } else if float_text(old(spliter)@[0]) {
            Ok(old(spliter)@[0])
        } else {
            Err(ParseError::BadFloat)
        },
{
    match spliter.next() {
        Some(val) => {
            if is_float_text(val.as_str()) {
                Ok(val)
            } else {
                Err(ParseError::BadFloat)
            }
        },
        None => Err(ParseError::Exhausted),
    }
}

/// One field of a record, read.
#[derive(Debug)]
pub enum Cell {
    Text(String),
    Integer(i64),
    /// The text of a decimal number.
    Float(String),
    DateTime(Timestamp),
    Time(TimeOfDay),
}

/// A field that was read, as a value of the model.
pub enum CellModel {
    Text(Seq<char>),
    Integer(i64),
    Float(Seq<char>),
    DateTime(Timestamp),
    Time(TimeOfDay),
}

impl View for Cell {
    type V = CellModel;

    open spec fn view(&self) -> CellModel {
        match self {
            Cell::Text(s) => CellModel::Text(s@),
            Cell::Integer(v) => CellModel::Integer(*v),
            Cell::Float(s) => CellModel::Float(s@),
            Cell::DateTime(t) => CellModel::DateTime(*t),
            Cell::Time(t) => CellModel::Time(*t),
        }
    }
}

/// The fields of the records of a kind, one letter per field and in the order
/// of the record: `S` for a text, `I` for a whole number, `F` for a decimal
/// number, `D` for a date and time, `T` for a time of day.
pub open spec fn layout_of(kind: RecordKind) -> Seq<char> {
    match kind {
        RecordKind::Min => "SSDFFFFFFFIFIFFFFTFTFTFTFTFTFTFTFTFTFIFFITFFFTFTFFFFFFFFFFFFFS"@,
        RecordKind::Hour =>
        "SSDFFIFFFFFFFFIFFITFITIFFFFFFFFFFFFFTFTFFTFTFFTFTFFTFTFFTFTFFTFTFFTFTFFTFT"@,
        RecordKind::Day =>
        "SSDFFFTFTFFFFTFTFFFTFTFFTFTFFTFTFIFFITFITFFFTFTFFFFTFTFFTFTFFTFTFFTFTFFTFTFFTFTFFTFTFFTFT"@,
        RecordKind::SoilMin => "SSDFFFFFFFFFFFFS"@,
        RecordKind::SoilHour => "SSDFFTFTFFTFTFFTFTFFTFTFFTFTFFTFTFFTFTFFTFTFFTFTFFTFTFFTFTFFTFT"@,
        RecordKind::SoilDay => "SSDFFTFTFFTFTFFTFTFFTFTFFTFTFFTFTFFTFTFFTFTFFTFTFFTFTFFTFTFFTFT"@,
    }
}

/// What a field of the sort `code` makes of its token.
pub open spec fn cell_of(code: char, token: Seq<char>) -> Result<CellModel, ParseError> {
    if code == 'S' {
        Ok(CellModel::Text(token))
    } else if code == 'I' {
        match integer_of(token) {
            Some(v) => Ok(CellModel::Integer(v)),
            None => Err(ParseError::BadInteger),
        }
    } else if code == 'F' {
        if float_text(token) {
            Ok(CellModel::Float(token))
        } else {
            Err(ParseError::BadFloat)
        }
    } else if code == 'D' {
        match parsed_datetime(token, record_time_layout()) {
            Some(t) => Ok(CellModel::DateTime(t)),
            None => Err(ParseError::BadDateTime),
        }
    } else {
        match parsed_time(token, record_clock_layout()) {
            Some(t) => Ok(CellModel::Time(t)),
            None => Err(ParseError::BadTime),
        }
    }
}

/// What the first `n` fields of a layout make of the tokens: the fields are
/// read in order, and the first one that fails decides the error.
pub open spec fn cells_from(layout: Seq<char>, tokens: Seq<Seq<char>>, n: int) -> Result<
    Seq<CellModel>,
    ParseError,
>
    decreases n,
{
    if n <= 0 {
        Ok(Seq::empty())
    } else {
        match cells_from(layout, tokens, n - 1) {
            Err(e) => Err(e),
            Ok(head) => if n - 1 >= tokens.len() {
                Err(ParseError::Exhausted)
            } else {
                match cell_of(layout[n - 1], tokens[n - 1]) {
                    Ok(c) => Ok(head.push(c)),
                    Err(e) => Err(e),
                }
            },
        }
    }
}

/// What a record of the kind `kind` reads as. The record must open as one of
/// its kind; its fields follow the start-of-text field in the order of the
/// layout; the field after the last one must be the end-of-text character
/// alone.
pub open spec fn record_cells(data: Seq<char>, kind: RecordKind) -> Result<
    Seq<CellModel>,
    ParseError,
> {
    let tokens = split_on(data, ',').skip(1);
    let n = layout_of(kind).len() as int;
    if !opens_as(data, kind) {
        Err(ParseError::Invalid)
    } else {
        match cells_from(layout_of(kind), tokens, n) {
            Err(e) => Err(e),
            Ok(cells) => if field_is(tokens, n, seq![crate::ETX]) {
                Ok(cells)
            } else {
                Err(ParseError::Invalid)
            },
        }
    }
}

/// The models of a list of cells.
pub open spec fn cell_models(v: Seq<Cell>) -> Seq<CellModel> {
    Seq::new(v.len(), |i: int| v[i]@)
}

/// The models of the outcome of reading a record.
pub open spec fn cells_model(r: Result<Vec<Cell>, ParseError>) -> Result<Seq<CellModel>, ParseError> {
    match r {
        Ok(v) => Ok(cell_models(v@)),
        Err(e) => Err(e),
    }
}

/// The layout of the records of a kind.
pub fn layout(kind: RecordKind) -> (r: &'static str)
    ensures
        r@ == layout_of(kind),
{
    match kind {
        RecordKind::Min => "SSDFFFFFFFIFIFFFFTFTFTFTFTFTFTFTFTFTFIFFITFFFTFTFFFFFFFFFFFFFS",
        RecordKind::Hour =>
        "SSDFFIFFFFFFFFIFFITFITIFFFFFFFFFFFFFTFTFFTFTFFTFTFFTFTFFTFTFFTFTFFTFTFFTFT",
        RecordKind::Day =>
        "SSDFFFTFTFFFFTFTFFFTFTFFTFTFFTFTFIFFITFITFFFTFTFFFFTFTFFTFTFFTFTFFTFTFFTFTFFTFTFFTFTFFTFT",
        RecordKind::SoilMin => "SSDFFFFFFFFFFFFS",
        RecordKind::SoilHour => "SSDFFTFTFFTFTFFTFTFFTFTFFTFTFFTFTFFTFTFFTFTFFTFTFFTFTFFTFTFFTFT",
        RecordKind::SoilDay => "SSDFFTFTFFTFTFFTFTFFTFTFFTFTFFTFTFFTFTFFTFTFFTFTFFTFTFFTFTFFTFT",
    }
}

/// Reads the next field as one of the sort `code`.
pub fn read_cell(code: char, spliter: &mut Splitter) -> (r: Result<Cell, ParseError>)
    ensures
        final(spliter)@ == rest(old(spliter)@),
        match r {
            Ok(c) => old(spliter)@.len() > 0 && cell_of(code, old(spliter)@[0]) == Ok::<
                CellModel,
                ParseError,
            >(c@),
            Err(e) => if old(spliter)@.len() == 0 {
                e == ParseError::Exhausted
            } else {
                cell_of(code, old(spliter)@[0]) == Err::<CellModel, ParseError>(e)
            },
        },
{
    if code == 'S' {
        match parse_string(spliter) {
            Ok(v) => Ok(Cell::Text(v)),
            Err(e) => Err(e),
        }
    } else if code == 'I' {
        match parse_integer(spliter) {
            Ok(v) => Ok(Cell::Integer(v)),
            Err(e) => Err(e),
        }
    } else if code == 'F' {
        match parse_float(spliter) {
            Ok(v) => Ok(Cell::Float(v)),
            Err(e) => Err(e),
        }
    } else if code == 'D' {
        match parse_datetime(spliter) {
            Ok(v) => Ok(Cell::DateTime(v)),
            Err(e) => Err(e),
        }
    } else {
        match parse_time(spliter) {
            Ok(v) => Ok(Cell::Time(v)),
            Err(e) => Err(e),
        }
    }
}

/// Reads a record of the kind `kind` field by field.
pub fn parse_record(data: &str, kind: RecordKind) -> (r: Result<Vec<Cell>, ParseError>)
    ensures
        cells_model(r) == record_cells(data@, kind),
{
    let mut words = match open_record(data, kind) {
        Ok(words) => words,
        Err(e) => {
            return Err(e);
        },
    };
    let codes = to_chars(layout(kind));
    let ghost tokens = split_on(data@, ',').skip(1);
    let mut cells: Vec<Cell> = Vec::new();
    let mut i: usize = 0;
    assert(tokens.skip(0) == tokens);
    assert(cell_models(cells@) == Seq::<CellModel>::empty());
    while i < codes.len()
        invariant
            i <= codes.len(),
            codes@ == layout_of(kind),
            opens_as(data@, kind),
            tokens == split_on(data@, ',').skip(1),
            i <= tokens.len(),
            words@ == tokens.skip(i as int),
            cells_from(codes@, tokens, i as int) == Ok::<Seq<CellModel>, ParseError>(
                cell_models(cells@),
            ),
        decreases codes.len() - i,
    {
        let ghost before = cell_models(cells@);
        proof {
            if i < tokens.len() {
                assert(tokens.skip(i as int)[0] == tokens[i as int]);
                assert(tokens.skip(i as int).skip(1) == tokens.skip(i + 1));
            }
        }
        match read_cell(codes[i], &mut words) {
            Ok(c) => {
                cells.push(c);
                assert(cell_models(cells@) == before.push(c@));
            },
            Err(e) => {
                assert(cells_from(codes@, tokens, i + 1) == Err::<Seq<CellModel>, ParseError>(e));
                proof {
                    lemma_cells_error(codes@, tokens, i + 1, codes.len() as int);
                }
                return Err(e);
            },
        }
        i += 1;
    }
    proof {
        if codes.len() < tokens.len() {
            assert(tokens.skip(codes.len() as int)[0] == tokens[codes.len() as int]);
        }
    }
    match close_record(&mut words) {
        Ok(()) => Ok(cells),
        Err(e) => Err(e),
    }
}

proof fn lemma_cells_error(layout: Seq<char>, tokens: Seq<Seq<char>>, k: int, n: int)
    requires
        0 <= k <= n,
        cells_from(layout, tokens, k) is Err,
    ensures
        cells_from(layout, tokens, n) == cells_from(layout, tokens, k),
    decreases n - k,
{
    if k < n {
        lemma_cells_error(layout, tokens, k, n - 1);
    }
}

} // verus!
