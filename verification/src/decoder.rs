//! Decoding of one raw record line into storage-ready literals.

use vstd::prelude::*;
use crate::codec::{is_marked, CodecConfigDataType, CodecConfigMetadata, FieldModel, RecordModel};
use crate::datetime::{
    formatted_datetime, formatted_time, parsed_datetime, parsed_time, read_datetime, read_time,
    write_datetime, write_time, Timestamp,
};
use crate::text::{
    from_chars, is_single, join_strings, join_with, lemma_split_fields, lemma_split_join,
    lemma_split_nonempty, opt_text, same_text, split_chars, split_on, texts, to_chars,
};

verus! {

/// How the token of a field is turned into a literal.
#[derive(Debug)]
pub enum FieldKind {
    /// Parsed as a date and time and written in the canonical layout, quoted.
    DateTime,
    /// Parsed as a time of day and written in the canonical layout, quoted.
    TimeOfDay,
    /// Quoted as it stands.
    Text,
    /// Handed on as it stands.
    Plain,
}

/// The kind of a field follows from its storage type and its storage unit.
pub open spec fn kind_of(f: FieldModel) -> FieldKind {
    if f.sqlite3.dtype == "TEXT"@ {
        if f.sqlite3.unit == Some("YYYY-mm-dd HH:MM:SS"@) {
            FieldKind::DateTime
        } else if f.sqlite3.unit == Some("HH:MM:SS"@) {
            FieldKind::TimeOfDay
        } else {
            FieldKind::Text
        }
    } else {
        FieldKind::Plain
    }
}

/// `s` between two single quotes.
pub open spec fn quoted(s: Seq<char>) -> Seq<char> {
    seq!['\''] + s + seq!['\'']
}

/// The value that a date-and-time field reads from its token.
pub open spec fn field_datetime(f: FieldModel, token: Seq<char>) -> Option<Timestamp> {
    match f.rust.unit {
        Some(fmt) => parsed_datetime(token, fmt),
        None => None,
    }
}

/// The literal that a field makes of its token, if the token is acceptable.
pub open spec fn decode_field(f: FieldModel, token: Seq<char>) -> Option<Seq<char>> {
    match kind_of(f) {
        FieldKind::DateTime => match field_datetime(f, token) {
            Some(t) => formatted_datetime(t, "'%Y-%m-%d %H:%M:%S'"@),
            None => None,
        },
        FieldKind::TimeOfDay => match f.rust.unit {
            Some(fmt) => match parsed_time(token, fmt) {
                Some(t) => formatted_time(t, "'%H:%M:%S'"@),
                None => None,
            },
            None => None,
        },
        FieldKind::Text => Some(quoted(token)),
        FieldKind::Plain => Some(token),
    }
}

/// The partition time that a field contributes: the value of a decodable
/// date-and-time field that is marked as the primary timestamp.
pub open spec fn field_stamp(f: FieldModel, token: Seq<char>) -> Option<Timestamp> {
    if kind_of(f) is DateTime && f.rust.major_datetime == Some(true) && decode_field(f, token) is Some {
        field_datetime(f, token)
    } else {
        None
    }
}

/// The partition time of the first `n` fields: that of the last field among
/// them that contributes one.
pub open spec fn stamp_upto(fields: Seq<FieldModel>, tokens: Seq<Seq<char>>, n: int) -> Option<
    Timestamp,
>
    decreases n,
{
    if n <= 0 {
        None
    } else {
        match field_stamp(fields[n - 1], tokens[n - 1]) {
            Some(t) => Some(t),
            None => stamp_upto(fields, tokens, n - 1),
        }
    }
}

/// Every one of the first `n` fields accepts its token.
pub open spec fn all_decode(fields: Seq<FieldModel>, tokens: Seq<Seq<char>>, n: int) -> bool {
    forall|i: int| 0 <= i < n ==> (#[trigger] decode_field(fields[i], tokens[i])) is Some
}

/// The literals of the first `n` fields.
pub open spec fn literals(fields: Seq<FieldModel>, tokens: Seq<Seq<char>>, n: int) -> Seq<
    Seq<char>,
> {
    Seq::new(n as nat, |i: int| decode_field(fields[i], tokens[i]).unwrap())
}

/// A decoded record as a value of the model.
pub struct DecodedModel {
    pub columns: Seq<Seq<char>>,
    pub timestamp: Option<Timestamp>,
}

/// The number of tokens that precede the first field.
pub open spec fn lead(rec: RecordModel) -> int {
    if rec.stx_etx == Some(true) {
        1
    } else {
        0
    }
}

/// The tokens of a line that belong to the fields of `rec`.
pub open spec fn field_tokens(rec: RecordModel, line: Seq<char>) -> Seq<Seq<char>> {
    split_on(line, ',').skip(lead(rec))
}

/// The framing of a line is sound when the record kind asks for none, or when
/// the first token is the start-of-text character alone and the token after
/// the last field is the end-of-text character alone.
pub open spec fn framing_ok(rec: RecordModel, line: Seq<char>) -> bool {
    let all = split_on(line, ',');
    let n = rec.formation.len() as int;
    rec.stx_etx == Some(true) ==> {
        &&& all[0] == seq![crate::STX]
        &&& all.len() > n + 1
        &&& all[n + 1] == seq![crate::ETX]
    }
}

/// What decoding `line` as a record of kind `rec` gives: nothing unless the
/// framing is sound, there is a token for every field and every field accepts
/// its token.
pub open spec fn decode_line(rec: RecordModel, line: Seq<char>) -> Option<DecodedModel> {
    let tokens = field_tokens(rec, line);
    let n = rec.formation.len() as int;
    if framing_ok(rec, line) && tokens.len() >= n && all_decode(rec.formation, tokens, n) {
        Some(
            DecodedModel {
                columns: literals(rec.formation, tokens, n),
                timestamp: stamp_upto(rec.formation, tokens, n),
            },
        )
    } else {
        None
    }
}

/// A decoded record: one literal per field, in the order of the schema, and
/// the partition time if a field supplied one.
#[derive(Debug)]
pub struct DecodedRecord {
    pub columns: Vec<String>,
    pub timestamp: Option<Timestamp>,
}

impl View for DecodedRecord {
    type V = DecodedModel;

    open spec fn view(&self) -> DecodedModel {
        DecodedModel { columns: texts(self.columns@), timestamp: self.timestamp }
    }
}

/// Tells the kind of a field.
pub fn classify(f: &CodecConfigDataType) -> (r: FieldKind)
    ensures
        r == kind_of(f@),
{
    if same_text(f.sqlite3.dtype.as_str(), "TEXT") {
        match &f.sqlite3.unit {
            Some(u) => {
                if same_text(u.as_str(), "YYYY-mm-dd HH:MM:SS") {
                    FieldKind::DateTime
                } else if same_text(u.as_str(), "HH:MM:SS") {
                    FieldKind::TimeOfDay
                } else {
                    FieldKind::Text
                }
            },
            None => FieldKind::Text,
        }
    } else {
        FieldKind::Plain
    }
}

/// Puts `token` between two single quotes.
pub fn quote(token: &Vec<char>) -> (r: String)
    ensures
        r@ == quoted(token@),
{
    let mut out: Vec<char> = Vec::new();
    out.push('\'');
    let mut i: usize = 0;
    while i < token.len()
        invariant
            i <= token.len(),
            out@ == seq!['\''] + token@.take(i as int),
        decreases token.len() - i,
    {
        out.push(token[i]);
        assert(token@.take(i + 1) == token@.take(i as int).push(token@[i as int]));
        i += 1;
    }
    assert(token@.take(token.len() as int) == token@);
    out.push('\'');
    from_chars(&out)
}

/// What a date-and-time field comes to once its token has been read and the
/// value written: the literal, and the value as the partition time if the
/// field is the primary timestamp. There is nothing when the token did not
/// read or the value could not be written.
pub open spec fn datetime_outcome(
    f: FieldModel,
    parsed: Option<Timestamp>,
    written: Option<Seq<char>>,
) -> Option<(Seq<char>, Option<Timestamp>)> {
    match (parsed, written) {
        (Some(t), Some(lit)) => Some(
            (
                lit,
                if f.rust.major_datetime == Some(true) {
                    Some(t)
                } else {
                    None
                },
            ),
        ),
        _ => None,
    }
}

/// The literal and the partition time of a decoded field, as texts.
pub open spec fn cell_model(r: Option<(String, Option<Timestamp>)>) -> Option<
    (Seq<char>, Option<Timestamp>),
> {
    match r {
        Some((lit, stamp)) => Some((lit@, stamp)),
        None => None,
    }
}

/// Finishes a date-and-time field: `parsed` is what its token read as and
/// `written` the literal of that value.
pub fn datetime_cell(
    f: &CodecConfigDataType,
    parsed: Option<Timestamp>,
    written: Option<String>,
) -> (r: Option<(String, Option<Timestamp>)>)
    ensures
        cell_model(r) == datetime_outcome(f@, parsed, opt_text(written)),
{
    let t = match parsed {
        Some(t) => t,
        None => {
            return None;
        },
    };
    let lit = match written {
        Some(lit) => lit,
        None => {
            return None;
        },
    };
    let stamp = if is_marked(&f.rust.major_datetime) {
        Some(t)
    } else {
        None
    };
    Some((lit, stamp))
}

/// Decodes one token: the literal, and the partition time if this field
/// supplies one.
pub fn decode_token(f: &CodecConfigDataType, token: &Vec<char>) -> (r: Option<
    (String, Option<Timestamp>),
>)
    ensures
        match r {
            Some((lit, stamp)) => decode_field(f@, token@) == Some(lit@) && stamp == field_stamp(
                f@,
                token@,
            ),
            None => decode_field(f@, token@) is None,
        },
{
    match classify(f) {
        FieldKind::DateTime => {
            let fmt = match &f.rust.unit {
                Some(fmt) => fmt,
                None => {
                    return None;
                },
            };
            let text = from_chars(token);
            let parsed = read_datetime(text.as_str(), fmt.as_str());
            let written = match &parsed {
                Some(t) => write_datetime(t, "'%Y-%m-%d %H:%M:%S'"),
                None => None,
            };
            datetime_cell(f, parsed, written)
        },
        FieldKind::TimeOfDay => {
            let fmt = match &f.rust.unit {
                Some(fmt) => fmt,
                None => {
                    return None;
                },
            };
            let text = from_chars(token);
            let t = match read_time(text.as_str(), fmt.as_str()) {
                Some(t) => t,
                None => {
                    return None;
                },
            };
            match write_time(&t, "'%H:%M:%S'") {
                Some(lit) => Some((lit, None)),
                None => None,
            }
        },
        FieldKind::Text => Some((quote(token), None)),
        FieldKind::Plain => Some((from_chars(token), None)),
    }
}

/// Decodes one raw line as a record of the kind `config`.
///
/// The line is cut at the commas. With control-byte framing the first token
/// must be the start-of-text character and the token after the last field the
/// end-of-text character. Each field then takes one token, in the order of the
/// schema. The record is decoded as a whole or not at all.
pub fn parse_rawdata(rawdata: &str, config: &CodecConfigMetadata) -> (r: Option<DecodedRecord>)
    ensures
        match r {
            Some(rec) => decode_line(config@, rawdata@) == Some(rec@),
            None => decode_line(config@, rawdata@) is None,
        },
{
    let chars = to_chars(rawdata);
    let all = split_chars(&chars, ',');
    let framed = is_marked(&config.stx_etx);
    let offset: usize = if framed {
        1
    } else {
        0
    };
    let n = config.formation.len();
    proof {
        lemma_split_nonempty(rawdata@, ',');
    }
    let ghost whole = split_on(rawdata@, ',');
    let ghost tokens = field_tokens(config@, rawdata@);
    let ghost fields = config@.formation;
    assert(whole.len() == all.len());
    assert(forall|k: int| 0 <= k < all.len() ==> whole[k] == (#[trigger] all@[k])@);
    if framed && !is_single(&all[0], crate::STX) {
        return None;
    }
    if all.len() - offset < n {
        return None;
    }
    let mut columns: Vec<String> = Vec::new();
    let mut stamp: Option<Timestamp> = None;
    let mut i: usize = 0;
    while i < n
        invariant
            i <= n,
            n == config.formation.len(),
            fields == config@.formation,
            offset <= 1,
            offset + n <= all.len(),
            whole.len() == all.len(),
            tokens == whole.skip(offset as int),
            tokens == field_tokens(config@, rawdata@),
            forall|k: int| 0 <= k < all.len() ==> whole[k] == (#[trigger] all@[k])@,
            all_decode(fields, tokens, i as int),
            texts(columns@) == literals(fields, tokens, i as int),
            stamp == stamp_upto(fields, tokens, i as int),
        decreases n - i,
    {
        let f = &config.formation[i];
        let token = &all[offset + i];
        assert(token@ == tokens[i as int]);
        assert(f@ == fields[i as int]);
        match decode_token(f, token) {
            Some((lit, s)) => {
                let ghost before = texts(columns@);
                columns.push(lit);
                assert(texts(columns@) == before.push(lit@));
                assert(texts(columns@) == literals(fields, tokens, i + 1));
                if let Some(t) = s {
                    stamp = Some(t);
                }
            },
            None => {
                assert(!all_decode(fields, tokens, n as int));
                return None;
            },
        }
        i += 1;
    }
    if framed {
        if all.len() <= n + 1 || !is_single(&all[n + 1], crate::ETX) {
            return None;
        }
    }
    Some(DecodedRecord { columns, timestamp: stamp })
}

/// The tokens of a record as they stand on the line: the field tokens, and
/// with control-byte framing the start-of-text token before them and the
/// end-of-text token after them.
pub open spec fn wire_tokens(rec: RecordModel, tokens: Seq<Seq<char>>) -> Seq<Seq<char>> {
    if rec.stx_etx == Some(true) {
        seq![seq![crate::STX]] + tokens + seq![seq![crate::ETX]]
    } else {
        tokens
    }
}

/// The line that carries the field tokens of a record.
pub open spec fn encode_line(rec: RecordModel, tokens: Seq<Seq<char>>) -> Seq<char> {
    join_with(wire_tokens(rec, tokens), ',')
}

/// Writes the field tokens of a record of the kind `config` on one line: the
/// tokens with commas between them, and with control-byte framing the
/// start-of-text character before them and the end-of-text character after
/// them, each as a token of its own.
pub fn encode_fields(config: &CodecConfigMetadata, tokens: &Vec<String>) -> (r: String)
    ensures
        r@ == encode_line(config@, texts(tokens@)),
{
    if !is_marked(&config.stx_etx) {
        return join_strings(tokens, ',');
    }
    let mut wire: Vec<String> = Vec::new();
    let mut start: Vec<char> = Vec::new();
    start.push(crate::STX);
    let mut end: Vec<char> = Vec::new();
    end.push(crate::ETX);
    wire.push(from_chars(&start));
    assert(texts(wire@) == seq![seq![crate::STX]]);
    let mut i: usize = 0;
    assert(texts(tokens@).take(0) == Seq::<Seq<char>>::empty());
    while i < tokens.len()
        invariant
            i <= tokens.len(),
            texts(wire@) == seq![seq![crate::STX]] + texts(tokens@).take(i as int),
        decreases tokens.len() - i,
    {
        let ghost before = texts(wire@);
        let copy = tokens[i].clone();
        wire.push(copy);
        assert(texts(wire@) == before.push(copy@));
        assert(texts(tokens@).take(i + 1) == texts(tokens@).take(i as int).push(
            tokens@[i as int]@,
        ));
        i += 1;
    }
    assert(texts(tokens@).take(tokens.len() as int) == texts(tokens@));
    let ghost before = texts(wire@);
    let last = from_chars(&end);
    wire.push(last);
    assert(texts(wire@) == before.push(last@));
    assert(texts(wire@) == wire_tokens(config@, texts(tokens@)));
    join_strings(&wire, ',')
}

/// What the field tokens of a record decode to, once they are told apart.
pub open spec fn decode_tokens(fields: Seq<FieldModel>, tokens: Seq<Seq<char>>) -> Option<
    DecodedModel,
> {
    let n = fields.len() as int;
    if tokens.len() >= n && all_decode(fields, tokens, n) {
        Some(
            DecodedModel {
                columns: literals(fields, tokens, n),
                timestamp: stamp_upto(fields, tokens, n),
            },
        )
    } else {
        None
    }
}

/// The partition time of the first `n` fields depends on their tokens only.
pub proof fn lemma_stamp_prefix(
    fields: Seq<FieldModel>,
    a: Seq<Seq<char>>,
    b: Seq<Seq<char>>,
    n: int,
)
    requires
        forall|i: int| 0 <= i < n ==> a[i] == b[i],
    ensures
        stamp_upto(fields, a, n) == stamp_upto(fields, b, n),
    decreases n,
{
    if n > 0 {
        lemma_stamp_prefix(fields, a, b, n - 1);
    }
}

/// Round trip: field tokens that hold no comma, written on a line and decoded
/// again, give what the tokens themselves decode to. Text fields come back
/// quoted, other plain fields unchanged, dates and times in the canonical
/// layout.
pub proof fn lemma_decode_encoded(rec: RecordModel, tokens: Seq<Seq<char>>)
    requires
        tokens.len() == rec.formation.len(),
        forall|i: int| 0 <= i < tokens.len() ==> !(#[trigger] tokens[i]).contains(','),
    ensures
        decode_line(rec, encode_line(rec, tokens)) == decode_tokens(rec.formation, tokens),
{
    let wire = wire_tokens(rec, tokens);
    let line = encode_line(rec, tokens);
    let n = rec.formation.len() as int;
    let fields = rec.formation;
    if rec.stx_etx == Some(true) {
        assert forall|i: int| 0 <= i < wire.len() implies !(#[trigger] wire[i]).contains(',') by {
            if i == 0 {
                assert(wire[i] == seq![crate::STX]);
            } else if i == wire.len() - 1 {
                assert(wire[i] == seq![crate::ETX]);
            } else {
                assert(wire[i] == tokens[i - 1]);
            }
        }
        lemma_split_join(wire, ',');
        let got = field_tokens(rec, line);
        assert(got == wire.skip(1));
        assert(forall|i: int| 0 <= i < n ==> got[i] == tokens[i]);
        assert(wire[0] == seq![crate::STX]);
        assert(wire[n + 1] == seq![crate::ETX]);
        assert(framing_ok(rec, line));
        lemma_stamp_prefix(fields, got, tokens, n);
        assert(all_decode(fields, got, n) == all_decode(fields, tokens, n)) by {
            if all_decode(fields, tokens, n) {
                assert forall|i: int| 0 <= i < n implies (#[trigger] decode_field(
                    fields[i],
                    got[i],
                )) is Some by {
                    assert(decode_field(fields[i], tokens[i]) is Some);
                }
            }
            if all_decode(fields, got, n) {
                assert forall|i: int| 0 <= i < n implies (#[trigger] decode_field(
                    fields[i],
                    tokens[i],
                )) is Some by {
                    assert(decode_field(fields[i], got[i]) is Some);
                }
            }
        }
        assert(literals(fields, got, n) == literals(fields, tokens, n));
    } else {
        if tokens.len() == 0 {
            assert(line == Seq::<char>::empty());
            assert(literals(fields, field_tokens(rec, line), n) == literals(fields, tokens, n));
        } else {
            lemma_split_join(wire, ',');
            assert(field_tokens(rec, line) == tokens);
        }
    }
}

/// Round trip for a record of a date and time, a text and a number: the date
/// and time comes back in the canonical layout, the text quoted, the number
/// as it was written.
pub proof fn lemma_round_trip_three(
    rec: RecordModel,
    when: Seq<char>,
    word: Seq<char>,
    number: Seq<char>,
    fmt: Seq<char>,
    t: Timestamp,
    canonical: Seq<char>,
)
    requires
        rec.formation.len() == 3,
        kind_of(rec.formation[0]) is DateTime,
        kind_of(rec.formation[1]) is Text,
        kind_of(rec.formation[2]) is Plain,
        rec.formation[0].rust.unit == Some(fmt),
        parsed_datetime(when, fmt) == Some(t),
        formatted_datetime(t, "'%Y-%m-%d %H:%M:%S'"@) == Some(canonical),
        !when.contains(','),
        !word.contains(','),
        !number.contains(','),
    ensures
        decode_line(rec, encode_line(rec, seq![when, word, number])) == Some(
            DecodedModel {
                columns: seq![canonical, quoted(word), number],
                timestamp: if rec.formation[0].rust.major_datetime == Some(true) {
                    Some(t)
                } else {
                    None
                },
            },
        ),
{
    let tokens = seq![when, word, number];
    let fields = rec.formation;
    lemma_decode_encoded(rec, tokens);
    assert(decode_field(fields[0], tokens[0]) == Some(canonical));
    assert(decode_field(fields[1], tokens[1]) == Some(quoted(word)));
    assert(decode_field(fields[2], tokens[2]) == Some(number));
    assert(all_decode(fields, tokens, 3));
    assert(literals(fields, tokens, 3) == seq![canonical, quoted(word), number]);
    reveal_with_fuel(stamp_upto, 4);
    assert(field_stamp(fields[1], tokens[1]) is None);
    assert(field_stamp(fields[2], tokens[2]) is None);
}

/// Framing is enforced: with control-byte framing, a line on which the token
/// after the last field is not the end-of-text character is rejected as a
/// whole.
pub proof fn lemma_unterminated_rejected(rec: RecordModel, line: Seq<char>)
    requires
        rec.stx_etx == Some(true),
        split_on(line, ',').len() <= rec.formation.len() + 1 || split_on(
            line,
            ',',
        )[rec.formation.len() as int + 1] != seq![crate::ETX],
    ensures
        decode_line(rec, line) is None,
{
}

/// Framing is enforced: with control-byte framing, a line that holds no
/// end-of-text character, or no start-of-text character, is rejected.
pub proof fn lemma_unframed_rejected(rec: RecordModel, line: Seq<char>)
    requires
        rec.stx_etx == Some(true),
        !line.contains(crate::ETX) || !line.contains(crate::STX),
    ensures
        decode_line(rec, line) is None,
{
    let all = split_on(line, ',');
    let n = rec.formation.len() as int;
    lemma_split_fields(line, ',');
    lemma_split_nonempty(line, ',');
    if framing_ok(rec, line) {
        assert(all[0][0] == crate::STX);
        assert(all[n + 1][0] == crate::ETX);
        assert(line.contains(all[0][0]));
        assert(line.contains(all[n + 1][0]));
    }
}

/// A line with fewer tokens than the schema has fields is rejected; no record
/// with missing trailing fields comes out.
pub proof fn lemma_short_line_rejected(rec: RecordModel, line: Seq<char>)
    requires
        split_on(line, ',').len() < lead(rec) + rec.formation.len(),
    ensures
        decode_line(rec, line) is None,
{
}

/// A field that does not accept its token makes the whole record fail.
pub proof fn lemma_bad_field_rejected(rec: RecordModel, line: Seq<char>, i: int)
    requires
        0 <= i < rec.formation.len(),
        i < field_tokens(rec, line).len(),
        decode_field(rec.formation[i], field_tokens(rec, line)[i]) is None,
    ensures
        decode_line(rec, line) is None,
{
}

/// With at most one primary timestamp in the schema, the partition time of a
/// decoded record is the value read from that field.
pub proof fn lemma_stamp_of_primary(fields: Seq<FieldModel>, tokens: Seq<Seq<char>>, p: int)
    requires
        crate::codec::single_primary(fields),
        0 <= p < fields.len(),
        fields.len() <= tokens.len(),
        fields[p].rust.major_datetime == Some(true),
        all_decode(fields, tokens, fields.len() as int),
    ensures
        stamp_upto(fields, tokens, fields.len() as int) == if kind_of(fields[p]) is DateTime {
            field_datetime(fields[p], tokens[p])
        } else {
            None
        },
{
    lemma_stamp_from(fields, tokens, p, fields.len() as int);
}

proof fn lemma_stamp_from(fields: Seq<FieldModel>, tokens: Seq<Seq<char>>, p: int, n: int)
    requires
        crate::codec::single_primary(fields),
        0 <= p < fields.len(),
        0 <= n <= fields.len() <= tokens.len(),
        fields[p].rust.major_datetime == Some(true),
        all_decode(fields, tokens, fields.len() as int),
    ensures
        stamp_upto(fields, tokens, n) == if p < n && kind_of(fields[p]) is DateTime {
            field_datetime(fields[p], tokens[p])
        } else {
            None
        },
    decreases n,
{
    if n > 0 {
        lemma_stamp_from(fields, tokens, p, n - 1);
        if n - 1 == p {
            assert(decode_field(fields[p], tokens[p]) is Some);
        } else {
            assert(fields[n - 1].rust.major_datetime != Some(true));
        }
    }
}

} // verus!
