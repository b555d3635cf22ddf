//! Queries and filter rules of the first level of quality control.

use vstd::prelude::*;
use crate::datetime::{parsed_datetime, read_datetime, Timestamp};
use crate::text::{
    decimal, from_chars, matches_at, opt_text, push_decimal, push_str, rows, same_text,
    split_chars, split_on, texts, to_chars,
};

verus! {

/// The query that shows the columns of `table` without a row.
pub fn columns_query(table: &str) -> (r: String)
    ensures
        r@ == "select * from "@ + table@ + " limit 0;"@,
{
    let mut out: Vec<char> = Vec::new();
    assert(out@ + "select * from "@ == "select * from "@);
    push_str(&mut out, "select * from ");
    push_str(&mut out, table);
    push_str(&mut out, " limit 0;");
    from_chars(&out)
}

/// The query that keeps, of the rows of `table` that agree in `dedupe_col`,
/// the one stored last, and orders what is left by `sort_col`.
pub open spec fn dedup_query_text(table: Seq<char>, dedupe_col: Seq<char>, sort_col: Seq<char>) -> Seq<
    char,
> {
    "select "@ + table + ".* from "@ + table
        + "\n        inner join (\n            select max(id) as max_id from "@ + table
        + " group by "@ + dedupe_col
        + "\n        ) group_table\n        ON group_table.max_id = "@ + table
        + ".id\n        order by "@ + table + "."@ + sort_col
}

/// The query that keeps, of the rows of `table` that agree in `dedupe_col`,
/// the one stored last, and orders what is left by `sort_col`.
pub fn dedup_and_sort_query(table: &str, dedupe_col: &str, sort_col: &str) -> (r: String)
    ensures
        r@ == dedup_query_text(table@, dedupe_col@, sort_col@),
{
    let mut out: Vec<char> = Vec::new();
    assert(out@ + "select "@ == "select "@);
    push_str(&mut out, "select ");
    push_str(&mut out, table);
    push_str(&mut out, ".* from ");
    push_str(&mut out, table);
    push_str(&mut out, "\n        inner join (\n            select max(id) as max_id from ");
    push_str(&mut out, table);
    push_str(&mut out, " group by ");
    push_str(&mut out, dedupe_col);
    push_str(&mut out, "\n        ) group_table\n        ON group_table.max_id = ");
    push_str(&mut out, table);
    push_str(&mut out, ".id\n        order by ");
    push_str(&mut out, table);
    push_str(&mut out, ".");
    push_str(&mut out, sort_col);
    from_chars(&out)
}

/// A span of time in which a flag applies to a target.
#[derive(Debug)]
pub struct FilterRule {
    pub starttime: Timestamp,
    pub endtime: Timestamp,
    pub target: String,
}

/// A rule as a value of the model.
pub struct RuleModel {
    pub starttime: Timestamp,
    pub endtime: Timestamp,
    pub target: Seq<char>,
}

impl View for FilterRule {
    type V = RuleModel;

    open spec fn view(&self) -> RuleModel {
        RuleModel { starttime: self.starttime, endtime: self.endtime, target: self.target@ }
    }
}

/// The layout of the times of a rule: the canonical layout between double
/// quotes.
pub open spec fn rule_time_layout() -> Seq<char> {
    "\"%Y-%m-%d %H:%M:%S\""@
}

/// The rule that a line holds: its first two fields read as the start and the
/// end, its third field is the target. A line with fewer fields, or with a
/// time that does not read, holds none.
pub open spec fn rule_of(line: Seq<char>) -> Option<RuleModel> {
    let t = split_on(line, ',');
    if t.len() < 3 {
        None
    } else {
        match (parsed_datetime(t[0], rule_time_layout()), parsed_datetime(t[1], rule_time_layout())) {
            (Some(a), Some(b)) => Some(RuleModel { starttime: a, endtime: b, target: t[2] }),
            _ => None,
        }
    }
}

/// The model of an optional rule.
pub open spec fn opt_rule(r: Option<FilterRule>) -> Option<RuleModel> {
    match r {
        Some(r) => Some(r@),
        None => None,
    }
}

/// Reads the rule that a line holds.
pub fn parse_rule_line(line: &str) -> (r: Option<FilterRule>)
    ensures
        opt_rule(r) == rule_of(line@),
{
    let chars = to_chars(line);
    let tokens = split_chars(&chars, ',');
    assert(rows(tokens@).len() == tokens@.len());
    if tokens.len() < 3 {
        return None;
    }
    assert(rows(tokens@)[0] == tokens@[0]@);
    assert(rows(tokens@)[1] == tokens@[1]@);
    assert(rows(tokens@)[2] == tokens@[2]@);
    let first = from_chars(&tokens[0]);
    let second = from_chars(&tokens[1]);
    let a = read_datetime(first.as_str(), "\"%Y-%m-%d %H:%M:%S\"");
    let b = read_datetime(second.as_str(), "\"%Y-%m-%d %H:%M:%S\"");
    match (a, b) {
        (Some(a), Some(b)) => Some(
            FilterRule { starttime: a, endtime: b, target: from_chars(&tokens[2]) },
        ),
        _ => None,
    }
}

/// Whether `pat` stands somewhere in `s`.
pub open spec fn occurs(s: Seq<char>, pat: Seq<char>) -> bool {
    exists|i: int| 0 <= i <= s.len() - pat.len() && #[trigger] s.subrange(i, i + pat.len()) == pat
}

/// Whether `pat` stands somewhere in `s`.
pub fn contains_sub(s: &Vec<char>, pat: &Vec<char>) -> (r: bool)
    ensures
        r == occurs(s@, pat@),
{
    if pat.len() > s.len() {
        return false;
    }
    let last = s.len() - pat.len();
    let mut i: usize = 0;
    loop
        invariant
            last == s.len() - pat.len(),
            pat.len() <= s.len(),
            i <= last,
            forall|j: int| 0 <= j < i ==> #[trigger] s@.subrange(j, j + pat.len()) != pat@,
        decreases last - i,
    {
        if matches_at(s, i, pat) {
            return true;
        }
        if i == last {
            return false;
        }
        i += 1;
    }
}

/// A line heads the rules of a file when it names the start time, the end
/// time and the flag.
pub open spec fn heads_rules(line: Seq<char>) -> bool {
    occurs(line, "Start time(LT)"@) && occurs(line, "End time(LT)"@) && occurs(line, "Flag"@)
}

/// Whether `line` heads the rules of a file.
pub fn is_rule_header(line: &str) -> (r: bool)
    ensures
        r == heads_rules(line@),
{
    let chars = to_chars(line);
    contains_sub(&chars, &to_chars("Start time(LT)")) && contains_sub(
        &chars,
        &to_chars("End time(LT)"),
    ) && contains_sub(&chars, &to_chars("Flag"))
}

/// The rules among the first `n` lines, in the order of the lines.
pub open spec fn rules_upto(lines: Seq<Seq<char>>, from: int, n: int) -> Seq<RuleModel>
    decreases n - from,
{
    if n <= from {
        Seq::empty()
    } else {
        match rule_of(lines[n - 1]) {
            Some(r) => rules_upto(lines, from, n - 1).push(r),
            None => rules_upto(lines, from, n - 1),
        }
    }
}

/// The position of the first line at or after `i` that heads the rules.
pub open spec fn header_from(lines: Seq<Seq<char>>, i: int) -> Option<int>
    decreases lines.len() - i,
{
    if i < 0 || i >= lines.len() {
        None
    } else if heads_rules(lines[i]) {
        Some(i)
    } else {
        header_from(lines, i + 1)
    }
}

/// The rules of a file: those that the lines after the first heading line
/// hold. Lines that hold no rule are passed over; a file without a heading
/// line has no rules.
pub open spec fn file_rules(lines: Seq<Seq<char>>) -> Seq<RuleModel> {
    match header_from(lines, 0) {
        Some(h) => rules_upto(lines, h + 1, lines.len() as int),
        None => Seq::empty(),
    }
}

/// The models of a list of rules.
pub open spec fn rule_models(v: Seq<FilterRule>) -> Seq<RuleModel> {
    Seq::new(v.len(), |i: int| v[i]@)
}

proof fn lemma_header_from(lines: Seq<Seq<char>>, i: int, h: int)
    requires
        0 <= i <= h <= lines.len(),
        forall|j: int| i <= j < h ==> !heads_rules(#[trigger] lines[j]),
        h < lines.len() ==> heads_rules(lines[h]),
    ensures
        header_from(lines, i) == if h < lines.len() {
            Some(h)
        } else {
            None
        },
    decreases h - i,
{
    if i < h {
        lemma_header_from(lines, i + 1, h);
    }
}

/// Reads the rules of a file from its lines.
pub fn rules_from_lines(lines: &Vec<String>) -> (r: Vec<FilterRule>)
    ensures
        rule_models(r@) == file_rules(texts(lines@)),
{
    let mut out: Vec<FilterRule> = Vec::new();
    let mut h: usize = 0;
    while h < lines.len() && !is_rule_header(lines[h].as_str())
        invariant
            h <= lines.len(),
            forall|j: int| 0 <= j < h ==> !heads_rules(#[trigger] texts(lines@)[j]),
        decreases lines.len() - h,
    {
        h += 1;
    }
    proof {
        lemma_header_from(texts(lines@), 0, h as int);
    }
    if h >= lines.len() {
        assert(rule_models(out@) == Seq::<RuleModel>::empty());
        return out;
    }
    let mut i: usize = h + 1;
    assert(rule_models(out@) == rules_upto(texts(lines@), h + 1, i as int));
    while i < lines.len()
        invariant
            h < lines.len(),
            h + 1 <= i <= lines.len(),
            rule_models(out@) == rules_upto(texts(lines@), h + 1, i as int),
        decreases lines.len() - i,
    {
        let ghost before = rule_models(out@);
        match parse_rule_line(lines[i].as_str()) {
            Some(rule) => {
                out.push(rule);
                assert(rule_models(out@) == before.push(rule@));
            },
            None => {},
        }
        i += 1;
    }
    out
}

/// The variants of one flag.
#[derive(Debug)]
pub struct FlagEntry {
    pub id: String,
    pub variants: Vec<String>,
}

/// The flags of one level, and the file that holds its rules.
#[derive(Debug)]
pub struct FilterLevel {
    pub name: String,
    pub source: Option<String>,
    pub flags: Vec<FlagEntry>,
}

/// The rules read for one level.
#[derive(Debug)]
pub struct LevelRules {
    pub level: String,
    pub rules: Vec<FilterRule>,
}

/// The flag tables and the rules of the filter.
#[derive(Debug)]
pub struct Filter {
    pub flags: Vec<FilterLevel>,
    pub rules: Vec<LevelRules>,
}

/// The name under which the level `level` stands in the flag tables.
pub open spec fn level_name(level: nat) -> Seq<char> {
    "Level"@ + decimal(level)
}

/// `i` is the first level called `name`.
pub open spec fn first_level(levels: Seq<FilterLevel>, name: Seq<char>, i: int) -> bool {
    &&& 0 <= i < levels.len()
    &&& levels[i].name@ == name
    &&& forall|j: int| 0 <= j < i ==> (#[trigger] levels[j]).name@ != name
}

/// No level is called `name`.
pub open spec fn no_level(levels: Seq<FilterLevel>, name: Seq<char>) -> bool {
    forall|j: int| 0 <= j < levels.len() ==> (#[trigger] levels[j]).name@ != name
}

/// `i` is the first flag with the number `id`.
pub open spec fn first_flag(flags: Seq<FlagEntry>, id: Seq<char>, i: int) -> bool {
    &&& 0 <= i < flags.len()
    &&& flags[i].id@ == id
    &&& forall|j: int| 0 <= j < i ==> (#[trigger] flags[j]).id@ != id
}

/// No flag has the number `id`.
pub open spec fn no_flag(flags: Seq<FlagEntry>, id: Seq<char>) -> bool {
    forall|j: int| 0 <= j < flags.len() ==> (#[trigger] flags[j]).id@ != id
}

/// `i` is the first set of rules of the level called `name`.
pub open spec fn first_rules(rules: Seq<LevelRules>, name: Seq<char>, i: int) -> bool {
    &&& 0 <= i < rules.len()
    &&& rules[i].level@ == name
    &&& forall|j: int| 0 <= j < i ==> (#[trigger] rules[j]).level@ != name
}

impl Filter {
    /// A filter without flags and without rules.
    pub fn new() -> (r: Self)
        ensures
            r.flags@.len() == 0,
            r.rules@.len() == 0,
    {
        Filter { flags: Vec::new(), rules: Vec::new() }
    }

    /// Takes the flag tables in. The rules stay as they are.
    pub fn load_flag_table(&mut self, flags: Vec<FilterLevel>)
        ensures
            final(self).flags == flags,
            final(self).rules == old(self).rules,
    {
        self.flags = flags;
    }

    /// The flag table of the level `level`.
    pub fn get_level(&self, level: usize) -> (r: Option<&FilterLevel>)
        ensures
            match r {
                Some(l) => exists|i: int|
                    first_level(self.flags@, level_name(level as nat), i) && *l
                        == #[trigger] self.flags@[i],
                None => no_level(self.flags@, level_name(level as nat)),
            },
    {
        let mut name: Vec<char> = Vec::new();
        assert(name@ + "Level"@ == "Level"@);
        push_str(&mut name, "Level");
        push_decimal(&mut name, level as u64);
        let name = from_chars(&name);
        let mut i: usize = 0;
        while i < self.flags.len()
            invariant
                i <= self.flags.len(),
                name@ == level_name(level as nat),
                forall|j: int| 0 <= j < i ==> (#[trigger] self.flags@[j]).name@ != name@,
            decreases self.flags.len() - i,
        {
            if same_text(self.flags[i].name.as_str(), name.as_str()) {
                assert(first_level(self.flags@, name@, i as int));
                return Some(&self.flags[i]);
            }
            i += 1;
        }
        None
    }

    /// The file that holds the rules of the level `level`.
    pub fn get_source(&self, level: usize) -> (r: Option<&str>)
        ensures
            match r {
                Some(s) => exists|i: int|
                    first_level(self.flags@, level_name(level as nat), i) && Some(s@) == opt_text(
                        (#[trigger] self.flags@[i]).source,
                    ),
                None => no_level(self.flags@, level_name(level as nat)) || exists|i: int|
                    first_level(self.flags@, level_name(level as nat), i) && (
                    #[trigger] self.flags@[i]).source is None,
            },
    {
        match self.get_level(level) {
            Some(l) => match &l.source {
                Some(s) => Some(s.as_str()),
                None => None,
            },
            None => None,
        }
    }

    /// The variants of the flag `flag` of the level `level`.
    pub fn get_flags(&self, level: usize, flag: usize) -> (r: Option<&Vec<String>>)
        ensures
            match r {
                Some(v) => exists|i: int, k: int|
                    first_level(self.flags@, level_name(level as nat), i) && first_flag(
                        self.flags@[i].flags@,
                        decimal(flag as nat),
                        k,
                    ) && *v == (#[trigger] self.flags@[i].flags@[k]).variants,
                None => no_level(self.flags@, level_name(level as nat)) || exists|i: int|
                    first_level(self.flags@, level_name(level as nat), i) && no_flag(
                        (#[trigger] self.flags@[i]).flags@,
                        decimal(flag as nat),
                    ),
            },
    {
        let l = match self.get_level(level) {
            Some(l) => l,
            None => {
                return None;
            },
        };
        let ghost i = choose|i: int|
            first_level(self.flags@, level_name(level as nat), i) && *l
                == #[trigger] self.flags@[i];
        let mut id: Vec<char> = Vec::new();
        push_decimal(&mut id, flag as u64);
        assert(id@ == decimal(flag as nat));
        let id = from_chars(&id);
        let mut k: usize = 0;
        while k < l.flags.len()
            invariant
                k <= l.flags.len(),
                first_level(self.flags@, level_name(level as nat), i),
                *l == self.flags@[i],
                id@ == decimal(flag as nat),
                forall|j: int| 0 <= j < k ==> (#[trigger] l.flags@[j]).id@ != id@,
            decreases l.flags.len() - k,
        {
            if same_text(l.flags[k].id.as_str(), id.as_str()) {
                assert(first_flag(self.flags@[i].flags@, decimal(flag as nat), k as int));
                assert(l.flags[k as int].variants == self.flags@[i].flags@[k as int].variants);
                return Some(&l.flags[k].variants);
            }
            k += 1;
        }
        assert(no_flag(self.flags@[i].flags@, decimal(flag as nat)));
        None
    }

    /// The levels that name a file for their rules, with that file, in the
    /// order of the flag tables.
    pub fn rule_sources(&self) -> (r: Vec<(String, String)>)
        ensures
            pairs(r@) == sources_upto(self.flags@, self.flags@.len() as int),
    {
        let mut out: Vec<(String, String)> = Vec::new();
        let mut i: usize = 0;
        assert(pairs(out@) == sources_upto(self.flags@, 0));
        while i < self.flags.len()
            invariant
                i <= self.flags.len(),
                pairs(out@) == sources_upto(self.flags@, i as int),
            decreases self.flags.len() - i,
        {
            let l = &self.flags[i];
            if let Some(s) = &l.source {
                let ghost before = pairs(out@);
                let pair = (l.name.clone(), s.clone());
                out.push(pair);
                assert(pairs(out@) == before.push((pair.0@, pair.1@)));
            }
            i += 1;
        }
        out
    }

    /// Reads the rules of the level called `level` from the lines of its
    /// file and adds them to those that the level has already. The rules of
    /// the other levels stay as they are.
    pub fn load_rules(&mut self, level: &str, lines: &Vec<String>)
        ensures
            final(self).flags == old(self).flags,
            level_rules(final(self).rules@, level@, 0) == level_rules(old(self).rules@, level@, 0)
                + file_rules(texts(lines@)),
            forall|other: Seq<char>|
                other != level@ ==> #[trigger] level_rules(final(self).rules@, other, 0)
                    == level_rules(old(self).rules@, other, 0),
    {
        let fresh = rules_from_lines(lines);
        let ghost before = self.rules@;
        let mut i: usize = 0;
        while i < self.rules.len() && !same_text(self.rules[i].level.as_str(), level)
            invariant
                i <= self.rules.len(),
                self.rules@ == before,
                forall|j: int| 0 <= j < i ==> (#[trigger] self.rules@[j]).level@ != level@,
            decreases self.rules.len() - i,
        {
            i += 1;
        }
        proof {
            lemma_level_rules(before, level@, 0, i as int);
        }
        let mut all: Vec<FilterRule> = Vec::new();
        if i < self.rules.len() {
            let had = &self.rules[i].rules;
            let mut k: usize = 0;
            while k < had.len()
                invariant
                    k <= had.len(),
                    rule_models(all@) == rule_models(had@).take(k as int),
                decreases had.len() - k,
            {
                let ghost done = rule_models(all@);
                let copy = FilterRule {
                    starttime: had[k].starttime,
                    endtime: had[k].endtime,
                    target: had[k].target.clone(),
                };
                all.push(copy);
                assert(rule_models(all@) == done.push(copy@));
                assert(rule_models(had@).take(k + 1) == rule_models(had@).take(k as int).push(
                    had@[k as int]@,
                ));
                k += 1;
            }
            assert(rule_models(had@).take(had.len() as int) == rule_models(had@));
        }
        let ghost own = rule_models(all@);
        assert(own == level_rules(before, level@, 0));
        let mut k: usize = 0;
        let mut fresh = fresh;
        let ghost added = rule_models(fresh@);
        while k < fresh.len()
            invariant
                k <= fresh.len(),
                added == rule_models(fresh@),
                rule_models(all@) == own + added.take(k as int),
            decreases fresh.len() - k,
        {
            let ghost done = rule_models(all@);
            let copy = FilterRule {
                starttime: fresh[k].starttime,
                endtime: fresh[k].endtime,
                target: fresh[k].target.clone(),
            };
            all.push(copy);
            assert(rule_models(all@) == done.push(copy@));
            assert(added.take(k + 1) == added.take(k as int).push(fresh@[k as int]@));
            k += 1;
        }
        assert(added.take(fresh.len() as int) == added);
        let entry = LevelRules { level: level.to_owned(), rules: all };
        if i < self.rules.len() {
            self.rules.set(i, entry);
        } else {
            self.rules.push(entry);
        }
        proof {
            let after = self.rules@;
            lemma_level_rules(after, level@, 0, i as int);
            assert forall|other: Seq<char>| other != level@ implies #[trigger] level_rules(
                after,
                other,
                0,
            ) == level_rules(before, other, 0) by {
                lemma_other_levels(before, after, other, i as int, 0);
            }
        }
    }
}

/// The texts of a list of pairs of strings.
pub open spec fn pairs(v: Seq<(String, String)>) -> Seq<(Seq<char>, Seq<char>)> {
    Seq::new(v.len(), |i: int| (v[i].0@, v[i].1@))
}

/// The levels among the first `n` that name a file for their rules, each
/// with that file.
pub open spec fn sources_upto(levels: Seq<FilterLevel>, n: int) -> Seq<(Seq<char>, Seq<char>)>
    decreases n,
{
    if n <= 0 {
        Seq::empty()
    } else {
        match levels[n - 1].source {
            Some(s) => sources_upto(levels, n - 1).push((levels[n - 1].name@, s@)),
            None => sources_upto(levels, n - 1),
        }
    }
}

/// The rules of the first entry at or after `i` that belongs to the level
/// called `name`; none when there is no such entry.
pub open spec fn level_rules(rules: Seq<LevelRules>, name: Seq<char>, i: int) -> Seq<RuleModel>
    decreases rules.len() - i,
{
    if i < 0 || i >= rules.len() {
        Seq::empty()
    } else if rules[i].level@ == name {
        rule_models(rules[i].rules@)
    } else {
        level_rules(rules, name, i + 1)
    }
}

proof fn lemma_level_rules(rules: Seq<LevelRules>, name: Seq<char>, i: int, k: int)
    requires
        0 <= i <= k <= rules.len(),
        forall|j: int| i <= j < k ==> (#[trigger] rules[j]).level@ != name,
        k < rules.len() ==> rules[k].level@ == name,
    ensures
        level_rules(rules, name, i) == if k < rules.len() {
            rule_models(rules[k].rules@)
        } else {
            Seq::empty()
        },
    decreases k - i,
{
    if i < k {
        lemma_level_rules(rules, name, i + 1, k);
    }
}

proof fn lemma_other_levels(
    before: Seq<LevelRules>,
    after: Seq<LevelRules>,
    other: Seq<char>,
    k: int,
    i: int,
)
    requires
        0 <= i,
        0 <= k <= before.len(),
        k < before.len() ==> after.len() == before.len() && before[k].level@ != other,
        k == before.len() ==> after.len() == before.len() + 1,
        after[k].level@ != other,
        forall|j: int| 0 <= j < before.len() && j != k ==> after[j] == before[j],
    ensures
        level_rules(after, other, i) == level_rules(before, other, i),
    decreases after.len() - i,
{
    if i < after.len() {
        lemma_other_levels(before, after, other, k, i + 1);
    }
}

} // verus!
