use vstd::prelude::*;

use std::path::PathBuf;

use crate::ident::{is_v4_uuid_text, new_v4_text};
use crate::text::{
    contains_str, decimal, decimal_string, has_infix, is_digit, is_token, is_ws, lemma_decimal_digits,
    lemma_word_len_is, lemma_words_are_tokens, lowercase, parse_unsigned, parse_unsigned_str,
    split_whitespace, str_eq, to_lowercase, trim, trim_str, views_of, words,
};
use crate::time::{now, Timestamp};

verus! {

/// The five fields of a cron expression, as character sequences.
pub struct CronFields {
    pub minute: Seq<char>,
    pub hour: Seq<char>,
    pub day_of_month: Seq<char>,
    pub month: Seq<char>,
    pub day_of_week: Seq<char>,
}

/// Simple cron expression (5-field: min hour dom month dow).
#[derive(Debug)]
pub struct CronExpression {
    pub minute: String,
    pub hour: String,
    pub day_of_month: String,
    pub month: String,
    pub day_of_week: String,
}

impl View for CronExpression {
    type V = CronFields;

    open spec fn view(&self) -> CronFields {
        CronFields {
            minute: self.minute@,
            hour: self.hour@,
            day_of_month: self.day_of_month@,
            month: self.month@,
            day_of_week: self.day_of_week@,
        }
    }
}

impl Clone for CronExpression {
    fn clone(&self) -> (r: Self)
        ensures
            r == *self,
    {
        CronExpression {
            minute: self.minute.clone(),
            hour: self.hour.clone(),
            day_of_month: self.day_of_month.clone(),
            month: self.month.clone(),
            day_of_week: self.day_of_week.clone(),
        }
    }
}

/// Errors of the cron module.
#[derive(Debug)]
pub enum CronError {
    /// The expression did not split into exactly five fields; holds how many it had.
    FieldCount(usize),
    /// No stored job has the given id.
    NotFound(String),
}

/// The expression made of the five words of `s`, when `s` has exactly five.
pub open spec fn parse_fields(s: Seq<char>) -> Option<CronFields> {
    let w = words(s);
    if w.len() == 5 {
        Some(CronFields { minute: w[0], hour: w[1], day_of_month: w[2], month: w[3], day_of_week: w[4] })
    } else {
        None
    }
}

/// The five fields joined by single spaces.
pub open spec fn join_fields(f: CronFields) -> Seq<char> {
    f.minute + seq![' '] + f.hour + seq![' '] + f.day_of_month + seq![' '] + f.month + seq![' ']
        + f.day_of_week
}

pub open spec fn well_formed(f: CronFields) -> bool {
    &&& is_token(f.minute)
    &&& is_token(f.hour)
    &&& is_token(f.day_of_month)
    &&& is_token(f.month)
    &&& is_token(f.day_of_week)
}

impl CronExpression {
    /// Splits `expr` at white space; exactly five fields make an expression.
    pub fn parse(expr: &str) -> (r: Result<CronExpression, CronError>)
        ensures
            r is Ok <==> parse_fields(expr@) is Some,
            r matches Ok(e) ==> e@ == parse_fields(expr@).unwrap(),
            r matches Err(e) ==> e matches CronError::FieldCount(n) && n == words(expr@).len(),
    {
        let parts = split_whitespace(expr);
        if parts.len() != 5 {
            return Err(CronError::FieldCount(parts.len()));
        }
        Ok(CronExpression {
            minute: String::from_str(parts[0]),
            hour: String::from_str(parts[1]),
            day_of_month: String::from_str(parts[2]),
            month: String::from_str(parts[3]),
            day_of_week: String::from_str(parts[4]),
        })
    }

    /// The five fields separated by single spaces.
    pub fn to_string(&self) -> (r: String)
        ensures
            r@ == join_fields(self@),
    {
        let mut s = self.minute.clone();
        proof {
            reveal_strlit(" ");
        }
        s.append(" ");
        s.append(self.hour.as_str());
        s.append(" ");
        s.append(self.day_of_month.as_str());
        s.append(" ");
        s.append(self.month.as_str());
        s.append(" ");
        s.append(self.day_of_week.as_str());
        s
    }
}

/// Words of a token followed by a space and more text.
pub proof fn lemma_words_token_space(w: Seq<char>, rest: Seq<char>)
    requires
        is_token(w),
    ensures
        words(w + seq![' '] + rest) == seq![w] + words(rest),
{
    let s = w + seq![' '] + rest;
    assert forall|m: int| 0 <= m < w.len() implies !is_ws(#[trigger] s[m]) by {
        assert(s[m] == w[m]);
    }
    assert(s[w.len() as int] == ' ');
    lemma_word_len_is(s, w.len() as int);
    assert(s.take(w.len() as int) =~= w);
    let t = s.skip(w.len() as int);
    assert(t =~= seq![' '] + rest);
    assert(t.drop_first() =~= rest);
    assert(words(t) == words(t.drop_first()));
}

/// Words of a lone token.
pub proof fn lemma_words_token(w: Seq<char>)
    requires
        is_token(w),
    ensures
        words(w) == seq![w],
{
    lemma_word_len_is(w, w.len() as int);
    assert(w.take(w.len() as int) =~= w);
    assert(w.skip(w.len() as int) =~= Seq::<char>::empty());
    assert(words(Seq::<char>::empty()) =~= Seq::<Seq<char>>::empty());
    assert(seq![w] + Seq::<Seq<char>>::empty() =~= seq![w]);
}

/// Parsing what `to_string` writes gives back the same expression, when every field is a
/// non-empty run of characters other than white space.
pub proof fn lemma_parse_to_string(f: CronFields)
    requires
        well_formed(f),
    ensures
        parse_fields(join_fields(f)) == Some(f),
{
    let sp = seq![' '];
    let r4 = f.day_of_week;
    let r3 = f.month + sp + r4;
    let r2 = f.day_of_month + sp + r3;
    let r1 = f.hour + sp + r2;
    assert(join_fields(f) =~= f.minute + sp + r1);
    lemma_words_token(r4);
    lemma_words_token_space(f.month, r4);
    lemma_words_token_space(f.day_of_month, r3);
    lemma_words_token_space(f.hour, r2);
    lemma_words_token_space(f.minute, r1);
    let w = words(join_fields(f));
    assert(w =~= seq![f.minute, f.hour, f.day_of_month, f.month, f.day_of_week]);
}


/// Every expression that `parse` accepts is written back by `to_string` as text that parses to
/// the same expression.
pub proof fn lemma_parse_normalizes(s: Seq<char>)
    requires
        parse_fields(s) is Some,
    ensures
        well_formed(parse_fields(s).unwrap()),
        parse_fields(join_fields(parse_fields(s).unwrap())) == parse_fields(s),
{
    lemma_words_are_tokens(s);
    let w = words(s);
    assert(is_token(w[0]) && is_token(w[1]) && is_token(w[2]) && is_token(w[3]) && is_token(w[4]));
    lemma_parse_to_string(parse_fields(s).unwrap());
}

/// Five fields given literally.
pub open spec fn fields5(
    a: Seq<char>,
    b: Seq<char>,
    c: Seq<char>,
    d: Seq<char>,
    e: Seq<char>,
) -> CronFields {
    CronFields { minute: a, hour: b, day_of_month: c, month: d, day_of_week: e }
}

fn expr5(a: &str, b: &str, c: &str, d: &str, e: &str) -> (r: CronExpression)
    ensures
        r@ == fields5(a@, b@, c@, d@, e@),
{
    CronExpression {
        minute: String::from_str(a),
        hour: String::from_str(b),
        day_of_month: String::from_str(c),
        month: String::from_str(d),
        day_of_week: String::from_str(e),
    }
}

/// The unit of an "every N <unit>" schedule.
#[derive(Debug, Clone, Copy, PartialEq, Eq, Structural)]
pub enum IntervalUnit {
    Minutes,
    Hours,
    Days,
}

/// The unit that a word names, if any.
pub open spec fn unit_of(w: Seq<char>) -> Option<IntervalUnit> {
    if w == "minute"@ || w == "minutes"@ || w == "min"@ || w == "mins"@ {
        Some(IntervalUnit::Minutes)
    } else if w == "hour"@ || w == "hours"@ || w == "hr"@ || w == "hrs"@ {
        Some(IntervalUnit::Hours)
    } else if w == "day"@ || w == "days"@ {
        Some(IntervalUnit::Days)
    } else {
        None
    }
}

/// The largest count allowed for a unit.
pub open spec fn unit_limit(u: IntervalUnit) -> nat {
    match u {
        IntervalUnit::Minutes => 59,
        IntervalUnit::Hours => 23,
        IntervalUnit::Days => 31,
    }
}

/// The expression that runs every `n` units.
pub open spec fn interval_fields(u: IntervalUnit, n: nat) -> CronFields {
    let step = "*/"@ + decimal(n);
    match u {
        IntervalUnit::Minutes => fields5(step, "*"@, "*"@, "*"@, "*"@),
        IntervalUnit::Hours => fields5("0"@, step, "*"@, "*"@, "*"@),
        IntervalUnit::Days => fields5("0"@, "0"@, step, "*"@, "*"@),
    }
}

/// The schedule given by the first "every N <unit>" among the words from position `i` on,
/// with N a number that `u32` parsing accepts and a known unit: the interval when N is between
/// 1 and the unit's limit, nothing otherwise.
pub open spec fn interval_from(ws: Seq<Seq<char>>, i: int) -> Option<CronFields>
    decreases ws.len() - i,
{
    if i < 0 || i >= ws.len() {
        None
    } else if ws[i] == "every"@ && i + 2 < ws.len() && parse_unsigned(ws[i + 1], u32::MAX as nat) is Some
        && unit_of(ws[i + 2]) is Some {
        let n = parse_unsigned(ws[i + 1], u32::MAX as nat).unwrap();
        let u = unit_of(ws[i + 2]).unwrap();
        if n == 0 || n > unit_limit(u) {
            None
        } else {
            Some(interval_fields(u, n))
        }
    } else {
        interval_from(ws, i + 1)
    }
}

fn unit_word(w: &str) -> (r: Option<IntervalUnit>)
    ensures
        r == unit_of(w@),
{
    if str_eq(w, "minute") || str_eq(w, "minutes") || str_eq(w, "min") || str_eq(w, "mins") {
        Some(IntervalUnit::Minutes)
    } else if str_eq(w, "hour") || str_eq(w, "hours") || str_eq(w, "hr") || str_eq(w, "hrs") {
        Some(IntervalUnit::Hours)
    } else if str_eq(w, "day") || str_eq(w, "days") {
        Some(IntervalUnit::Days)
    } else {
        None
    }
}

fn interval_expr(u: IntervalUnit, n: u32) -> (r: CronExpression)
    ensures
        r@ == interval_fields(u, n as nat),
{
    let mut step = String::from_str("*/");
    let digits = decimal_string(n as u64);
    step.append(digits.as_str());
    let star = "*";
    let zero = "0";
    match u {
        IntervalUnit::Minutes => CronExpression {
            minute: step,
            hour: String::from_str(star),
            day_of_month: String::from_str(star),
            month: String::from_str(star),
            day_of_week: String::from_str(star),
        },
        IntervalUnit::Hours => CronExpression {
            minute: String::from_str(zero),
            hour: step,
            day_of_month: String::from_str(star),
            month: String::from_str(star),
            day_of_week: String::from_str(star),
        },
        IntervalUnit::Days => CronExpression {
            minute: String::from_str(zero),
            hour: String::from_str(zero),
            day_of_month: step,
            month: String::from_str(star),
            day_of_week: String::from_str(star),
        },
    }
}

/// Looks for "every N minutes/hours/days" among the words of `input`.
pub fn parse_interval(input: &str) -> (r: Option<CronExpression>)
    ensures
        r is Some <==> interval_from(words(input@), 0) is Some,
        r matches Some(e) ==> e@ == interval_from(words(input@), 0).unwrap(),
{
    let ws = split_whitespace(input);
    let ghost sw = words(input@);
    let n = ws.len();
    let mut i: usize = 0;
    while i < n
        invariant
            n == ws@.len(),
            sw == words(input@),
            sw == views_of(ws@),
            i <= n,
            interval_from(sw, 0) == interval_from(sw, i as int),
        decreases n - i,
    {
        assert(sw[i as int] == ws@[i as int]@);
        if str_eq(ws[i], "every") && n >= 2 && i < n - 2 {
            assert(sw[i + 1] == ws@[i + 1]@);
            assert(sw[i + 2] == ws@[i + 2]@);
            match parse_unsigned_str(ws[i + 1], 4294967295u64) {
                Some(v) => {
                    let num = v as u32;
                    match unit_word(ws[i + 2]) {
                        Some(u) => {
                            let limit: u32 = match u {
                                IntervalUnit::Minutes => 59,
                                IntervalUnit::Hours => 23,
                                IntervalUnit::Days => 31,
                            };
                            if num == 0 || num > limit {
                                return None;
                            }
                            return Some(interval_expr(u, num));
                        },
                        None => {},
                    }
                },
                None => {},
            }
        }
        i = i + 1;
    }
    None
}

/// The schedule for a natural-language input whose trimmed lowercase form is `lower`: a
/// fixed expression for the first common phrase that `lower` contains, else the first
/// "every N <unit>" interval among its words, else `input` read as a raw cron expression.
pub open spec fn schedule_for(lower: Seq<char>, input: Seq<char>) -> Option<CronFields> {
    if has_infix(lower, "every minute"@) || lower == "* * * * *"@ {
        Some(fields5("*"@, "*"@, "*"@, "*"@, "*"@))
    } else if has_infix(lower, "every hour"@) || has_infix(lower, "hourly"@) {
        Some(fields5("0"@, "*"@, "*"@, "*"@, "*"@))
    } else if has_infix(lower, "daily"@) || has_infix(lower, "every day"@) {
        Some(fields5("0"@, "9"@, "*"@, "*"@, "*"@))
    } else if has_infix(lower, "every morning"@) {
        Some(fields5("0"@, "9"@, "*"@, "*"@, "*"@))
    } else if has_infix(lower, "every night"@) || has_infix(lower, "nightly"@) {
        Some(fields5("0"@, "22"@, "*"@, "*"@, "*"@))
    } else if has_infix(lower, "weekly"@) || has_infix(lower, "every week"@) {
        Some(fields5("0"@, "9"@, "*"@, "*"@, "1"@))
    } else if has_infix(lower, "monthly"@) || has_infix(lower, "every month"@) {
        Some(fields5("0"@, "9"@, "1"@, "*"@, "*"@))
    } else if interval_from(words(lower), 0) is Some {
        interval_from(words(lower), 0)
    } else {
        parse_fields(input)
    }
}

/// Natural-language to cron expression conversion: the schedule for the trimmed, lowercased
/// input.
pub open spec fn natural_schedule(input: Seq<char>) -> Option<CronFields> {
    schedule_for(lowercase(trim(input)), input)
}

/// The schedule for `input`, given `lower`, its trimmed lowercase form.
pub fn schedule_from_lowered(lower: &str, input: &str) -> (r: Result<CronExpression, CronError>)
    ensures
        r is Ok <==> schedule_for(lower@, input@) is Some,
        r matches Ok(e) ==> e@ == schedule_for(lower@, input@).unwrap(),
        r matches Err(e) ==> e matches CronError::FieldCount(n) && n == words(input@).len(),
{
    if contains_str(lower, "every minute") || str_eq(lower, "* * * * *") {
        return Ok(expr5("*", "*", "*", "*", "*"));
    }
    if contains_str(lower, "every hour") || contains_str(lower, "hourly") {
        return Ok(expr5("0", "*", "*", "*", "*"));
    }
    if contains_str(lower, "daily") || contains_str(lower, "every day") {
        return Ok(expr5("0", "9", "*", "*", "*"));
    }
    if contains_str(lower, "every morning") {
        return Ok(expr5("0", "9", "*", "*", "*"));
    }
    if contains_str(lower, "every night") || contains_str(lower, "nightly") {
        return Ok(expr5("0", "22", "*", "*", "*"));
    }
    if contains_str(lower, "weekly") || contains_str(lower, "every week") {
        return Ok(expr5("0", "9", "*", "*", "1"));
    }
    if contains_str(lower, "monthly") || contains_str(lower, "every month") {
        return Ok(expr5("0", "9", "1", "*", "*"));
    }
    if let Some(caps) = parse_interval(lower) {
        return Ok(caps);
    }
    CronExpression::parse(input)
}

/// Natural-language to cron expression conversion.
pub fn parse_natural_schedule(input: &str) -> (r: Result<CronExpression, CronError>)
    ensures
        r is Ok <==> natural_schedule(input@) is Some,
        r matches Ok(e) ==> e@ == natural_schedule(input@).unwrap(),
        r matches Err(e) ==> e matches CronError::FieldCount(n) && n == words(input@).len(),
{
    let lowered = to_lowercase(trim_str(input));
    schedule_from_lowered(lowered.as_str(), input)
}

proof fn lemma_literal_tokens()
    ensures
        is_token("*"@),
        is_token("0"@),
        is_token("1"@),
        is_token("9"@),
        is_token("22"@),
{
    reveal_strlit("*");
    reveal_strlit("0");
    reveal_strlit("1");
    reveal_strlit("9");
    reveal_strlit("22");
}

proof fn lemma_interval_well_formed(u: IntervalUnit, n: nat)
    ensures
        well_formed(interval_fields(u, n)),
{
    lemma_literal_tokens();
    lemma_decimal_digits(n);
    reveal_strlit("*/");
    let step = "*/"@ + decimal(n);
    assert forall|i: int| 0 <= i < step.len() implies !is_ws(#[trigger] step[i]) by {
        if i >= 2 {
            assert(step[i] == decimal(n)[i - 2]);
            assert(is_digit(decimal(n)[i - 2]));
        }
    }
}

proof fn lemma_interval_from_well_formed(ws: Seq<Seq<char>>, i: int)
    ensures
        interval_from(ws, i) matches Some(f) ==> well_formed(f),
    decreases ws.len() - i,
{
    if 0 <= i < ws.len() {
        if ws[i] == "every"@ && i + 2 < ws.len() && parse_unsigned(ws[i + 1], u32::MAX as nat) is Some
            && unit_of(ws[i + 2]) is Some {
            lemma_interval_well_formed(
                unit_of(ws[i + 2]).unwrap(),
                parse_unsigned(ws[i + 1], u32::MAX as nat).unwrap(),
            );
        } else {
            lemma_interval_from_well_formed(ws, i + 1);
        }
    }
}

/// Every schedule that `parse_natural_schedule` accepts is a well-formed expression: its
/// fields are non-empty and free of white space, so `to_string` writes text that parses back
/// to it. This holds whatever the lowercase form of the input is.
pub proof fn lemma_schedule_well_formed(lower: Seq<char>, input: Seq<char>)
    ensures
        schedule_for(lower, input) matches Some(f) ==> well_formed(f) && parse_fields(join_fields(f))
            == Some(f),
{
    lemma_literal_tokens();
    lemma_interval_from_well_formed(words(lower), 0);
    if parse_fields(input) is Some {
        lemma_parse_normalizes(input);
    }
    if schedule_for(lower, input) is Some {
        lemma_parse_to_string(schedule_for(lower, input).unwrap());
    }
}


#[verifier::external_type_specification]
#[verifier::external_body]
pub struct ExPathBuf(PathBuf);

/// A scheduled cron job.
#[derive(Debug)]
pub struct CronJob {
    pub id: String,
    pub name: String,
    pub schedule: CronExpression,
    pub prompt: String,
    pub enabled: bool,
    pub created_at: Timestamp,
    pub last_run: Option<Timestamp>,
    pub next_run: Option<Timestamp>,
    pub run_count: u32,
    pub delivery_target: Option<String>,
}

impl Clone for CronJob {
    fn clone(&self) -> (r: Self)
        ensures
            r == *self,
    {
        let delivery_target = match &self.delivery_target {
            Some(t) => Some(t.clone()),
            None => None,
        };
        CronJob {
            id: self.id.clone(),
            name: self.name.clone(),
            schedule: self.schedule.clone(),
            prompt: self.prompt.clone(),
            enabled: self.enabled,
            created_at: self.created_at,
            last_run: self.last_run,
            next_run: self.next_run,
            run_count: self.run_count,
            delivery_target,
        }
    }
}

/// The first job in `jobs` whose id is `id`.
pub open spec fn lookup(jobs: Seq<CronJob>, id: Seq<char>) -> Option<CronJob>
    decreases jobs.len(),
{
    if jobs.len() == 0 {
        None
    } else if jobs[0].id@ == id {
        Some(jobs[0])
    } else {
        lookup(jobs.drop_first(), id)
    }
}

/// `jobs` without those whose id is `id`, the others in order.
pub open spec fn without_id(jobs: Seq<CronJob>, id: Seq<char>) -> Seq<CronJob>
    decreases jobs.len(),
{
    if jobs.len() == 0 {
        seq![]
    } else if jobs[0].id@ == id {
        without_id(jobs.drop_first(), id)
    } else {
        seq![jobs[0]] + without_id(jobs.drop_first(), id)
    }
}

/// `jobs` with the first job whose id is that of `job` replaced by `job`.
pub open spec fn replace_first(jobs: Seq<CronJob>, job: CronJob) -> Seq<CronJob>
    decreases jobs.len(),
{
    if jobs.len() == 0 {
        seq![]
    } else if jobs[0].id@ == job.id@ {
        seq![job] + jobs.drop_first()
    } else {
        seq![jobs[0]] + replace_first(jobs.drop_first(), job)
    }
}

/// Cron job store: the rules by which its operations change the stored list of jobs. Where
/// the list lives (a JSON file at `path`) is the caller's concern.
pub struct CronStore {
    path: PathBuf,
}

impl CronStore {
    pub closed spec fn spec_path(&self) -> PathBuf {
        self.path
    }

    pub fn new(path: PathBuf) -> (r: Self)
        ensures
            r.spec_path() == path,
    {
        Self { path }
    }

    /// The file that holds the jobs.
    pub fn path(&self) -> (r: &PathBuf)
        ensures
            *r == self.spec_path(),
    {
        &self.path
    }

    /// Appends `job` to the stored jobs.
    pub fn add(&self, jobs: &mut Vec<CronJob>, job: CronJob)
        ensures
            final(jobs)@ == old(jobs)@.push(job),
    {
        jobs.push(job);
    }

    /// Drops every stored job whose id is `id`.
    pub fn remove(&self, jobs: &mut Vec<CronJob>, id: &str)
        ensures
            final(jobs)@ == without_id(old(jobs)@, id@),
    {
        let ghost orig = jobs@;
        let mut kept: Vec<CronJob> = Vec::new();
        let ghost mut k: int = 0;
        assert(orig.skip(0) =~= orig);
        assert(kept@ + without_id(orig.skip(0), id@) =~= without_id(orig, id@));
        while jobs.len() > 0
            invariant
                0 <= k <= orig.len(),
                jobs@ == orig.skip(k),
                kept@ + without_id(jobs@, id@) == without_id(orig, id@),
            decreases jobs.len(),
        {
            let ghost before = jobs@;
            let j = jobs.remove(0);
            assert(jobs@ =~= before.drop_first());
            assert(before.drop_first() =~= orig.skip(k + 1));
            assert(before[0] == j);
            if !str_eq(j.id.as_str(), id) {
                assert(kept@.push(j) + without_id(jobs@, id@) =~= kept@ + without_id(before, id@));
                kept.push(j);
            }
            proof {
                k = k + 1;
            }
        }
        assert(without_id(jobs@, id@) =~= Seq::<CronJob>::empty());
        assert(kept@ + Seq::<CronJob>::empty() =~= kept@);
        *jobs = kept;
    }

    /// The first stored job whose id is `id`.
    pub fn get(&self, jobs: Vec<CronJob>, id: &str) -> (r: Result<CronJob, CronError>)
        ensures
            r is Ok <==> lookup(jobs@, id@) is Some,
            r matches Ok(j) ==> j == lookup(jobs@, id@).unwrap(),
            r matches Err(e) ==> e matches CronError::NotFound(m) && m@ == id@,
    {
        let mut v = jobs;
        let ghost orig = v@;
        let n = v.len();
        let mut i: usize = 0;
        assert(orig.skip(0) =~= orig);
        while i < n
            invariant
                v@ == orig,
                orig == jobs@,
                n == orig.len(),
                i <= n,
                lookup(orig, id@) == lookup(orig.skip(i as int), id@),
            decreases n - i,
        {
            if str_eq(v[i].id.as_str(), id) {
                assert(orig.skip(i as int)[0] == orig[i as int]);
                let j = v.remove(i);
                return Ok(j);
            }
            assert(orig.skip(i as int).drop_first() =~= orig.skip(i + 1));
            i = i + 1;
        }
        Err(CronError::NotFound(String::from_str(id)))
    }

    /// Replaces the first stored job that has the id of `job` with a copy of `job`.
    pub fn update(&self, jobs: &mut Vec<CronJob>, job: &CronJob)
        ensures
            final(jobs)@ == replace_first(old(jobs)@, *job),
    {
        let ghost orig = jobs@;
        let n = jobs.len();
        let mut i: usize = 0;
        assert(orig.skip(0) =~= orig);
        assert(orig.take(0) + replace_first(orig.skip(0), *job) =~= replace_first(orig, *job));
        while i < n
            invariant
                jobs@ == orig,
                orig == old(jobs)@,
                n == orig.len(),
                i <= n,
                orig.take(i as int) + replace_first(orig.skip(i as int), *job) == replace_first(orig, *job),
            decreases n - i,
        {
            if str_eq(jobs[i].id.as_str(), job.id.as_str()) {
                let ghost t = orig.skip(i as int);
                assert(t[0] == orig[i as int]);
                assert(replace_first(t, *job) == seq![*job] + t.drop_first());
                let copy = job.clone();
                jobs.set(i, copy);
                assert(jobs@ =~= orig.take(i as int) + (seq![*job] + orig.skip(i as int).drop_first()));
                return;
            }
            let ghost t = orig.skip(i as int);
            assert(orig.take(i + 1) + replace_first(orig.skip(i + 1), *job) =~= orig.take(i as int) + (seq![t[0]] + replace_first(t.drop_first(), *job))) by {
                assert(t.drop_first() =~= orig.skip(i + 1));
            }
            i = i + 1;
        }
        assert(orig.take(n as int) =~= orig);
        assert(replace_first(orig.skip(n as int), *job) =~= Seq::<CronJob>::empty()) by {
            assert(orig.skip(n as int).len() == 0);
        }
    }
}


/// What `get` finds after `add`: the jobs found before stay found, and a job whose id was not
/// stored yet is found as added.
pub proof fn lemma_get_after_add(jobs: Seq<CronJob>, job: CronJob, id: Seq<char>)
    ensures
        lookup(jobs.push(job), id) == (if lookup(jobs, id) is Some {
            lookup(jobs, id)
        } else if job.id@ == id {
            Some(job)
        } else {
            None
        }),
    decreases jobs.len(),
{
    if jobs.len() > 0 {
        assert(jobs.push(job).drop_first() =~= jobs.drop_first().push(job));
        assert(jobs.push(job)[0] == jobs[0]);
        lemma_get_after_add(jobs.drop_first(), job, id);
        if jobs[0].id@ != id {
            assert(lookup(jobs.push(job), id) == lookup(jobs.drop_first().push(job), id));
            assert(lookup(jobs, id) == lookup(jobs.drop_first(), id));
        }
    } else {
        let e = Seq::<CronJob>::empty();
        assert(jobs.push(job).drop_first() =~= e);
        assert(jobs.push(job)[0] == job);
        assert(lookup(e, id) is None);
        assert(lookup(jobs, id) is None);
    }
}

/// After `remove(id)`, `get(id)` finds nothing and every other id finds what it found before.
pub proof fn lemma_get_after_remove(jobs: Seq<CronJob>, id: Seq<char>, other: Seq<char>)
    ensures
        lookup(without_id(jobs, id), id) is None,
        other != id ==> lookup(without_id(jobs, id), other) == lookup(jobs, other),
    decreases jobs.len(),
{
    if jobs.len() > 0 {
        lemma_get_after_remove(jobs.drop_first(), id, other);
        if jobs[0].id@ != id {
            let w = without_id(jobs, id);
            assert(w[0] == jobs[0]);
            assert(w.drop_first() =~= without_id(jobs.drop_first(), id));
        }
    }
}

/// `remove` undoes `add`: removing the id of an added job drops it along with any older job of
/// that id, and gives back the jobs as they were when none had that id.
pub proof fn lemma_remove_after_add(jobs: Seq<CronJob>, job: CronJob)
    ensures
        without_id(jobs.push(job), job.id@) == without_id(jobs, job.id@),
        lookup(jobs, job.id@) is None ==> without_id(jobs.push(job), job.id@) == jobs,
    decreases jobs.len(),
{
    if jobs.len() > 0 {
        assert(jobs.push(job).drop_first() =~= jobs.drop_first().push(job));
        lemma_remove_after_add(jobs.drop_first(), job);
        if jobs[0].id@ != job.id@ {
            assert(seq![jobs[0]] + jobs.drop_first() =~= jobs);
        }
    } else {
        assert(jobs.push(job).drop_first() =~= Seq::<CronJob>::empty());
        assert(jobs =~= Seq::<CronJob>::empty());
    }
}

/// After `update(job)`, `get` finds `job` under its id when a job of that id was stored; with
/// none stored, `update` changes nothing. Other ids find what they found before, and the
/// number of jobs stays.
pub proof fn lemma_get_after_update(jobs: Seq<CronJob>, job: CronJob, other: Seq<char>)
    ensures
        replace_first(jobs, job).len() == jobs.len(),
        lookup(jobs, job.id@) is Some ==> lookup(replace_first(jobs, job), job.id@) == Some(job),
        lookup(jobs, job.id@) is None ==> replace_first(jobs, job) == jobs,
        other != job.id@ ==> lookup(replace_first(jobs, job), other) == lookup(jobs, other),
    decreases jobs.len(),
{
    if jobs.len() > 0 {
        lemma_get_after_update(jobs.drop_first(), job, other);
        let r = replace_first(jobs, job);
        if jobs[0].id@ == job.id@ {
            assert(r[0] == job);
            assert(r.drop_first() =~= jobs.drop_first());
        } else {
            assert(r[0] == jobs[0]);
            assert(r.drop_first() =~= replace_first(jobs.drop_first(), job));
            assert(seq![jobs[0]] + jobs.drop_first() =~= jobs);
        }
    }
}

/// The job that `create_job` makes: the given name, prompt and schedule, enabled, never run.
pub open spec fn is_new_job(
    j: CronJob,
    id: Seq<char>,
    name: Seq<char>,
    schedule: CronFields,
    prompt: Seq<char>,
    created_at: Timestamp,
) -> bool {
    &&& j.id@ == id
    &&& j.name@ == name
    &&& j.schedule@ == schedule
    &&& j.prompt@ == prompt
    &&& j.enabled
    &&& j.created_at == created_at
    &&& j.last_run is None
    &&& j.next_run is None
    &&& j.run_count == 0
    &&& j.delivery_target is None
}

pub open spec fn ascii_prefix(s: Seq<char>, n: int) -> bool {
    n <= s.len() && forall|i: int| 0 <= i < n ==> (#[trigger] s[i] as u32) < 128
}

/// A new job from a natural-language schedule, with the first eight characters of
/// `uuid_text` as its id and `created_at` as its creation time.
pub fn create_job_at(
    name: &str,
    schedule_input: &str,
    prompt: &str,
    uuid_text: &str,
    created_at: Timestamp,
) -> (r: Result<CronJob, CronError>)
    requires
        ascii_prefix(uuid_text@, 8),
    ensures
        r is Ok <==> natural_schedule(schedule_input@) is Some,
        r matches Ok(j) ==> is_new_job(
            j,
            uuid_text@.take(8),
            name@,
            natural_schedule(schedule_input@).unwrap(),
            prompt@,
            created_at,
        ),
        r matches Err(e) ==> e matches CronError::FieldCount(n) && n == words(schedule_input@).len(),
{
    let schedule = match parse_natural_schedule(schedule_input) {
        Ok(s) => s,
        Err(e) => return Err(e),
    };
    let id = String::from_str(uuid_text.substring_char(0, 8));
    Ok(CronJob {
        id,
        name: String::from_str(name),
        schedule,
        prompt: String::from_str(prompt),
        enabled: true,
        created_at,
        last_run: None,
        next_run: None,
        run_count: 0,
        delivery_target: None,
    })
}

/// Create a new cron job from a natural-language prompt. Its id is the first eight characters
/// of a random UUID and it is created now; which id and which instant are left open.
pub fn create_job(name: &str, schedule_input: &str, prompt: &str) -> (r: Result<CronJob, CronError>)
    ensures
        r is Ok <==> natural_schedule(schedule_input@) is Some,
        r matches Ok(j) ==> exists|u: Seq<char>, t: Timestamp|
            #![trigger is_v4_uuid_text(u), is_new_job(j, u.take(8), name@, natural_schedule(schedule_input@).unwrap(), prompt@, t)]
            is_v4_uuid_text(u) && is_new_job(
                j,
                u.take(8),
                name@,
                natural_schedule(schedule_input@).unwrap(),
                prompt@,
                t,
            ),
        r matches Err(e) ==> e matches CronError::FieldCount(n) && n == words(schedule_input@).len(),
{
    let schedule = match parse_natural_schedule(schedule_input) {
        Ok(s) => s,
        Err(e) => return Err(e),
    };
    let uuid = new_v4_text();
    let created_at = now();
    proof {
        assert forall|i: int| 0 <= i < 8 implies (#[trigger] uuid@[i] as u32) < 128 by {
            assert(i != 8 && i != 13 && i != 18 && i != 23);
        }
    }
    let r = create_job_at(name, schedule_input, prompt, uuid.as_str(), created_at);
    r
}


/// The words that name each interval unit.
pub open spec fn is_minute_word(w: Seq<char>) -> bool {
    w == "minute"@ || w == "minutes"@ || w == "min"@ || w == "mins"@
}

pub open spec fn is_hour_word(w: Seq<char>) -> bool {
    w == "hour"@ || w == "hours"@ || w == "hr"@ || w == "hrs"@
}

pub open spec fn is_day_word(w: Seq<char>) -> bool {
    w == "day"@ || w == "days"@
}

/// At position `i`, "every N minutes" with N from 1 to 59 schedules the minute field as
/// "*/N" and leaves every other field "*": every N minutes, all day, every day. "every N
/// hours" with N from 1 to 23 runs at minute 0 of every N-th hour, and "every N days" with N
/// from 1 to 31 at midnight of every N-th day of the month. A count outside those ranges
/// schedules nothing.
pub proof fn lemma_interval_phrase(ws: Seq<Seq<char>>, i: int, n: nat)
    requires
        0 <= i,
        i + 2 < ws.len(),
        ws[i] == "every"@,
        parse_unsigned(ws[i + 1], u32::MAX as nat) == Some(n),
    ensures
        is_minute_word(ws[i + 2]) ==> interval_from(ws, i) == (if 1 <= n <= 59 {
            Some(CronFields {
                minute: "*/"@ + decimal(n),
                hour: "*"@,
                day_of_month: "*"@,
                month: "*"@,
                day_of_week: "*"@,
            })
        } else {
            None
        }),
        is_hour_word(ws[i + 2]) ==> interval_from(ws, i) == (if 1 <= n <= 23 {
            Some(CronFields {
                minute: "0"@,
                hour: "*/"@ + decimal(n),
                day_of_month: "*"@,
                month: "*"@,
                day_of_week: "*"@,
            })
        } else {
            None
        }),
        is_day_word(ws[i + 2]) ==> interval_from(ws, i) == (if 1 <= n <= 31 {
            Some(CronFields {
                minute: "0"@,
                hour: "0"@,
                day_of_month: "*/"@ + decimal(n),
                month: "*"@,
                day_of_week: "*"@,
            })
        } else {
            None
        }),
{
    reveal_strlit("minute");
    reveal_strlit("minutes");
    reveal_strlit("min");
    reveal_strlit("mins");
    reveal_strlit("hour");
    reveal_strlit("hours");
    reveal_strlit("hr");
    reveal_strlit("hrs");
    reveal_strlit("day");
    reveal_strlit("days");
    let w = ws[i + 2];
    if is_minute_word(w) {
        assert(w[0] == 'm');
    }
    if is_hour_word(w) {
        assert(w[0] == 'h');
        assert(!is_minute_word(w));
    }
    if is_day_word(w) {
        assert(w[0] == 'd');
        assert(!is_minute_word(w));
        assert(!is_hour_word(w));
    }
}

} // verus!
