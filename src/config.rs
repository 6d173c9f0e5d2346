//! The run's configuration: `key=value` arguments, boolean and number
//! notation, defaults and the range check.
use vstd::prelude::*;
use crate::text::{chars_of, eq_chars, starts_with, string_from, push_char};

verus! {

/// The largest number of workers that the default picks.
pub const MAX_DEFAULT_CONCURRENCY: usize = 8;

/// Whether `c` is an ASCII decimal digit.
pub open spec fn is_digit(c: char) -> bool {
    '0' <= c <= '9'
}

/// The value of the ASCII digit `c`.
pub open spec fn digit_value(c: char) -> int {
    (c as u32) - ('0' as u32)
}

/// Every character of `s` is a decimal digit.
pub open spec fn all_digits(s: Seq<char>) -> bool {
    forall|i: int| 0 <= i < s.len() ==> is_digit(#[trigger] s[i])
}

/// The number that the digits `s` denote.
pub open spec fn digits_value(s: Seq<char>) -> int
    decreases s.len(),
{
    if s.len() == 0 {
        0
    } else {
        10 * digits_value(s.drop_last()) + digit_value(s.last())
    }
}

/// `s` with one leading `+` taken off, if it has one.
pub open spec fn unsigned_digits(s: Seq<char>) -> Seq<char> {
    if s.len() > 0 && s[0] == '+' {
        s.drop_first()
    } else {
        s
    }
}

/// The unsigned number written in `s`: an optional `+` and one or more
/// decimal digits, of a value that fits in `usize`.
pub open spec fn usize_of(s: Seq<char>) -> Option<usize> {
    let d = unsigned_digits(s);
    if d.len() > 0 && all_digits(d) && digits_value(d) <= usize::MAX {
        Some(digits_value(d) as usize)
    } else {
        None
    }
}

/// The boolean written in `s`, in one of the accepted spellings.
pub open spec fn bool_of(s: Seq<char>) -> Option<bool> {
    if s == "1"@ || s == "true"@ || s == "TRUE"@ || s == "yes"@ || s == "YES"@ {
        Some(true)
    } else if s == "0"@ || s == "false"@ || s == "FALSE"@ || s == "no"@ || s == "NO"@ {
        Some(false)
    } else {
        None
    }
}

/// The value of `arg` when it reads `key=value`.
pub open spec fn kv_value(arg: Seq<char>, key: Seq<char>) -> Option<Seq<char>> {
    let p = key.push('=');
    if p.len() <= arg.len() && arg.take(p.len() as int) == p {
        Some(arg.skip(p.len() as int))
    } else {
        None
    }
}

/// The value given for `key` by the first argument that reads `key=value`.
pub open spec fn lookup(args: Seq<Seq<char>>, key: Seq<char>) -> Option<Seq<char>>
    decreases args.len(),
{
    if args.len() == 0 {
        None
    } else if kv_value(args[0], key) is Some {
        kv_value(args[0], key)
    } else {
        lookup(args.drop_first(), key)
    }
}

proof fn lemma_value_grows(s: Seq<char>, i: int, j: int)
    requires
        0 <= i <= j <= s.len(),
        all_digits(s),
    ensures
        digits_value(s.take(i)) <= digits_value(s.take(j)),
    decreases j - i,
{
    if i < j {
        lemma_value_grows(s, i, j - 1);
        assert(s.take(j).drop_last() =~= s.take(j - 1));
        assert(is_digit(s[j - 1]));
        assert(s.take(j).last() == s[j - 1]);
        lemma_value_nonneg(s.take(j - 1));
    }
}

proof fn lemma_value_nonneg(s: Seq<char>)
    requires
        all_digits(s),
    ensures
        digits_value(s) >= 0,
    decreases s.len(),
{
    if s.len() > 0 {
        lemma_value_nonneg(s.drop_last());
        assert(is_digit(s[s.len() - 1]));
    }
}

/// Reads an unsigned decimal number, as `str::parse::<usize>` does.
pub fn parse_usize(s: &str) -> (r: Option<usize>)
    ensures
        r == usize_of(s@),
{
    let c = chars_of(s);
    let start: usize = if c.len() > 0 && c[0] == '+' { 1 } else { 0 };
    let ghost d = unsigned_digits(s@);
    assert(d =~= c@.skip(start as int));
    if start >= c.len() {
        return None;
    }
    let mut v: usize = 0;
    let mut i: usize = start;
    while i < c.len()
        invariant
            start <= i <= c@.len(),
            c@ == s@,
            d == c@.skip(start as int),
            d == unsigned_digits(s@),
            all_digits(d.take(i - start)),
            v as int == digits_value(d.take(i - start)),
        decreases c@.len() - i,
    {
        let ch = c[i];
        let ghost k = (i - start) as int;
        assert(d[k] == ch);
        if ch < '0' || ch > '9' {
            assert(!is_digit(d[k]));
            assert(!all_digits(d));
            return None;
        }
        let dv = (ch as u32 - '0' as u32) as usize;
        assert(d.take(k + 1).drop_last() =~= d.take(k));
        assert(all_digits(d.take(k + 1)));
        assert(d.take(k + 1).last() == ch);
        assert(digits_value(d.take(k + 1)) == 10 * v + dv);
        match v.checked_mul(10) {
            Some(t) => match t.checked_add(dv) {
                Some(n) => {
                    v = n;
                },
                None => {
                    proof {
                        if all_digits(d) {
                            lemma_value_grows(d, k + 1, d.len() as int);
                            assert(d.take(d.len() as int) =~= d);
                        }
                    }
                    return None;
                },
            },
            None => {
                proof {
                    if all_digits(d) {
                        lemma_value_grows(d, k + 1, d.len() as int);
                        assert(d.take(d.len() as int) =~= d);
                    }
                }
                return None;
            },
        }
        i += 1;
    }
    assert(d.take(i - start) =~= d);
    Some(v)
}

/// Reads a boolean: `1`, `true`, `TRUE`, `yes`, `YES` for true and `0`,
/// `false`, `FALSE`, `no`, `NO` for false.
pub fn parse_bool(s: &str) -> (r: Option<bool>)
    ensures
        r == bool_of(s@),
{
    let c = chars_of(s);
    if eq_chars(&c, "1") || eq_chars(&c, "true") || eq_chars(&c, "TRUE") || eq_chars(&c, "yes")
        || eq_chars(&c, "YES") {
        Some(true)
    } else if eq_chars(&c, "0") || eq_chars(&c, "false") || eq_chars(&c, "FALSE") || eq_chars(
        &c,
        "no",
    ) || eq_chars(&c, "NO") {
        Some(false)
    } else {
        None
    }
}

/// The views of a list of strings.
pub open spec fn views(args: &[String]) -> Seq<Seq<char>> {
    args@.map_values(|a: String| a@)
}

proof fn lemma_lookup_skip(args: Seq<Seq<char>>, key: Seq<char>, i: int)
    requires
        0 <= i < args.len(),
    ensures
        lookup(args.skip(i), key) == (if kv_value(args[i], key) is Some {
            kv_value(args[i], key)
        } else {
            lookup(args.skip(i + 1), key)
        }),
{
    assert(args.skip(i).drop_first() =~= args.skip(i + 1));
    assert(args.skip(i)[0] == args[i]);
}

/// The value of the first argument of the form `key=value`.
pub fn parse_kv(args: &[String], key: &str) -> (r: Option<String>)
    ensures
        r matches Some(v) ==> lookup(views(args), key@) == Some(v@),
        r is None ==> lookup(views(args), key@) is None,
{
    let mut p = chars_of(key);
    push_char_vec(&mut p, '=');
    let ghost vs = views(args);
    let mut i: usize = 0;
    assert(vs.skip(0) =~= vs);
    while i < args.len()
        invariant
            i <= args@.len(),
            vs == views(args),
            vs.len() == args@.len(),
            p@ == key@.push('='),
            lookup(vs, key@) == lookup(vs.skip(i as int), key@),
        decreases args@.len() - i,
    {
        proof {
            lemma_lookup_skip(vs, key@, i as int);
        }
        let a = chars_of(args[i].as_str());
        assert(a@ == vs[i as int]);
        if starts_with(&a, &p) {
            let v = string_from(&a, p.len());
            return Some(v);
        }
        i += 1;
    }
    assert(vs.skip(i as int).len() == 0);
    None
}

fn push_char_vec(v: &mut Vec<char>, c: char)
    ensures
        final(v)@ == old(v)@.push(c),
{
    v.push(c);
}

/// The default number of workers: the machine's parallelism when known,
/// else the cap, and never more than the cap nor less than one.
pub open spec fn default_concurrency_of(available: Option<usize>) -> usize {
    let a = match available {
        Some(n) => n,
        None => MAX_DEFAULT_CONCURRENCY,
    };
    if a > MAX_DEFAULT_CONCURRENCY {
        MAX_DEFAULT_CONCURRENCY
    } else if a < 1 {
        1
    } else {
        a
    }
}

/// The default number of workers for a machine that reports `available`
/// parallel units (`None` when it cannot tell).
pub fn default_concurrency(available: Option<usize>) -> (r: usize)
    ensures
        r == default_concurrency_of(available),
        1 <= r <= MAX_DEFAULT_CONCURRENCY,
{
    let a = match available {
        Some(n) => n,
        None => MAX_DEFAULT_CONCURRENCY,
    };
    if a > MAX_DEFAULT_CONCURRENCY {
        MAX_DEFAULT_CONCURRENCY
    } else if a < 1 {
        1
    } else {
        a
    }
}

/// Twice the number of workers, at least one, at most `usize::MAX`.
pub open spec fn queue_capacity_of(concurrency: usize) -> usize {
    if 2 * concurrency > usize::MAX {
        usize::MAX
    } else if concurrency == 0 {
        1
    } else {
        (2 * concurrency) as usize
    }
}

/// The capacity of the task queue: twice the number of workers, at least one.
pub fn queue_capacity(concurrency: usize) -> (r: usize)
    ensures
        r == queue_capacity_of(concurrency),
{
    if concurrency > usize::MAX / 2 {
        usize::MAX
    } else if concurrency == 0 {
        1
    } else {
        2 * concurrency
    }
}

/// The number given for `key`, when it is given and reads as one.
pub open spec fn number_arg(args: Seq<Seq<char>>, key: Seq<char>) -> Option<usize> {
    match lookup(args, key) {
        Some(v) => usize_of(v),
        None => None,
    }
}

/// The boolean given for `key`, when it is given and reads as one.
pub open spec fn flag_arg(args: Seq<Seq<char>>, key: Seq<char>) -> Option<bool> {
    match lookup(args, key) {
        Some(v) => bool_of(v),
        None => None,
    }
}

/// Why a configuration is refused before any task runs.
#[derive(PartialEq, Eq, Structural, Clone, Copy, Debug)]
pub enum ConfigError {
    /// The range is empty (`end < start`) or could not be found (`end == 0`).
    InvalidRange { start: usize, end: usize },
    /// No worker was asked for.
    InvalidConcurrency,
}

impl ConfigError {
    /// The exit status for a refused configuration.
    pub fn exit_code(&self) -> (r: i32)
        ensures
            r == 2,
    {
        2
    }
}

/// The settings of a run.
#[derive(PartialEq, Eq, Structural, Clone, Copy, Debug)]
pub struct Config {
    /// The first task, inclusive.
    pub start: usize,
    /// The last task, inclusive.
    pub end: usize,
    /// The number of workers.
    pub concurrency: usize,
    /// Whether the build command's ordinary output is suppressed.
    pub silent: bool,
    /// Whether tasks succeed at once without the build command being run.
    pub dry_run: bool,
}

/// A range of tasks can run: it is not empty, and its end was found.
pub open spec fn range_ok(start: usize, end: usize) -> bool {
    !(end < start || end == 0)
}

/// The configuration that `args` give, where `inferred_end` is the end
/// found without `--end` and `available` the machine's parallelism.
pub open spec fn config_of(
    args: Seq<Seq<char>>,
    inferred_end: Option<usize>,
    available: Option<usize>,
) -> Result<Config, ConfigError> {
    let start = match number_arg(args, "--start"@) {
        Some(v) => v,
        None => 1,
    };
    let silent = match flag_arg(args, "--silent"@) {
        Some(v) => v,
        None => true,
    };
    let dry_run = match flag_arg(args, "--dry-run"@) {
        Some(v) => v,
        None => false,
    };
    let concurrency = match number_arg(args, "--concurrency"@) {
        Some(v) => v,
        None => default_concurrency_of(available),
    };
    let end = match number_arg(args, "--end"@) {
        Some(v) => v,
        None => match inferred_end {
            Some(v) => v,
            None => 0,
        },
    };
    if !range_ok(start, end) {
        Err(ConfigError::InvalidRange { start, end })
    } else if concurrency == 0 {
        Err(ConfigError::InvalidConcurrency)
    } else {
        Ok(Config { start, end, concurrency, silent, dry_run })
    }
}

/// The number given for `key`, if any.
fn number_option(args: &[String], key: &str) -> (r: Option<usize>)
    ensures
        r == number_arg(views(args), key@),
{
    match parse_kv(args, key) {
        Some(v) => parse_usize(v.as_str()),
        None => None,
    }
}

/// The boolean given for `key`, if any.
fn flag_option(args: &[String], key: &str) -> (r: Option<bool>)
    ensures
        r == flag_arg(views(args), key@),
{
    match parse_kv(args, key) {
        Some(v) => parse_bool(v.as_str()),
        None => None,
    }
}

/// Whether the arguments give the range's end themselves.
pub fn has_explicit_end(args: &[String]) -> (r: bool)
    ensures
        r == (number_arg(views(args), "--end"@) is Some),
{
    number_option(args, "--end").is_some()
}

impl Config {
    /// Reads a configuration from `key=value` arguments: `--start`
    /// (default 1), `--end` (default `inferred_end`, else 0),
    /// `--concurrency` (default from `available`), `--silent` (default
    /// true) and `--dry-run` (default false). A value that does not read
    /// as such counts as not given. An empty or unfound range is refused,
    /// and so is a run without workers.
    pub fn from_args(args: &[String], inferred_end: Option<usize>, available: Option<usize>) -> (r:
        Result<Config, ConfigError>)
        ensures
            r == config_of(views(args), inferred_end, available),
    {
        let start = match number_option(args, "--start") {
            Some(v) => v,
            None => 1,
        };
        let silent = match flag_option(args, "--silent") {
            Some(v) => v,
            None => true,
        };
        let dry_run = match flag_option(args, "--dry-run") {
            Some(v) => v,
            None => false,
        };
        let concurrency = match number_option(args, "--concurrency") {
            Some(v) => v,
            None => default_concurrency(available),
        };
        let end = match number_option(args, "--end") {
            Some(v) => v,
            None => match inferred_end {
                Some(v) => v,
                None => 0,
            },
        };
        if end < start || end == 0 {
            Err(ConfigError::InvalidRange { start, end })
        } else if concurrency == 0 {
            Err(ConfigError::InvalidConcurrency)
        } else {
            Ok(Config { start, end, concurrency, silent, dry_run })
        }
    }

    /// The number of tasks, `end - start + 1`.
    pub fn total(&self) -> (r: usize)
        requires
            range_ok(self.start, self.end),
            self.end - self.start < usize::MAX,
        ensures
            r == self.end - self.start + 1,
    {
        self.end - self.start + 1
    }

    /// The capacity of the queue between the task source and the workers.
    pub fn queue_capacity(&self) -> (r: usize)
        ensures
            r == queue_capacity_of(self.concurrency),
    {
        queue_capacity(self.concurrency)
    }
}

} // verus!
