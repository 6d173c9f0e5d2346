//! What one task run reports: its identifier, whether it succeeded, and a
//! diagnostic bounded to the tail of the task's error stream.
use vstd::prelude::*;
use vstd::utf8::{encode_utf8, is_char_boundary};
use vstd::string::StringSliceAdditionalSpecFns;
use crate::text::{push_str};

verus! {

broadcast use {vstd::utf8::encode_utf8_valid_utf8, vstd::utf8::is_char_boundary_start_end_of_seq};

/// The most bytes of a task's error stream that a diagnostic keeps.
pub const DIAGNOSTIC_LIMIT: usize = 3000;

/// The first position of `b`, from `i` on, at which a character starts
/// (the end of `b` counts as one).
pub open spec fn first_boundary(b: Seq<u8>, i: int) -> int
    decreases b.len() - i,
{
    if i >= b.len() || is_char_boundary(b, i) {
        i
    } else {
        first_boundary(b, i + 1)
    }
}

/// Where the diagnostic tail of the bytes `b` starts: the last
/// `DIAGNOSTIC_LIMIT` bytes, moved forward to the next character start
/// when the cut would fall inside a character.
pub open spec fn tail_start(b: Seq<u8>) -> int {
    let lo = if b.len() > DIAGNOSTIC_LIMIT { b.len() - DIAGNOSTIC_LIMIT } else { 0 };
    first_boundary(b, lo)
}

/// The diagnostic tail of a text, as bytes.
pub open spec fn tail_bytes(s: Seq<char>) -> Seq<u8> {
    let b = encode_utf8(s);
    b.subrange(tail_start(b), b.len() as int)
}

proof fn lemma_first_boundary(b: Seq<u8>, i: int)
    requires
        0 <= i <= b.len(),
        is_char_boundary(b, b.len() as int),
    ensures
        i <= first_boundary(b, i) <= b.len(),
        is_char_boundary(b, first_boundary(b, i)),
    decreases b.len() - i,
{
    if i < b.len() && !is_char_boundary(b, i) {
        lemma_first_boundary(b, i + 1);
    }
}

/// The tail of a task's error text that a diagnostic keeps: its last
/// `DIAGNOSTIC_LIMIT` bytes, less the bytes of a character that the cut
/// would split.
pub fn diagnostic_tail(s: &str) -> (r: String)
    requires
        s.spec_bytes().len() <= usize::MAX,
    ensures
        encode_utf8(r@) == tail_bytes(s@),
        encode_utf8(r@).len() <= DIAGNOSTIC_LIMIT,
{
    let ghost b = s.spec_bytes();
    let n = s.len();
    let lo: usize = if n > DIAGNOSTIC_LIMIT { n - DIAGNOSTIC_LIMIT } else { 0 };
    proof {
        lemma_first_boundary(b, lo as int);
    }
    let mut i: usize = lo;
    while i < n && !s.is_char_boundary(i)
        invariant
            lo <= i <= n,
            n == b.len(),
            b == s.spec_bytes(),
            first_boundary(b, i as int) == first_boundary(b, lo as int),
        decreases n - i,
    {
        i += 1;
    }
    proof {
        lemma_first_boundary(b, i as int);
    }
    let (_, t) = s.split_at(i);
    let mut r = String::new();
    push_str(&mut r, t);
    proof {
        assert(r@ == t@);
        assert(encode_utf8(r@) == t.spec_bytes());
    }
    r
}

/// The view of an outcome.
pub struct Report {
    pub task: nat,
    pub success: bool,
    pub diagnostic: Seq<char>,
}

/// What one task run reports.
pub struct Outcome {
    pub task_id: usize,
    pub success: bool,
    pub diagnostic: String,
}

impl View for Outcome {
    type V = Report;

    open spec fn view(&self) -> Report {
        Report { task: self.task_id as nat, success: self.success, diagnostic: self.diagnostic@ }
    }
}

impl Outcome {
    /// A task that the build command ran: it succeeded when the command
    /// exited with success; a failure keeps the tail of its error text.
    pub fn finished(task_id: usize, exit_success: bool, stderr: &str) -> (r: Outcome)
        requires
            stderr.spec_bytes().len() <= usize::MAX,
        ensures
            r.task_id == task_id,
            r.success == exit_success,
            exit_success ==> r.diagnostic@.len() == 0,
            !exit_success ==> encode_utf8(r.diagnostic@) == tail_bytes(stderr@),
    {
        if exit_success {
            Outcome { task_id, success: true, diagnostic: String::new() }
        } else {
            Outcome { task_id, success: false, diagnostic: diagnostic_tail(stderr) }
        }
    }

    /// A task whose build command could not be started.
    pub fn spawn_failed(task_id: usize, reason: &str) -> (r: Outcome)
        ensures
            r.task_id == task_id,
            !r.success,
            r.diagnostic@ == "spawn failed: "@ + reason@,
    {
        let mut d = String::new();
        push_str(&mut d, "spawn failed: ");
        push_str(&mut d, reason);
        Outcome { task_id, success: false, diagnostic: d }
    }

    /// A task of a dry run: it succeeds at once, and nothing is run.
    pub fn dry_run(task_id: usize) -> (r: Outcome)
        ensures
            r.task_id == task_id,
            r.success,
            r.diagnostic@.len() == 0,
    {
        Outcome { task_id, success: true, diagnostic: String::new() }
    }
}

/// When the cut falls between characters, the diagnostic of an error text
/// longer than the limit is exactly its last `DIAGNOSTIC_LIMIT` bytes.
pub proof fn law_diagnostic_is_last_bytes(s: Seq<char>)
    requires
        encode_utf8(s).len() > DIAGNOSTIC_LIMIT,
        is_char_boundary(encode_utf8(s), encode_utf8(s).len() - DIAGNOSTIC_LIMIT),
    ensures
        tail_bytes(s) == encode_utf8(s).subrange(
            encode_utf8(s).len() - DIAGNOSTIC_LIMIT,
            encode_utf8(s).len() as int,
        ),
        tail_bytes(s).len() == DIAGNOSTIC_LIMIT,
{
}

} // verus!
