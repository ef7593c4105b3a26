//! Byte counting of a response body and the one final rendering of the log
//! line when the body stream is disposed.

use vstd::prelude::*;

use crate::format::{models, FormatText, TextKind, TextModel};
use crate::resolve::{one_char, or_dash};
use crate::text::{decimal, padded, push_char, push_padded};

verus! {

/// Seconds with six decimals, rounded to the nearest microsecond.
pub open spec fn seconds_text(ns: nat) -> Seq<char> {
    let us = (ns + 500) / 1000;
    decimal(us / 1_000_000) + seq!['.'] + padded(us % 1_000_000, 6)
}

/// Milliseconds with six decimals, exact.
pub open spec fn millis_text(ns: nat) -> Seq<char> {
    decimal(ns / 1_000_000) + seq!['.'] + padded(ns % 1_000_000, 6)
}

/// The environment value read for the element at `k`.
pub open spec fn env_at(env: Seq<Option<String>>, k: int) -> Option<String> {
    if 0 <= k < env.len() {
        env[k]
    } else {
        None
    }
}

/// The final text of one element: literals render their text, the fields
/// known only at the end render from the byte count, the elapsed time and
/// the environment, and anything left unresolved renders as nothing.
pub open spec fn final_text(t: TextModel, size: nat, elapsed: nat, env: Option<String>) -> Seq<
    char,
> {
    match t.kind {
        TextKind::Literal => t.arg,
        TextKind::Percent => seq!['%'],
        TextKind::ResponseSize => decimal(size),
        TextKind::ElapsedSeconds => seconds_text(elapsed),
        TextKind::ElapsedMillis => millis_text(elapsed),
        TextKind::EnvVar => or_dash(env),
        _ => seq![],
    }
}

/// The concatenated final text of `ts`.
pub open spec fn rendered(ts: Seq<TextModel>, size: nat, elapsed: nat, env: Seq<Option<String>>) -> Seq<
    char,
>
    decreases ts.len(),
{
    if ts.len() == 0 {
        seq![]
    } else {
        rendered(ts.drop_last(), size, elapsed, env) + final_text(
            ts.last(),
            size,
            elapsed,
            env_at(env, ts.len() - 1),
        )
    }
}

fn push_fixed6(s: &mut String, whole: u128, frac: u128)
    ensures
        final(s)@ == old(s)@ + decimal(whole as nat) + seq!['.'] + padded(frac as nat, 6),
{
    push_padded(s, whole, 1);
    push_char(s, '.');
    push_padded(s, frac, 6);
    assert(final(s)@ =~= old(s)@ + decimal(whole as nat) + seq!['.'] + padded(frac as nat, 6));
}

fn append_final(s: &mut String, t: &FormatText, size: u64, elapsed: u64, env: &Option<String>)
    ensures
        final(s)@ == old(s)@ + final_text(t@, size as nat, elapsed as nat, *env),
{
    let ns: u128 = elapsed as u128;
    match t.kind {
        TextKind::Literal => s.append(t.arg.as_str()),
        TextKind::Percent => push_char(s, '%'),
        TextKind::ResponseSize => push_padded(s, size as u128, 1),
        TextKind::ElapsedSeconds => {
            let us: u128 = (ns + 500) / 1000;
            push_fixed6(s, us / 1_000_000, us % 1_000_000);
        },
        TextKind::ElapsedMillis => push_fixed6(s, ns / 1_000_000, ns % 1_000_000),
        TextKind::EnvVar => match env {
            Some(v) => s.append(v.as_str()),
            None => push_char(s, '-'),
        },
        _ => {},
    }
    assert(final(s)@ =~= old(s)@ + final_text(t@, size as nat, elapsed as nat, *env));
}

/// The final text of `format`; `env[k]` is the value of the environment
/// variable named by element `k`, if that element names one.
pub fn render(format: &Vec<FormatText>, size: u64, elapsed: u64, env: &Vec<Option<String>>) -> (r:
    String)
    ensures
        r@ == rendered(models(format@), size as nat, elapsed as nat, env@),
{
    let mut r: String = String::new();
    let mut i: usize = 0;
    let none: Option<String> = None;
    while i < format.len()
        invariant
            i <= format.len(),
            none is None,
            r@ == rendered(models(format@.subrange(0, i as int)), size as nat, elapsed as nat, env@),
        decreases format.len() - i,
    {
        let ghost before = r@;
        let ghost piece = final_text(
            format@[i as int]@,
            size as nat,
            elapsed as nat,
            env_at(env@, i as int),
        );
        if i < env.len() {
            append_final(&mut r, &format[i], size, elapsed, &env[i]);
        } else {
            append_final(&mut r, &format[i], size, elapsed, &none);
        }
        assert(r@ == before + piece);
        let ghost ts = models(format@.subrange(0, i + 1));
        assert(ts.drop_last() =~= models(format@.subrange(0, i as int)));
        assert(ts.last() == format@[i as int]@);
        assert(ts.len() == i + 1);
        assert(rendered(ts, size as nat, elapsed as nat, env@) == before + piece);
        i = i + 1;
    }
    assert(format@.subrange(0, i as int) =~= format@);
    r
}

/// The bytes counted after one read: a successful read of `n` bytes adds
/// `n` (saturating at the largest `u64`), a failed one adds nothing.
pub open spec fn after_read(bytes: nat, outcome: Option<usize>) -> nat {
    match outcome {
        Some(n) => if bytes + n > u64::MAX {
            u64::MAX as nat
        } else {
            (bytes + n) as nat
        },
        None => bytes,
    }
}

/// The bytes counted after `reads`, in order, starting from `bytes`.
pub open spec fn after_reads(bytes: nat, reads: Seq<Option<usize>>) -> nat
    decreases reads.len(),
{
    if reads.len() == 0 {
        bytes
    } else {
        after_read(after_reads(bytes, reads.drop_last()), reads.last())
    }
}

/// The sum of the byte counts of the successful reads among `reads`.
pub open spec fn ok_sum(reads: Seq<Option<usize>>) -> nat
    decreases reads.len(),
{
    if reads.len() == 0 {
        0
    } else {
        ok_sum(reads.drop_last()) + match reads.last() {
            Some(n) => n as nat,
            None => 0,
        }
    }
}

/// The count after a sequence of reads is the sum of what the successful
/// reads yielded, wherever failed reads fall among them, as long as that
/// sum fits in a `u64`.
pub proof fn lemma_count_is_sum(reads: Seq<Option<usize>>)
    requires
        ok_sum(reads) <= u64::MAX,
    ensures
        after_reads(0, reads) == ok_sum(reads),
    decreases reads.len(),
{
    if reads.len() > 0 {
        lemma_count_is_sum(reads.drop_last());
    }
}

/// After any reads, a response-size element renders the sum of what the
/// successful reads yielded, as long as that sum fits in a `u64`.
pub proof fn lemma_size_renders_sum(
    t: TextModel,
    reads: Seq<Option<usize>>,
    elapsed: nat,
    env: Option<String>,
)
    requires
        t.kind == TextKind::ResponseSize,
        ok_sum(reads) <= u64::MAX,
    ensures
        final_text(t, after_reads(0, reads), elapsed, env) == decimal(ok_sum(reads)),
{
    lemma_count_is_sum(reads);
}

/// Nanoseconds from `started` to `now`, zero if the clock went back.
pub open spec fn elapsed_between(started: int, now: int) -> nat {
    if now > started {
        (now - started) as nat
    } else {
        0
    }
}

/// What a `BodyLog` holds.
pub struct BodyLogModel {
    pub format: Seq<TextModel>,
    pub bytes: nat,
    pub started: int,
    pub finished: bool,
}

/// The per-request state of a response body in flight: the format after
/// both resolution phases, the bytes read so far, when the request began,
/// and whether the line has been produced.
pub struct BodyLog {
    format: Vec<FormatText>,
    size: u64,
    started_nanos: i64,
    finished: bool,
}

impl View for BodyLog {
    type V = BodyLogModel;

    closed spec fn view(&self) -> BodyLogModel {
        BodyLogModel {
            format: models(self.format@),
            bytes: self.size as nat,
            started: self.started_nanos as int,
            finished: self.finished,
        }
    }
}

impl BodyLog {
    /// Starts counting for a request that began at `started_nanos`
    /// (nanoseconds since the Unix epoch).
    pub fn new(format: Vec<FormatText>, started_nanos: i64) -> (r: BodyLog)
        ensures
            r@ == (BodyLogModel {
                format: models(format@),
                bytes: 0,
                started: started_nanos as int,
                finished: false,
            }),
    {
        BodyLog { format, size: 0, started_nanos, finished: false }
    }

    /// Counts one read of the body: `Some(n)` for a read that yielded `n`
    /// bytes, `None` for a failed read.
    pub fn record_read(&mut self, outcome: Option<usize>)
        ensures
            final(self)@ == (BodyLogModel { bytes: after_read(old(self)@.bytes, outcome), ..old(self)@ }),
    {
        match outcome {
            Some(n) => {
                let add: u64 = n as u64;
                self.size = if add > u64::MAX - self.size {
                    u64::MAX
                } else {
                    self.size + add
                };
            },
            None => {},
        }
    }

    /// The bytes counted so far.
    pub fn bytes(&self) -> (r: u64)
        ensures
            r as nat == self@.bytes,
    {
        self.size
    }

    /// Whether the line has been produced.
    pub fn is_finished(&self) -> (r: bool)
        ensures
            r == self@.finished,
    {
        self.finished
    }

    /// For each element, the name of the environment variable it reads at
    /// the end, if it reads one.
    pub fn env_names(&self) -> (r: Vec<Option<String>>)
        ensures
            r.len() == self@.format.len(),
            forall|k: int|
                0 <= k < r.len() ==> if self@.format[k].kind == TextKind::EnvVar {
                    #[trigger] r@[k] is Some && r@[k]->0@ == self@.format[k].arg
                } else {
                    r@[k] is None
                },
    {
        let mut r: Vec<Option<String>> = Vec::new();
        let mut i: usize = 0;
        while i < self.format.len()
            invariant
                i <= self.format.len(),
                r.len() == i,
                forall|k: int|
                    0 <= k < i ==> #[trigger] r@[k] == (if self.format@[k].kind == TextKind::EnvVar {
                        Some(self.format@[k].arg)
                    } else {
                        None
                    }),
            decreases self.format.len() - i,
        {
            let t: &FormatText = &self.format[i];
            let n: Option<String> = if t.kind == TextKind::EnvVar {
                Some(t.arg.clone())
            } else {
                None
            };
            r.push(n);
            i = i + 1;
        }
        r
    }

    /// Disposal of the body stream: the first call renders the line at time
    /// `now_nanos` and returns it; every later call returns `None` and
    /// changes nothing.
    pub fn finish(&mut self, now_nanos: i64, env: &Vec<Option<String>>) -> (r: Option<String>)
        ensures
            old(self)@.finished ==> r is None && final(self)@ == old(self)@,
            !old(self)@.finished ==> final(self)@ == (BodyLogModel { finished: true, ..old(self)@ })
                && r is Some && r->0@ == rendered(
                old(self)@.format,
                old(self)@.bytes,
                elapsed_between(old(self)@.started, now_nanos as int),
                env@,
            ),
    {
        if self.finished {
            return None;
        }
        self.finished = true;
        let d: i128 = (now_nanos as i128) - (self.started_nanos as i128);
        let elapsed: u64 = if d > 0 {
            d as u64
        } else {
            0
        };
        Some(render(&self.format, self.size, elapsed, env))
    }
}

} // verus!
