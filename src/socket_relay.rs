//! The outbound relay: how records are delimited on the uploader's stream,
//! how incoming filter lines end, and the reconnect schedule.

use vstd::prelude::*;

verus! {

/// The bytes that end each record sent to the uploader: a newline, then a space.
pub open spec fn record_delimiter() -> Seq<u8> {
    seq![0x0Au8, 0x20u8]
}

/// The record sent for the JSON text `json`: the text, then the delimiter.
pub fn relay_record(json: Vec<u8>) -> (r: Vec<u8>)
    ensures
        r@ == json@ + record_delimiter(),
{
    let mut v = json;
    v.push(0x0Au8);
    v.push(0x20u8);
    assert(v@ =~= json@ + record_delimiter());
    v
}

/// Whether `b` ends a line of the incoming filter stream.
pub open spec fn is_line_end(b: u8) -> bool {
    b == 0x0Au8 || b == 0x0Du8
}

/// The length of the line at the start of `buf`: the position of the first
/// line feed or carriage return, or the whole buffer when there is none.
pub fn line_length(buf: &[u8]) -> (r: usize)
    ensures
        r <= buf@.len(),
        forall|i: int| 0 <= i < r ==> !is_line_end(#[trigger] buf@[i]),
        r < buf@.len() ==> is_line_end(buf@[r as int]),
{
    let mut i: usize = 0;
    while i < buf.len()
        invariant
            i <= buf@.len(),
            forall|j: int| 0 <= j < i ==> !is_line_end(#[trigger] buf@[j]),
        decreases buf@.len() - i,
    {
        if buf[i] == 0x0Au8 || buf[i] == 0x0Du8 {
            return i;
        }
        i = i + 1;
    }
    i
}

/// The longest wait between two connection attempts, in seconds.
pub const MAX_RETRY_DELAY: u64 = 10;

/// The wait, in seconds, after the `n`-th failed attempt in a row (counting
/// from zero): 1, then doubling, capped at `MAX_RETRY_DELAY`.
pub open spec fn retry_delay(n: nat) -> u64
    decreases n,
{
    if n == 0 {
        1
    } else {
        let d = retry_delay((n - 1) as nat);
        if 2 * d > MAX_RETRY_DELAY {
            MAX_RETRY_DELAY
        } else {
            (2 * d) as u64
        }
    }
}

pub proof fn lemma_retry_delay_bounds(n: nat)
    ensures
        1 <= retry_delay(n) <= MAX_RETRY_DELAY,
    decreases n,
{
    if n > 0 {
        lemma_retry_delay_bounds((n - 1) as nat);
    }
}

/// The reconnect schedule of the relay.
pub struct Backoff {
    delay: u64,
    failures: Ghost<nat>,
}

impl Backoff {
    /// How many attempts have failed so far.
    pub closed spec fn failures(&self) -> nat {
        self.failures@
    }

    pub closed spec fn wf(&self) -> bool {
        self.delay == retry_delay(self.failures@)
    }

    pub fn new() -> (r: Backoff)
        ensures
            r.wf(),
            r.failures() == 0,
    {
        Backoff { delay: 1, failures: Ghost(0) }
    }

    /// Records a failed attempt and returns how long to wait before the next.
    pub fn next_delay(&mut self) -> (r: u64)
        requires
            old(self).wf(),
        ensures
            final(self).wf(),
            r == retry_delay(old(self).failures()),
            final(self).failures() == old(self).failures() + 1,
    {
        proof {
            lemma_retry_delay_bounds(self.failures@);
        }
        let d = self.delay;
        self.delay = if d > MAX_RETRY_DELAY / 2 {
            MAX_RETRY_DELAY
        } else {
            2 * d
        };
        self.failures = Ghost(self.failures@ + 1);
        d
    }
}

} // verus!
