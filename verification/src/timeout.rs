//! Timeouts: spans of time given to the nanosecond.

use vstd::prelude::*;

verus! {

/// A span of time: whole seconds and the nanoseconds beyond them.
#[derive(Debug)]
pub struct Timeout {
    secs: u64,
    nanos: u32,
}

impl View for Timeout {
    /// The span in nanoseconds.
    type V = nat;

    closed spec fn view(&self) -> nat {
        self.secs as nat * 1_000_000_000 + self.nanos as nat
    }
}

impl Timeout {
    pub closed spec fn wf(&self) -> bool {
        self.nanos < 1_000_000_000
    }

    /// `secs` seconds and `nanos` nanoseconds, `nanos` below one second.
    pub fn new(secs: u64, nanos: u32) -> (t: Timeout)
        requires
            nanos < 1_000_000_000,
        ensures
            t@ == secs * 1_000_000_000 + nanos,
            t.wf(),
    {
        Timeout { secs, nanos }
    }

    pub fn from_secs(secs: u64) -> (t: Timeout)
        ensures
            t@ == secs * 1_000_000_000,
            t.wf(),
    {
        Timeout { secs, nanos: 0 }
    }

    pub fn from_millis(millis: u64) -> (t: Timeout)
        ensures
            t@ == millis * 1_000_000,
            t.wf(),
    {
        let secs = millis / 1000;
        let rem = millis % 1000;
        let nanos = (rem * 1_000_000) as u32;
        proof {
            assert(millis == secs * 1000 + rem);
            assert(millis * 1_000_000 == secs * 1_000_000_000 + rem * 1_000_000) by (nonlinear_arith)
                requires
                    millis == secs * 1000 + rem,
            ;
        }
        Timeout { secs, nanos }
    }

    pub fn as_secs(&self) -> (r: u64)
        requires
            self.wf(),
        ensures
            r == self@ / 1_000_000_000,
    {
        proof {
            lemma_div_parts(self.secs as nat, self.nanos as nat);
        }
        self.secs
    }

    pub fn subsec_nanos(&self) -> (r: u32)
        requires
            self.wf(),
        ensures
            r == self@ % 1_000_000_000,
    {
        proof {
            lemma_div_parts(self.secs as nat, self.nanos as nat);
        }
        self.nanos
    }

    /// The whole span in nanoseconds.
    pub fn as_nanos(&self) -> (r: u128)
        ensures
            r == self@,
    {
        self.secs as u128 * 1_000_000_000 + self.nanos as u128
    }

    /// The span in nanoseconds, cut to its low 64 bits.
    pub fn as_nanos_u64(&self) -> (r: u64)
        ensures
            r == self@ as u64,
    {
        self.as_nanos() as u64
    }

    pub fn copy(&self) -> (r: Timeout)
        ensures
            r == *self,
    {
        Timeout { secs: self.secs, nanos: self.nanos }
    }
}

proof fn lemma_div_parts(s: nat, n: nat)
    requires
        n < 1_000_000_000,
    ensures
        (s * 1_000_000_000 + n) / 1_000_000_000 == s,
        (s * 1_000_000_000 + n) % 1_000_000_000 == n,
{
    vstd::arithmetic::div_mod::lemma_fundamental_div_mod_converse(
        (s * 1_000_000_000 + n) as int,
        1_000_000_000,
        s as int,
        n as int,
    );
}

/// `t` in nanoseconds, cut to 64 bits, when given.
pub open spec fn nanos_of(t: Option<Timeout>) -> Option<u64> {
    match t {
        Some(t) => Some(t@ as u64),
        None => None,
    }
}

/// The timeout in nanoseconds, cut to 64 bits, when there is one.
pub fn optional_nanos(t: &Option<Timeout>) -> (r: Option<u64>)
    ensures
        r == nanos_of(*t),
{
    match t {
        Some(t) => Some(t.as_nanos_u64()),
        None => None,
    }
}

/// `a`, or `b` when `a` is absent.
pub fn timeout_or(a: &Option<Timeout>, b: &Option<Timeout>) -> (r: Option<Timeout>)
    ensures
        r == match *a {
            Some(t) => Some(t),
            None => *b,
        },
{
    match a {
        Some(t) => Some(t.copy()),
        None => match b {
            Some(t) => Some(t.copy()),
            None => None,
        },
    }
}

/// How long to wait for a response when no timeout is set: ten billion
/// seconds.
pub open spec fn default_wait_nanos() -> u64 {
    10_000_000_000_000_000_000u64
}

/// The deadline, in nanoseconds, for waiting on a response: the timeout
/// cut to 64 bits, or ten billion seconds when there is none.
pub fn deadline_nanos(t: &Option<Timeout>) -> (r: u64)
    ensures
        r == match *t {
            Some(t) => t@ as u64,
            None => default_wait_nanos(),
        },
{
    match t {
        Some(t) => t.as_nanos_u64(),
        None => {
            let d = Timeout::from_secs(10_000_000_000);
            d.as_nanos_u64()
        },
    }
}

} // verus!
