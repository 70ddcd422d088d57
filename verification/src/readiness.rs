//! Readiness probing: poll the dsh web server until it accepts connections.
//! The connection attempts and the pauses between them are the caller's;
//! what each attempt means is decided here.
use vstd::prelude::*;
use crate::text::{chars_of, parse_digits, concat_str, decimal_string};

verus! {

/// Port used when the base URL names none.
pub const FALLBACK_PORT: u16 = 3080;

/// Why readiness probing failed.
#[derive(Debug)]
pub enum ReadinessError {
    /// No connection within the given timeout (milliseconds).
    Timeout(u64),
    /// A probe failed for an I/O reason other than "not ready yet".
    Io(String),
}

impl ReadinessError {
    /// The human-readable text of this error.
    pub fn message(&self) -> (m: String)
        ensures
            m@ == match self {
                ReadinessError::Timeout(ms) => "等待 dsh 就绪超时（"@ + crate::text::decimal((*ms / 1000) as nat) + "s）"@,
                ReadinessError::Io(e) => "探测 dsh 端口失败: "@ + e@,
            },
    {
        match self {
            ReadinessError::Timeout(ms) => {
                let d = decimal_string(*ms / 1000);
                let a = concat_str("等待 dsh 就绪超时（", d.as_str());
                concat_str(a.as_str(), "s）")
            },
            ReadinessError::Io(e) => concat_str("探测 dsh 端口失败: ", e.as_str()),
        }
    }
}

/// Probes `http://127.0.0.1:<port>` until the port accepts connections.
#[derive(Debug)]
pub struct Readiness {
    /// e.g. "http://127.0.0.1:3080": the URL handed back on success.
    pub base_url: String,
}

/// `s` after its last `:` (all of `s` without one).
pub open spec fn after_last_colon(s: Seq<char>) -> Seq<char>
    decreases s.len(),
{
    if s.len() == 0 {
        s
    } else if s.last() == ':' {
        Seq::empty()
    } else {
        after_last_colon(s.drop_last()).push(s.last())
    }
}

/// `s` read as a `u16` (`str::parse::<u16>`: digits, an optional leading `+`).
pub open spec fn parse_u16(s: Seq<char>) -> Option<nat> {
    if s.len() > 0 && s[0] == '+' {
        crate::text::parse_bounded(s.drop_first(), 65535)
    } else {
        crate::text::parse_bounded(s, 65535)
    }
}

/// The port probed for a base URL: the number after its last `:` when it
/// is a valid non-zero port, else 3080.
pub open spec fn port_of(url: Seq<char>) -> u16 {
    match parse_u16(after_last_colon(url)) {
        Some(p) => if p > 0 { p as u16 } else { FALLBACK_PORT },
        None => FALLBACK_PORT,
    }
}

/// What to do after one connection attempt.
#[derive(Debug)]
pub enum ProbeStep {
    /// The server is up: report this URL.
    Ready(String),
    /// Give up.
    Failed(ReadinessError),
    /// Wait a little and try again.
    Retry,
}

impl Readiness {
    /// A prober for `base_url`.
    pub fn new(base_url: String) -> (r: Readiness)
        ensures
            r.base_url == base_url,
    {
        Readiness { base_url }
    }

    /// The port to connect to.
    pub fn port(&self) -> (p: u16)
        ensures
            p == port_of(self.base_url@),
    {
        let chars = chars_of(self.base_url.as_str());
        let mut start = chars.len();
        assert(chars@.take(chars@.len() as int) =~= chars@);
        assert(chars@.skip(chars@.len() as int) =~= Seq::<char>::empty());
        assert(after_last_colon(chars@) + Seq::<char>::empty() =~= after_last_colon(chars@));
        while start > 0 && chars[start - 1] != ':'
            invariant
                start <= chars@.len(),
                chars@ == self.base_url@,
                after_last_colon(chars@) == after_last_colon(chars@.take(start as int)) + chars@.skip(start as int),
            decreases start,
        {
            assert(chars@.take(start as int).drop_last() =~= chars@.take(start - 1));
            assert(chars@.skip(start - 1) =~= seq![chars@[start - 1]] + chars@.skip(start as int));
            start = start - 1;
        }
        proof {
            if start > 0 {
                assert(chars@.take(start as int).last() == chars@[start - 1]);
            }
            assert(after_last_colon(chars@.take(start as int)) =~= Seq::<char>::empty());
            assert(after_last_colon(chars@) =~= chars@.subrange(start as int, chars@.len() as int));
        }
        let n = chars.len();
        let parsed = if start < n && chars[start] == '+' {
            proof {
                assert(chars@.subrange(start as int, n as int).drop_first() =~= chars@.subrange(start + 1, n as int));
            }
            parse_digits(&chars, start + 1, n, 65535)
        } else {
            parse_digits(&chars, start, n, 65535)
        };
        match parsed {
            Some(p) => if p > 0 { p as u16 } else { FALLBACK_PORT },
            None => FALLBACK_PORT,
        }
    }

    /// After a connection attempt: ready when it connected; failed once
    /// `elapsed_ms` reached `timeout_ms`; otherwise try again.
    pub fn next_step(&self, connected: bool, elapsed_ms: u64, timeout_ms: u64) -> (step: ProbeStep)
        ensures
            connected ==> step == ProbeStep::Ready(self.base_url),
            !connected && elapsed_ms >= timeout_ms ==> (step matches ProbeStep::Failed(ReadinessError::Timeout(t)) && t == timeout_ms),
            !connected && elapsed_ms < timeout_ms ==> step is Retry,
    {
        if connected {
            ProbeStep::Ready(self.base_url.clone())
        } else if elapsed_ms >= timeout_ms {
            ProbeStep::Failed(ReadinessError::Timeout(timeout_ms))
        } else {
            ProbeStep::Retry
        }
    }
}

} // verus!
