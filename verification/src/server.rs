//! Error classification and address scrubbing for the embedding server.

use vstd::prelude::*;
use vstd::utf8::encode_utf8;

verus! {

/// Details handed across the embedding boundary when the server stops: a
/// numeric code and fixed-size message and trace buffers.
pub struct PumpkinErrorDetails {
    pub code: i32,
    pub message: [u8; 256],
    pub trace: [u8; 1024],
}

/// The coarse classes of server failure, each with a stable numeric code.
#[derive(Debug, Clone, Copy, PartialEq, Eq, Structural)]
pub enum PumpkinError {
    Success,
    LoggerInitializationError,
    NetworkBindError,
    SignalHandlerError,
    RuntimeError,
    ConfigError,
}

/// The stable numeric code of each failure class.
pub open spec fn error_code(e: PumpkinError) -> i32 {
    match e {
        PumpkinError::Success => 0,
        PumpkinError::LoggerInitializationError => 1,
        PumpkinError::NetworkBindError => 2,
        PumpkinError::SignalHandlerError => 3,
        PumpkinError::RuntimeError => 4,
        PumpkinError::ConfigError => 5,
    }
}

impl PumpkinError {
    /// The stable numeric code of this failure class.
    pub fn code(self) -> (r: i32)
        ensures
            r == error_code(self),
    {
        match self {
            PumpkinError::Success => 0,
            PumpkinError::LoggerInitializationError => 1,
            PumpkinError::NetworkBindError => 2,
            PumpkinError::SignalHandlerError => 3,
            PumpkinError::RuntimeError => 4,
            PumpkinError::ConfigError => 5,
        }
    }
}

/// Whether `n` occurs as a contiguous run inside `h`.
pub open spec fn bytes_contain(h: Seq<u8>, n: Seq<u8>) -> bool {
    exists|i: int|
        0 <= i <= h.len() - n.len() && #[trigger] h.subrange(i, i + n.len() as int) == n
}


/// Naive substring search over byte slices.
fn contains_bytes(h: &[u8], n: &[u8]) -> (r: bool)
    ensures
        r == bytes_contain(h@, n@),
{
    let hn = h.len();
    let nn = n.len();
    if nn > hn {
        proof {
            assert(!bytes_contain(h@, n@));
        }
        return false;
    }
    let mut i: usize = 0;
    while i <= hn - nn
        invariant
            nn == n@.len(),
            hn == h@.len(),
            nn <= hn,
            i <= hn - nn + 1,
            forall|k: int| 0 <= k < i ==> #[trigger] h@.subrange(k, k + n@.len() as int) != n@,
        decreases hn + 1 - nn - i,
    {
        let mut j: usize = 0;
        let mut matched = true;
        while j < nn
            invariant
                nn == n@.len(),
                hn == h@.len(),
                nn <= hn,
                i <= hn - nn,
                j <= nn,
                matched == (forall|k: int| 0 <= k < j ==> h@[i + k] == #[trigger] n@[k]),
            decreases nn - j,
        {
            if h[i + j] != n[j] {
                matched = false;
                proof {
                    assert(h@[i + j] != n@[j as int]);
                }
                j = nn;
            } else {
                proof {
                    assert(h@[i + j] == n@[j as int]);
                }
                j = j + 1;
            }
        }
        if matched {
            proof {
                assert(h@.subrange(i as int, i + n@.len() as int) =~= n@);
            }
            return true;
        }
        proof {
            assert(h@.subrange(i as int, i + n@.len() as int) != n@) by {
                if h@.subrange(i as int, i + n@.len() as int) == n@ {
                    assert(forall|k: int|
                        0 <= k < n@.len() ==> h@[i + k] == #[trigger] h@.subrange(
                            i as int,
                            i + n@.len() as int,
                        )[k]);
                }
            }
        }
        i = i + 1;
    }
    proof {
        assert(!bytes_contain(h@, n@));
    }
    false
}

/// The failure class suggested by an error message: the first of the words
/// `logger`, `bind`, `signal`, `config` that occurs in it, else a plain
/// runtime error.
pub open spec fn pumpkin_error_of(s: Seq<char>) -> PumpkinError {
    let b = encode_utf8(s);
    if bytes_contain(b, encode_utf8("logger"@)) {
        PumpkinError::LoggerInitializationError
    } else if bytes_contain(b, encode_utf8("bind"@)) {
        PumpkinError::NetworkBindError
    } else if bytes_contain(b, encode_utf8("signal"@)) {
        PumpkinError::SignalHandlerError
    } else if bytes_contain(b, encode_utf8("config"@)) {
        PumpkinError::ConfigError
    } else {
        PumpkinError::RuntimeError
    }
}

/// Classifies an error message into a failure class by the words it holds.
pub fn to_pumpkin_error(error: &str) -> (r: PumpkinError)
    ensures
        r == pumpkin_error_of(error@),
{
    let b = error.as_bytes();
    if contains_bytes(b, "logger".as_bytes()) {
        PumpkinError::LoggerInitializationError
    } else if contains_bytes(b, "bind".as_bytes()) {
        PumpkinError::NetworkBindError
    } else if contains_bytes(b, "signal".as_bytes()) {
        PumpkinError::SignalHandlerError
    } else if contains_bytes(b, "config".as_bytes()) {
        PumpkinError::ConfigError
    } else {
        PumpkinError::RuntimeError
    }
}

/// What scrubbing leaves of an address: separators kept, every other
/// character replaced by `x`.
pub open spec fn scrubbed(s: Seq<char>) -> Seq<char> {
    Seq::new(
        s.len(),
        |i: int|
            if s[i] == '.' || s[i] == ':' {
                s[i]
            } else {
                'x'
            },
    )
}

/// Relies on `String::push`: it appends exactly the given character.
#[verifier::external_body]
fn string_push_char(s: &mut String, c: char)
    ensures
        final(s)@ == old(s)@.push(c),
{
    s.push(c);
}

/// Hides an address when scrubbing is on: keeps only the `.` and `:`
/// separators and replaces every other character with `x`.
pub fn scrub_address(ip: &str, scrub_ips: bool) -> (r: String)
    ensures
        scrub_ips ==> r@ == scrubbed(ip@),
        !scrub_ips ==> r@ == ip@,
{
    if !scrub_ips {
        return ip.to_owned();
    }
    let n = ip.unicode_len();
    let mut out = String::new();
    let mut i: usize = 0;
    while i < n
        invariant
            n == ip@.len(),
            i <= n,
            out@ == scrubbed(ip@).take(i as int),
        decreases n - i,
    {
        let c = ip.get_char(i);
        let mapped: char = if c == '.' || c == ':' {
            c
        } else {
            'x'
        };
        string_push_char(&mut out, mapped);
        i = i + 1;
        proof {
            assert(out@ =~= scrubbed(ip@).take(i as int));
        }
    }
    proof {
        assert(scrubbed(ip@).take(n as int) =~= scrubbed(ip@));
    }
    out
}

} // verus!
