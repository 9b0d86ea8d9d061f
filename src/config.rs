//! The configuration document, as the library sees it once it has been read.

use vstd::prelude::*;

verus! {

/// The whole configuration.
#[derive(Debug, Clone)]
pub struct AetherConfig {
    pub backend: BackendConfig,
    /// Service name and description, one entry per service.
    pub services: Vec<(String, ServiceConfig)>,
    pub injection: Option<InjectionConfig>,
}

/// Which resource backend is active.
#[derive(Debug, Clone)]
pub enum BackendConfig {
    Docker { socket: Option<String> },
}

/// One declared service.
#[derive(Debug, Clone)]
pub struct ServiceConfig {
    pub image: String,
    /// Internal ports, as written in the configuration.
    pub ports: Vec<String>,
    pub env: Vec<(String, String)>,
    pub volumes: Vec<String>,
    pub command: Option<Vec<String>>,
    pub depends_on: Vec<String>,
    /// CPU limit, in thousandths of a core.
    pub cpu_limit: Option<u32>,
    /// CPU reservation, in thousandths of a core.
    pub cpu_reservation: Option<u32>,
    /// Memory limit, in bytes.
    pub memory_limit: Option<i64>,
    /// Memory reservation, in bytes.
    pub memory_reservation: Option<i64>,
}

/// Where rendered connection details go, and the template that renders them.
#[derive(Debug, Clone)]
pub struct InjectionConfig {
    pub file: String,
    pub template: String,
}

/// A decimal digit.
pub open spec fn is_digit(c: char) -> bool {
    '0' <= c && c <= '9'
}

/// The value of a string of decimal digits.
pub open spec fn digits_value(s: Seq<char>) -> nat
    decreases s.len(),
{
    if s.len() == 0 {
        0
    } else {
        digits_value(s.drop_last()) * 10 + ((s.last() as u32) - 48) as nat
    }
}

/// The digits of a port: the string without one leading `+`.
pub open spec fn port_digits(s: Seq<char>) -> Seq<char> {
    if s.len() > 0 && s[0] == '+' {
        s.drop_first()
    } else {
        s
    }
}

/// The port a string denotes, read as `u16::from_str` reads it: an optional
/// `+`, then one or more decimal digits, at most 65535 in value.
pub open spec fn parse_port(s: Seq<char>) -> Option<u16> {
    let d = port_digits(s);
    if d.len() > 0 && (forall|i: int| 0 <= i < d.len() ==> is_digit(#[trigger] d[i]))
        && digits_value(d) <= 65535 {
        Some(digits_value(d) as u16)
    } else {
        None
    }
}

/// Reads a port number written in decimal.
pub fn parse_port_str(s: &str) -> (r: Option<u16>)
    ensures
        r == parse_port(s@),
{
    let n = s.unicode_len();
    let start: usize = if n > 0 && s.get_char(0) == '+' {
        1
    } else {
        0
    };
    let ghost d = port_digits(s@);
    assert(d =~= s@.subrange(start as int, n as int));
    if start == n {
        return None;
    }
    let mut acc: u64 = 0;
    let mut i: usize = start;
    while i < n
        invariant
            n == s@.len(),
            start <= i <= n,
            d == s@.subrange(start as int, n as int),
            d == port_digits(s@),
            forall|k: int| start <= k < i ==> is_digit(#[trigger] s@[k]),
            acc <= 65536,
            acc == (if digits_value(s@.subrange(start as int, i as int)) < 65536 {
                digits_value(s@.subrange(start as int, i as int))
            } else {
                65536
            }),
        decreases n - i,
    {
        let c = s.get_char(i);
        if !('0' <= c && c <= '9') {
            assert(!is_digit(d[i - start]));
            assert(!(forall|k: int| 0 <= k < d.len() ==> is_digit(#[trigger] d[k])));
            return None;
        }
        let ghost prev = digits_value(s@.subrange(start as int, i as int));
        let digit = (c as u32 - 48) as u64;
        assert(s@.subrange(start as int, i + 1).drop_last() =~= s@.subrange(start as int, i as int));
        let next = acc * 10 + digit;
        acc = if next > 65536 {
            65536
        } else {
            next
        };
        assert(digits_value(s@.subrange(start as int, i + 1)) == prev * 10 + digit);
        assert(acc == (if prev * 10 + digit < 65536 { prev * 10 + digit } else { 65536 })) by (
        nonlinear_arith)
            requires
                acc == (if acc * 0 + next > 65536 { 65536 } else { next }),
                next == (if prev < 65536 { prev } else { 65536 }) * 10 + digit,
                digit <= 9,
        {
        }
        i = i + 1;
    }
    assert(forall|k: int| 0 <= k < d.len() ==> is_digit(#[trigger] d[k])) by {
        assert forall|k: int| 0 <= k < d.len() implies is_digit(#[trigger] d[k]) by {
            assert(d[k] == s@[start + k]);
        }
    }
    if acc > 65535 {
        None
    } else {
        Some(acc as u16)
    }
}

} // verus!
