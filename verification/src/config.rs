//! The settings of the gateway, as they are made from the values of its
//! environment.

use crate::model::opt_text;
use crate::text::chars_of;
use vstd::prelude::*;

verus! {

/// The settings of the gateway.
#[derive(Debug, PartialEq, Eq)]
pub struct Config {
    pub host: String,
    pub port: u16,
    pub health_check_key: Option<String>,
    pub health_check_concurrency: usize,
    pub refresh_interval_secs: u64,
}

/// Whether a character is a decimal digit, `0` to `9`.
pub open spec fn is_digit(c: char) -> bool {
    48 <= c as u32 <= 57
}

/// The number that a run of decimal digits denotes.
pub open spec fn digits_value(s: Seq<char>) -> nat
    decreases s.len(),
{
    if s.len() == 0 {
        0
    } else {
        (digits_value(s.drop_last()) * 10 + (s.last() as u32 - 48)) as nat
    }
}

/// Whether every character is a decimal digit.
pub open spec fn all_digits(s: Seq<char>) -> bool {
    forall|i: int| 0 <= i < s.len() ==> is_digit(#[trigger] s[i])
}

/// The text without a plus sign in front.
pub open spec fn unsigned_part(s: Seq<char>) -> Seq<char> {
    if s.len() > 0 && s[0] == '+' {
        s.subrange(1, s.len() as int)
    } else {
        s
    }
}

/// The number that a text denotes in decimal, where it is one of at most
/// `max`: digits only, at least one, with or without a plus sign in front.
pub open spec fn decimal(s: Seq<char>, max: nat) -> Option<nat> {
    let body = unsigned_part(s);
    if body.len() > 0 && all_digits(body) && digits_value(body) <= max {
        Some(digits_value(body))
    } else {
        None
    }
}

/// The number that an optional text denotes, or `default` where the text
/// is missing or denotes none of at most `max`.
pub open spec fn decimal_or(t: Option<Seq<char>>, max: nat, default: nat) -> nat {
    match t {
        Some(s) => match decimal(s, max) {
            Some(n) => n,
            None => default,
        },
        None => default,
    }
}

/// The port of the settings: 3000 where none is given, and none where the
/// given text is no port number.
pub open spec fn port_of(t: Option<Seq<char>>) -> Option<nat> {
    match t {
        Some(s) => decimal(s, u16::MAX as nat),
        None => Some(3000),
    }
}

/// A beginning of a run of digits denotes a number that is not greater.
pub proof fn lemma_prefix_value(s: Seq<char>, j: int)
    requires
        all_digits(s),
        0 <= j <= s.len(),
    ensures
        digits_value(s.take(j)) <= digits_value(s),
    decreases s.len() - j,
{
    if j < s.len() {
        lemma_prefix_value(s, j + 1);
        assert(s.take(j + 1).drop_last() =~= s.take(j));
        assert(s.take(j + 1).last() == s[j]);
        assert(is_digit(s[j]));
    } else {
        assert(s.take(j) =~= s);
    }
}

/// The number that a text denotes in decimal, where it is one of at most
/// `max`.
pub fn parse_decimal(text: &str, max: u64) -> (r: Option<u64>)
    ensures
        match r {
            Some(n) => decimal(text@, max as nat) == Some(n as nat),
            None => decimal(text@, max as nat) is None,
        },
{
    let chars = chars_of(text);
    let start: usize = if chars.len() > 0 && chars[0] == '+' {
        1
    } else {
        0
    };
    let ghost body = unsigned_part(chars@);
    assert(body == chars@.subrange(start as int, chars.len() as int));
    if start == chars.len() {
        return None;
    }
    let mut acc: u64 = 0;
    let mut i: usize = start;
    assert(body.take(0) =~= Seq::<char>::empty());
    while i < chars.len()
        invariant
            start <= i <= chars.len(),
            start < chars.len(),
            chars@ == text@,
            body == unsigned_part(chars@),
            body == chars@.subrange(start as int, chars.len() as int),
            all_digits(body.take(i - start)),
            acc == digits_value(body.take(i - start)),
            acc <= max,
        decreases chars.len() - i,
    {
        let c = chars[i];
        let code: u32 = c as u32;
        assert(body[i - start] == c);
        if code < 48 || code > 57 {
            assert(!is_digit(body[i - start]));
            return None;
        }
        let d: u64 = (code - 48) as u64;
        proof {
            assert(body.take(i - start + 1).drop_last() =~= body.take(i - start));
            assert(body.take(i - start + 1).last() == c);
            assert(all_digits(body.take(i - start + 1))) by {
                assert forall|k: int| 0 <= k < i - start + 1 implies is_digit(
                    #[trigger] body.take(i - start + 1)[k],
                ) by {
                    if k < i - start {
                        assert(body.take(i - start)[k] == body[k]);
                    }
                }
            }
        }
        if d > max || acc > (max - d) / 10 {
            proof {
                assert(digits_value(body.take(i - start + 1)) > max);
                if all_digits(body) {
                    lemma_prefix_value(body, i - start + 1);
                }
            }
            return None;
        }
        acc = acc * 10 + d;
        i += 1;
    }
    assert(body.take(chars.len() - start) =~= body);
    Some(acc)
}

impl Config {
    /// The settings for the given values of the environment: the host
    /// (`0.0.0.0` where none is given), the port (3000), the key for health
    /// checks (none where it is empty), the number of health checks at a
    /// time (5 where none or no number is given) and the seconds between
    /// refreshes (3600). Nothing where the port is given and is no port
    /// number.
    pub fn from_vars(
        host: Option<String>,
        port: Option<String>,
        key: Option<String>,
        concurrency: Option<String>,
        interval: Option<String>,
    ) -> (r: Option<Config>)
        ensures
            match r {
                Some(c) => {
                    &&& c.host@ == (match host {
                        Some(h) => h@,
                        None => "0.0.0.0"@,
                    })
                    &&& port_of(opt_text(port)) == Some(c.port as nat)
                    &&& opt_text(c.health_check_key) == (match key {
                        Some(k) => if k@.len() > 0 {
                            Some(k@)
                        } else {
                            None
                        },
                        None => None,
                    })
                    &&& c.health_check_concurrency == decimal_or(
                        opt_text(concurrency),
                        usize::MAX as nat,
                        5,
                    )
                    &&& c.refresh_interval_secs == decimal_or(
                        opt_text(interval),
                        u64::MAX as nat,
                        3600,
                    )
                },
                None => port_of(opt_text(port)) is None,
            },
    {
        let port: u16 = match &port {
            Some(p) => match parse_decimal(p.as_str(), 65535) {
                Some(n) => n as u16,
                None => {
                    return None;
                },
            },
            None => 3000,
        };
        let health_check_concurrency: usize = match &concurrency {
            Some(t) => match parse_decimal(t.as_str(), usize::MAX as u64) {
                Some(n) => n as usize,
                None => 5,
            },
            None => 5,
        };
        let refresh_interval_secs: u64 = match &interval {
            Some(t) => match parse_decimal(t.as_str(), u64::MAX) {
                Some(n) => n,
                None => 3600,
            },
            None => 3600,
        };
        let health_check_key = match key {
            Some(k) => if k.as_str().is_empty() {
                None
            } else {
                Some(k)
            },
            None => None,
        };
        let host = match host {
            Some(h) => h,
            None => "0.0.0.0".to_owned(),
        };
        Some(Config { host, port, health_check_key, health_check_concurrency, refresh_interval_secs })
    }
}

} // verus!
