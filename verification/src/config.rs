//! Application configuration: what the settings found in the environment
//! amount to.

use crate::text::{split_spec, split_trimmed, to_chars, trim_spec};
use vstd::prelude::*;

verus! {

/// Application configuration, as loaded from the environment.
#[derive(Debug, Clone)]
pub struct Config {
    pub host: String,
    pub port: u16,
    pub api_key: String,
    pub allowed_origins: Vec<String>,
    pub rust_log: String,
}

/// `c` is a decimal digit.
pub open spec fn is_digit(c: char) -> bool {
    48 <= c as u32 <= 57
}

/// The value of a decimal digit.
pub open spec fn digit_value(c: char) -> nat {
    if is_digit(c) {
        (c as u32 - 48) as nat
    } else {
        0
    }
}

/// Every character of `s` is a decimal digit.
pub open spec fn all_digits(s: Seq<char>) -> bool {
    forall|i: int| 0 <= i < s.len() ==> is_digit(#[trigger] s[i])
}

/// The number that the digits of `s` write.
pub open spec fn digits_value(s: Seq<char>) -> nat
    decreases s.len(),
{
    if s.len() == 0 {
        0
    } else {
        digits_value(s.drop_last()) * 10 + digit_value(s.last())
    }
}

/// `s` without the plus sign that may stand before a number.
pub open spec fn unsigned_digits(s: Seq<char>) -> Seq<char> {
    if s.len() > 0 && s[0] == '+' {
        s.skip(1)
    } else {
        s
    }
}

/// The port that `s` writes: one or more digits, after a plus sign or
/// without one, with a value of at most 65535.
pub open spec fn port_spec(s: Seq<char>) -> Option<u16> {
    let digits = unsigned_digits(s);
    if digits.len() > 0 && all_digits(digits) && digits_value(digits) <= 65535 {
        Some(digits_value(digits) as u16)
    } else {
        None
    }
}

/// A longer number is not smaller than its start.
pub proof fn lemma_digits_value_grows(s: Seq<char>, k: int)
    requires
        0 <= k <= s.len(),
    ensures
        digits_value(s.take(k)) <= digits_value(s),
    decreases s.len() - k,
{
    if k == s.len() {
        assert(s.take(k) =~= s);
    } else {
        lemma_digits_value_grows(s.drop_last(), k);
        assert(s.drop_last().take(k) =~= s.take(k));
    }
}

/// Reads a port number.
pub fn parse_port(text: &str) -> (port: Option<u16>)
    ensures
        port == port_spec(text@),
{
    let v = to_chars(text);
    let start: usize = if v.len() > 0 && v[0] == '+' {
        1
    } else {
        0
    };
    let ghost digits = unsigned_digits(text@);
    assert(digits =~= v@.skip(start as int));
    if start == v.len() {
        return None;
    }
    let mut value: u32 = 0;
    let mut i: usize = start;
    while i < v.len()
        invariant
            start <= i <= v@.len(),
            digits == v@.skip(start as int),
            digits == unsigned_digits(text@),
            all_digits(digits.take(i - start)),
            value == digits_value(digits.take(i - start)),
            value <= 65535,
        decreases v@.len() - i,
    {
        let c: char = v[i];
        let code: u32 = c as u32;
        assert(digits[i - start] == c);
        if code < 48 || code > 57 {
            assert(!is_digit(digits[i - start]));
            return None;
        }
        assert(is_digit(c) && digit_value(c) == code - 48);
        let ghost before = digits.take(i - start);
        let ghost after = digits.take(i - start + 1);
        assert(after.drop_last() =~= before);
        assert(after.last() == c);
        value = value * 10 + (code - 48);
        if value > 65535 {
            proof {
                assert(value == digits_value(after));
                lemma_digits_value_grows(digits, i - start + 1);
            }
            return None;
        }
        assert(all_digits(after)) by {
            assert forall|j: int| 0 <= j < after.len() implies is_digit(#[trigger] after[j]) by {
                if j < before.len() {
                    assert(after[j] == before[j]);
                }
            }
        }
        i += 1;
    }
    assert(digits.take(i - start) =~= digits);
    Some(value as u16)
}

/// The setting, or `fallback` where it is not set.
pub open spec fn or_default(setting: Option<String>, fallback: Seq<char>) -> Seq<char> {
    match setting {
        Some(text) => text@,
        None => fallback,
    }
}

/// The setting, or `fallback` where it is not set.
fn setting_or(setting: Option<String>, fallback: &str) -> (text: String)
    ensures
        text@ == or_default(setting, fallback@),
{
    match setting {
        Some(text) => text,
        None => fallback.to_owned(),
    }
}

impl Config {
    /// `self` is what the five settings amount to.
    pub open spec fn reflects(
        self,
        host: Option<String>,
        port: Option<String>,
        api_key: Option<String>,
        allowed_origins: Option<String>,
        rust_log: Option<String>,
    ) -> bool {
        let origins = split_spec(
            or_default(allowed_origins, "http://localhost:3000,http://localhost:5173"@),
            ',',
        );
        &&& self.host@ == or_default(host, "127.0.0.1"@)
        &&& Some(self.port) == port_spec(or_default(port, "8000"@))
        &&& api_key is Some && self.api_key@ == api_key->0@
        &&& self.rust_log@ == or_default(rust_log, "info"@)
        &&& self.allowed_origins@.len() == origins.len()
        &&& forall|k: int|
            0 <= k < origins.len() ==> (#[trigger] self.allowed_origins@[k])@ == trim_spec(
                origins[k],
            )
    }

    /// Builds the configuration from the settings `HOST`, `PORT`, `API_KEY`,
    /// `ALLOWED_ORIGINS` and `RUST_LOG`, each as it was found or not. All but
    /// the key have a default. The port must be a number, and the key must be
    /// set; a bad port is reported first.
    pub fn from_vars(
        host: Option<String>,
        port: Option<String>,
        api_key: Option<String>,
        allowed_origins: Option<String>,
        rust_log: Option<String>,
    ) -> (r: Result<Self, String>)
        ensures
            match r {
                Ok(config) => config.reflects(host, port, api_key, allowed_origins, rust_log),
                Err(reason) => if port_spec(or_default(port, "8000"@)) is None {
                    reason@ == "PORT must be a valid number"@
                } else {
                    api_key is None && reason@ == "API_KEY must be set in environment variables"@
                },
            },
    {
        let host = setting_or(host, "127.0.0.1");
        let port = match parse_port(setting_or(port, "8000").as_str()) {
            Some(port) => port,
            None => {
                return Err("PORT must be a valid number".to_owned());
            },
        };
        let api_key = match api_key {
            Some(key) => key,
            None => {
                return Err("API_KEY must be set in environment variables".to_owned());
            },
        };
        let origins = setting_or(allowed_origins, "http://localhost:3000,http://localhost:5173");
        let allowed_origins = split_trimmed(origins.as_str(), ',');
        let rust_log = setting_or(rust_log, "info");
        Ok(Config { host, port, api_key, allowed_origins, rust_log })
    }
}

} // verus!
