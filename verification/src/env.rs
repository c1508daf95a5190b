//! The settings the service needs from its environment, and how they are
//! validated before it starts: all present, and each one sensible.

use vstd::prelude::*;
use crate::text::{chars_of, decimal_text, digit_char};

verus! {

/// The settings as read from the environment, each where it is set.
#[derive(Debug)]
pub struct EnvVars {
    pub temp: Option<String>,
    pub content: Option<String>,
    pub host: Option<String>,
    pub port: Option<String>,
    pub log_level: Option<String>,
    pub label: Option<String>,
    pub storage_mode: Option<String>,
}

/// The first setting found wrong.
#[derive(Clone, Copy, Debug, PartialEq, Eq, Structural)]
pub enum EnvVarError {
    MissingTemp,
    MissingContent,
    InvalidHost,
    MissingPort,
    InvalidPort,
    MissingLogLevel,
    MissingLabel,
    MissingStorageMode,
    InvalidStorageMode,
}

/// The message the service stops with for a wrong setting.
pub open spec fn env_error_message(e: EnvVarError) -> Seq<char> {
    match e {
        EnvVarError::MissingTemp => "Missing TEMP variable"@,
        EnvVarError::MissingContent => "Missing CONTENT variable"@,
        EnvVarError::InvalidHost => "Invalid HOST variable"@,
        EnvVarError::MissingPort => "Missing PORT variable"@,
        EnvVarError::InvalidPort => "Invalid PORT variable"@,
        EnvVarError::MissingLogLevel => "Missing LOG_LEVEL variable"@,
        EnvVarError::MissingLabel => "Missing LABEL variable"@,
        EnvVarError::MissingStorageMode => "Missing STORAGE_MODE variable"@,
        EnvVarError::InvalidStorageMode => "Invalid STORAGE_MODE variable"@,
    }
}

impl EnvVarError {
    /// The message the service stops with for this setting.
    pub fn message(&self) -> (r: &'static str)
        ensures
            r@ == env_error_message(*self),
    {
        match self {
            EnvVarError::MissingTemp => "Missing TEMP variable",
            EnvVarError::MissingContent => "Missing CONTENT variable",
            EnvVarError::InvalidHost => "Invalid HOST variable",
            EnvVarError::MissingPort => "Missing PORT variable",
            EnvVarError::InvalidPort => "Invalid PORT variable",
            EnvVarError::MissingLogLevel => "Missing LOG_LEVEL variable",
            EnvVarError::MissingLabel => "Missing LABEL variable",
            EnvVarError::MissingStorageMode => "Missing STORAGE_MODE variable",
            EnvVarError::InvalidStorageMode => "Invalid STORAGE_MODE variable",
        }
    }
}

/// Whether `c` is an ASCII digit.
pub open spec fn is_digit(c: char) -> bool {
    '0' <= c <= '9'
}

/// The number the decimal digits spell.
pub open spec fn digits_value(s: Seq<char>) -> nat
    decreases s.len(),
{
    if s.len() == 0 {
        0
    } else {
        digits_value(s.drop_last()) * 10 + ((s.last() as u32) - ('0' as u32)) as nat
    }
}

/// Whether every character of `t` is an ASCII digit.
pub open spec fn all_digits(t: Seq<char>) -> bool {
    forall|i: int| 0 <= i < t.len() ==> is_digit(#[trigger] t[i])
}

/// The text after an optional leading `+`.
pub open spec fn unsigned_digits(s: Seq<char>) -> Seq<char> {
    if s.len() > 0 && s[0] == '+' {
        s.skip(1)
    } else {
        s
    }
}

/// The port a text spells as `u16` parsing reads it: an optional `+`, then
/// one or more ASCII digits, worth at most 65535.
pub open spec fn port_value(s: Seq<char>) -> Option<u16> {
    let digits = unsigned_digits(s);
    if digits.len() > 0 && all_digits(digits) && digits_value(digits) <= u16::MAX {
        Some(digits_value(digits) as u16)
    } else {
        None
    }
}

/// A decimal digit is worth its number.
proof fn lemma_digit_value(d: nat)
    requires
        d < 10,
    ensures
        is_digit(digit_char(d)),
        ((digit_char(d) as u32) - ('0' as u32)) as nat == d,
{
}

/// The decimal digits of a number are digits and spell the number.
proof fn lemma_decimal_digits(n: nat)
    ensures
        decimal_text(n).len() > 0,
        all_digits(decimal_text(n)),
        digits_value(decimal_text(n)) == n,
        decimal_text(n)[0] != '+',
    decreases n,
{
    let t = decimal_text(n);
    lemma_digit_value(n % 10);
    if n < 10 {
        assert(t == seq![digit_char(n)]);
        assert(t.drop_last() =~= Seq::<char>::empty());
        assert(n % 10 == n);
        assert(t.last() == digit_char(n));
        assert(digits_value(t) == digits_value(t.drop_last()) * 10 + ((t.last() as u32) - ('0' as u32)) as nat);
    } else {
        lemma_decimal_digits(n / 10);
        let h = decimal_text(n / 10);
        assert(t == h.push(digit_char(n % 10)));
        assert(t.drop_last() =~= h);
        assert forall|i: int| 0 <= i < t.len() implies is_digit(#[trigger] t[i]) by {
            if i < h.len() {
                assert(t[i] == h[i]);
            }
        }
        assert(t[0] == h[0]);
        assert(t.last() == digit_char(n % 10));
        assert(digits_value(t) == digits_value(h) * 10 + ((t.last() as u32) - ('0' as u32)) as nat);
        assert((n / 10) * 10 + n % 10 == n) by (nonlinear_arith);
    }
}

/// Every port, written in decimal, reads back as itself.
pub proof fn lemma_port_round_trip(port: u16)
    ensures
        port_value(decimal_text(port as nat)) == Some(port),
{
    lemma_decimal_digits(port as nat);
}

/// Reads a port number.
pub fn parse_port(s: &str) -> (r: Option<u16>)
    ensures
        r == port_value(s@),
{
    let cs = chars_of(s);
    let start: usize = if cs.len() > 0 && cs[0] == '+' {
        1
    } else {
        0
    };
    let ghost digits = unsigned_digits(s@);
    assert(digits =~= cs@.skip(start as int));
    if start >= cs.len() {
        return None;
    }
    let mut value: u32 = 0;
    let mut i: usize = start;
    while i < cs.len()
        invariant
            cs@ == s@,
            start <= i <= cs@.len(),
            digits == cs@.skip(start as int),
            digits == unsigned_digits(s@),
            value == digits_value(cs@.subrange(start as int, i as int)),
            value <= u16::MAX,
            forall|j: int| start <= j < i ==> is_digit(#[trigger] cs@[j]),
        decreases cs@.len() - i,
    {
        let c = cs[i];
        if !('0' <= c && c <= '9') {
            assert(digits[i - start] == c);
            assert(!is_digit(digits[i - start]));
            return None;
        }
        let d: u32 = (c as u32) - ('0' as u32);
        assert(cs@.subrange(start as int, i + 1).drop_last() =~= cs@.subrange(start as int, i as int));
        let next: u32 = value * 10 + d;
        if next > 65535 {
            proof {
                if all_digits(digits) {
                    lemma_digits_value_grows(digits, (i + 1 - start) as int);
                    assert(cs@.subrange(start as int, i + 1) =~= digits.take((i + 1 - start) as int));
                }
            }
            return None;
        }
        value = next;
        i = i + 1;
    }
    assert(cs@.subrange(start as int, cs@.len() as int) =~= digits);
    Some(value as u16)
}

/// A longer run of digits is worth at least as much as its beginning.
proof fn lemma_digits_value_grows(s: Seq<char>, n: int)
    requires
        0 <= n <= s.len(),
        all_digits(s),
    ensures
        digits_value(s.take(n)) <= digits_value(s),
    decreases s.len(),
{
    if n < s.len() {
        let t = s.drop_last();
        assert forall|i: int| 0 <= i < t.len() implies is_digit(#[trigger] t[i]) by {
            assert(t[i] == s[i]);
        }
        lemma_digits_value_grows(t, n);
        assert(t.take(n) =~= s.take(n));
    } else {
        assert(s.take(n) =~= s);
    }
}

/// The code of a character with ASCII capitals made small.
pub open spec fn ascii_lower_code(c: char) -> u32 {
    if 'A' <= c <= 'Z' {
        (c as u32 + 32) as u32
    } else {
        c as u32
    }
}

/// Whether two texts are equal but for the case of ASCII letters.
pub open spec fn equal_ignoring_ascii_case(a: Seq<char>, b: Seq<char>) -> bool {
    a.len() == b.len() && forall|i: int| 0 <= i < a.len() ==> ascii_lower_code(#[trigger] a[i]) == ascii_lower_code(b[i])
}

/// Whether two texts are equal but for the case of ASCII letters.
pub fn eq_ignore_ascii_case(a: &str, b: &str) -> (r: bool)
    ensures
        r == equal_ignoring_ascii_case(a@, b@),
{
    let x = chars_of(a);
    let y = chars_of(b);
    if x.len() != y.len() {
        return false;
    }
    let mut i: usize = 0;
    while i < x.len()
        invariant
            x@ == a@,
            y@ == b@,
            x@.len() == y@.len(),
            i <= x@.len(),
            forall|j: int| 0 <= j < i ==> ascii_lower_code(#[trigger] x@[j]) == ascii_lower_code(y@[j]),
        decreases x@.len() - i,
    {
        let p = x[i];
        let q = y[i];
        let pc: u32 = if 'A' <= p && p <= 'Z' {
            (p as u32) + 32
        } else {
            p as u32
        };
        let qc: u32 = if 'A' <= q && q <= 'Z' {
            (q as u32) + 32
        } else {
            q as u32
        };
        if pc != qc {
            return false;
        }
        i = i + 1;
    }
    true
}

/// Whether a storage mode is one the service knows: `FS` or `REDIS`, in any
/// ASCII case.
pub open spec fn known_storage_mode(mode: Seq<char>) -> bool {
    equal_ignoring_ascii_case(mode, "FS"@) || equal_ignoring_ascii_case(mode, "REDIS"@)
}

/// The first wrong setting, in the order the service checks them, if any.
pub open spec fn env_check(
    temp: Option<Seq<char>>,
    content: Option<Seq<char>>,
    host: Option<Seq<char>>,
    port: Option<Seq<char>>,
    log_level: Option<Seq<char>>,
    label: Option<Seq<char>>,
    storage_mode: Option<Seq<char>>,
) -> Result<(), EnvVarError> {
    if temp is None {
        Err(EnvVarError::MissingTemp)
    } else if content is None {
        Err(EnvVarError::MissingContent)
    } else if host is None {
        Err(EnvVarError::InvalidHost)
    } else if port is None {
        Err(EnvVarError::MissingPort)
    } else if port_value(port.unwrap()) is None {
        Err(EnvVarError::InvalidPort)
    } else if log_level is None {
        Err(EnvVarError::MissingLogLevel)
    } else if label is None {
        Err(EnvVarError::MissingLabel)
    } else if storage_mode is None {
        Err(EnvVarError::MissingStorageMode)
    } else if !known_storage_mode(storage_mode.unwrap()) {
        Err(EnvVarError::InvalidStorageMode)
    } else {
        Ok(())
    }
}

/// The value of an optional setting.
pub open spec fn setting(o: Option<String>) -> Option<Seq<char>> {
    match o {
        Some(s) => Some(s@),
        None => None,
    }
}

/// Checks the settings the service needs: every one present, the port a
/// number that fits 16 bits, and the storage mode `FS` or `REDIS`.
pub fn check_env_vars(vars: &EnvVars) -> (r: Result<(), EnvVarError>)
    ensures
        r == env_check(
            setting(vars.temp),
            setting(vars.content),
            setting(vars.host),
            setting(vars.port),
            setting(vars.log_level),
            setting(vars.label),
            setting(vars.storage_mode),
        ),
{
    if vars.temp.is_none() {
        return Err(EnvVarError::MissingTemp);
    }
    if vars.content.is_none() {
        return Err(EnvVarError::MissingContent);
    }
    if vars.host.is_none() {
        return Err(EnvVarError::InvalidHost);
    }
    match &vars.port {
        None => {
            return Err(EnvVarError::MissingPort);
        },
        Some(p) => {
            if parse_port(p.as_str()).is_none() {
                return Err(EnvVarError::InvalidPort);
            }
        },
    }
    if vars.log_level.is_none() {
        return Err(EnvVarError::MissingLogLevel);
    }
    if vars.label.is_none() {
        return Err(EnvVarError::MissingLabel);
    }
    match &vars.storage_mode {
        None => Err(EnvVarError::MissingStorageMode),
        Some(m) => {
            if eq_ignore_ascii_case(m.as_str(), "FS") || eq_ignore_ascii_case(m.as_str(), "REDIS") {
                Ok(())
            } else {
                Err(EnvVarError::InvalidStorageMode)
            }
        },
    }
}

} // verus!
