use vstd::prelude::*;

use crate::policy::{Fraction, ThresholdPolicy};

verus! {

/// An ASCII decimal digit.
pub open spec fn is_digit(c: u8) -> bool {
    48 <= c <= 57
}

pub open spec fn all_digits(t: Seq<u8>) -> bool {
    forall|i: int| 0 <= i < t.len() ==> is_digit(#[trigger] t[i])
}

/// The number that a string of decimal digits denotes.
pub open spec fn digits_value(t: Seq<u8>) -> nat
    decreases t.len(),
{
    if t.len() == 0 {
        0
    } else {
        digits_value(t.drop_last()) * 10 + (t.last() - 48) as nat
    }
}

/// Ten to the power `n`.
pub open spec fn pow10(n: nat) -> nat
    decreases n,
{
    if n == 0 {
        1
    } else {
        10 * pow10((n - 1) as nat)
    }
}

/// The text without one leading `+`, which an unsigned number may carry.
pub open spec fn unsigned_body(t: Seq<u8>) -> Seq<u8> {
    if t.len() > 0 && t[0] == 43u8 {
        t.drop_first()
    } else {
        t
    }
}

/// The text is an unsigned decimal number no larger than `limit`.
pub open spec fn is_unsigned_within(t: Seq<u8>, limit: nat) -> bool {
    let b = unsigned_body(t);
    b.len() > 0 && all_digits(b) && digits_value(b) <= limit
}

proof fn lemma_digits_value_prefix_grows(t: Seq<u8>, i: int)
    requires
        all_digits(t),
        0 <= i <= t.len(),
    ensures
        digits_value(t.take(i)) <= digits_value(t),
    decreases t.len() - i,
{
    if i < t.len() {
        lemma_digits_value_prefix_grows(t, i + 1);
        assert(t.take(i + 1).drop_last() =~= t.take(i));
    } else {
        assert(t.take(i) =~= t);
    }
}

/// Parses an unsigned decimal number with an optional leading `+`, as the
/// standard library's integer parsing reads it, bounded by `limit`.
pub fn parse_unsigned(text: &[u8], limit: u64) -> (r: Option<u64>)
    ensures
        r is Some <==> is_unsigned_within(text@, limit as nat),
        r matches Some(v) ==> v as nat == digits_value(unsigned_body(text@)),
{
    let ghost b = unsigned_body(text@);
    let start: usize = if text.len() > 0 && text[0] == 43u8 {
        1
    } else {
        0
    };
    assert(b =~= text@.skip(start as int));
    if start >= text.len() {
        return None;
    }
    let mut value: u64 = 0;
    let mut i: usize = start;
    while i < text.len()
        invariant
            start <= i <= text.len(),
            b =~= text@.skip(start as int),
            b == unsigned_body(text@),
            all_digits(b.take(i - start)),
            value as nat == digits_value(b.take(i - start)),
            value <= limit,
        decreases text.len() - i,
    {
        let c = text[i];
        assert(b.take(i - start + 1).drop_last() =~= b.take(i - start));
        assert(b[i - start] == c);
        if c < 48 || c > 57 {
            assert(!is_digit(b[i - start]));
            assert(!all_digits(b));
            return None;
        }
        let next: u128 = (value as u128) * 10 + ((c - 48) as u128);
        assert(all_digits(b.take(i - start + 1)));
        assert(b.take(i - start + 1).last() == c);
        assert(next as nat == digits_value(b.take(i - start + 1)));
        if next > limit as u128 {
            proof {
                if all_digits(b) {
                    lemma_digits_value_prefix_grows(b, i - start + 1);
                }
            }
            return None;
        }
        value = next as u64;
        i = i + 1;
    }
    assert(b.take(i - start) =~= b);
    Some(value)
}

/// `k` is the position of the first `.` in the text.
pub open spec fn first_dot_at(t: Seq<u8>, k: int) -> bool {
    &&& 0 <= k < t.len()
    &&& t[k] == 46u8
    &&& forall|j: int| 0 <= j < k ==> t[j] != 46u8
}

/// Where the whole part of a decimal ends: its first `.`, or its end.
pub open spec fn dot_index(t: Seq<u8>) -> int {
    if exists|k: int| first_dot_at(t, k) {
        choose|k: int| first_dot_at(t, k)
    } else {
        t.len() as int
    }
}

pub open spec fn whole_digits(t: Seq<u8>) -> Seq<u8> {
    t.take(dot_index(t))
}

pub open spec fn fraction_digits(t: Seq<u8>) -> Seq<u8> {
    if dot_index(t) < t.len() {
        t.skip(dot_index(t) + 1)
    } else {
        Seq::empty()
    }
}

/// The text is a decimal `[+]digits[.digits]` with at least one digit, whose
/// digits read as one integer fit in `u64` and whose fractional digits are at
/// most nineteen, so that the denominator fits in `u64` too.
pub open spec fn is_share_text(text: Seq<u8>) -> bool {
    let b = unsigned_body(text);
    let w = whole_digits(b);
    let f = fraction_digits(b);
    &&& all_digits(w)
    &&& all_digits(f)
    &&& w.len() + f.len() > 0
    &&& digits_value(w + f) <= u64::MAX
    &&& f.len() <= 19
}

/// The exact fraction that a decimal denotes: all its digits over ten to the
/// number of fractional digits.
pub open spec fn share_of(text: Seq<u8>) -> Fraction {
    let b = unsigned_body(text);
    Fraction {
        num: digits_value(whole_digits(b) + fraction_digits(b)) as u64,
        den: pow10(fraction_digits(b).len()) as u64,
    }
}

proof fn lemma_first_dot_unique(t: Seq<u8>, k: int)
    requires
        first_dot_at(t, k),
    ensures
        dot_index(t) == k,
{
    let c = choose|c: int| first_dot_at(t, c);
    assert(first_dot_at(t, c));
    if c < k {
        assert(t[c] != 46u8);
    } else if k < c {
        assert(t[k] != 46u8);
    }
}

proof fn lemma_pow10_step(n: nat)
    ensures
        pow10(n + 1) == 10 * pow10(n),
{
}

proof fn lemma_pow10_le(n: nat)
    requires
        n <= 18,
    ensures
        pow10(n) <= 1_000_000_000_000_000_000,
    decreases 18 - n,
{
    if n < 18 {
        lemma_pow10_le(n + 1);
        lemma_pow10_step(n);
    } else {
        reveal_with_fuel(pow10, 19);
    }
}

/// Parses a non-negative decimal such as `0.5` or `+.25` into the exact
/// fraction it denotes, without rounding.
pub fn parse_share(text: &[u8]) -> (r: Option<Fraction>)
    ensures
        r is Some <==> is_share_text(text@),
        r matches Some(f) ==> f == share_of(text@) && f.wf(),
{
    let ghost b = unsigned_body(text@);
    let start: usize = if text.len() > 0 && text[0] == 43u8 {
        1
    } else {
        0
    };
    assert(b =~= text@.skip(start as int));
    let mut k: usize = start;
    while k < text.len() && text[k] != 46u8
        invariant
            start <= k <= text.len(),
            b =~= text@.skip(start as int),
            forall|j: int| 0 <= j < k - start ==> b[j] != 46u8,
        decreases text.len() - k,
    {
        k = k + 1;
    }
    let ghost d = k - start;
    proof {
        if k < text.len() {
            assert(first_dot_at(b, d));
            lemma_first_dot_unique(b, d);
        } else {
            assert(!exists|c: int| first_dot_at(b, c));
        }
    }
    let mut digits: Vec<u8> = Vec::new();
    let mut i: usize = start;
    while i < k
        invariant
            start <= i <= k <= text.len(),
            b =~= text@.skip(start as int),
            digits@ =~= b.take(i - start),
        decreases k - i,
    {
        digits.push(text[i]);
        i = i + 1;
    }
    assert(digits@ =~= whole_digits(b));
    let mut frac_len: usize = 0;
    if k < text.len() {
        let mut j: usize = k + 1;
        while j < text.len()
            invariant
                k + 1 <= j <= text.len(),
                k < text.len(),
                d == k - start,
                b =~= text@.skip(start as int),
                digits@ =~= whole_digits(b) + text@.subrange(k + 1, j as int),
                frac_len == j - k - 1,
            decreases text.len() - j,
        {
            digits.push(text[j]);
            frac_len = frac_len + 1;
            j = j + 1;
        }
    }
    if k < text.len() {
        assert(fraction_digits(b) =~= text@.subrange(k + 1, text.len() as int));
    }
    assert(digits@ =~= whole_digits(b) + fraction_digits(b));
    assert(frac_len == fraction_digits(b).len());
    if frac_len > 19 || digits.len() == 0 || digits[0] == 43u8 {
        proof {
            if digits.len() > 0 && digits[0] == 43u8 {
                if whole_digits(b).len() > 0 {
                    assert(!is_digit(whole_digits(b)[0]));
                } else {
                    assert(!is_digit(fraction_digits(b)[0]));
                }
            }
        }
        return None;
    }
    assert(unsigned_body(digits@) == digits@);
    let parsed = parse_unsigned(digits.as_slice(), u64::MAX);
    proof {
        let w = whole_digits(b);
        let f = fraction_digits(b);
        if all_digits(w) && all_digits(f) {
            assert(all_digits(w + f)) by {
                assert forall|x: int| 0 <= x < (w + f).len() implies is_digit(#[trigger] (w + f)[x]) by {
                    if x < w.len() {
                        assert((w + f)[x] == w[x]);
                    } else {
                        assert((w + f)[x] == f[x - w.len()]);
                    }
                }
            }
        }
        if all_digits(w + f) {
            assert forall|x: int| 0 <= x < w.len() implies is_digit(#[trigger] w[x]) by {
                assert((w + f)[x] == w[x]);
            }
            assert forall|x: int| 0 <= x < f.len() implies is_digit(#[trigger] f[x]) by {
                assert((w + f)[x + w.len()] == f[x]);
            }
        }
    }
    match parsed {
        None => {
            assert(!is_share_text(text@));
            None
        },
        Some(num) => {
            let mut den: u64 = 1;
            let mut n: usize = 0;
            while n < frac_len
                invariant
                    n <= frac_len <= 19,
                    den as nat == pow10(n as nat),
                    den >= 1,
                decreases frac_len - n,
            {
                proof {
                    lemma_pow10_step(n as nat);
                    lemma_pow10_le(n as nat);
                }
                den = den * 10;
                n = n + 1;
            }
            Some(Fraction { num, den })
        },
    }
}

/// The polling period used when none is configured, in seconds.
pub const DEFAULT_UPDATE_INTERVAL_SECONDS: u64 = 10;

/// The absolute threshold used when none is configured.
pub const DEFAULT_MIN_PLAYERS: u32 = 1;

/// A startup configuration that cannot be used.
#[derive(Clone, Copy, Debug, PartialEq, Eq, Structural)]
pub enum ConfigError {
    InvalidUpdateInterval,
    MissingNamespace,
    MissingPdbName,
    InvalidMinPlayers,
    InvalidMinPlayersPercent,
    MissingServerHost,
    MissingServerPort,
    InvalidServerPort,
}

/// The configuration as read, before any check: `None` for an unset value.
pub struct RawSettings {
    pub update_interval: Option<Vec<u8>>,
    pub pod_namespace: Option<String>,
    pub pdb_name: Option<String>,
    pub min_players: Option<Vec<u8>>,
    pub min_players_percent: Option<Vec<u8>>,
    pub server_host: Option<String>,
    pub server_port: Option<Vec<u8>>,
}

/// A checked configuration, fixed for the life of the process.
pub struct Settings {
    pub update_interval_secs: u64,
    pub pod_namespace: String,
    pub pdb_name: String,
    pub policy: ThresholdPolicy,
    pub server_host: String,
    pub server_port: u16,
}

/// A value is set and is not an unsigned number within `limit`.
pub open spec fn bad_unsigned(t: Option<Vec<u8>>, limit: nat) -> bool {
    t matches Some(v) && !is_unsigned_within(v@, limit)
}

/// The first problem of a configuration, in the order the values are read.
pub open spec fn settings_error(raw: RawSettings) -> Option<ConfigError> {
    if bad_unsigned(raw.update_interval, u64::MAX as nat) {
        Some(ConfigError::InvalidUpdateInterval)
    } else if raw.pod_namespace is None {
        Some(ConfigError::MissingNamespace)
    } else if raw.pdb_name is None {
        Some(ConfigError::MissingPdbName)
    } else if bad_unsigned(raw.min_players, u32::MAX as nat) {
        Some(ConfigError::InvalidMinPlayers)
    } else if raw.min_players_percent matches Some(v) && !is_share_text(v@) {
        Some(ConfigError::InvalidMinPlayersPercent)
    } else if raw.server_host is None {
        Some(ConfigError::MissingServerHost)
    } else if raw.server_port is None {
        Some(ConfigError::MissingServerPort)
    } else if bad_unsigned(raw.server_port, u16::MAX as nat) {
        Some(ConfigError::InvalidServerPort)
    } else {
        None
    }
}

pub open spec fn unsigned_or(t: Option<Vec<u8>>, default: nat) -> nat {
    match t {
        Some(v) => digits_value(unsigned_body(v@)),
        None => default,
    }
}

pub open spec fn share_or_zero(t: Option<Vec<u8>>) -> Fraction {
    match t {
        Some(v) => share_of(v@),
        None => Fraction { num: 0, den: 1 },
    }
}

fn parse_or(text: &Option<Vec<u8>>, limit: u64, default: u64) -> (r: Option<u64>)
    requires
        default <= limit,
    ensures
        r is Some <==> !bad_unsigned(*text, limit as nat),
        r matches Some(v) ==> v as nat == unsigned_or(*text, default as nat) && v <= limit,
{
    match text {
        Some(t) => parse_unsigned(t.as_slice(), limit),
        None => Some(default),
    }
}

/// Checks a configuration: unset optional values take their defaults, a
/// missing required value or a value that does not parse is reported, the
/// first in reading order; a positive share overrides the minimum.
pub fn load_settings(raw: RawSettings) -> (r: Result<Settings, ConfigError>)
    ensures
        r is Err <==> settings_error(raw) is Some,
        r matches Err(e) ==> settings_error(raw) == Some(e),
        r matches Ok(s) ==> {
            &&& s.update_interval_secs == unsigned_or(
                raw.update_interval,
                DEFAULT_UPDATE_INTERVAL_SECONDS as nat,
            )
            &&& raw.pod_namespace matches Some(n) && s.pod_namespace@ == n@
            &&& raw.pdb_name matches Some(n) && s.pdb_name@ == n@
            &&& s.policy == ThresholdPolicy::from_config(
                unsigned_or(raw.min_players, DEFAULT_MIN_PLAYERS as nat) as u32,
                share_or_zero(raw.min_players_percent),
            )
            &&& s.policy.wf()
            &&& raw.server_host matches Some(h) && s.server_host@ == h@
            &&& s.server_port == unsigned_or(raw.server_port, 0)
        },
{
    let update_interval_secs = match parse_or(
        &raw.update_interval,
        u64::MAX,
        DEFAULT_UPDATE_INTERVAL_SECONDS,
    ) {
        Some(v) => v,
        None => return Err(ConfigError::InvalidUpdateInterval),
    };
    let pod_namespace = match raw.pod_namespace {
        Some(n) => n,
        None => return Err(ConfigError::MissingNamespace),
    };
    let pdb_name = match raw.pdb_name {
        Some(n) => n,
        None => return Err(ConfigError::MissingPdbName),
    };
    let min_players = match parse_or(&raw.min_players, u32::MAX as u64, DEFAULT_MIN_PLAYERS as u64) {
        Some(v) => v as u32,
        None => return Err(ConfigError::InvalidMinPlayers),
    };
    let share = match &raw.min_players_percent {
        Some(t) => match parse_share(t.as_slice()) {
            Some(f) => f,
            None => return Err(ConfigError::InvalidMinPlayersPercent),
        },
        None => Fraction::zero(),
    };
    let server_host = match raw.server_host {
        Some(h) => h,
        None => return Err(ConfigError::MissingServerHost),
    };
    if raw.server_port.is_none() {
        return Err(ConfigError::MissingServerPort);
    }
    let server_port = match parse_or(&raw.server_port, u16::MAX as u64, 0) {
        Some(v) => v as u16,
        None => return Err(ConfigError::InvalidServerPort),
    };
    let policy = ThresholdPolicy::new(min_players, share);
    Ok(
        Settings {
            update_interval_secs,
            pod_namespace,
            pdb_name,
            policy,
            server_host,
            server_port,
        },
    )
}

} // verus!
