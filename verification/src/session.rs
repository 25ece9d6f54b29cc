//! Signed, self-verifying session tokens.
//!
//! A token is the concatenation of a 60-character keyed tag, a 19-digit
//! decimal expiry (seconds), and the principal's username. The tag is the
//! keyed password hash of the rest of the token, computed with the same
//! primitive as stored credentials, so a token is tamper-evident: decoding
//! checks the tag before reading anything out of the payload. The server
//! keeps no session table; a token that fails the tag check, is malformed,
//! or has expired is indistinguishable from no session at all.

use vstd::prelude::*;

use crate::errors::AuthError;
use crate::models::SlimUser;
use crate::utils::{hash, hash_matches, parseable_hash, verify, AuthConfig};

verus! {

/// How long an issued session lives, in seconds.
pub const SESSION_TTL_SECONDS: u64 = 86400;

/// Number of decimal digits in the expiry field.
pub const EXPIRY_DIGITS: usize = 19;

/// Exclusive upper bound of an encodable expiry: ten to the nineteenth.
pub const EXPIRY_LIMIT: u64 = 10_000_000_000_000_000_000;

/// The decimal digit characters, as values.
pub open spec fn digit_val(c: char) -> int {
    if c == '0' {
        0
    } else if c == '1' {
        1
    } else if c == '2' {
        2
    } else if c == '3' {
        3
    } else if c == '4' {
        4
    } else if c == '5' {
        5
    } else if c == '6' {
        6
    } else if c == '7' {
        7
    } else if c == '8' {
        8
    } else if c == '9' {
        9
    } else {
        -1
    }
}

pub open spec fn is_digit(c: char) -> bool {
    digit_val(c) >= 0
}

pub open spec fn all_digits(s: Seq<char>) -> bool {
    forall|i: int| 0 <= i < s.len() ==> is_digit(#[trigger] s[i])
}

/// The digit character of a value, meaningful for values below ten.
pub open spec fn digit_char(d: int) -> char {
    if d == 0 {
        '0'
    } else if d == 1 {
        '1'
    } else if d == 2 {
        '2'
    } else if d == 3 {
        '3'
    } else if d == 4 {
        '4'
    } else if d == 5 {
        '5'
    } else if d == 6 {
        '6'
    } else if d == 7 {
        '7'
    } else if d == 8 {
        '8'
    } else {
        '9'
    }
}

pub open spec fn pow10(n: nat) -> nat
    decreases n,
{
    if n == 0 {
        1
    } else {
        10 * pow10((n - 1) as nat)
    }
}

/// The value of a digit string, most significant digit first.
pub open spec fn dec_value(s: Seq<char>) -> int
    decreases s.len(),
{
    if s.len() == 0 {
        0
    } else {
        dec_value(s.drop_last()) * 10 + digit_val(s.last())
    }
}

/// A value written as exactly `w` decimal digits, leading zeros included.
pub open spec fn fixed_dec(n: int, w: nat) -> Seq<char>
    decreases w,
{
    if w == 0 {
        Seq::empty()
    } else {
        fixed_dec(n / 10, (w - 1) as nat).push(digit_char(n % 10))
    }
}

proof fn lemma_pow10_19()
    ensures
        pow10(19) == 10_000_000_000_000_000_000,
{
    reveal_with_fuel(pow10, 20);
}

proof fn lemma_pow10_monotone(a: nat, b: nat)
    requires
        a <= b,
    ensures
        pow10(a) <= pow10(b),
    decreases b,
{
    if a < b {
        lemma_pow10_monotone(a, (b - 1) as nat);
    }
}

/// Writing a value in `w` digits and reading it back is the identity, for
/// values that fit in `w` digits.
proof fn lemma_fixed_dec_props(n: int, w: nat)
    requires
        0 <= n < pow10(w),
    ensures
        fixed_dec(n, w).len() == w,
        all_digits(fixed_dec(n, w)),
        dec_value(fixed_dec(n, w)) == n,
    decreases w,
{
    let s = fixed_dec(n, w);
    if w == 0 {
        assert(s =~= Seq::<char>::empty());
    } else {
        let q = n / 10;
        let r = n % 10;
        let prefix = fixed_dec(q, (w - 1) as nat);
        assert(0 <= q < pow10((w - 1) as nat)) by {
            assert(pow10(w) == 10 * pow10((w - 1) as nat));
        }
        lemma_fixed_dec_props(q, (w - 1) as nat);
        assert(s == prefix.push(digit_char(r)));
        assert(s.drop_last() =~= prefix);
        assert(s.last() == digit_char(r));
        assert(digit_val(digit_char(r)) == r);
        assert forall|i: int| 0 <= i < s.len() implies is_digit(#[trigger] s[i]) by {
            if i < w - 1 {
                assert(s[i] == prefix[i]);
            } else {
                assert(s[i] == digit_char(r));
            }
        }
        assert(dec_value(s) == q * 10 + r);
    }
}

/// Reading one more digit multiplies the prefix value by ten and adds it.
proof fn lemma_dec_value_extend(s: Seq<char>, i: int)
    requires
        0 <= i < s.len(),
    ensures
        dec_value(s.subrange(0, i + 1)) == dec_value(s.subrange(0, i)) * 10 + digit_val(s[i]),
{
    let t = s.subrange(0, i + 1);
    assert(t.drop_last() =~= s.subrange(0, i));
    assert(t.last() == s[i]);
}

fn digit_to_str(d: u64) -> (s: &'static str)
    requires
        d < 10,
    ensures
        s@ == seq![digit_char(d as int)],
{
    let s: &'static str = if d == 0 {
        "0"
    } else if d == 1 {
        "1"
    } else if d == 2 {
        "2"
    } else if d == 3 {
        "3"
    } else if d == 4 {
        "4"
    } else if d == 5 {
        "5"
    } else if d == 6 {
        "6"
    } else if d == 7 {
        "7"
    } else if d == 8 {
        "8"
    } else {
        "9"
    };
    proof {
        reveal_strlit("0");
        reveal_strlit("1");
        reveal_strlit("2");
        reveal_strlit("3");
        reveal_strlit("4");
        reveal_strlit("5");
        reveal_strlit("6");
        reveal_strlit("7");
        reveal_strlit("8");
        reveal_strlit("9");
        assert(s@ =~= seq![digit_char(d as int)]);
    }
    s
}

fn char_to_digit(c: char) -> (r: Option<u64>)
    ensures
        r is Some <==> is_digit(c),
        r matches Some(d) ==> d < 10 && d as int == digit_val(c),
{
    if c == '0' {
        Some(0)
    } else if c == '1' {
        Some(1)
    } else if c == '2' {
        Some(2)
    } else if c == '3' {
        Some(3)
    } else if c == '4' {
        Some(4)
    } else if c == '5' {
        Some(5)
    } else if c == '6' {
        Some(6)
    } else if c == '7' {
        Some(7)
    } else if c == '8' {
        Some(8)
    } else if c == '9' {
        Some(9)
    } else {
        None
    }
}

/// Writes `n` as exactly `w` decimal digits, leading zeros included.
fn format_fixed(n: u64, w: usize) -> (s: String)
    ensures
        s@ == fixed_dec(n as int, w as nat),
    decreases w,
{
    if w == 0 {
        let s = String::new();
        proof {
            assert(s@ =~= fixed_dec(n as int, 0));
        }
        s
    } else {
        let mut s = format_fixed(n / 10, w - 1);
        s.append(digit_to_str(n % 10));
        proof {
            assert((n / 10) as int == (n as int) / 10);
            assert((n % 10) as int == (n as int) % 10);
            assert(s@ =~= fixed_dec(n as int, w as nat));
        }
        s
    }
}

/// Reads a string as exactly `EXPIRY_DIGITS` decimal digits.
fn parse_fixed(s: &str) -> (r: Option<u64>)
    ensures
        r matches Some(e) ==> s@.len() == EXPIRY_DIGITS && all_digits(s@) && e as int == dec_value(
            s@,
        ),
        s@.len() == EXPIRY_DIGITS && all_digits(s@) ==> r is Some,
{
    let n = s.unicode_len();
    if n != EXPIRY_DIGITS {
        return None;
    }
    let mut acc: u64 = 0;
    let mut i: usize = 0;
    while i < n
        invariant
            n == s@.len(),
            n == EXPIRY_DIGITS,
            0 <= i <= n,
            forall|j: int| 0 <= j < i ==> is_digit(#[trigger] s@[j]),
            acc as int == dec_value(s@.subrange(0, i as int)),
            acc < pow10(i as nat),
        decreases n - i,
    {
        let c = s.get_char(i);
        match char_to_digit(c) {
            None => {
                return None;
            },
            Some(d) => {
                proof {
                    lemma_pow10_19();
                    lemma_pow10_monotone((i + 1) as nat, 19);
                    lemma_dec_value_extend(s@, i as int);
                    assert(pow10((i + 1) as nat) == 10 * pow10(i as nat));
                }
                acc = acc * 10 + d;
                i += 1;
            },
        }
    }
    proof {
        assert(s@.subrange(0, i as int) =~= s@);
    }
    Some(acc)
}

/// The keyed tag at the front of a token.
pub open spec fn token_tag(t: Seq<char>) -> Seq<char> {
    t.subrange(0, 60)
}

/// Everything the tag covers: the expiry field and the username.
pub open spec fn token_payload(t: Seq<char>) -> Seq<char> {
    t.subrange(60, t.len() as int)
}

/// The 19-digit expiry field.
pub open spec fn token_expiry_field(t: Seq<char>) -> Seq<char> {
    t.subrange(60, 79)
}

/// The username carried by a token.
pub open spec fn token_username(t: Seq<char>) -> Seq<char> {
    t.subrange(79, t.len() as int)
}

/// What `issue` guarantees of a token it returns: the expected layout, and
/// a tag that covers the whole payload under the given key.
pub open spec fn valid_token(t: Seq<char>, username: Seq<char>, expiry: u64, key: Seq<u8>) -> bool {
    &&& t.len() >= 79
    &&& expiry < EXPIRY_LIMIT
    &&& token_expiry_field(t) == fixed_dec(expiry as int, EXPIRY_DIGITS as nat)
    &&& token_username(t) == username
    &&& parseable_hash(token_tag(t))
    &&& hash_matches(token_payload(t), token_tag(t), key)
}

/// Exactly when `decode` accepts a token at time `now`: well-formed, the
/// tag verifies against the payload under the key, and it has not expired.
pub open spec fn accepted_token(t: Seq<char>, now: u64, key: Seq<u8>) -> bool {
    &&& t.len() >= 79
    &&& parseable_hash(token_tag(t))
    &&& hash_matches(token_payload(t), token_tag(t), key)
    &&& all_digits(token_expiry_field(t))
    &&& now as int <= dec_value(token_expiry_field(t))
}

/// Encodes the principal and an expiry into a signed token.
pub fn issue(user: &SlimUser, now: u64, config: &AuthConfig) -> (r: Result<String, AuthError>)
    requires
        config.wf(),
        now + SESSION_TTL_SECONDS < EXPIRY_LIMIT,
    ensures
        r is Ok,
        r matches Ok(t) ==> valid_token(
            t@,
            user.username@,
            (now + SESSION_TTL_SECONDS) as u64,
            config.secret@,
        ),
{
    let expiry: u64 = now + SESSION_TTL_SECONDS;
    let mut payload = format_fixed(expiry, EXPIRY_DIGITS);
    proof {
        lemma_pow10_19();
        lemma_fixed_dec_props(expiry as int, EXPIRY_DIGITS as nat);
    }
    payload.append(user.username.as_str());
    match hash(payload.as_str(), config.secret.as_slice(), config.cost) {
        Ok(tag) => {
            let token = tag.concat(payload.as_str());
            proof {
                assert(token@.subrange(0, 60) =~= tag@);
                assert(token@.subrange(60, token@.len() as int) =~= payload@);
                assert(token@.subrange(60, 79) =~= fixed_dec(expiry as int, 19));
                assert(token@.subrange(79, token@.len() as int) =~= user.username@);
            }
            Ok(token)
        },
        Err(e) => Err(e),
    }
}

/// Checks a token's tag and expiry, and only then reads the principal out
/// of it. The tag is verified before any of the payload is interpreted.
pub fn decode(token: &str, now: u64, config: &AuthConfig) -> (r: Result<SlimUser, AuthError>)
    ensures
        r is Ok <==> accepted_token(token@, now, config.secret@),
        r matches Ok(u) ==> u.username@ == token_username(token@),
        r matches Err(e) ==> e == AuthError::InvalidSession,
{
    let n = token.unicode_len();
    if n < 79 {
        return Err(AuthError::InvalidSession);
    }
    let tag = token.substring_char(0, 60);
    let payload = token.substring_char(60, n);
    let ok = match verify(tag, payload, config.secret.as_slice()) {
        Ok(b) => b,
        Err(_) => false,
    };
    if !ok {
        return Err(AuthError::InvalidSession);
    }
    let exp_field = token.substring_char(60, 79);
    let expiry = match parse_fixed(exp_field) {
        Some(e) => e,
        None => {
            return Err(AuthError::InvalidSession);
        },
    };
    if now > expiry {
        return Err(AuthError::InvalidSession);
    }
    let username = token.substring_char(79, n);
    Ok(SlimUser { username: username.to_owned() })
}

/// Session round trip, at the level of the token layout: a token issued for
/// a principal is accepted at every time up to its expiry, and carries that
/// principal's username.
pub proof fn lemma_issue_decode_round_trip(
    t: Seq<char>,
    username: Seq<char>,
    expiry: u64,
    now: u64,
    key: Seq<u8>,
)
    ensures
        valid_token(t, username, expiry, key) && now <= expiry ==> accepted_token(t, now, key)
            && token_username(t) == username,
{
    if valid_token(t, username, expiry, key) && now <= expiry {
        lemma_pow10_19();
        lemma_fixed_dec_props(expiry as int, EXPIRY_DIGITS as nat);
    }
}

/// Session round trip, end to end: issuing a token for a principal and
/// decoding it at any time up to its expiry yields that principal back.
/// Verus proves the result is `true` for every principal, key and pair of
/// times, from the contracts of `issue` and `decode` alone.
pub fn issue_decode_round_trip(
    user: &SlimUser,
    issued_at: u64,
    checked_at: u64,
    config: &AuthConfig,
) -> (r: bool)
    requires
        config.wf(),
        issued_at + SESSION_TTL_SECONDS < EXPIRY_LIMIT,
        checked_at <= issued_at + SESSION_TTL_SECONDS,
    ensures
        r,
{
    match issue(user, issued_at, config) {
        Ok(token) => {
            proof {
                lemma_issue_decode_round_trip(
                    token@,
                    user.username@,
                    (issued_at + SESSION_TTL_SECONDS) as u64,
                    checked_at,
                    config.secret@,
                );
            }
            match decode(token.as_str(), checked_at, config) {
                Ok(u) => u.username == user.username,
                Err(_) => false,
            }
        },
        Err(_) => false,
    }
}

} // verus!
