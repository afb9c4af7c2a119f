//! Time-based one-time passwords (RFC 6238): the counter is the number of whole time
//! steps since the Unix epoch, and a submitted code is checked against a window of
//! neighbouring steps.

use std::time::{Duration, SystemTime, SystemTimeError, UNIX_EPOCH};
use vstd::arithmetic::power::pow;
use vstd::prelude::*;

use crate::hotp::{hotp, hotp_code, MAX_DIGITS};

verus! {

#[verifier::external_type_specification]
#[verifier::external_body]
pub struct ExSystemTime(SystemTime);

#[verifier::external_type_specification]
#[verifier::external_body]
pub struct ExSystemTimeError(SystemTimeError);

/// Reads the system clock with `std::time::SystemTime::now`. Nothing is promised of the
/// value: it is whatever the clock says.
#[verifier::external_body]
fn clock_now() -> SystemTime {
    SystemTime::now()
}

/// `SystemTime::duration_since(UNIX_EPOCH)`: an error where the time lies before the
/// epoch. Nothing is promised of the duration, which is a property of the clock reading.
#[verifier::external_body]
fn since_unix_epoch(time: &SystemTime) -> Result<Duration, SystemTimeError> {
    time.duration_since(UNIX_EPOCH)
}

/// `Duration::as_secs`: the whole seconds of a duration, which Verus cannot see inside.
#[verifier::external_body]
fn whole_seconds(duration: &Duration) -> u64 {
    duration.as_secs()
}

/// The current Unix time in whole seconds, or `None` where the system clock reads a time
/// before the epoch.
pub fn current_unix_time() -> (now: Option<u64>) {
    let time = clock_now();
    match since_unix_epoch(&time) {
        Ok(elapsed) => Some(whole_seconds(&elapsed)),
        Err(_) => None,
    }
}

/// The TOTP value at a Unix time: the HOTP value at the number of whole time steps.
pub open spec fn totp_code(secret: Seq<u8>, unix_time: u64, time_step: u64, digits: nat) -> int {
    hotp_code(secret, (unix_time / time_step) as u64, digits)
}

/// The counter `offset` steps away from `counter`, taken modulo 2^64 as the wrapping
/// arithmetic of 64-bit counters gives it: one step before counter 0 is 2^64 - 1.
pub open spec fn window_counter(counter: u64, offset: int) -> u64 {
    ((counter + offset) % 0x1_0000_0000_0000_0000int) as u64
}


/// `code` is the TOTP value of one of the steps from `window` steps before the current
/// one to `window` steps after it.
pub open spec fn code_accepted(
    secret: Seq<u8>,
    code: int,
    unix_time: u64,
    time_step: u64,
    digits: nat,
    window: int,
) -> bool {
    exists|i: int|
        -window <= i <= window && #[trigger] hotp_code(
            secret,
            window_counter((unix_time / time_step) as u64, i),
            digits,
        ) == code
}

/// The TOTP value of `secret` at `unix_time`.
pub fn totp_at(secret: &[u8], unix_time: u64, time_step: u64, digits: u32) -> (code: u32)
    requires
        time_step > 0,
        digits <= MAX_DIGITS,
    ensures
        code == totp_code(secret@, unix_time, time_step, digits as nat),
        code < pow(10, digits as nat),
{
    let counter = unix_time / time_step;
    hotp(secret, counter, digits)
}

/// The TOTP value of `secret` now, or `None` where the clock reads a time before the epoch.
pub fn totp(secret: &[u8], time_step: u64, digits: u32) -> (code: Option<u32>)
    requires
        time_step > 0,
        digits <= MAX_DIGITS,
    ensures
        code matches Some(c) ==> c < pow(10, digits as nat) && exists|t: u64|
            c == totp_code(secret@, t, time_step, digits as nat),
{
    totp_from_reading(secret, current_unix_time(), time_step, digits)
}

/// The TOTP value for a reading of the clock: the value at that time, or `None` where the
/// clock gave no reading.
pub fn totp_from_reading(secret: &[u8], reading: Option<u64>, time_step: u64, digits: u32) -> (code:
    Option<u32>)
    requires
        time_step > 0,
        digits <= MAX_DIGITS,
    ensures
        reading is None ==> code is None,
        reading matches Some(t) ==> code matches Some(c) && c == totp_code(
            secret@,
            t,
            time_step,
            digits as nat,
        ) && c < pow(10, digits as nat),
{
    match reading {
        Some(now) => Some(totp_at(secret, now, time_step, digits)),
        None => None,
    }
}

proof fn lemma_window_counter(counter: u64, offset: int, t: int)
    requires
        t == counter + offset,
        -0x1_0000_0000_0000_0000int <= t < 0x2_0000_0000_0000_0000int,
    ensures
        t < 0 ==> window_counter(counter, offset) == t + 0x1_0000_0000_0000_0000int,
        0 <= t < 0x1_0000_0000_0000_0000int ==> window_counter(counter, offset) == t,
        t >= 0x1_0000_0000_0000_0000int ==> window_counter(counter, offset) == t
            - 0x1_0000_0000_0000_0000int,
{
    let m = 0x1_0000_0000_0000_0000int;
    if t < 0 {
        vstd::arithmetic::div_mod::lemma_mod_add_multiples_vanish(t, m);
        vstd::arithmetic::div_mod::lemma_small_mod((t + m) as nat, m as nat);
    } else if t < m {
        vstd::arithmetic::div_mod::lemma_small_mod(t as nat, m as nat);
    } else {
        vstd::arithmetic::div_mod::lemma_mod_sub_multiples_vanish(t, m);
        vstd::arithmetic::div_mod::lemma_small_mod((t - m) as nat, m as nat);
    }
}

/// Checks `code` against the TOTP values of the steps from `window` before the step of
/// `unix_time` to `window` after it, counters wrapping modulo 2^64.
pub fn verify_totp_at(
    secret: &[u8],
    code: u32,
    unix_time: u64,
    time_step: u64,
    digits: u32,
    window: i32,
) -> (ok: bool)
    requires
        time_step > 0,
        window != i32::MIN,
        window >= 0 ==> digits <= MAX_DIGITS,
    ensures
        ok == code_accepted(secret@, code as int, unix_time, time_step, digits as nat, window as int),
        window < 0 ==> !ok,
{
    if window < 0 {
        return false;
    }
    let counter: u64 = unix_time / time_step;
    let hi: i64 = window as i64;
    let mut i: i64 = -hi;
    while i <= hi
        invariant
            counter == unix_time / time_step,
            0 <= hi <= i32::MAX,
            hi == window,
            digits <= MAX_DIGITS,
            -hi <= i <= hi + 1,
            forall|j: int|
                -hi <= j < i ==> #[trigger] hotp_code(secret@, window_counter(counter, j), digits as nat)
                    != code,
        decreases hi + 1 - i,
    {
        let t: i128 = counter as i128 + i as i128;
        let test_counter: u64 = if t < 0 {
            (t + 0x1_0000_0000_0000_0000i128) as u64
        } else if t < 0x1_0000_0000_0000_0000i128 {
            t as u64
        } else {
            (t - 0x1_0000_0000_0000_0000i128) as u64
        };
        proof {
            lemma_window_counter(counter, i as int, t as int);
        }
        if hotp(secret, test_counter, digits) == code {
            assert(hotp_code(
                secret@,
                window_counter((unix_time / time_step) as u64, i as int),
                digits as nat,
            ) == code);
            return true;
        }
        i = i + 1;
    }
    false
}

/// `verify_totp_at` at the current time, or `None` where the clock reads a time before
/// the epoch.
pub fn verify_totp(secret: &[u8], code: u32, time_step: u64, digits: u32, window: i32) -> (ok:
    Option<bool>)
    requires
        time_step > 0,
        window != i32::MIN,
        window >= 0 ==> digits <= MAX_DIGITS,
    ensures
        ok matches Some(b) ==> exists|t: u64|
            b == code_accepted(secret@, code as int, t, time_step, digits as nat, window as int),
        window < 0 ==> ok != Some(true),
{
    verify_totp_from_reading(secret, code, current_unix_time(), time_step, digits, window)
}

/// `verify_totp_at` for a reading of the clock, or `None` where the clock gave no reading.
pub fn verify_totp_from_reading(
    secret: &[u8],
    code: u32,
    reading: Option<u64>,
    time_step: u64,
    digits: u32,
    window: i32,
) -> (ok: Option<bool>)
    requires
        time_step > 0,
        window != i32::MIN,
        window >= 0 ==> digits <= MAX_DIGITS,
    ensures
        reading is None ==> ok is None,
        reading matches Some(t) ==> ok == Some(
            code_accepted(secret@, code as int, t, time_step, digits as nat, window as int),
        ),
        window < 0 ==> ok != Some(true),
{
    match reading {
        Some(now) => Some(verify_totp_at(secret, code, now, time_step, digits, window)),
        None => None,
    }
}

/// Seconds until the TOTP value changes: the rest of the current time step.
pub fn seconds_until_next_code(unix_time: u64, time_step: u64) -> (left: u64)
    requires
        time_step > 0,
    ensures
        left == time_step - unix_time % time_step,
        1 <= left <= time_step,
        (unix_time + left) / (time_step as int) == unix_time / time_step + 1,
        (unix_time + left - 1) / (time_step as int) == unix_time / time_step,
{
    let left = time_step - unix_time % time_step;
    proof {
        let t = unix_time as int;
        let s = time_step as int;
        vstd::arithmetic::div_mod::lemma_fundamental_div_mod(t, s);
        let q = t / s;
        let r = t % s;
        assert(t + left == s * (q + 1)) by (nonlinear_arith)
            requires
                t == s * q + r,
                left == s - r,
        ;
        assert(t + left - 1 == s * q + (s - 1));
        vstd::arithmetic::div_mod::lemma_div_multiples_vanish(q + 1, s);
        vstd::arithmetic::div_mod::lemma_fundamental_div_mod_converse(t + left - 1, s, q, s - 1);
    }
    left
}

/// The TOTP value stays the same for every time inside one time step.
pub proof fn lemma_code_stable_within_step(
    secret: Seq<u8>,
    t1: u64,
    t2: u64,
    time_step: u64,
    digits: nat,
)
    requires
        time_step > 0,
        t1 / time_step == t2 / time_step,
    ensures
        totp_code(secret, t1, time_step, digits) == totp_code(secret, t2, time_step, digits),
{
}

/// A code generated at some time is accepted at a time whose step lies at most `window`
/// steps away (in either direction).
pub proof fn lemma_nearby_code_accepted(
    secret: Seq<u8>,
    generated_at: u64,
    checked_at: u64,
    time_step: u64,
    digits: nat,
    window: i32,
)
    requires
        time_step > 0,
        -window <= generated_at / time_step - checked_at / time_step <= window,
    ensures
        code_accepted(
            secret,
            totp_code(secret, generated_at, time_step, digits),
            checked_at,
            time_step,
            digits,
            window as int,
        ),
{
    let c = (checked_at / time_step) as u64;
    let g = (generated_at / time_step) as u64;
    let i = g - c;
    vstd::arithmetic::div_mod::lemma_small_mod(g as nat, 0x1_0000_0000_0000_0000nat);
    assert(window_counter(c, i) == g);
    assert(hotp_code(secret, window_counter(c, i), digits) == totp_code(
        secret,
        generated_at,
        time_step,
        digits,
    ));
}

/// The code of the current step is accepted by any window of zero or more steps.
pub proof fn lemma_current_code_accepted(
    secret: Seq<u8>,
    unix_time: u64,
    time_step: u64,
    digits: nat,
    window: i32,
)
    requires
        time_step > 0,
        window >= 0,
    ensures
        code_accepted(
            secret,
            totp_code(secret, unix_time, time_step, digits),
            unix_time,
            time_step,
            digits,
            window as int,
        ),
{
    lemma_nearby_code_accepted(secret, unix_time, unix_time, time_step, digits, window);
}

/// Widening the window never rejects a code that a narrower window accepts.
pub proof fn lemma_wider_window_accepts_more(
    secret: Seq<u8>,
    code: int,
    unix_time: u64,
    time_step: u64,
    digits: nat,
    narrow: int,
    wide: int,
)
    requires
        narrow <= wide,
        code_accepted(secret, code, unix_time, time_step, digits, narrow),
    ensures
        code_accepted(secret, code, unix_time, time_step, digits, wide),
{
    let i = choose|i: int|
        -narrow <= i <= narrow && #[trigger] hotp_code(
            secret,
            window_counter((unix_time / time_step) as u64, i),
            digits,
        ) == code;
    assert(hotp_code(secret, window_counter((unix_time / time_step) as u64, i), digits) == code);
}

} // verus!
