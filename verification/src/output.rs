//! Shared output formatting: sizes, counts, durations and status lines.
//!
//! Every formatter here is total and pure. The choice of color is an input:
//! deciding it reads the environment and the terminal, which the caller does.

use vstd::prelude::*;
use crate::clock::{current_instant, is_local_text, local_time_text};
use crate::places::home_dir_text;
use crate::types::{seconds_between, seconds_diff};
use crate::text::{
    char_len, decimal, digit_char, pad_left, push_char, push_decimal, push_padded_left, push_str,
    starts_with, str_eq, str_starts_with,
};
use vstd::string::StringExecFns;

verus! {

/// ANSI escape: green.
pub const GREEN: &'static str = "\x1b[32m";
/// ANSI escape: bold green.
pub const BOLD_GREEN: &'static str = "\x1b[1;32m";
/// ANSI escape: yellow.
pub const YELLOW: &'static str = "\x1b[33m";
/// ANSI escape: red.
pub const RED: &'static str = "\x1b[31m";
/// ANSI escape: bold red.
pub const BOLD_RED: &'static str = "\x1b[1;31m";
/// ANSI escape: cyan.
pub const CYAN: &'static str = "\x1b[36m";
/// ANSI escape: dim.
pub const DIM: &'static str = "\x1b[2m";
/// ANSI escape: bold.
pub const BOLD: &'static str = "\x1b[1m";
/// ANSI escape: reset all attributes.
pub const RESET: &'static str = "\x1b[0m";

/// Bytes in a kilobyte.
pub const KB: u64 = 1024;
/// Bytes in a megabyte.
pub const MB: u64 = 1048576;
/// Bytes in a gigabyte.
pub const GB: u64 = 1073741824;

/// Largest integer below which every integer is exactly an `f64` (2^53).
pub const F64_EXACT_LIMIT: u64 = 9007199254740992;

/// `a / b` rounded to the nearest integer, ties to the even neighbour.
pub open spec fn div_round_half_even(a: nat, b: nat) -> nat {
    let q = a / b;
    let r = a % b;
    if 2 * r > b || (2 * r == b && q % 2 == 1) {
        q + 1
    } else {
        q
    }
}

/// Spacing between neighbouring `f64` values around `n`.
pub open spec fn f64_step(n: nat) -> nat
    decreases n,
{
    if n < F64_EXACT_LIMIT {
        1
    } else {
        2 * f64_step(n / 2)
    }
}

/// The value that `n as f64` takes: `n` rounded to 53 significant bits,
/// ties to even.
pub open spec fn f64_value(n: nat) -> nat {
    div_round_half_even(n, f64_step(n)) * f64_step(n)
}

/// Tenths of `value / unit`, rounded as `format!("{:.1}")` rounds the exact
/// binary value: to nearest, ties to even.
pub open spec fn tenths(value: nat, unit: nat) -> nat {
    div_round_half_even(value * 10, unit)
}

/// `t` tenths written with one decimal place, e.g. 12 -> `1.2`.
pub open spec fn one_decimal(t: nat) -> Seq<char> {
    decimal(t / 10).push('.').push(digit_char((t % 10) as int))
}

/// Human-readable size of a byte count.
///
/// Below 1024 bytes the raw count is shown (`512 B`); otherwise the count is
/// shown in KB, MB or GB with one decimal place (`2.0 KB`).
pub open spec fn size_text(bytes: nat) -> Seq<char> {
    if bytes < KB {
        decimal(bytes) + " B"@
    } else if bytes < MB {
        one_decimal(tenths(f64_value(bytes), KB as nat)) + " KB"@
    } else if bytes < GB {
        one_decimal(tenths(f64_value(bytes), MB as nat)) + " MB"@
    } else {
        one_decimal(tenths(f64_value(bytes), GB as nat)) + " GB"@
    }
}

/// Digits grouped by threes with commas, counted from the right.
pub open spec fn group_thousands(d: Seq<char>) -> Seq<char>
    decreases d.len(),
{
    if d.len() <= 3 {
        d
    } else {
        group_thousands(d.subrange(0, d.len() - 3)).push(',') + d.subrange(
            d.len() - 3,
            d.len() as int,
        )
    }
}

/// The cargo-style status line: the verb right-aligned to 12 columns, two
/// spaces, then the subject; the verb bold green when colored.
pub open spec fn status_line(verb: Seq<char>, subject: Seq<char>, colored: bool) -> Seq<char> {
    if colored {
        BOLD_GREEN@ + pad_left(verb, 12) + RESET@ + "  "@ + subject
    } else {
        pad_left(verb, 12) + "  "@ + subject
    }
}

/// `""` for exactly one, `"s"` otherwise.
pub open spec fn plural_suffix(n: nat) -> Seq<char> {
    if n == 1 {
        Seq::empty()
    } else {
        "s"@
    }
}

/// A duration in the largest whole unit: `30 seconds`, `5 minutes`,
/// `1 hour`, `3 days`. Negative durations count as zero.
pub open spec fn duration_text(seconds: int) -> Seq<char> {
    let total: nat = if seconds < 0 {
        0
    } else {
        seconds as nat
    };
    if total < 60 {
        decimal(total) + " seconds"@
    } else if total < 3600 {
        decimal(total / 60) + " minute"@ + plural_suffix(total / 60)
    } else if total < 86400 {
        decimal(total / 3600) + " hour"@ + plural_suffix(total / 3600)
    } else {
        decimal(total / 86400) + " day"@ + plural_suffix(total / 86400)
    }
}

/// `f64_step` doubles with each halving above the exact limit.
proof fn lemma_f64_step_unfold(n: nat)
    requires
        n >= F64_EXACT_LIMIT,
    ensures
        f64_step(n) == 2 * f64_step(n / 2),
{
}

/// Above the exact limit the step is at most `n / 2^52`.
proof fn lemma_f64_step_bounds(n: nat)
    ensures
        1 <= f64_step(n),
        n >= F64_EXACT_LIMIT ==> f64_step(n) * (F64_EXACT_LIMIT / 2) <= n,
    decreases n,
{
    if n >= F64_EXACT_LIMIT {
        lemma_f64_step_bounds(n / 2);
        let s = f64_step(n / 2);
        if n / 2 < F64_EXACT_LIMIT {
            assert(s == 1);
        } else {
            assert(2 * (s * (F64_EXACT_LIMIT / 2)) <= n) by (nonlinear_arith)
                requires
                    s * (F64_EXACT_LIMIT / 2) <= n / 2,
            ;
        }
        assert(f64_step(n) * (F64_EXACT_LIMIT / 2) == 2 * (s * (F64_EXACT_LIMIT / 2)))
            by (nonlinear_arith)
            requires
                f64_step(n) == 2 * s,
        ;
    }
}

/// `a / b` rounded to the nearest integer, ties to the even neighbour.
fn div_round_half_even_u128(a: u128, b: u128) -> (r: u128)
    requires
        b > 0,
        b < 0x1_0000_0000_0000_0000_0000_0000,
        a < 0x1_0000_0000_0000_0000_0000_0000,
    ensures
        r == div_round_half_even(a as nat, b as nat),
        r <= a / b + 1,
{
    let q = a / b;
    let rem = a % b;
    if 2 * rem > b || (2 * rem == b && q % 2 == 1) {
        q + 1
    } else {
        q
    }
}

/// The value of `n as f64`, as an integer.
fn f64_value_of(n: u64) -> (r: u128)
    ensures
        r == f64_value(n as nat),
        r <= 0x1_0000_0000_0000_1000,
{
    let mut step: u128 = 1;
    let mut m: u64 = n;
    while m >= F64_EXACT_LIMIT
        invariant
            step >= 1,
            step < 4096,
            f64_step(n as nat) == step * f64_step(m as nat),
            (m as int) * (step as int) <= n as int,
        decreases m,
    {
        proof {
            lemma_f64_step_unfold(m as nat);
            let s2 = f64_step(m as nat / 2);
            assert(f64_step(n as nat) == (2 * step) * s2) by (nonlinear_arith)
                requires
                    f64_step(n as nat) == step * f64_step(m as nat),
                    f64_step(m as nat) == 2 * s2,
            ;
            assert(((m / 2) as int) * (2 * step as int) <= n as int) by (nonlinear_arith)
                requires
                    (m as int) * (step as int) <= n as int,
            ;
            assert(step < 2048) by (nonlinear_arith)
                requires
                    (m as int) * (step as int) <= n as int,
                    m >= F64_EXACT_LIMIT,
                    n < 0x1_0000_0000_0000_0000,
                    step >= 1,
            ;
        }
        m = m / 2;
        step = step * 2;
    }
    assert(f64_step(m as nat) == 1);
    assert(f64_step(n as nat) == step) by (nonlinear_arith)
        requires
            f64_step(n as nat) == step * f64_step(m as nat),
            f64_step(m as nat) == 1,
    ;
    let q = div_round_half_even_u128(n as u128, step);
    assert(q == div_round_half_even(n as nat, f64_step(n as nat)));
    proof {
        assert((n as u128 / step) * step <= n as u128) by (nonlinear_arith)
            requires
                step >= 1,
        ;
        assert(q * step <= 0x1_0000_0000_0000_1000) by (nonlinear_arith)
            requires
                q <= n as u128 / step + 1,
                (n as u128 / step) * step <= n as u128,
                step < 4096,
                step >= 1,
                (n as int) < 0x1_0000_0000_0000_0000,
        ;
    }
    q * step
}

/// Appends `t` tenths with one decimal place.
fn push_one_decimal(s: &mut String, t: u128)
    requires
        t < 0x1_0000_0000_0000_0000_0000,
    ensures
        final(s)@ == old(s)@ + one_decimal(t as nat),
{
    let whole: u128 = t / 10;
    let frac: u128 = t % 10;
    assert(whole <= t);
    push_decimal_wide(s, whole);
    push_char(s, '.');
    let c: char = (48u8 + (frac as u8)) as char;
    push_char(s, c);
    assert(final(s)@ =~= old(s)@ + one_decimal(t as nat));
}

/// Appends the decimal representation of a wide integer.
fn push_decimal_wide(s: &mut String, n: u128)
    ensures
        final(s)@ == old(s)@ + decimal(n as nat),
    decreases n,
{
    if n >= 10 {
        push_decimal_wide(s, n / 10);
    }
    let d: u8 = (n % 10) as u8;
    let c: char = (48u8 + d) as char;
    push_char(s, c);
    proof {
        if n >= 10 {
            assert(decimal(n as nat) == decimal((n / 10) as nat).push(
                digit_char((n % 10) as int),
            ));
        }
    }
}

/// Formats a byte count as a human-readable size: `512 B`, `2.0 KB`,
/// `5.0 MB`, `1.0 GB`.
pub fn format_size(bytes: u64) -> (r: String)
    ensures
        r@ == size_text(bytes as nat),
{
    let mut r = String::new();
    if bytes < KB {
        push_decimal(&mut r, bytes);
        push_str(&mut r, " B");
    } else {
        let value = f64_value_of(bytes);
        if bytes < MB {
            let t = div_round_half_even_u128(value * 10, KB as u128);
            push_one_decimal(&mut r, t);
            push_str(&mut r, " KB");
        } else if bytes < GB {
            let t = div_round_half_even_u128(value * 10, MB as u128);
            push_one_decimal(&mut r, t);
            push_str(&mut r, " MB");
        } else {
            let t = div_round_half_even_u128(value * 10, GB as u128);
            push_one_decimal(&mut r, t);
            push_str(&mut r, " GB");
        }
    }
    assert(r@ =~= size_text(bytes as nat));
    r
}

/// The last three digits of `n`, zero-padded.
proof fn lemma_decimal_split_thousands(n: nat)
    requires
        n >= 1000,
    ensures
        decimal(n) == decimal(n / 1000) + seq![
            digit_char(((n % 1000) / 100) as int),
            digit_char(((n % 100) / 10) as int),
            digit_char((n % 10) as int),
        ],
{
    assert((n / 10) / 10 == n / 100) by (nonlinear_arith);
    assert((n / 100) / 10 == n / 1000) by (nonlinear_arith);
    assert((n / 10) % 10 == (n % 100) / 10) by (nonlinear_arith);
    assert((n / 100) % 10 == (n % 1000) / 100) by (nonlinear_arith);
    assert(n / 10 >= 10 && n / 100 >= 10) by (nonlinear_arith)
        requires
            n >= 1000,
    ;
    assert(decimal(n) == decimal(n / 10).push(digit_char((n % 10) as int)));
    assert(decimal(n / 10) == decimal(n / 100).push(digit_char(((n / 10) % 10) as int)));
    assert(decimal(n / 100) == decimal(n / 1000).push(digit_char(((n / 100) % 10) as int)));
    assert(decimal(n) =~= decimal(n / 1000) + seq![
        digit_char(((n % 1000) / 100) as int),
        digit_char(((n % 100) / 10) as int),
        digit_char((n % 10) as int),
    ]);
}

/// Every decimal text has at least one digit.
pub proof fn lemma_decimal_nonempty(n: nat)
    ensures
        decimal(n).len() >= 1,
    decreases n,
{
    if n >= 10 {
        lemma_decimal_nonempty(n / 10);
    }
}

/// Appends `n` with comma thousands separators.
fn push_grouped(s: &mut String, n: u64)
    ensures
        final(s)@ == old(s)@ + group_thousands(decimal(n as nat)),
    decreases n,
{
    if n < 1000 {
        push_decimal(s, n);
        proof {
            reveal_with_fuel(decimal, 3);
            assert(decimal(n as nat).len() <= 3) by {
                if n >= 10 {
                    if n >= 100 {
                        assert(decimal(n as nat) == decimal((n / 10) as nat).push(
                            digit_char((n % 10) as int),
                        ));
                        assert(decimal((n / 10) as nat) == decimal((n / 100) as nat).push(
                            digit_char(((n / 10) % 10) as int),
                        ));
                        assert((n / 100) < 10);
                    }
                }
            }
        }
    } else {
        push_grouped(s, n / 1000);
        push_char(s, ',');
        let rest = n % 1000;
        let c0: char = (48u8 + ((rest / 100) as u8)) as char;
        let c1: char = (48u8 + (((rest % 100) / 10) as u8)) as char;
        let c2: char = (48u8 + ((rest % 10) as u8)) as char;
        push_char(s, c0);
        push_char(s, c1);
        push_char(s, c2);
        proof {
            let nn = n as nat;
            lemma_decimal_split_thousands(nn);
            lemma_decimal_nonempty(nn / 1000);
            assert((nn % 1000) % 100 == nn % 100) by (nonlinear_arith);
            assert((nn % 1000) % 10 == nn % 10) by (nonlinear_arith);
            let d = decimal(nn);
            let head = decimal(nn / 1000);
            assert(d.len() > 3);
            assert(d.subrange(0, d.len() - 3) =~= head);
            assert(final(s)@ =~= old(s)@ + group_thousands(d));
        }
    }
}

/// Formats a number with comma thousands separators: `1234567` ->
/// `1,234,567`.
pub fn format_number(n: u64) -> (r: String)
    ensures
        r@ == group_thousands(decimal(n as nat)),
{
    let mut r = String::new();
    push_grouped(&mut r, n);
    assert(r@ =~= group_thousands(decimal(n as nat)));
    r
}

/// Formats a cargo-style status prefix: the verb right-aligned to 12
/// characters, bold green when `colored`, then two spaces and the subject.
pub fn status_prefix(verb: &str, subject: &str, colored: bool) -> (r: String)
    ensures
        r@ == status_line(verb@, subject@, colored),
{
    let mut r = String::new();
    if colored {
        push_str(&mut r, BOLD_GREEN);
        push_padded_left(&mut r, verb, 12);
        push_str(&mut r, RESET);
    } else {
        push_padded_left(&mut r, verb, 12);
    }
    push_str(&mut r, "  ");
    push_str(&mut r, subject);
    assert(r@ =~= status_line(verb@, subject@, colored));
    r
}

/// Appends `unit` and its plural `s` unless `n` is one.
fn push_unit(s: &mut String, n: u64, unit: &str)
    ensures
        final(s)@ == old(s)@ + decimal(n as nat) + unit@ + plural_suffix(n as nat),
{
    push_decimal(s, n);
    push_str(s, unit);
    if n != 1 {
        push_str(s, "s");
    }
    assert(final(s)@ =~= old(s)@ + decimal(n as nat) + unit@ + plural_suffix(n as nat));
}

/// Formats a duration given in whole seconds in its largest whole unit:
/// `30 seconds`, `5 minutes`, `2 hours`, `3 days`.
pub fn format_duration(seconds: i64) -> (r: String)
    ensures
        r@ == duration_text(seconds as int),
{
    let total: u64 = if seconds < 0 {
        0
    } else {
        seconds as u64
    };
    let mut r = String::new();
    if total < 60 {
        push_decimal(&mut r, total);
        push_str(&mut r, " seconds");
    } else if total < 3600 {
        push_unit(&mut r, total / 60, " minute");
    } else if total < 86400 {
        push_unit(&mut r, total / 3600, " hour");
    } else {
        push_unit(&mut r, total / 86400, " day");
    }
    assert(r@ =~= duration_text(seconds as int));
    r
}

/// Formats a duration given in whole seconds as an "ago" phrase:
/// `30 seconds ago`, `1 minute ago`, `3 days ago`.
pub fn format_duration_ago(seconds: i64) -> (r: String)
    ensures
        r@ == duration_text(seconds as int) + " ago"@,
{
    let mut r = format_duration(seconds);
    push_str(&mut r, " ago");
    r
}

/// Compact time since an instant, given the whole seconds elapsed: `now`
/// under a minute, else `Nm ago`, `Nh ago` or `Nd ago` in the largest whole
/// unit. Negative durations count as zero.
pub open spec fn recency_text(seconds: int) -> Seq<char> {
    let total: nat = if seconds < 0 {
        0
    } else {
        seconds as nat
    };
    if total < 60 {
        "now"@
    } else if total < 3600 {
        decimal(total / 60) + "m ago"@
    } else if total < 86400 {
        decimal(total / 3600) + "h ago"@
    } else {
        decimal(total / 86400) + "d ago"@
    }
}

/// Compact time since an instant, given the whole seconds elapsed.
pub fn recency_after(seconds: i64) -> (r: String)
    ensures
        r@ == recency_text(seconds as int),
{
    let total: u64 = if seconds < 0 {
        0
    } else {
        seconds as u64
    };
    let mut r = String::new();
    if total < 60 {
        push_str(&mut r, "now");
    } else if total < 3600 {
        push_decimal(&mut r, total / 60);
        push_str(&mut r, "m ago");
    } else if total < 86400 {
        push_decimal(&mut r, total / 3600);
        push_str(&mut r, "h ago");
    } else {
        push_decimal(&mut r, total / 86400);
        push_str(&mut r, "d ago");
    }
    assert(r@ =~= recency_text(seconds as int));
    r
}

/// Compact time since the instant `utc_time` (nanoseconds since the epoch),
/// as of now: `now`, `3m ago`, `2h ago`, `4d ago`.
pub fn format_recency(utc_time: i64) -> (r: String)
    ensures
        exists|now: i64| r@ == recency_text(seconds_between(utc_time as int, now as int)),
{
    let now = current_instant();
    recency_after(seconds_diff(utc_time, now))
}

/// The local date of an instant as `Mon DD`, e.g. `Feb 12`.
pub fn format_short_date(utc_time: i64) -> (r: String)
    ensures
        is_local_text(r@, utc_time as int, "%b %d"@),
{
    local_time_text(utc_time, "%b %d")
}

/// A path with the home directory `home` written as `~`: the home directory
/// itself becomes `~`, a path inside it `~/...`; any other path is kept.
pub open spec fn shortened(path: Seq<char>, home: Option<Seq<char>>) -> Seq<char> {
    match home {
        Some(h) => if path == h {
            "~"@
        } else if starts_with(path, h + "/"@) {
            "~"@ + path.subrange(h.len() as int, path.len() as int)
        } else {
            path
        },
        None => path,
    }
}

/// A path with the given home directory written as `~`.
pub fn shorten_with_home(path: &str, home: Option<&str>) -> (r: String)
    ensures
        r@ == shortened(path@, match home {
            Some(h) => Some(h@),
            None => None,
        }),
{
    match home {
        None => String::from_str(path),
        Some(h) => {
            if str_eq(path, h) {
                return String::from_str("~");
            }
            let mut prefix = String::from_str(h);
            push_str(&mut prefix, "/");
            if str_starts_with(path, prefix.as_str()) {
                let n = char_len(path);
                let m = char_len(h);
                let mut r = String::from_str("~");
                push_str(&mut r, vstd::string::StrSliceExecFns::substring_char(path, m, n));
                r
            } else {
                String::from_str(path)
            }
        },
    }
}

/// A path with the user's home directory written as `~`.
pub fn shorten_home(path: &str) -> (r: String)
    ensures
        exists|home: Option<Seq<char>>| r@ == shortened(path@, home),
{
    match home_dir_text() {
        Some(h) => shorten_with_home(path, Some(h.as_str())),
        None => shorten_with_home(path, None),
    }
}

/// A session duration in compact form, given its whole seconds: `Xs` under a
/// minute, `Xm` under an hour, `Xh Ym` under a day, else `Xd Yh`. Negative
/// durations count as zero.
pub open spec fn session_duration_text(seconds: int) -> Seq<char> {
    let t: nat = if seconds < 0 {
        0
    } else {
        seconds as nat
    };
    if t < 60 {
        decimal(t) + "s"@
    } else if t < 3600 {
        decimal(t / 60) + "m"@
    } else if t < 86400 {
        decimal(t / 3600) + "h "@ + decimal((t % 3600) / 60) + "m"@
    } else {
        decimal(t / 86400) + "d "@ + decimal((t % 86400) / 3600) + "h"@
    }
}

/// A session duration, given in whole seconds, in compact form.
pub fn format_session_duration(seconds: i64) -> (r: String)
    ensures
        r@ == session_duration_text(seconds as int),
{
    let t: u64 = if seconds < 0 {
        0
    } else {
        seconds as u64
    };
    let mut r = String::new();
    if t < 60 {
        push_decimal(&mut r, t);
        push_str(&mut r, "s");
    } else if t < 3600 {
        push_decimal(&mut r, t / 60);
        push_str(&mut r, "m");
    } else if t < 86400 {
        push_decimal(&mut r, t / 3600);
        push_str(&mut r, "h ");
        push_decimal(&mut r, (t % 3600) / 60);
        push_str(&mut r, "m");
    } else {
        push_decimal(&mut r, t / 86400);
        push_str(&mut r, "d ");
        push_decimal(&mut r, (t % 86400) / 3600);
        push_str(&mut r, "h");
    }
    assert(r@ =~= session_duration_text(seconds as int));
    r
}

} // verus!
