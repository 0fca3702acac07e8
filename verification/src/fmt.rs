//! Text renderings of quantities: decimal numbers, durations and byte sizes.
use crate::text::{
    all_digits, digits_value, is_whitespace, parse_u64_spec, push_char, trim, trim_end, trim_start,
};
use crate::binary64::{
    f64_quotient, quotient_shift, quotient_significand, round_half_even, round_half_even_u128,
    u64_as_f64, u64_to_f64_exact,
};
use vstd::arithmetic::power2::*;
use std::time::Duration;
use vstd::prelude::*;

verus! {

/// Bytes in a (decimal) gigabyte.
pub const BYTES_PER_GB: u64 = 1_000_000_000;

/// The character of a decimal digit.
pub open spec fn digit_char(d: nat) -> char {
    if d == 0 {
        '0'
    } else if d == 1 {
        '1'
    } else if d == 2 {
        '2'
    } else if d == 3 {
        '3'
    } else if d == 4 {
        '4'
    } else if d == 5 {
        '5'
    } else if d == 6 {
        '6'
    } else if d == 7 {
        '7'
    } else if d == 8 {
        '8'
    } else {
        '9'
    }
}

/// The decimal rendering of a natural number, most significant digit first, without
/// leading zeros (zero is rendered as a single `0`).
pub open spec fn decimal(n: nat) -> Seq<char>
    decreases n,
{
    if n < 10 {
        seq![digit_char(n)]
    } else {
        decimal(n / 10).push(digit_char(n % 10))
    }
}

/// `n` tenths rendered with one decimal, as `{:.1}` renders `n / 10`.
pub open spec fn fixed1(n: nat) -> Seq<char> {
    decimal(n / 10).push('.').push(digit_char(n % 10))
}

/// `n` hundredths rendered with two decimals, as `{:.2}` renders `n / 100`.
pub open spec fn fixed2(n: nat) -> Seq<char> {
    decimal(n / 100).push('.').push(digit_char((n / 10) % 10)).push(digit_char(n % 10))
}

pub open spec fn gb_suffix() -> Seq<char> {
    seq![' ', 'G', 'B']
}

pub open spec fn tb_suffix() -> Seq<char> {
    seq![' ', 'T', 'B']
}

/// The label of a byte count: the count is converted to `f64` and divided by 10^9;
/// from 1000 up the quotient is divided by 1024 and shown with two decimals and the
/// unit `TB`, below that it is shown with one decimal and the unit `GB`.  Every step
/// is exact binary64 arithmetic (round to nearest, ties to even), and the decimals are
/// rounded from the exact binary value with ties to even.
pub open spec fn bytes_label(bytes: nat) -> Seq<char> {
    if bytes == 0 {
        fixed1(0) + gb_suffix()
    } else {
        let d = u64_as_f64(bytes);
        let p = quotient_shift(d, BYTES_PER_GB as nat);
        let m = quotient_significand(d, BYTES_PER_GB as nat);
        if m >= 1000 * pow2(p) {
            fixed2(round_half_even(m * 100, pow2(p + 10))) + tb_suffix()
        } else {
            fixed1(round_half_even(m * 10, pow2(p))) + gb_suffix()
        }
    }
}

fn digit(d: u64) -> (c: char)
    requires
        d < 10,
    ensures
        c == digit_char(d as nat),
{
    if d == 0 {
        '0'
    } else if d == 1 {
        '1'
    } else if d == 2 {
        '2'
    } else if d == 3 {
        '3'
    } else if d == 4 {
        '4'
    } else if d == 5 {
        '5'
    } else if d == 6 {
        '6'
    } else if d == 7 {
        '7'
    } else if d == 8 {
        '8'
    } else {
        '9'
    }
}

/// Renders `n` in decimal.
pub fn u64_to_decimal(n: u64) -> (res: String)
    ensures
        res@ == decimal(n as nat),
    decreases n,
{
    if n < 10 {
        let mut s = String::new();
        push_char(&mut s, digit(n));
        s
    } else {
        let mut s = u64_to_decimal(n / 10);
        push_char(&mut s, digit(n % 10));
        s
    }
}

fn push_three(s: &mut String, c0: char, c1: char, c2: char)
    ensures
        final(s)@ == old(s)@ + seq![c0, c1, c2],
{
    push_char(s, c0);
    push_char(s, c1);
    push_char(s, c2);
    assert(s@ == old(s)@ + seq![c0, c1, c2]);
}

fn fixed1_string(n: u64) -> (res: String)
    ensures
        res@ == fixed1(n as nat),
{
    let mut s = u64_to_decimal(n / 10);
    push_char(&mut s, '.');
    push_char(&mut s, digit(n % 10));
    s
}

fn fixed2_string(n: u64) -> (res: String)
    ensures
        res@ == fixed2(n as nat),
{
    let mut s = u64_to_decimal(n / 100);
    push_char(&mut s, '.');
    push_char(&mut s, digit((n / 10) % 10));
    push_char(&mut s, digit(n % 10));
    s
}

/// Renders a byte count in gigabytes (one decimal) or, from 1000 GB up, in terabytes
/// of 1024 GB (two decimals), exactly as the `f64` computation `bytes / 1e9` does.
pub fn format_bytes_to_gb(bytes: u64) -> (label: String)
    ensures
        label@ == bytes_label(bytes as nat),
{
    if bytes == 0 {
        let mut s = fixed1_string(0);
        push_three(&mut s, ' ', 'G', 'B');
        return s;
    }
    let d = u64_to_f64_exact(bytes);
    proof {
        lemma2_to64();
        lemma2_to64_rest();
        assert(d < 0x20_0000_0000_0000 * 1_000_000_000);
    }
    let (m, p, pw) = f64_quotient(d, BYTES_PER_GB as u128);
    proof {
        lemma_pow2_adds(p as nat, 10);
        lemma2_to64();
        lemma_pow2_pos(p as nat);
        assert(pw < 0x4000_0000_0000_0000_0000_0000) by {
            lemma_pow2_strictly_increases(p as nat, 94);
            lemma_pow2_adds(64, 30);
            lemma2_to64_rest();
        }
    }
    if m >= 1000 * pw {
        let n = round_half_even_u128(m * 100, pw * 1024);
        let mut s = fixed2_string(n as u64);
        push_three(&mut s, ' ', 'T', 'B');
        s
    } else {
        let n = round_half_even_u128(m * 10, pw);
        let mut s = fixed1_string(n as u64);
        push_three(&mut s, ' ', 'G', 'B');
        s
    }
}

/// The whole seconds of a duration, as `Duration::as_secs` returns them.
pub uninterp spec fn duration_secs(d: Duration) -> u64;

/// Calls `Duration::as_secs`. Trusted: the result is `duration_secs` of the duration;
/// how that relates to the duration's parts is not stated.
#[verifier::external_body]
fn duration_as_secs(d: &Duration) -> (secs: u64)
    ensures
        secs == duration_secs(*d),
{
    d.as_secs()
}

/// Hours and remaining minutes of `seconds` (`"{h}h {m}m"`), or minutes alone
/// (`"{m}m"`) below an hour.
pub open spec fn duration_label(seconds: nat) -> Seq<char> {
    let hours = seconds / 3600;
    let minutes = (seconds % 3600) / 60;
    if hours > 0 {
        decimal(hours) + "h "@ + decimal(minutes) + "m"@
    } else {
        decimal(minutes) + "m"@
    }
}

/// Renders a number of seconds as hours and minutes, or as minutes below an hour.
pub fn format_duration_secs(seconds: u64) -> (label: String)
    ensures
        label@ == duration_label(seconds as nat),
{
    let hours = seconds / 3600;
    let minutes = (seconds % 3600) / 60;
    if hours > 0 {
        let mut s = u64_to_decimal(hours);
        s.append("h ");
        s.append(u64_to_decimal(minutes).as_str());
        s.append("m");
        s
    } else {
        let mut s = u64_to_decimal(minutes);
        s.append("m");
        s
    }
}

/// Renders a duration as hours and minutes, or as minutes below an hour.
pub fn format_duration(duration: Duration) -> (label: String)
    ensures
        label@ == duration_label(duration_secs(duration) as nat),
{
    let seconds = duration_as_secs(&duration);
    format_duration_secs(seconds)
}

/// The running time shown in the status bar: seconds below a minute, minutes and
/// seconds below an hour, hours and minutes from then on.
pub open spec fn status_uptime_label(seconds: nat) -> Seq<char> {
    if seconds < 60 {
        decimal(seconds) + "s"@
    } else if seconds < 3600 {
        decimal(seconds / 60) + "m "@ + decimal(seconds % 60) + "s"@
    } else {
        decimal(seconds / 3600) + "h "@ + decimal((seconds % 3600) / 60) + "m"@
    }
}

/// Renders the running time for the status bar.
pub fn format_status_uptime(seconds: u64) -> (label: String)
    ensures
        label@ == status_uptime_label(seconds as nat),
{
    if seconds < 60 {
        let mut s = u64_to_decimal(seconds);
        s.append("s");
        s
    } else if seconds < 3600 {
        let mut s = u64_to_decimal(seconds / 60);
        s.append("m ");
        s.append(u64_to_decimal(seconds % 60).as_str());
        s.append("s");
        s
    } else {
        let mut s = u64_to_decimal(seconds / 3600);
        s.append("h ");
        s.append(u64_to_decimal((seconds % 3600) / 60).as_str());
        s.append("m");
        s
    }
}

/// The running time shown under the title: seconds below a minute, whole minutes
/// below an hour, hours and minutes from then on, followed by ` uptime`.
pub open spec fn header_uptime_label(seconds: nat) -> Seq<char> {
    if seconds < 60 {
        decimal(seconds) + "s uptime"@
    } else if seconds < 3600 {
        decimal(seconds / 60) + "m uptime"@
    } else {
        decimal(seconds / 3600) + "h "@ + decimal((seconds % 3600) / 60) + "m uptime"@
    }
}

/// Renders the running time for the header.
pub fn format_header_uptime(seconds: u64) -> (label: String)
    ensures
        label@ == header_uptime_label(seconds as nat),
{
    if seconds < 60 {
        let mut s = u64_to_decimal(seconds);
        s.append("s uptime");
        s
    } else if seconds < 3600 {
        let mut s = u64_to_decimal(seconds / 60);
        s.append("m uptime");
        s
    } else {
        let mut s = u64_to_decimal(seconds / 3600);
        s.append("h ");
        s.append(u64_to_decimal((seconds % 3600) / 60).as_str());
        s.append("m uptime");
        s
    }
}

proof fn lemma_digit_char(k: nat)
    requires
        k < 10,
    ensures
        (digit_char(k) as u32) - 48 == k,
        crate::text::is_digit(digit_char(k)),
        digit_char(k) != '+',
        !is_whitespace(digit_char(k)),
{
}

proof fn lemma_decimal_digits(n: nat)
    ensures
        decimal(n).len() > 0,
        all_digits(decimal(n)),
        digits_value(decimal(n)) == n,
        decimal(n)[0] != '+',
        !is_whitespace(decimal(n)[0]),
        !is_whitespace(decimal(n).last()),
    decreases n,
{
    lemma_digit_char(n % 10);
    if n >= 10 {
        lemma_decimal_digits(n / 10);
        let d = decimal(n);
        assert(d.last() == digit_char(n % 10));
        assert(n == (n / 10) * 10 + n % 10);
        assert(d.drop_last() =~= decimal(n / 10));
        assert forall|i: int| 0 <= i < d.len() implies crate::text::is_digit(#[trigger] d[i]) by {
            if i < d.len() - 1 {
                assert(d[i] == decimal(n / 10)[i]);
            }
        }
        assert(d[0] == decimal(n / 10)[0]);
        assert(digits_value(d) == digits_value(d.drop_last()) * 10 + ((d.last() as u32) - 48) as nat);
        assert(digits_value(d.drop_last()) == n / 10);
        assert(((d.last() as u32) - 48) as nat == n % 10);
    } else {
        lemma_digit_char(n);
        let d = decimal(n);
        assert(d.drop_last() =~= Seq::<char>::empty());
        assert(digits_value(d) == digits_value(d.drop_last()) * 10 + ((d.last() as u32) - 48) as nat);
    }
}

/// Reading back the decimal rendering of a number gives the number: what
/// `u64_to_decimal` writes, `parse_trimmed_u64` reads.
pub proof fn law_decimal_reads_back(n: u64)
    ensures
        parse_u64_spec(trim(decimal(n as nat))) == Some(n),
{
    lemma_decimal_digits(n as nat);
    let d = decimal(n as nat);
    assert(trim_start(d) == d);
    assert(trim_end(d) == d);
}

/// The status-bar uptime shows the whole seconds below a minute, the whole minutes and
/// the seconds past them below an hour, and from an hour on the whole hours and the
/// whole minutes past the last full hour.
pub proof fn law_status_uptime_parts(seconds: nat)
    ensures
        seconds < 60 ==> status_uptime_label(seconds) == decimal(seconds) + "s"@,
        60 <= seconds < 3600 ==> exists|m: nat, r: nat|
            #![trigger decimal(m), decimal(r)]
            m * 60 + r == seconds && r < 60 && status_uptime_label(seconds) == decimal(m) + "m "@
                + decimal(r) + "s"@,
        seconds >= 3600 ==> exists|h: nat, m: nat|
            #![trigger decimal(h), decimal(m)]
            h * 3600 + m * 60 <= seconds < h * 3600 + m * 60 + 60 && m < 60
                && status_uptime_label(seconds) == decimal(h) + "h "@ + decimal(m) + "m"@,
{
    let h = seconds / 3600;
    let m = (seconds % 3600) / 60;
    if 60 <= seconds < 3600 {
        let mm = seconds / 60;
        let r = seconds % 60;
        assert(mm * 60 + r == seconds && r < 60 && status_uptime_label(seconds) == decimal(mm)
            + "m "@ + decimal(r) + "s"@);
    }
    if seconds >= 3600 {
        assert(h * 3600 + m * 60 <= seconds < h * 3600 + m * 60 + 60 && m < 60
            && status_uptime_label(seconds) == decimal(h) + "h "@ + decimal(m) + "m"@);
    }
}

/// The header uptime shows the whole seconds below a minute, the whole minutes below
/// an hour, and from an hour on the whole hours and the whole minutes past the last
/// full hour, followed by ` uptime`.
pub proof fn law_header_uptime_parts(seconds: nat)
    ensures
        seconds < 60 ==> header_uptime_label(seconds) == decimal(seconds) + "s uptime"@,
        60 <= seconds < 3600 ==> exists|m: nat|
            #![trigger decimal(m)]
            m * 60 <= seconds < m * 60 + 60 && header_uptime_label(seconds) == decimal(m)
                + "m uptime"@,
        seconds >= 3600 ==> exists|h: nat, m: nat|
            #![trigger decimal(h), decimal(m)]
            h * 3600 + m * 60 <= seconds < h * 3600 + m * 60 + 60 && m < 60
                && header_uptime_label(seconds) == decimal(h) + "h "@ + decimal(m) + "m uptime"@,
{
    let h = seconds / 3600;
    let m = (seconds % 3600) / 60;
    if 60 <= seconds < 3600 {
        let mm = seconds / 60;
        assert(mm * 60 <= seconds < mm * 60 + 60 && header_uptime_label(seconds) == decimal(mm)
            + "m uptime"@);
    }
    if seconds >= 3600 {
        assert(h * 3600 + m * 60 <= seconds < h * 3600 + m * 60 + 60 && m < 60
            && header_uptime_label(seconds) == decimal(h) + "h "@ + decimal(m) + "m uptime"@);
    }
}

/// A duration (battery time) shows the whole minutes below an hour, and from an hour
/// on the whole hours and the whole minutes past the last full hour.
pub proof fn law_duration_parts(seconds: nat)
    ensures
        seconds < 3600 ==> exists|m: nat|
            #![trigger decimal(m)]
            m * 60 <= seconds < m * 60 + 60 && duration_label(seconds) == decimal(m) + "m"@,
        seconds >= 3600 ==> exists|h: nat, m: nat|
            #![trigger decimal(h), decimal(m)]
            h >= 1 && h * 3600 + m * 60 <= seconds < h * 3600 + m * 60 + 60 && m < 60
                && duration_label(seconds) == decimal(h) + "h "@ + decimal(m) + "m"@,
{
    let h = seconds / 3600;
    let m = (seconds % 3600) / 60;
    if seconds < 3600 {
        assert(m * 60 <= seconds < m * 60 + 60 && duration_label(seconds) == decimal(m) + "m"@);
    } else {
        assert(h >= 1 && h * 3600 + m * 60 <= seconds < h * 3600 + m * 60 + 60 && m < 60
            && duration_label(seconds) == decimal(h) + "h "@ + decimal(m) + "m"@);
    }
}

} // verus!
