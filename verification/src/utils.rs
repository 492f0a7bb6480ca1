//! Human-readable rendering of durations, in the coarsest unit that still
//! tells the reader when something will happen.

use vstd::prelude::*;

verus! {

pub open spec fn spec_digit_char(d: int) -> char {
    if d == 0 {
        '0'
    } else if d == 1 {
        '1'
    } else if d == 2 {
        '2'
    } else if d == 3 {
        '3'
    } else if d == 4 {
        '4'
    } else if d == 5 {
        '5'
    } else if d == 6 {
        '6'
    } else if d == 7 {
        '7'
    } else if d == 8 {
        '8'
    } else {
        '9'
    }
}

/// The decimal digits of `n`, most significant first.
pub open spec fn spec_dec_digits(n: int) -> Seq<char>
    decreases n,
{
    if n < 10 {
        seq![spec_digit_char(n)]
    } else {
        spec_dec_digits(n / 10).push(spec_digit_char(n % 10))
    }
}

/// Milliseconds rounded to the nearest whole second, halves away from zero.
pub open spec fn spec_round_to_seconds(ms: int) -> int {
    if ms % 1000 >= 500 {
        ms / 1000 + 1
    } else {
        ms / 1000
    }
}

/// What the formatter prints for `ms` milliseconds: below one second the
/// millisecond count, then the rounded seconds, minutes with a seconds
/// remainder, and hours with a minutes remainder, zero remainders left out.
pub open spec fn spec_format_duration(ms: int) -> Seq<char> {
    if ms < 1000 {
        spec_dec_digits(ms) + "ms"@
    } else {
        let seconds = spec_round_to_seconds(ms);
        if seconds < 60 {
            spec_dec_digits(seconds) + "s"@
        } else {
            let minutes = seconds / 60;
            let rem_seconds = seconds % 60;
            if minutes < 60 {
                if rem_seconds == 0 {
                    spec_dec_digits(minutes) + "m"@
                } else {
                    spec_dec_digits(minutes) + "m "@ + spec_dec_digits(rem_seconds) + "s"@
                }
            } else {
                let hours = minutes / 60;
                let rem_minutes = minutes % 60;
                if rem_minutes == 0 {
                    spec_dec_digits(hours) + "h"@
                } else {
                    spec_dec_digits(hours) + "h "@ + spec_dec_digits(rem_minutes) + "m"@
                }
            }
        }
    }
}

fn digit_str(d: u64) -> (r: &'static str)
    requires
        d < 10,
    ensures
        r@ == seq![spec_digit_char(d as int)],
{
    if d == 0 {
        proof {
            reveal_strlit("0");
            assert("0"@ =~= seq!['0']);
        }
        "0"
    } else if d == 1 {
        proof {
            reveal_strlit("1");
            assert("1"@ =~= seq!['1']);
        }
        "1"
    } else if d == 2 {
        proof {
            reveal_strlit("2");
            assert("2"@ =~= seq!['2']);
        }
        "2"
    } else if d == 3 {
        proof {
            reveal_strlit("3");
            assert("3"@ =~= seq!['3']);
        }
        "3"
    } else if d == 4 {
        proof {
            reveal_strlit("4");
            assert("4"@ =~= seq!['4']);
        }
        "4"
    } else if d == 5 {
        proof {
            reveal_strlit("5");
            assert("5"@ =~= seq!['5']);
        }
        "5"
    } else if d == 6 {
        proof {
            reveal_strlit("6");
            assert("6"@ =~= seq!['6']);
        }
        "6"
    } else if d == 7 {
        proof {
            reveal_strlit("7");
            assert("7"@ =~= seq!['7']);
        }
        "7"
    } else if d == 8 {
        proof {
            reveal_strlit("8");
            assert("8"@ =~= seq!['8']);
        }
        "8"
    } else {
        proof {
            reveal_strlit("9");
            assert("9"@ =~= seq!['9']);
        }
        "9"
    }
}

/// Appends the decimal digits of `n` to `out`.
fn push_dec(n: u64, out: &mut String)
    ensures
        final(out)@ == old(out)@ + spec_dec_digits(n as int),
    decreases n,
{
    if n < 10 {
        out.append(digit_str(n));
        proof {
            assert(final(out)@ =~= old(out)@ + spec_dec_digits(n as int));
        }
    } else {
        push_dec(n / 10, out);
        out.append(digit_str(n % 10));
        proof {
            assert(spec_dec_digits((n / 10) as int).push(spec_digit_char((n % 10) as int))
                =~= spec_dec_digits((n / 10) as int) + seq![spec_digit_char((n % 10) as int)]);
            assert(final(out)@ =~= old(out)@ + spec_dec_digits(n as int));
        }
    }
}

/// Formats a span of `ms` milliseconds for a log line or a status message.
pub fn format_duration(ms: u64) -> (r: String)
    ensures
        r@ == spec_format_duration(ms as int),
{
    let mut out = String::new();
    if ms < 1000 {
        push_dec(ms, &mut out);
        out.append("ms");
        proof {
            assert(out@ =~= spec_format_duration(ms as int));
        }
        return out;
    }
    let mut seconds = ms / 1000;
    if ms % 1000 >= 500 {
        seconds = seconds + 1;
    }
    if seconds < 60 {
        push_dec(seconds, &mut out);
        out.append("s");
        proof {
            assert(out@ =~= spec_format_duration(ms as int));
        }
        return out;
    }
    let minutes = seconds / 60;
    let rem_seconds = seconds % 60;
    if minutes < 60 {
        push_dec(minutes, &mut out);
        if rem_seconds == 0 {
            out.append("m");
        } else {
            out.append("m ");
            push_dec(rem_seconds, &mut out);
            out.append("s");
        }
        proof {
            assert(out@ =~= spec_format_duration(ms as int));
        }
        return out;
    }
    let hours = minutes / 60;
    let rem_minutes = minutes % 60;
    push_dec(hours, &mut out);
    if rem_minutes == 0 {
        out.append("h");
    } else {
        out.append("h ");
        push_dec(rem_minutes, &mut out);
        out.append("m");
    }
    proof {
        assert(out@ =~= spec_format_duration(ms as int));
    }
    out
}

/// The whole milliseconds a `std::time::Duration` contains: a pure function
/// of the duration value alone.
pub uninterp spec fn duration_millis(d: std::time::Duration) -> u128;

/// Relies on `std::time::Duration::as_millis`: it returns the total number
/// of whole milliseconds contained by the duration, a pure accessor of the
/// value.
pub assume_specification[ std::time::Duration::as_millis ](d: &std::time::Duration) -> (r: u128)
    ensures
        r == duration_millis(*d),
;

/// Formats a `std::time::Duration` by its whole milliseconds. A duration of
/// more than `u64::MAX` milliseconds — over half a billion years — is shown
/// as that bound.
pub fn format_std_duration(duration: std::time::Duration) -> (r: String)
    ensures
        duration_millis(duration) <= u64::MAX ==> r@ == spec_format_duration(
            duration_millis(duration) as int,
        ),
        duration_millis(duration) > u64::MAX ==> r@ == spec_format_duration(u64::MAX as int),
{
    let ms128 = duration.as_millis();
    let ms: u64 = if ms128 > u64::MAX as u128 {
        u64::MAX
    } else {
        ms128 as u64
    };
    format_duration(ms)
}

} // verus!
