//! The daily publication time and its parsing from "HH:MM" text.

use vstd::prelude::*;

verus! {

/// The provider publishes the next day's prices once a day at this local
/// wall-clock time.
#[derive(Clone, Copy, PartialEq, Eq, Structural, Debug)]
pub struct UpdateTime {
    pub hour: u8,
    pub minute: u8,
}

/// The publication time assumed when none is configured.
pub const DEFAULT_UPDATE_HOUR: u8 = 13;

/// The publication minute assumed when none is configured.
pub const DEFAULT_UPDATE_MINUTE: u8 = 0;

impl UpdateTime {
    pub open spec fn wf(self) -> bool {
        self.hour < 24 && self.minute < 60
    }

    pub fn hour(&self) -> (r: u8)
        ensures
            r == self.hour,
    {
        self.hour
    }

    pub fn minute(&self) -> (r: u8)
        ensures
            r == self.minute,
    {
        self.minute
    }
}

/// A malformed "HH:MM" configuration value; fatal at startup, never
/// recovered from later.
#[derive(Clone, Copy, PartialEq, Eq, Structural, Debug)]
pub enum ScheduleError {
    /// Not exactly one ':' separating two fields.
    InvalidFormat,
    /// The hour field is not a number below 24.
    InvalidHour,
    /// The minute field is not a number below 60.
    InvalidMinute,
}

pub open spec fn spec_is_digit(c: char) -> bool {
    48 <= c as u32 && c as u32 <= 57
}

pub open spec fn spec_digit_val(c: char) -> int {
    c as u32 - 48
}

pub open spec fn spec_all_digits(s: Seq<char>) -> bool {
    forall|i: int| 0 <= i < s.len() ==> spec_is_digit(s[i])
}

/// The number the digit string denotes, most significant digit first.
pub open spec fn spec_digits_val(s: Seq<char>) -> int
    decreases s.len(),
{
    if s.len() == 0 {
        0
    } else {
        spec_digits_val(s.drop_last()) * 10 + spec_digit_val(s.last())
    }
}

/// The digits of a numeric field, with an optional leading '+' removed —
/// the sign an unsigned decimal parse accepts.
pub open spec fn spec_field_body(f: Seq<char>) -> Seq<char> {
    if f.len() > 0 && f[0] == '+' {
        f.subrange(1, f.len() as int)
    } else {
        f
    }
}

/// The field is a well-formed unsigned decimal number.
pub open spec fn spec_field_ok(f: Seq<char>) -> bool {
    spec_field_body(f).len() > 0 && spec_all_digits(spec_field_body(f))
}

/// The field is a well-formed number strictly below `bound`.
pub open spec fn spec_field_in_range(f: Seq<char>, bound: int) -> bool {
    spec_field_ok(f) && spec_digits_val(spec_field_body(f)) < bound
}

/// `p` is the position of the one and only ':' in `s`.
pub open spec fn spec_is_the_colon(s: Seq<char>, p: int) -> bool {
    0 <= p < s.len() && s[p] == ':' && (forall|k: int|
        0 <= k < s.len() && k != p ==> s[k] != ':')
}

pub open spec fn spec_single_colon(s: Seq<char>) -> bool {
    exists|p: int| spec_is_the_colon(s, p)
}

/// What parsing an update-time string yields: the default time for the
/// empty string; otherwise two in-range numeric fields around a single ':',
/// each failure named after the first field that breaks.
pub open spec fn spec_parse_update_time(s: Seq<char>) -> Result<UpdateTime, ScheduleError> {
    if s.len() == 0 {
        Ok(UpdateTime { hour: DEFAULT_UPDATE_HOUR, minute: DEFAULT_UPDATE_MINUTE })
    } else if !spec_single_colon(s) {
        Err(ScheduleError::InvalidFormat)
    } else {
        let p = choose|p: int| spec_is_the_colon(s, p);
        let h = s.subrange(0, p);
        let m = s.subrange(p + 1, s.len() as int);
        if !spec_field_in_range(h, 24) {
            Err(ScheduleError::InvalidHour)
        } else if !spec_field_in_range(m, 60) {
            Err(ScheduleError::InvalidMinute)
        } else {
            Ok(
                UpdateTime {
                    hour: spec_digits_val(spec_field_body(h)) as u8,
                    minute: spec_digits_val(spec_field_body(m)) as u8,
                },
            )
        }
    }
}

proof fn lemma_digits_val_nonneg(s: Seq<char>)
    requires
        spec_all_digits(s),
    ensures
        spec_digits_val(s) >= 0,
    decreases s.len(),
{
    if s.len() > 0 {
        assert(spec_all_digits(s.drop_last()));
        lemma_digits_val_nonneg(s.drop_last());
    }
}

/// Parses the digits of `time_str` between `from` and `to` as an unsigned
/// decimal field, saturating the value at 100 — enough to decide any bound
/// the schedule uses.
fn parse_field_clamped(time_str: &str, from: usize, to: usize) -> (r: Option<u64>)
    requires
        from <= to <= time_str@.len(),
    ensures
        ({
            let f = time_str@.subrange(from as int, to as int);
            &&& (r is Some <==> spec_field_ok(f))
            &&& (spec_field_ok(f) ==> {
                let v = spec_digits_val(spec_field_body(f));
                v >= 0 && r == Some(if v < 100 { v as u64 } else { 100u64 })
            })
        }),
{
    let ghost f = time_str@.subrange(from as int, to as int);
    let mut idx = from;
    if idx < to && time_str.get_char(idx) == '+' {
        idx = idx + 1;
    }
    let ghost body = time_str@.subrange(idx as int, to as int);
    proof {
        assert(body =~= spec_field_body(f));
    }
    if idx >= to {
        proof {
            assert(!spec_field_ok(f));
        }
        return None;
    }
    let mut acc: u64 = 0;
    let mut j = idx;
    while j < to
        invariant
            idx <= j <= to <= time_str@.len(),
            body == time_str@.subrange(idx as int, to as int),
            body == spec_field_body(f),
            f == time_str@.subrange(from as int, to as int),
            forall|k: int| idx <= k < j ==> spec_is_digit(time_str@[k]),
            acc <= 100,
            ({
                let pv = spec_digits_val(time_str@.subrange(idx as int, j as int));
                &&& (pv < 100 ==> acc == pv)
                &&& (pv >= 100 ==> acc == 100)
            }),
        decreases to - j,
    {
        let c = time_str.get_char(j);
        let u = c as u32;
        if u < 48 || u > 57 {
            proof {
                assert(body[j - idx] == time_str@[j as int]);
                assert(!spec_all_digits(body));
            }
            return None;
        }
        let d: u64 = (u - 48) as u64;
        proof {
            let prev = time_str@.subrange(idx as int, j as int);
            let cur = time_str@.subrange(idx as int, j + 1);
            assert(cur.drop_last() =~= prev);
            assert(cur.last() == time_str@[j as int]);
            assert(spec_all_digits(prev));
            lemma_digits_val_nonneg(prev);
        }
        let newv = acc * 10 + d;
        if newv > 100 {
            acc = 100;
        } else {
            acc = newv;
        }
        j = j + 1;
    }
    proof {
        assert(time_str@.subrange(idx as int, j as int) =~= body);
        assert(spec_field_ok(f));
        lemma_digits_val_nonneg(body);
    }
    Some(acc)
}

impl crate::pricing::PricePoints {
    /// Parses the configured daily publication time from "HH:MM" text; the
    /// empty string selects the default. Each malformed input is rejected
    /// with the error naming the first field that breaks.
    pub fn parse_update_time(time_str: &str) -> (r: Result<UpdateTime, ScheduleError>)
        ensures
            r == spec_parse_update_time(time_str@),
    {
        let n = time_str.unicode_len();
        if n == 0 {
            return Ok(UpdateTime { hour: DEFAULT_UPDATE_HOUR, minute: DEFAULT_UPDATE_MINUTE });
        }
        let mut count: usize = 0;
        let mut first: usize = 0;
        let mut second: usize = 0;
        let mut i: usize = 0;
        while i < n
            invariant
                i <= n,
                n == time_str@.len(),
                count <= i,
                count == 0 ==> forall|k: int| 0 <= k < i ==> time_str@[k] != ':',
                count >= 1 ==> first < i && time_str@[first as int] == ':',
                count == 1 ==> forall|k: int|
                    0 <= k < i && k != first ==> time_str@[k] != ':',
                count >= 2 ==> second < i && second != first && time_str@[second as int] == ':',
            decreases n - i,
        {
            let c = time_str.get_char(i);
            if c == ':' {
                if count == 0 {
                    first = i;
                } else if count == 1 {
                    second = i;
                }
                count = count + 1;
            }
            i = i + 1;
        }
        if count == 0 {
            proof {
                assert(forall|p: int| !spec_is_the_colon(time_str@, p));
            }
            return Err(ScheduleError::InvalidFormat);
        }
        if count >= 2 {
            proof {
                assert forall|p: int| !spec_is_the_colon(time_str@, p) by {
                    if 0 <= p < time_str@.len() {
                        if p != first as int {
                            assert(time_str@[first as int] == ':');
                        } else {
                            assert(time_str@[second as int] == ':');
                        }
                    }
                }
            }
            return Err(ScheduleError::InvalidFormat);
        }
        proof {
            assert(spec_is_the_colon(time_str@, first as int));
            let p = choose|p: int| spec_is_the_colon(time_str@, p);
            assert(time_str@[p] == ':');
            assert(p == first as int);
        }
        let hour_val = parse_field_clamped(time_str, 0, first);
        let hour_num = match hour_val {
            Some(v) => v,
            None => {
                return Err(ScheduleError::InvalidHour);
            },
        };
        if hour_num >= 24 {
            return Err(ScheduleError::InvalidHour);
        }
        let minute_val = parse_field_clamped(time_str, first + 1, n);
        let minute_num = match minute_val {
            Some(v) => v,
            None => {
                return Err(ScheduleError::InvalidMinute);
            },
        };
        if minute_num >= 60 {
            return Err(ScheduleError::InvalidMinute);
        }
        Ok(UpdateTime { hour: hour_num as u8, minute: minute_num as u8 })
    }
}

} // verus!
