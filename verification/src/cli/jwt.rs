//! How long a token stays valid, as a caller writes it: `30s`, `5m`, `2h`,
//! `10d`.

use vstd::prelude::*;
use vstd::utf8::encode_utf8;
use crate::error::TextError;

verus! {

/// The longest duration, in seconds: the largest signed 64-bit number.
pub const MAX_SECONDS: u64 = 0x7fff_ffff_ffff_ffff;

/// The seconds in the unit that a letter names, if it names one.
pub open spec fn unit_seconds(letter: u8) -> Option<int> {
    if letter == 115 {
        Some(1)
    } else if letter == 109 {
        Some(60)
    } else if letter == 104 {
        Some(3600)
    } else if letter == 100 {
        Some(86400)
    } else {
        None
    }
}

/// Whether every byte is a decimal digit.
pub open spec fn all_digits(digits: Seq<u8>) -> bool {
    forall|i: int| 0 <= i < digits.len() ==> 48 <= #[trigger] digits[i] <= 57
}

/// The number that a run of decimal digits stands for.
pub open spec fn decimal_value(digits: Seq<u8>) -> int
    decreases digits.len(),
{
    if digits.len() == 0 {
        0
    } else {
        10 * decimal_value(digits.drop_last()) + (digits.last() - 48)
    }
}

/// The seconds that a duration stands for: one digit or more, then the
/// letter of a unit. `None` where the text has another form.
pub open spec fn duration_seconds(text: Seq<u8>) -> Option<int> {
    if text.len() >= 2 && all_digits(text.drop_last()) {
        match unit_seconds(text.last()) {
            Some(unit) => Some(decimal_value(text.drop_last()) * unit),
            None => None,
        }
    } else {
        None
    }
}

/// The time stamp that lies a duration after `now`, where the duration and
/// the time stamp are in range: the duration fits a signed 64-bit number of
/// seconds, and the time stamp is not negative and fits both that and a
/// `usize`.
pub open spec fn expire_time(text: Seq<u8>, now: i64) -> Option<int> {
    match duration_seconds(text) {
        Some(seconds) => if seconds <= i64::MAX && 0 <= now + seconds <= i64::MAX && now
            + seconds <= usize::MAX {
            Some(now + seconds)
        } else {
            None
        },
        None => None,
    }
}

proof fn lemma_value_grows(digits: Seq<u8>, i: int)
    requires
        all_digits(digits),
        0 <= i <= digits.len(),
    ensures
        0 <= decimal_value(digits.take(i)) <= decimal_value(digits),
    decreases digits.len() - i,
{
    if i == digits.len() {
        assert(digits.take(i) =~= digits);
        lemma_value_grows_from_zero(digits);
    } else {
        lemma_value_grows(digits, i + 1);
        let longer = digits.take(i + 1);
        assert(longer.drop_last() =~= digits.take(i));
        assert(longer.last() == digits[i]);
        lemma_value_grows_from_zero(digits.take(i));
    }
}

proof fn lemma_value_grows_from_zero(digits: Seq<u8>)
    requires
        all_digits(digits),
    ensures
        0 <= decimal_value(digits),
    decreases digits.len(),
{
    if digits.len() > 0 {
        lemma_value_grows_from_zero(digits.drop_last());
    }
}

/// Reads the digits of `text` before its last byte.
fn read_value(text: &[u8]) -> (value: Option<u64>)
    requires
        text@.len() >= 1,
    ensures
        match value {
            Some(v) => all_digits(text@.drop_last()) && v == decimal_value(text@.drop_last())
                && v <= i64::MAX,
            None => !all_digits(text@.drop_last()) || decimal_value(text@.drop_last())
                > i64::MAX,
        },
{
    let ghost digits = text@.drop_last();
    let end: usize = text.len() - 1;
    let mut value: u64 = 0;
    let mut i: usize = 0;
    while i < end
        invariant
            i <= end,
            end == text@.len() - 1,
            digits == text@.drop_last(),
            all_digits(digits.take(i as int)),
            value == decimal_value(digits.take(i as int)),
            value <= i64::MAX,
        decreases end - i,
    {
        let c: u8 = text[i];
        if c < 48 || c > 57 {
            assert(digits[i as int] == c);
            return None;
        }
        let d: u64 = (c - 48) as u64;
        proof {
            let longer = digits.take(i as int + 1);
            assert(longer.drop_last() =~= digits.take(i as int));
            assert(longer.last() == c);
            assert(all_digits(longer)) by {
                assert forall|j: int| 0 <= j < longer.len() implies 48 <= #[trigger] longer[j]
                    <= 57 by {
                    if j < i {
                        assert(longer[j] == digits.take(i as int)[j]);
                    }
                }
            }
        }
        if value > (MAX_SECONDS - d) / 10 {
            proof {
                if all_digits(digits) {
                    lemma_value_grows(digits, i as int + 1);
                }
            }
            return None;
        }
        value = 10 * value + d;
        i = i + 1;
    }
    assert(digits.take(end as int) =~= digits);
    Some(value)
}

/// The seconds in the unit that `letter` names.
fn read_unit(letter: u8) -> (unit: Option<u64>)
    ensures
        match unit {
            Some(u) => unit_seconds(letter) == Some(u as int),
            None => unit_seconds(letter).is_none(),
        },
{
    if letter == 115 {
        Some(1)
    } else if letter == 109 {
        Some(60)
    } else if letter == 104 {
        Some(3600)
    } else if letter == 100 {
        Some(86400)
    } else {
        None
    }
}

/// Reads a duration and gives the time stamp, in seconds, that lies this
/// long after `now`.
pub fn parse_expire_time(duration_str: &str, now: i64) -> (r: Result<usize, TextError>)
    ensures
        match r {
            Ok(time) => expire_time(encode_utf8(duration_str@), now) == Some(time as int),
            Err(e) => expire_time(encode_utf8(duration_str@), now).is_none() && e
                == TextError::InvalidDuration,
        },
{
    let text = duration_str.as_bytes();
    if text.len() < 2 {
        return Err(TextError::InvalidDuration);
    }
    let unit = match read_unit(text[text.len() - 1]) {
        Some(unit) => unit,
        None => {
            return Err(TextError::InvalidDuration);
        },
    };
    let value = match read_value(text) {
        Some(value) => value,
        None => {
            proof {
                if all_digits(text@.drop_last()) {
                    assert(decimal_value(text@.drop_last()) * (unit as int) >= decimal_value(
                        text@.drop_last(),
                    )) by (nonlinear_arith)
                        requires
                            unit >= 1,
                            decimal_value(text@.drop_last()) >= 0,
                    ;
                }
            }
            return Err(TextError::InvalidDuration);
        },
    };
    if value > MAX_SECONDS / unit {
        assert(value * unit > i64::MAX) by (nonlinear_arith)
            requires
                value > MAX_SECONDS / unit,
                1 <= unit <= 86400,
        ;
        return Err(TextError::InvalidDuration);
    }
    assert(value * unit <= i64::MAX) by (nonlinear_arith)
        requires
            value <= MAX_SECONDS / unit,
            1 <= unit <= 86400,
    ;
    let seconds: i64 = (value * unit) as i64;
    if now > i64::MAX - seconds {
        return Err(TextError::InvalidDuration);
    }
    let time: i64 = now + seconds;
    if time < 0 || time as u64 > usize::MAX as u64 {
        return Err(TextError::InvalidDuration);
    }
    Ok(time as usize)
}

} // verus!
