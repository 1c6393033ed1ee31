//! The settings of the controller, and how they are written down.

use crate::text::{
    chars_of, digits_value, is_digit, leading_digits, opt_str, parse_u64, same_ignoring_case, str_eq,
    text_of, IntError,
};
use vstd::prelude::*;
use vstd::string::*;

verus! {

/// How long an operator is inactive before it counts as idle, in milliseconds,
/// where no setting says otherwise.
pub const DEFAULT_IDLE_THRESHOLD: u64 = 5000;

/// How long an operator runs before it counts as idle, in milliseconds, where no
/// setting says otherwise.
pub const DEFAULT_EXECUTE_THRESHOLD: u64 = 500;

/// The unit that a duration is written in: how many characters come before it,
/// and how many milliseconds it has.  There is none where the text ends in
/// anything else than a digit or a known unit.
pub open spec fn unit_of(s: Seq<char>) -> Option<(int, nat)> {
    if s.len() == 0 {
        None
    } else {
        let last = s.last();
        let n = s.len() - 1;
        if last == 's' || last == 'S' {
            if n >= 1 && (s[n - 1] == 'm' || s[n - 1] == 'M') {
                Some((n - 1, 1))
            } else {
                Some((n, 1_000))
            }
        } else if last == 'm' || last == 'M' {
            Some((n, 60_000))
        } else if last == 'h' || last == 'H' {
            Some((n, 3_600_000))
        } else if last == 'd' || last == 'D' {
            Some((n, 86_400_000))
        } else if is_digit(last) {
            Some((n + 1, 1))
        } else {
            None
        }
    }
}

/// The milliseconds that a duration says, such as `300000`, `300000ms`, `300s`,
/// `5m`, `2h` or `1d`.  What is not written like that stands for the default.
/// `None` where the number is too large.
pub open spec fn duration_of(s: Option<Seq<char>>, default_ms: u64) -> Option<nat> {
    match s {
        None => Some(default_ms as nat),
        Some(text) => match unit_of(text) {
            None => Some(default_ms as nat),
            Some((n, unit)) => {
                let digits = text.take(n);
                let lead = leading_digits(digits);
                if n == 0 {
                    Some(default_ms as nat)
                } else if digits_value(digits.take(lead as int)) > u64::MAX {
                    None
                } else if lead < n {
                    Some(default_ms as nat)
                } else if digits_value(digits) * unit > u64::MAX {
                    None
                } else {
                    Some(digits_value(digits) * unit)
                }
            },
        },
    }
}

/// Reads a duration string (e.g. "300000", "300000ms" "300s", "5m", "2h", "1d")
/// in milliseconds; `None` where the number is too large.
pub fn checked_duration(s: Option<&str>, default_ms: u64) -> (r: Option<u64>)
    ensures
        match r {
            Some(ms) => duration_of(opt_str(s), default_ms) == Some(ms as nat),
            None => duration_of(opt_str(s), default_ms) is None,
        },
{
    let text = match s {
        Some(text) => text,
        None => {
            return Some(default_ms);
        },
    };
    let chars = chars_of(text);
    let len: usize = chars.len();
    if len == 0 {
        return Some(default_ms);
    }
    let last = chars[len - 1];
    let (digits_len, multiplier): (usize, u64) = if last == 's' || last == 'S' {
        if len >= 2 && (chars[len - 2] == 'm' || chars[len - 2] == 'M') {
            (len - 2, 1)
        } else {
            (len - 1, 1_000)
        }
    } else if last == 'm' || last == 'M' {
        (len - 1, 60_000)
    } else if last == 'h' || last == 'H' {
        (len - 1, 3_600_000)
    } else if last == 'd' || last == 'D' {
        (len - 1, 86_400_000)
    } else if '0' <= last && last <= '9' {
        (len, 1)
    } else {
        return Some(default_ms);
    };
    if digits_len == 0 || chars[0] == '+' {
        proof {
            let digits = text@.take(digits_len as int);
            if digits_len > 0 {
                assert(digits[0] == '+');
                assert(leading_digits(digits) == 0);
                assert(digits.take(0).len() == 0);
            }
        }
        return Some(default_ms);
    }
    let digits = text_of(&chars, 0, digits_len);
    assert(digits@ =~= text@.take(digits_len as int));
    assert(unit_of(text@) == Some((digits_len as int, multiplier as nat)));
    match parse_u64(digits.as_str()) {
        Ok(n) => {
            proof {
                assert(digits@.take(digits@.len() as int) =~= digits@);
            }
            n.checked_mul(multiplier)
        },
        Err(IntError::TooLarge) => None,
        Err(_) => Some(default_ms),
    }
}

/// Reads a duration string, of a number that is not too large.
pub fn parse_duration(s: Option<&str>, default_ms: u64) -> (ms: u64)
    requires
        duration_of(opt_str(s), default_ms) is Some,
    ensures
        duration_of(opt_str(s), default_ms) == Some(ms as nat),
{
    checked_duration(s, default_ms).unwrap()
}

/// A setting that is not acceptable.
#[derive(Clone, Copy, Debug, PartialEq, Eq, Structural)]
pub enum SettingsError {
    IdleTooLarge,
    ExecuteTooLarge,
    ThresholdsCrossed,
}

impl SettingsError {
    /// What is said of the error.
    pub open spec fn words(self) -> Seq<char> {
        match self {
            SettingsError::IdleTooLarge => "WASMOP_IDLE_THRESHOLD is too large"@,
            SettingsError::ExecuteTooLarge => "WASMOP_EXECUTE_THRESHOLD is too large"@,
            SettingsError::ThresholdsCrossed =>
                "WASMOP_IDLE_THRESHOLD must be greater than WASMOP_EXECUTE_THRESHOLD"@,
        }
    }

    /// Says what the error is.
    pub fn text(&self) -> (s: String)
        ensures
            s@ == self.words(),
    {
        match self {
            SettingsError::IdleTooLarge => "WASMOP_IDLE_THRESHOLD is too large".to_owned(),
            SettingsError::ExecuteTooLarge => "WASMOP_EXECUTE_THRESHOLD is too large".to_owned(),
            SettingsError::ThresholdsCrossed =>
                "WASMOP_IDLE_THRESHOLD must be greater than WASMOP_EXECUTE_THRESHOLD".to_owned(),
        }
    }
}

/// When an operator counts as idle, in milliseconds.
#[derive(Clone, Copy, Debug, PartialEq, Eq, Structural)]
pub struct Thresholds {
    pub idle_ms: u64,
    pub execute_ms: u64,
}

/// Whether two settings make thresholds: both can be told, and the first is
/// greater than the second.
pub open spec fn acceptable(idle: Option<Seq<char>>, execute: Option<Seq<char>>) -> bool {
    match (
        duration_of(idle, DEFAULT_IDLE_THRESHOLD),
        duration_of(execute, DEFAULT_EXECUTE_THRESHOLD),
    ) {
        (Some(idle_ms), Some(execute_ms)) => idle_ms > execute_ms,
        _ => false,
    }
}

/// Reads the thresholds.  The first must be greater than the second.
pub fn thresholds(idle: Option<&str>, execute: Option<&str>) -> (r: Result<
    Thresholds,
    SettingsError,
>)
    ensures
        ({
            let idle_ms = duration_of(opt_str(idle), DEFAULT_IDLE_THRESHOLD);
            let execute_ms = duration_of(opt_str(execute), DEFAULT_EXECUTE_THRESHOLD);
            match r {
                Ok(t) => idle_ms == Some(t.idle_ms as nat) && execute_ms == Some(
                    t.execute_ms as nat,
                ) && t.idle_ms > t.execute_ms,
                Err(SettingsError::IdleTooLarge) => idle_ms is None,
                Err(SettingsError::ExecuteTooLarge) => idle_ms is Some && execute_ms is None,
                Err(SettingsError::ThresholdsCrossed) => idle_ms is Some && execute_ms is Some
                    && idle_ms->0 <= execute_ms->0,
            }
        }),
        r is Ok <==> acceptable(opt_str(idle), opt_str(execute)),
        r matches Ok(t) ==> t.execute_ms < t.idle_ms && Some(t.idle_ms as nat) == duration_of(
            opt_str(idle),
            5_000,
        ) && Some(t.execute_ms as nat) == duration_of(opt_str(execute), 500),
{
    match checked_duration(idle, DEFAULT_IDLE_THRESHOLD) {
        None => Err(SettingsError::IdleTooLarge),
        Some(idle_ms) => match checked_duration(execute, DEFAULT_EXECUTE_THRESHOLD) {
            None => Err(SettingsError::ExecuteTooLarge),
            Some(execute_ms) => {
                if idle_ms > execute_ms {
                    Ok(Thresholds { idle_ms, execute_ms })
                } else {
                    Err(SettingsError::ThresholdsCrossed)
                }
            },
        },
    }
}

/// Whether a setting turns something on.
pub open spec fn turned_on(setting: Option<Seq<char>>) -> bool {
    setting == Some("true"@) || setting == Some("1"@)
}

/// Whether operators are loaded ahead of need, as a setting says: `true` or `1`
/// turns it on.
pub fn use_prediction(setting: Option<&str>) -> (r: bool)
    ensures
        r == (opt_str(setting) == Some("true"@) || opt_str(setting) == Some("1"@)),
        r == turned_on(opt_str(setting)),
{
    match setting {
        Some(text) => str_eq(text, "true") || str_eq(text, "1"),
        None => false,
    }
}

/// The directory that files are kept in.
pub fn cache_dir(setting: Option<&str>) -> (s: String)
    ensures
        s@ == (match setting {
            Some(text) => text@,
            None => "/tmp/wasmop-cache"@,
        }),
        setting matches Some(text) ==> s@ == text@,
{
    match setting {
        Some(text) => text.to_owned(),
        None => "/tmp/wasmop-cache".to_owned(),
    }
}

/// The namespace that operators are looked for in.
pub fn namespace(setting: Option<&str>) -> (s: String)
    ensures
        s@ == (match setting {
            Some(text) => text@,
            None => "default"@,
        }),
        setting matches Some(text) ==> s@ == text@,
{
    match setting {
        Some(text) => text.to_owned(),
        None => "default".to_owned(),
    }
}

proof fn lemma_digits(digits: Seq<char>)
    requires
        forall|i: int| 0 <= i < digits.len() ==> is_digit(#[trigger] digits[i]),
    ensures
        leading_digits(digits) == digits.len(),
    decreases digits.len(),
{
    if digits.len() > 0 {
        let rest = digits.drop_first();
        assert forall|i: int| 0 <= i < rest.len() implies is_digit(#[trigger] rest[i]) by {
            assert(rest[i] == digits[i + 1]);
        }
        lemma_digits(rest);
    }
}

/// The units of time, in capitals or not, and how many milliseconds each has.
pub open spec fn unit_ms(unit: Seq<char>) -> Option<nat> {
    if unit.len() == 0 {
        Some(1)
    } else if unit.len() == 2 && (unit[0] == 'm' || unit[0] == 'M') && (unit[1] == 's' || unit[1]
        == 'S') {
        Some(1)
    } else if unit.len() != 1 {
        None
    } else if unit[0] == 's' || unit[0] == 'S' {
        Some(1_000)
    } else if unit[0] == 'm' || unit[0] == 'M' {
        Some(60_000)
    } else if unit[0] == 'h' || unit[0] == 'H' {
        Some(3_600_000)
    } else if unit[0] == 'd' || unit[0] == 'D' {
        Some(86_400_000)
    } else {
        None
    }
}

/// Digits alone are milliseconds; followed by `ms`, `s`, `m`, `h` or `d`, in
/// capitals or not, they are so many milliseconds, seconds, minutes, hours or
/// days.
pub proof fn durations_have_units(digits: Seq<char>, unit: Seq<char>, default_ms: u64)
    requires
        digits.len() > 0,
        forall|i: int| 0 <= i < digits.len() ==> is_digit(#[trigger] digits[i]),
        unit_ms(unit) is Some,
        digits_value(digits) * unit_ms(unit)->0 <= u64::MAX,
    ensures
        duration_of(Some(digits + unit), default_ms) == Some(digits_value(digits) * unit_ms(unit)->0),
{
    let n = digits.len() as int;
    let text = digits + unit;
    lemma_digits(digits);
    assert(text.take(n) =~= digits);
    assert(digits.take(n) =~= digits);
    assert(text[n - 1] == digits[n - 1] && is_digit(digits[n - 1]));
    assert(forall|i: int| 0 <= i < unit.len() ==> text[n + i] == unit[i]);
    assert(unit_of(text) == Some((n, unit_ms(unit)->0)));
    let v = digits_value(digits);
    let k = unit_ms(unit)->0;
    assert(v <= v * k) by (nonlinear_arith)
        requires
            k >= 1,
            0 <= v,
    ;
}

/// A duration is told as it is written, however long, up to the largest number;
/// one that is longer is too large.
pub proof fn long_durations_are_refused(digits: Seq<char>, unit: Seq<char>, default_ms: u64)
    requires
        digits.len() > 0,
        forall|i: int| 0 <= i < digits.len() ==> is_digit(#[trigger] digits[i]),
        unit_ms(unit) is Some,
    ensures
        duration_of(Some(digits + unit), default_ms) is None <==> digits_value(digits) * unit_ms(
            unit,
        )->0 > u64::MAX,
{
    let n = digits.len() as int;
    let text = digits + unit;
    lemma_digits(digits);
    assert(text.take(n) =~= digits);
    assert(digits.take(n) =~= digits);
    assert(text[n - 1] == digits[n - 1] && is_digit(digits[n - 1]));
    assert(forall|i: int| 0 <= i < unit.len() ==> text[n + i] == unit[i]);
    assert(unit_of(text) == Some((n, unit_ms(unit)->0)));
    let v = digits_value(digits);
    let k = unit_ms(unit)->0;
    assert(v <= v * k) by (nonlinear_arith)
        requires
            k >= 1,
            0 <= v,
    ;
}

/// A number and its unit say the same in any writing of the number, and the unit
/// of a setting says how many of the next smaller one it has: a day has 24 hours,
/// an hour 60 minutes, a minute 60 seconds, a second 1000 milliseconds.
pub proof fn units_make_up_larger_ones(n: nat, default_ms: u64)
    requires
        n * 86_400_000 <= u64::MAX,
    ensures
        ({
            let digits = crate::text::dec_text(n);
            &&& duration_of(Some(digits), default_ms) == Some(n)
            &&& duration_of(Some(digits + "ms"@), default_ms) == Some(n)
            &&& duration_of(Some(digits + "s"@), default_ms) == Some(n * 1000)
            &&& duration_of(Some(digits + "m"@), default_ms) == Some(n * 1000 * 60)
            &&& duration_of(Some(digits + "h"@), default_ms) == Some(n * 1000 * 60 * 60)
            &&& duration_of(Some(digits + "d"@), default_ms) == Some(n * 1000 * 60 * 60 * 24)
        }),
{
    reveal_strlit("ms");
    reveal_strlit("s");
    reveal_strlit("m");
    reveal_strlit("h");
    reveal_strlit("d");
    let digits = crate::text::dec_text(n);
    crate::text::decimals_say_their_number(n);
    assert(digits + Seq::<char>::empty() =~= digits);
    durations_have_units(digits, Seq::empty(), default_ms);
    durations_have_units(digits, "ms"@, default_ms);
    durations_have_units(digits, "s"@, default_ms);
    durations_have_units(digits, "m"@, default_ms);
    durations_have_units(digits, "h"@, default_ms);
    durations_have_units(digits, "d"@, default_ms);
    assert("ms"@[0] == 'm' && "ms"@[1] == 's');
    assert(unit_ms("ms"@) == Some(1nat));
    assert(unit_ms("s"@) == Some(1_000nat));
    assert(unit_ms("m"@) == Some(60_000nat));
    assert(unit_ms("h"@) == Some(3_600_000nat));
    assert(unit_ms("d"@) == Some(86_400_000nat));
    lemma_times(n, unit_ms(Seq::empty())->0, 1);
    lemma_times(n, unit_ms("s"@)->0, 1_000);
    lemma_times(n, unit_ms("m"@)->0, 60_000);
    lemma_times(n, unit_ms("h"@)->0, 3_600_000);
    lemma_times(n, unit_ms("d"@)->0, 86_400_000);
    assert(n * 1_000 * 60 == n * 60_000);
    assert(n * 1_000 * 60 * 60 == n * 3_600_000);
    assert(n * 1_000 * 60 * 60 * 24 == n * 86_400_000);
}

proof fn lemma_times(n: nat, a: nat, b: nat)
    requires
        a == b,
    ensures
        n * a == n * b,
{
}

/// The units are these, in capitals or not, and no others.
pub proof fn units_are_known(unit: Seq<char>)
    ensures
        unit_ms(unit) is Some <==> unit.len() == 0 || same_ignoring_case(unit, "ms"@)
            || same_ignoring_case(unit, "s"@) || same_ignoring_case(unit, "m"@)
            || same_ignoring_case(unit, "h"@) || same_ignoring_case(unit, "d"@),
        unit.len() == 0 || same_ignoring_case(unit, "ms"@) ==> unit_ms(unit) == Some(1nat),
        same_ignoring_case(unit, "s"@) ==> unit_ms(unit) == Some(1_000nat),
        same_ignoring_case(unit, "m"@) ==> unit_ms(unit) == Some(60_000nat),
        same_ignoring_case(unit, "h"@) ==> unit_ms(unit) == Some(3_600_000nat),
        same_ignoring_case(unit, "d"@) ==> unit_ms(unit) == Some(86_400_000nat),
{
    reveal_strlit("ms");
    reveal_strlit("s");
    reveal_strlit("m");
    reveal_strlit("h");
    reveal_strlit("d");
    if unit.len() == 1 {
        let c = unit[0];
        assert(crate::text::folded(c) == crate::text::folded('s') <==> c == 's' || c == 'S');
        assert(crate::text::folded(c) == crate::text::folded('m') <==> c == 'm' || c == 'M');
        assert(crate::text::folded(c) == crate::text::folded('h') <==> c == 'h' || c == 'H');
        assert(crate::text::folded(c) == crate::text::folded('d') <==> c == 'd' || c == 'D');
    } else if unit.len() == 2 {
        let c = unit[0];
        let e = unit[1];
        assert(crate::text::folded(c) == crate::text::folded('m') <==> c == 'm' || c == 'M');
        assert(crate::text::folded(e) == crate::text::folded('s') <==> e == 's' || e == 'S');
        assert("ms"@[0] == 'm' && "ms"@[1] == 's');
    }
}

/// What a setting that does not say how long stands for is the default: one that
/// is not there, is empty, or does not begin with a digit.
pub proof fn other_settings_are_the_default(text: Seq<char>, default_ms: u64)
    ensures
        duration_of(None, default_ms) == Some(default_ms as nat),
        text.len() == 0 || !is_digit(text[0]) ==> duration_of(Some(text), default_ms) == Some(
            default_ms as nat,
        ),
{
    if text.len() > 0 && !is_digit(text[0]) {
        match unit_of(text) {
            Some((n, unit)) => {
                if n > 0 {
                    assert(text.take(n)[0] == text[0]);
                    assert(leading_digits(text.take(n)) == 0);
                    assert(text.take(n).take(0).len() == 0);
                }
            },
            None => {},
        }
    }
}

/// Whatever a setting says other than the default, or that it is too large, it
/// says in digits and a unit.
pub proof fn durations_are_digits_and_a_unit(text: Seq<char>, default_ms: u64) -> (n: int)
    ensures
        duration_of(Some(text), default_ms) is Some && duration_of(Some(text), default_ms) != Some(
            default_ms as nat,
        ) ==> {
            &&& 0 < n <= text.len()
            &&& forall|i: int| 0 <= i < n ==> is_digit(#[trigger] text[i])
            &&& unit_ms(text.skip(n)) is Some
            &&& duration_of(Some(text), default_ms) == Some(
                digits_value(text.take(n)) * unit_ms(text.skip(n))->0,
            )
        },
{
    match unit_of(text) {
        Some((n, unit)) => {
            let digits = text.take(n);
            crate::text::lemma_leading_digits(digits, 0);
            if n > 0 && leading_digits(digits) == n {
                assert forall|i: int| 0 <= i < n implies is_digit(#[trigger] text[i]) by {
                    crate::text::lemma_all_digits(digits, i);
                    assert(digits[i] == text[i]);
                }
                let rest = text.skip(n);
                assert(rest.len() == text.len() - n);
                if rest.len() > 0 {
                    assert(rest.last() == text.last());
                    assert(rest[0] == text[n]);
                }
                assert(unit_ms(rest) == Some(unit));
            }
            n
        },
        None => 0,
    }
}

/// Settings that are not there make thresholds: five seconds and half a second.
/// Of two that are written in milliseconds it is their order that decides.
pub proof fn thresholds_are_in_order(idle_ms: u64, execute_ms: u64)
    ensures
        acceptable(None, None),
        duration_of(None, DEFAULT_IDLE_THRESHOLD) == Some(5_000nat),
        duration_of(None, DEFAULT_EXECUTE_THRESHOLD) == Some(500nat),
        acceptable(
            Some(crate::text::dec_text(idle_ms as nat)),
            Some(crate::text::dec_text(execute_ms as nat)),
        ) <==> execute_ms < idle_ms,
        acceptable(Some(crate::text::dec_text(idle_ms as nat)), None) <==> 500 < idle_ms,
        acceptable(None, Some(crate::text::dec_text(execute_ms as nat))) <==> execute_ms < 5_000,
{
    lemma_plain_duration(idle_ms, DEFAULT_IDLE_THRESHOLD);
    lemma_plain_duration(execute_ms, DEFAULT_EXECUTE_THRESHOLD);
}

proof fn lemma_plain_duration(ms: u64, default_ms: u64)
    ensures
        duration_of(Some(crate::text::dec_text(ms as nat)), default_ms) == Some(ms as nat),
{
    let digits = crate::text::dec_text(ms as nat);
    crate::text::decimals_say_their_number(ms as nat);
    assert(digits + Seq::<char>::empty() =~= digits);
    durations_have_units(digits, Seq::empty(), default_ms);
}

/// Something is off unless a setting is there and says so.
pub proof fn settings_turn_on_in_words(text: Seq<char>)
    ensures
        !turned_on(None),
        turned_on(Some(text)) <==> text == seq!['t', 'r', 'u', 'e'] || text == seq!['1'],
{
    reveal_strlit("true");
    reveal_strlit("1");
    assert("true"@ =~= seq!['t', 'r', 'u', 'e']);
    assert("1"@ =~= seq!['1']);
}

/// What is said of a setting names it.
pub proof fn settings_are_named()
    ensures
        "WASMOP_IDLE_THRESHOLD"@.is_prefix_of(SettingsError::IdleTooLarge.words()),
        "WASMOP_EXECUTE_THRESHOLD"@.is_prefix_of(SettingsError::ExecuteTooLarge.words()),
        "WASMOP_IDLE_THRESHOLD"@.is_prefix_of(SettingsError::ThresholdsCrossed.words()),
        "WASMOP_EXECUTE_THRESHOLD"@.is_suffix_of(SettingsError::ThresholdsCrossed.words()),
        SettingsError::IdleTooLarge.words() != SettingsError::ThresholdsCrossed.words(),
{
    reveal_strlit("WASMOP_IDLE_THRESHOLD");
    reveal_strlit("WASMOP_EXECUTE_THRESHOLD");
    reveal_strlit("WASMOP_IDLE_THRESHOLD is too large");
    reveal_strlit("WASMOP_EXECUTE_THRESHOLD is too large");
    reveal_strlit("WASMOP_IDLE_THRESHOLD must be greater than WASMOP_EXECUTE_THRESHOLD");
}

/// Thresholds that cannot be told are not acceptable, whatever the other one is.
pub proof fn untold_thresholds_are_refused(idle: Option<Seq<char>>, execute: Option<Seq<char>>)
    ensures
        duration_of(idle, DEFAULT_IDLE_THRESHOLD) is None ==> !acceptable(idle, execute),
        duration_of(execute, DEFAULT_EXECUTE_THRESHOLD) is None ==> !acceptable(idle, execute),
{
}

} // verus!
