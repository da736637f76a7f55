//! The thermal probe: parsing its decimal reading and converting it to
//! degrees Fahrenheit.
//!
//! The probe's raw reading is a plain decimal numeral in degrees
//! Celsius, e.g. `20.0625`. No floating point is used anywhere:
//! temperatures are held in fixed point. A Celsius reading is parsed
//! into units of 1/10000 of a degree (four fractional digits; further
//! digits are read for validity but truncated), and the Fahrenheit
//! result is exact in units of 1/100000 of a degree, since
//! `F = C * 9/5 + 32` scales a multiple of 1/10000 to a multiple of
//! 1/100000 with no remainder.

use vstd::prelude::*;

use crate::bus::{Attribute, Bus, BusEvent};
use crate::bus::grew_by;
use crate::device::OnewireDevice;
use crate::MachineError;

verus! {

/// The largest value accepted for the digits before the decimal point.
/// Readings beyond it cannot be a temperature and are parse errors;
/// the bound keeps all fixed-point arithmetic inside `i64`.
pub const MAX_WHOLE: i64 = 999_999_999;

pub open spec fn is_digit(b: u8) -> bool {
    48 <= b && b <= 57
}

pub open spec fn all_digits(s: Seq<u8>) -> bool {
    forall|i: int| 0 <= i < s.len() ==> is_digit(#[trigger] s[i])
}

/// The number a sequence of decimal digits denotes.
pub open spec fn digits_value(s: Seq<u8>) -> int
    decreases s.len(),
{
    if s.len() == 0 {
        0
    } else {
        digits_value(s.drop_last()) * 10 + (s.last() - 48)
    }
}

/// The index of the first `.` in `s`, or `s.len()` if there is none.
pub open spec fn first_dot(s: Seq<u8>) -> int
    decreases s.len(),
{
    if s.len() == 0 {
        0
    } else if s[0] == 46 {
        0
    } else {
        1 + first_dot(s.skip(1))
    }
}

/// The digits before the decimal point (all of `s` if it has no point).
pub open spec fn whole_part(s: Seq<u8>) -> Seq<u8> {
    s.take(first_dot(s))
}

/// The digits after the decimal point (empty if `s` has no point).
pub open spec fn frac_part(s: Seq<u8>) -> Seq<u8> {
    if first_dot(s) < s.len() {
        s.skip(first_dot(s) + 1)
    } else {
        Seq::empty()
    }
}

/// Digits, optionally around one decimal point, with at least one
/// digit present: `20`, `20.`, `20.0625`, `.5`.
pub open spec fn is_unsigned_decimal(s: Seq<u8>) -> bool {
    &&& all_digits(whole_part(s))
    &&& all_digits(frac_part(s))
    &&& whole_part(s).len() + frac_part(s).len() > 0
}

/// `s` without its leading `+` or `-`, if it has one.
pub open spec fn magnitude(s: Seq<u8>) -> Seq<u8> {
    if s.len() > 0 && (s[0] == 43 || s[0] == 45) {
        s.skip(1)
    } else {
        s
    }
}

pub open spec fn is_negative(s: Seq<u8>) -> bool {
    s.len() > 0 && s[0] == 45
}

/// An optionally signed decimal numeral, without exponent notation.
pub open spec fn is_plain_decimal(s: Seq<u8>) -> bool {
    is_unsigned_decimal(magnitude(s))
}

pub open spec fn pow10(n: nat) -> int
    decreases n,
{
    if n == 0 {
        1
    } else {
        10 * pow10((n - 1) as nat)
    }
}

/// The value of the fractional digits in units of 1/10000: the first
/// four digits scaled up if there are fewer, truncated if there are
/// more.
pub open spec fn frac_value_e4(frac: Seq<u8>) -> int {
    if frac.len() >= 4 {
        digits_value(frac.take(4))
    } else {
        digits_value(frac) * pow10((4 - frac.len()) as nat)
    }
}

pub open spec fn unsigned_value_e4(s: Seq<u8>) -> int {
    digits_value(whole_part(s)) * 10000 + frac_value_e4(frac_part(s))
}

/// The value `s` denotes, in units of 1/10000 (truncated toward zero
/// past the fourth fractional digit).
pub open spec fn value_e4(s: Seq<u8>) -> int {
    if is_negative(s) {
        -unsigned_value_e4(magnitude(s))
    } else {
        unsigned_value_e4(magnitude(s))
    }
}

/// What [`parse_decimal_e4`] accepts: a plain decimal numeral whose
/// whole part does not exceed [`MAX_WHOLE`].
pub open spec fn parseable(s: Seq<u8>) -> bool {
    &&& is_plain_decimal(s)
    &&& digits_value(whole_part(magnitude(s))) <= MAX_WHOLE as int
}

/// Celsius in units of 1/10000 to Fahrenheit in units of 1/100000,
/// by `F = C * 9/5 + 32`; exact at these scales.
pub open spec fn fahrenheit_e5_of_celsius_e4(c_e4: int) -> int {
    c_e4 * 18 + 3_200_000
}

/// The Fahrenheit value (in units of 1/100000 of a degree) that a raw
/// Celsius reading denotes.
pub open spec fn fahrenheit_e5_of_reading(raw: Seq<u8>) -> int {
    fahrenheit_e5_of_celsius_e4(value_e4(raw))
}

pub proof fn lemma_first_dot(s: Seq<u8>)
    ensures
        0 <= first_dot(s) <= s.len(),
        first_dot(s) < s.len() ==> s[first_dot(s)] == 46,
        forall|i: int| 0 <= i < first_dot(s) ==> s[i] != 46,
    decreases s.len(),
{
    if s.len() == 0 {
    } else if s[0] == 46 {
    } else {
        lemma_first_dot(s.skip(1));
        assert forall|i: int| 0 <= i < first_dot(s) implies s[i] != 46 by {
            if i > 0 {
                assert(s.skip(1)[i - 1] == s[i]);
            }
        }
        if first_dot(s) < s.len() {
            assert(s.skip(1)[first_dot(s) - 1] == s[first_dot(s)]);
        }
    }
}

/// If `s` has no `.` before `k`, and either `k` is the end or the `.`
/// stands at `k`, then `k` is where the first `.` is.
pub proof fn lemma_first_dot_at(s: Seq<u8>, k: int)
    requires
        0 <= k <= s.len(),
        forall|i: int| 0 <= i < k ==> s[i] != 46,
        k == s.len() || s[k] == 46,
    ensures
        first_dot(s) == k,
    decreases k,
{
    if s.len() == 0 {
    } else if k == 0 {
    } else {
        assert(s[0] != 46);
        lemma_first_dot_at(s.skip(1), k - 1);
    }
}

pub proof fn lemma_digits_value_bounds(s: Seq<u8>)
    requires
        all_digits(s),
    ensures
        0 <= digits_value(s) < pow10(s.len()),
    decreases s.len(),
{
    if s.len() > 0 {
        assert(all_digits(s.drop_last())) by {
            assert forall|i: int| 0 <= i < s.drop_last().len() implies is_digit(
                #[trigger] s.drop_last()[i],
            ) by {
                assert(s.drop_last()[i] == s[i]);
            }
        }
        lemma_digits_value_bounds(s.drop_last());
        assert(is_digit(s.last()));
    }
}

/// Appending digits cannot shrink the value: every prefix of a digit
/// string denotes at most what the whole string denotes.
pub proof fn lemma_digits_value_prefix_le(s: Seq<u8>, i: int)
    requires
        all_digits(s),
        0 <= i <= s.len(),
    ensures
        digits_value(s.take(i)) <= digits_value(s),
    decreases s.len() - i,
{
    if i == s.len() {
        assert(s.take(i) =~= s);
    } else {
        lemma_digits_value_prefix_le(s, i + 1);
        assert(s.take(i + 1).drop_last() =~= s.take(i));
        assert(all_digits(s.take(i))) by {
            assert forall|j: int| 0 <= j < s.take(i).len() implies is_digit(
                #[trigger] s.take(i)[j],
            ) by {
                assert(s.take(i)[j] == s[j]);
            }
        }
        lemma_digits_value_bounds(s.take(i));
        assert(digits_value(s.take(i + 1)) == digits_value(s.take(i)) * 10 + (s[i] - 48));
    }
}

/// Parses an optionally signed decimal numeral into units of 1/10000,
/// truncating toward zero past the fourth fractional digit. Returns
/// `Ok` exactly on [`parseable`] input and `Err(MachineError::Parse)`
/// on everything else.
#[verifier::rlimit(100)]
pub fn parse_decimal_e4(raw: &Vec<u8>) -> (r: Result<i64, MachineError>)
    ensures
        parseable(raw@) ==> (r matches Ok(v) && v as int == value_e4(raw@)),
        !parseable(raw@) ==> r == Err::<i64, MachineError>(MachineError::Parse),
        r is Ok ==> -10_000_000_000_000 < r->Ok_0 < 10_000_000_000_000,
{
    let n = raw.len();
    let mut i: usize = 0;
    let mut neg = false;
    if n > 0 && (raw[0] == 43 || raw[0] == 45) {
        neg = raw[0] == 45;
        i = 1;
    }
    let start = i;
    let ghost mag = raw@.skip(start as int);
    proof {
        assert(mag =~= magnitude(raw@));
        assert(neg == is_negative(raw@));
    }

    let mut whole: i64 = 0;
    while i < n && raw[i] != 46
        invariant
            start <= i <= n,
            n == raw@.len(),
            start <= 1,
            mag == raw@.skip(start as int),
            mag == magnitude(raw@),
            forall|j: int| 0 <= j < i - start ==> is_digit(#[trigger] mag[j]) && mag[j] != 46,
            whole == digits_value(mag.take(i - start)),
            0 <= whole <= MAX_WHOLE,
        decreases n - i,
    {
        let b = raw[i];
        proof {
            assert(mag[i - start] == raw@[i as int]);
        }
        if b < 48 || b > 57 {
            // A character that is neither a digit nor the decimal
            // point: the whole part is not all digits.
            proof {
                lemma_first_dot(mag);
                if first_dot(mag) <= i - start {
                    assert(mag[first_dot(mag)] == 46);
                    assert(false);
                }
                assert(whole_part(mag)[i - start] == mag[i - start]);
                assert(!all_digits(whole_part(mag)));
            }
            return Err(MachineError::Parse);
        }
        let next = whole * 10 + ((b - 48) as i64);
        proof {
            assert(mag.take(i - start + 1).drop_last() =~= mag.take(i - start));
            assert(next == digits_value(mag.take(i - start + 1)));
        }
        if next > MAX_WHOLE {
            // The whole part can only keep growing from here: reject.
            proof {
                lemma_first_dot(mag);
                if first_dot(mag) <= i - start {
                    assert(mag[first_dot(mag)] == 46);
                    assert(false);
                }
                if all_digits(whole_part(mag)) {
                    assert(whole_part(mag).take(i - start + 1) =~= mag.take(i - start + 1));
                    lemma_digits_value_prefix_le(whole_part(mag), i - start + 1);
                }
            }
            return Err(MachineError::Parse);
        }
        whole = next;
        i += 1;
    }

    let whole_end = i;
    proof {
        if whole_end == n {
            lemma_first_dot_at(mag, n - start);
        } else {
            assert(mag[whole_end - start] == raw@[whole_end as int]);
            lemma_first_dot_at(mag, whole_end - start);
        }
        assert(whole_part(mag) =~= mag.take(whole_end - start));
        assert(all_digits(whole_part(mag)));
    }

    let mut value: i64;
    if i == n {
        // No decimal point: the fractional part is empty.
        if whole_end == start {
            proof {
                assert(whole_part(mag).len() + frac_part(mag).len() == 0);
            }
            return Err(MachineError::Parse);
        }
        proof {
            assert(frac_part(mag) =~= Seq::<u8>::empty());
            assert(frac_value_e4(frac_part(mag)) == 0);
        }
        value = whole * 10000;
    } else {
        // raw[i] is the decimal point; everything after it must be a
        // digit, of which the first four carry into the value.
        i += 1;
        let fstart = i;
        let ghost frac = mag.skip(whole_end - start + 1);
        proof {
            assert(frac =~= frac_part(mag));
        }
        let mut f: i64 = 0;
        let mut m: usize = 0;
        while i < n
            invariant
                fstart <= i <= n,
                n == raw@.len(),
                fstart == whole_end + 1,
                start <= whole_end < n,
                start <= 1,
                mag == raw@.skip(start as int),
                mag == magnitude(raw@),
                frac == mag.skip(whole_end - start + 1),
                frac == frac_part(mag),
                first_dot(mag) == whole_end - start,
                whole_part(mag) == mag.take(whole_end - start),
                all_digits(whole_part(mag)),
                whole == digits_value(whole_part(mag)),
                0 <= whole <= MAX_WHOLE,
                frac.len() == n - fstart,
                forall|j: int| 0 <= j < i - fstart ==> is_digit(#[trigger] frac[j]),
                m == if i - fstart <= 4 { i - fstart } else { 4 },
                f == digits_value(frac.take(m as int)),
                0 <= f,
            decreases n - i,
        {
            let b = raw[i];
            proof {
                assert(frac[i - fstart] == raw@[i as int]);
            }
            if b < 48 || b > 57 {
                proof {
                    assert(!is_digit(frac[i - fstart]));
                    assert(!all_digits(frac_part(mag)));
                }
                return Err(MachineError::Parse);
            }
            if m < 4 {
                proof {
                    assert(all_digits(frac.take(m as int))) by {
                        assert forall|j: int| 0 <= j < m implies is_digit(
                            #[trigger] frac.take(m as int)[j],
                        ) by {
                            assert(frac.take(m as int)[j] == frac[j]);
                        }
                    }
                    lemma_digits_value_bounds(frac.take(m as int));
                    assert(pow10(0) == 1);
                    assert(pow10(1) == 10);
                    assert(pow10(2) == 100);
                    assert(pow10(3) == 1000);
                    assert(frac.take(m + 1).drop_last() =~= frac.take(m as int));
                }
                f = f * 10 + ((b - 48) as i64);
                m += 1;
            }
            i += 1;
        }
        if whole_end == start && fstart == n {
            proof {
                assert(whole_part(mag).len() + frac_part(mag).len() == 0);
            }
            return Err(MachineError::Parse);
        }
        proof {
            assert(all_digits(frac));
            assert(all_digits(frac.take(m as int))) by {
                assert forall|j: int| 0 <= j < m implies is_digit(
                    #[trigger] frac.take(m as int)[j],
                ) by {
                    assert(frac.take(m as int)[j] == frac[j]);
                }
            }
            lemma_digits_value_bounds(frac.take(m as int));
            assert(pow10(0) == 1);
            assert(pow10(1) == 10);
            assert(pow10(2) == 100);
            assert(pow10(3) == 1000);
            assert(pow10(4) == 10000);
        }
        let scale: i64 = if m == 4 {
            1
        } else if m == 3 {
            10
        } else if m == 2 {
            100
        } else if m == 1 {
            1000
        } else {
            10000
        };
        proof {
            if frac.len() >= 4 {
                assert(m == 4);
                assert(frac_value_e4(frac) == digits_value(frac.take(4)));
            } else {
                assert(m == frac.len());
                assert(frac.take(m as int) =~= frac);
            }
            assert(f * scale == frac_value_e4(frac_part(mag)));
            assert(0 <= f * scale < 10000);
        }
        value = whole * 10000 + f * scale;
    }

    proof {
        assert(is_unsigned_decimal(mag));
        assert(value == unsigned_value_e4(mag));
    }
    if neg {
        value = -value;
    }
    Ok(value)
}

/// Celsius to Fahrenheit in fixed point, per
/// [`fahrenheit_e5_of_celsius_e4`].
pub fn celsius_e4_to_fahrenheit_e5(c_e4: i64) -> (r: i64)
    requires
        -10_000_000_000_000 < c_e4 < 10_000_000_000_000,
    ensures
        r as int == fahrenheit_e5_of_celsius_e4(c_e4 as int),
{
    c_e4 * 18 + 3_200_000
}

/// A temperature in degrees Fahrenheit, held in fixed point: `e5` is
/// the temperature multiplied by 100000.
#[derive(Clone, Copy, Debug, PartialEq, Eq, Structural)]
pub struct Fahrenheit {
    pub e5: i64,
}

/// The log shape and result of one temperature reading on the device
/// at `path`: exactly one read of `temperature12`; `Ok` with the exact
/// converted value when the read succeeded with a parseable reading,
/// `Err(Parse)` when it succeeded with anything else, `Err(Io)` when it
/// failed.
pub open spec fn temperature_read_log(
    l0: Seq<BusEvent>,
    l1: Seq<BusEvent>,
    path: Seq<char>,
    r: Result<Fahrenheit, MachineError>,
) -> bool {
    &&& grew_by(l0, l1, 1)
    &&& (l1.last() matches BusEvent::Read { path: p, attr, result } && p == path && attr
        == Attribute::Temperature12 && match r {
        Ok(t) => result matches Some(v) && parseable(v) && t.e5 as int
            == fahrenheit_e5_of_reading(v),
        Err(MachineError::Io) => result is None,
        Err(MachineError::Parse) => result matches Some(v) && !parseable(v),
        Err(MachineError::SlotOutOfRange) => false,
    })
}

/// One thermal probe on the bus.
#[derive(Clone, Debug)]
pub struct TemperatureSensor {
    pub device: OnewireDevice,
}

impl TemperatureSensor {
    /// Reads the probe's `temperature12` attribute and converts the
    /// Celsius reading to Fahrenheit.
    pub fn get_temperature<B: Bus>(&self, bus: &mut B) -> (r: Result<Fahrenheit, MachineError>)
        ensures
            temperature_read_log(old(bus).log(), final(bus).log(), self.device.fs_path@, r),
    {
        let raw = match self.device.read_property(bus, Attribute::Temperature12) {
            Ok(v) => v,
            Err(e) => {
                return Err(e);
            },
        };
        let c_e4 = match parse_decimal_e4(&raw) {
            Ok(c) => c,
            Err(e) => {
                return Err(e);
            },
        };
        let f_e5 = celsius_e4_to_fahrenheit_e5(c_e4);
        Ok(Fahrenheit { e5: f_e5 })
    }
}

} // verus!
