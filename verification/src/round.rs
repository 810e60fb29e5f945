//! Rounding of floating-point numbers, and of texts that write one, to `i32`.
use vstd::prelude::*;
use vstd::arithmetic::div_mod::lemma_fundamental_div_mod_converse;
use crate::json::Json;
use crate::json::Number;
use crate::json::Numeral;
use crate::json::Tree;
use crate::text::integer_text;

verus! {

/// `base` to the power of `n`.
pub open spec fn power(base: int, n: nat) -> int
    decreases n,
{
    if n == 0 {
        1
    } else {
        base * power(base, (n - 1) as nat)
    }
}

/// The whole number nearest to `num / den`, the upper one of two that are
/// equally near; for `num` that is not negative and positive `den`.
pub open spec fn nearest(num: int, den: int) -> int {
    (2 * num + den) / (2 * den)
}

/// The `i32` nearest to `v`.
pub open spec fn clamp(v: int) -> int {
    if v < i32::MIN {
        i32::MIN as int
    } else if v > i32::MAX {
        i32::MAX as int
    } else {
        v
    }
}

/// The exponent field of the binary64 number with the bit pattern `bits`.
pub open spec fn exponent_field(bits: u64) -> int {
    ((bits / 0x10_0000_0000_0000) % 2048) as int
}

/// The significand of the finite binary64 number with the bit pattern
/// `bits`, as a whole number.
pub open spec fn significand(bits: u64) -> int {
    if exponent_field(bits) == 0 {
        (bits % 0x10_0000_0000_0000) as int
    } else {
        0x10_0000_0000_0000 + (bits % 0x10_0000_0000_0000)
    }
}

/// The power of two that scales the significand of the finite binary64
/// number with the bit pattern `bits`.
pub open spec fn scale(bits: u64) -> int {
    (if exponent_field(bits) == 0 { 1int } else { exponent_field(bits) }) - 1075
}

/// Whether the sign of the binary64 number with the bit pattern `bits` is
/// set.
pub open spec fn sign(bits: u64) -> bool {
    bits >= 0x8000_0000_0000_0000
}

/// The whole number nearest to the magnitude of the finite binary64 number
/// with the bit pattern `bits`, the upper one of two that are equally near.
pub open spec fn float_magnitude(bits: u64) -> int {
    if scale(bits) >= 0 {
        significand(bits) * power(2, scale(bits) as nat)
    } else {
        nearest(significand(bits), power(2, (-scale(bits)) as nat))
    }
}

/// The `i32` nearest to the finite binary64 number with the bit pattern
/// `bits`, away from zero where two are equally near, and the lowest or the
/// highest `i32` where the number lies beyond them. `None` for an infinity
/// and for what is not a number.
pub open spec fn rounded_bits(bits: u64) -> Option<int> {
    if exponent_field(bits) == 2047 {
        None
    } else if sign(bits) {
        Some(clamp(-float_magnitude(bits)))
    } else {
        Some(clamp(float_magnitude(bits)))
    }
}

/// Whether the binary64 number with the bit pattern `bits` is the whole
/// number `v`.
pub open spec fn float_is_whole(bits: u64, v: int) -> bool {
    &&& exponent_field(bits) != 2047
    &&& v < 0 ==> sign(bits)
    &&& v > 0 ==> !sign(bits)
    &&& if scale(bits) >= 0 {
        significand(bits) * power(2, scale(bits) as nat) == (if v < 0 { -v } else { v })
    } else {
        significand(bits) == (if v < 0 { -v } else { v }) * power(2, (-scale(bits)) as nat)
    }
}

/// The bit pattern of the finite binary64 number that Rust reads from a
/// text; `None` where it reads none, or one that is not finite.
pub uninterp spec fn float_of_text(text: Seq<char>) -> Option<u64>;

/// The whole number that a text writes with a sign and digits alone, where
/// binary64 holds every whole number of that size.
pub open spec fn small_whole_text(text: Seq<char>) -> Option<int> {
    match integer_text(text, true) {
        Some(v) => if -0x20_0000_0000_0000 <= v <= 0x20_0000_0000_0000 {
            Some(v)
        } else {
            None
        },
        None => None,
    }
}

/// Calls `str::parse` for the floating-point type of the numbers of
/// `serde_json`, lets `serde_json::Number::from_f64` keep what is finite,
/// and hands out the bits of that number. The result is a function of the
/// text alone and is given the name `float_of_text`. Of the name this claims
/// what the documentation of the parsing says of texts that write a whole
/// number which binary64 holds: there is a result, and it is that number.
#[verifier::external_body]
fn float_bits(text: &str) -> (r: Option<u64>)
    ensures
        r == float_of_text(text@),
        small_whole_text(text@) is Some ==> r is Some && float_is_whole(
            r->Some_0,
            small_whole_text(text@)->Some_0,
        ),
{
    let read = text.parse().ok()?;
    serde_json::Number::from_f64(read).and_then(|n| n.as_f64()).map(|x| x.to_bits())
}

/// The `i32` nearest to the number that a text writes: the whole number
/// itself where the text writes one that binary64 holds, and else the
/// binary64 number that Rust reads from the text. `None` where the text
/// writes no number.
pub open spec fn rounded_text(s: Seq<char>) -> Option<int> {
    match small_whole_text(s) {
        Some(v) => Some(clamp(v)),
        None => match float_of_text(s) {
            Some(bits) => rounded_bits(bits),
            None => None,
        },
    }
}

/// The `i32` nearest to what a value holds: a whole number, a
/// floating-point number, or a text that writes a number.
pub open spec fn rounded(t: Tree) -> Option<int> {
    match t {
        Tree::Text(s) => rounded_text(s),
        Tree::Number(Numeral::Int(v)) => Some(clamp(v)),
        Tree::Number(Numeral::Float(bits)) => rounded_bits(bits),
        _ => None,
    }
}

/// Every power of a positive base is positive.
pub proof fn lemma_power_positive(base: int, n: nat)
    requires
        base > 0,
    ensures
        power(base, n) > 0,
    decreases n,
{
    if n > 0 {
        lemma_power_positive(base, (n - 1) as nat);
        assert(base * power(base, (n - 1) as nat) > 0) by (nonlinear_arith)
            requires
                base > 0,
                power(base, (n - 1) as nat) > 0,
        ;
    }
}

/// A power of two is no larger than a higher one.
pub proof fn lemma_power_of_two_grows(m: nat, n: nat)
    requires
        m <= n,
    ensures
        0 < power(2, m) <= power(2, n),
    decreases n,
{
    lemma_power_positive(2, m);
    if m < n {
        lemma_power_of_two_grows(m, (n - 1) as nat);
    }
}

/// A binary64 number that is a whole number is rounded to that number.
pub proof fn lemma_whole_float_rounds(bits: u64, v: int)
    requires
        float_is_whole(bits, v),
    ensures
        rounded_bits(bits) == Some(clamp(v)),
{
    let magnitude = if v < 0 { -v } else { v };
    if scale(bits) < 0 {
        let p = power(2, (-scale(bits)) as nat);
        lemma_power_positive(2, (-scale(bits)) as nat);
        let s = significand(bits);
        assert(2 * s + p == magnitude * (2 * p) + p) by (nonlinear_arith)
            requires
                s == magnitude * p,
        ;
        lemma_fundamental_div_mod_converse(2 * s + p, 2 * p, magnitude, p);
    }
}

/// The `i32` nearest to a magnitude with its sign.
fn clamp_signed(negative: bool, magnitude: u64) -> (r: i32)
    ensures
        r == clamp(if negative { -(magnitude as int) } else { magnitude as int }),
{
    if negative {
        if magnitude >= 0x8000_0000 {
            i32::MIN
        } else {
            -(magnitude as i32)
        }
    } else {
        if magnitude > 0x7fff_ffff {
            i32::MAX
        } else {
            magnitude as i32
        }
    }
}

/// Two powers of two, by their numbers.
proof fn lemma_powers_of_two()
    ensures
        power(2, 54) == 0x40_0000_0000_0000,
        power(2, 55) == 0x80_0000_0000_0000,
{
    reveal_with_fuel(power, 56);
}

/// Rounds the finite binary64 number with the bit pattern `bits` to the
/// nearest `i32`.
pub fn round_float(bits: u64) -> (r: Option<i32>)
    ensures
        match r {
            Some(v) => rounded_bits(bits) == Some(v as int),
            None => rounded_bits(bits) is None,
        },
{
    let exponent = (bits / 0x10_0000_0000_0000) % 2048;
    let fraction = bits % 0x10_0000_0000_0000;
    let negative = bits >= 0x8000_0000_0000_0000;
    if exponent == 2047 {
        return None;
    }
    if exponent >= 1075 {
        proof {
            let lift = (exponent - 1075) as nat;
            lemma_power_positive(2, lift);
            assert((0x10_0000_0000_0000 + fraction) * power(2, lift) >= 0x10_0000_0000_0000)
                by (nonlinear_arith)
                requires
                    power(2, lift) >= 1,
                    fraction >= 0,
            ;
        }
        return Some(if negative { i32::MIN } else { i32::MAX });
    }
    let significand: u64 = if exponent == 0 { fraction } else { 0x10_0000_0000_0000 + fraction };
    let shift: u64 = if exponent == 0 { 1074 } else { 1075 - exponent };
    proof {
        lemma_powers_of_two();
    }
    if shift >= 55 {
        proof {
            let p = power(2, shift as nat);
            lemma_power_of_two_grows(55, shift as nat);
            lemma_fundamental_div_mod_converse(2 * significand + p, 2 * p, 0, 2 * significand + p);
        }
        return Some(0);
    }
    let mut p: u64 = 1;
    let mut k: u64 = 0;
    while k < shift
        invariant
            k <= shift <= 54,
            p == power(2, k as nat),
            1 <= p <= 0x40_0000_0000_0000,
            power(2, 54) == 0x40_0000_0000_0000,
        decreases shift - k,
    {
        proof {
            lemma_power_of_two_grows((k + 1) as nat, 54);
        }
        p = p * 2;
        k += 1;
    }
    let magnitude = (2 * significand + p) / (2 * p);
    Some(clamp_signed(negative, magnitude))
}

/// Rounds the number that `s` writes to the nearest `i32`: the finite
/// floating-point number that Rust reads from `s` is rounded as a number of
/// a document is.
pub fn round_text(s: &str) -> (r: Option<i32>)
    ensures
        match r {
            Some(v) => rounded_text(s@) == Some(v as int),
            None => rounded_text(s@) is None,
        },
        rounded_text(s@) == (match float_of_text(s@) {
            Some(bits) => rounded_bits(bits),
            None => None,
        }),
{
    match float_bits(s) {
        Some(bits) => {
            proof {
                if small_whole_text(s@) is Some {
                    lemma_whole_float_rounds(bits, small_whole_text(s@)->Some_0);
                }
            }
            round_float(bits)
        },
        None => None,
    }
}

/// Rounds what a value holds to the nearest `i32`: a whole number, a
/// floating-point number, or a text that writes a number. A text and the
/// floating-point number that Rust reads from it are rounded alike.
pub fn round_value(v: &Json) -> (r: Option<i32>)
    ensures
        match r {
            Some(x) => rounded(v@) == Some(x as int),
            None => rounded(v@) is None,
        },
        v@ matches Tree::Text(s) ==> rounded(v@) == (match float_of_text(s) {
            Some(bits) => rounded(Tree::Number(Numeral::Float(bits))),
            None => None,
        }),
{
    match v {
        Json::Text(s) => round_text(s.as_str()),
        Json::Number(Number::PosInt(u)) => Some(clamp_signed(false, *u)),
        Json::Number(Number::NegInt(i)) => Some(
            if *i < -0x8000_0000 {
                i32::MIN
            } else if *i > 0x7fff_ffff {
                i32::MAX
            } else {
                *i as i32
            },
        ),
        Json::Number(Number::Float(bits)) => round_float(*bits),
        _ => None,
    }
}

} // verus!
