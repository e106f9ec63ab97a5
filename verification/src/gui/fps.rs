use vstd::prelude::*;
use vstd::arithmetic::div_mod::lemma_fundamental_div_mod;

verus! {

/// The decimal digits of `n`, most significant first (zero is the single digit 0).
pub open spec fn digits_of(n: nat) -> Seq<u8>
    decreases n,
{
    if n < 10 {
        seq![n as u8]
    } else {
        digits_of(n / 10).push((n % 10) as u8)
    }
}

/// The number a sequence of decimal digits, most significant first, stands for.
pub open spec fn digits_value(d: Seq<u8>) -> nat
    decreases d.len(),
{
    if d.len() == 0 {
        0
    } else {
        digits_value(d.drop_last()) * 10 + d.last() as nat
    }
}

/// Law: the digits of `n` are decimal digits, there is at least one, the first is nonzero unless
/// `n` is zero, and read back they give `n`.
pub proof fn lemma_digits_round_trip(n: nat)
    ensures
        digits_of(n).len() >= 1,
        forall|i: int| 0 <= i < digits_of(n).len() ==> #[trigger] digits_of(n)[i] < 10,
        n > 0 ==> digits_of(n)[0] != 0,
        digits_value(digits_of(n)) == n,
    decreases n,
{
    if n >= 10 {
        lemma_digits_round_trip(n / 10);
        let d = digits_of(n);
        assert(d.drop_last() =~= digits_of(n / 10));
        lemma_fundamental_div_mod(n as int, 10);
        assert(digits_value(d) == digits_value(digits_of(n / 10)) * 10 + (n % 10) as nat);
        assert forall|i: int| 0 <= i < d.len() implies #[trigger] d[i] < 10 by {
            if i < d.len() - 1 {
                assert(d[i] == digits_of(n / 10)[i]);
            }
        }
    } else {
        let d = digits_of(n);
        assert(d.drop_last() =~= Seq::<u8>::empty());
        assert(digits_value(Seq::<u8>::empty()) == 0);
    }
}

/// The decimal digits of `n`, most significant first, as the frame counter draws them.
pub fn decimal_digits(n: u32) -> (r: Vec<u8>)
    ensures
        r@ == digits_of(n as nat),
    decreases n,
{
    if n < 10 {
        let mut v: Vec<u8> = Vec::new();
        v.push(n as u8);
        assert(v@ =~= seq![n as u8]);
        v
    } else {
        let mut v = decimal_digits(n / 10);
        v.push((n % 10) as u8);
        v
    }
}

/// Which of the seven segments A to G (top, upper right, lower right, bottom, lower left, upper
/// left, middle) are lit for `digit`; a value that is not a digit lights none.
pub open spec fn spec_digit_segments(digit: u8) -> [bool; 7] {
    if digit == 0 {
        [true, true, true, true, true, true, false]
    } else if digit == 1 {
        [false, true, true, false, false, false, false]
    } else if digit == 2 {
        [true, true, false, true, true, false, true]
    } else if digit == 3 {
        [true, true, true, true, false, false, true]
    } else if digit == 4 {
        [false, true, true, false, false, true, true]
    } else if digit == 5 {
        [true, false, true, true, false, true, true]
    } else if digit == 6 {
        [true, false, true, true, true, true, true]
    } else if digit == 7 {
        [true, true, true, false, false, false, false]
    } else if digit == 8 {
        [true, true, true, true, true, true, true]
    } else if digit == 9 {
        [true, true, true, true, false, true, true]
    } else {
        [false, false, false, false, false, false, false]
    }
}

/// The lit segments of a seven-segment `digit` (see `spec_digit_segments`).
pub fn digit_segments(digit: u8) -> (r: [bool; 7])
    ensures
        r == spec_digit_segments(digit),
{
    match digit {
        0 => [true, true, true, true, true, true, false],
        1 => [false, true, true, false, false, false, false],
        2 => [true, true, false, true, true, false, true],
        3 => [true, true, true, true, false, false, true],
        4 => [false, true, true, false, false, true, true],
        5 => [true, false, true, true, false, true, true],
        6 => [true, false, true, true, true, true, true],
        7 => [true, true, true, false, false, false, false],
        8 => [true, true, true, true, true, true, true],
        9 => [true, true, true, true, false, true, true],
        _ => [false, false, false, false, false, false, false],
    }
}

/// How many of the seven segments are lit.
pub open spec fn lit_count(s: [bool; 7]) -> int {
    (if s[0] { 1int } else { 0 }) + (if s[1] { 1int } else { 0 }) + (if s[2] { 1int } else { 0 })
        + (if s[3] { 1int } else { 0 }) + (if s[4] { 1int } else { 0 }) + (if s[5] { 1int } else { 0 })
        + (if s[6] { 1int } else { 0 })
}

/// Law: the digits light the usual seven-segment shapes: 0 to 9 light 6, 2, 5, 5, 4, 5, 6, 3,
/// 7 and 6 segments; only 0, 1 and 7 leave the middle bar dark; 1 lights just the two right
/// bars, 8 lights everything, and anything that is not a digit lights nothing.
pub proof fn lemma_digit_shapes(d: u8)
    ensures
        lit_count(spec_digit_segments(0)) == 6,
        lit_count(spec_digit_segments(1)) == 2,
        lit_count(spec_digit_segments(2)) == 5,
        lit_count(spec_digit_segments(3)) == 5,
        lit_count(spec_digit_segments(4)) == 4,
        lit_count(spec_digit_segments(5)) == 5,
        lit_count(spec_digit_segments(6)) == 6,
        lit_count(spec_digit_segments(7)) == 3,
        lit_count(spec_digit_segments(8)) == 7,
        lit_count(spec_digit_segments(9)) == 6,
        d < 10 ==> (!spec_digit_segments(d)[6] <==> (d == 0 || d == 1 || d == 7)),
        spec_digit_segments(1)[1] && spec_digit_segments(1)[2],
        d >= 10 ==> lit_count(spec_digit_segments(d)) == 0,
{
}

} // verus!
