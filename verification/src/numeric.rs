//! Exact comparison of integers with floating-point numbers given by their bits.
use vstd::prelude::*;

use crate::text;
use crate::text::{decimal_text, joined};

verus! {

/// How two values compare.
#[derive(Debug, Clone, Copy, PartialEq, Eq, Structural)]
pub enum Order {
    Less,
    Equal,
    Greater,
}

pub open spec fn order_of(left: int, right: int) -> Order {
    if left < right {
        Order::Less
    } else if left == right {
        Order::Equal
    } else {
        Order::Greater
    }
}

pub fn integer_order(left: i128, right: i128) -> (res: Order)
    ensures
        res == order_of(left as int, right as int),
{
    if left < right {
        Order::Less
    } else if left == right {
        Order::Equal
    } else {
        Order::Greater
    }
}

/// Order of two texts by their code points.
pub open spec fn text_order_of(left: Seq<char>, right: Seq<char>) -> Order {
    if left == right {
        Order::Equal
    } else if text::before(left, right) {
        Order::Less
    } else {
        Order::Greater
    }
}

pub fn text_order(left: &str, right: &str) -> (res: Order)
    ensures
        res == text_order_of(left@, right@),
{
    if text::same_text(left, right) {
        Order::Equal
    } else if text::text_before(left, right) {
        Order::Less
    } else {
        Order::Greater
    }
}

/// The least significand that fills all 53 bits of a number.
pub open spec fn full() -> nat {
    4503599627370496
}

/// The bits of the number `m * 2^e`, where `m` fills the significand.
pub open spec fn packed(m: nat, e: int) -> int {
    (e + 1075) * 4503599627370496 + (m - full())
}

/// The bits of `m * 2^e`, for a significand that may have to be doubled.
pub open spec fn doubled(m: nat, e: int) -> int
    decreases 2 * full() - m,
{
    if m == 0 {
        0
    } else if m < full() {
        doubled(m * 2, e - 1)
    } else {
        packed(m, e)
    }
}

/// The bits of `m * 2^e`, for a significand that may have to be halved: none
/// where a bit would be lost.
pub open spec fn halved(m: nat, e: int) -> Option<int>
    decreases m,
{
    if m < 2 * full() {
        Some(packed(m, e))
    } else if m % 2 == 0 {
        halved(m / 2, e + 1)
    } else {
        None
    }
}

/// The bits of the double that is exactly `n`.
pub open spec fn magnitude_bits(n: nat) -> Option<int> {
    if n < 2 * full() {
        Some(doubled(n, 0))
    } else {
        halved(n, 0)
    }
}

/// The position of an integer among the doubles, where a double is exactly that
/// integer.
pub open spec fn integer_rank(n: int) -> Option<int> {
    if n >= 0 {
        magnitude_bits(n as nat)
    } else {
        match magnitude_bits((-n) as nat) {
            Some(bits) => Some(-bits),
            None => None,
        }
    }
}

pub open spec fn integer_text(n: int) -> Seq<char> {
    if n < 0 {
        "-"@ + text::decimal((-n) as nat)
    } else {
        text::decimal(n as nat)
    }
}


/// The position of the integer `n` among the doubles.
fn magnitude_rank(n: u64) -> (res: Option<i128>)
    ensures
        match res {
            Some(rank) => magnitude_bits(n as nat) == Some(rank as int) && rank > i128::MIN,
            None => magnitude_bits(n as nat) is None,
        },
{
    if n == 0 {
        return Some(0);
    }
    let mut m: u64 = n;
    let mut e: i128 = 0;
    if n < 9007199254740992 {
        while m < 4503599627370496
            invariant
                0 < m < 9007199254740992,
                e <= 0,
                -e <= m,
                doubled(n as nat, 0) == doubled(m as nat, e as int),
            decreases 9007199254740992 - m,
        {
            m = m * 2;
            e = e - 1;
        }
        return Some((e + 1075) * 4503599627370496 + (m - 4503599627370496) as i128);
    }
    while m >= 9007199254740992
        invariant
            full() <= m,
            0 <= e,
            e + m <= 18446744073709551615,
            halved(n as nat, 0) == halved(m as nat, e as int),
        decreases m,
    {
        if m % 2 == 1 {
            return None;
        }
        m = m / 2;
        e = e + 1;
    }
    Some((e + 1075) * 4503599627370496 + (m - 4503599627370496) as i128)
}

/// The position among the doubles of a signed integer of 64 bits, or of an
/// unsigned one.
pub fn rank_of_integer(n: i128) -> (res: Option<i128>)
    requires
        -9223372036854775808 <= n <= 18446744073709551615,
    ensures
        match res {
            Some(rank) => integer_rank(n as int) == Some(rank as int),
            None => integer_rank(n as int) is None,
        },
{
    if n >= 0 {
        magnitude_rank(n as u64)
    } else {
        match magnitude_rank((-n) as u64) {
            Some(rank) => Some(-rank),
            None => None,
        }
    }
}

pub fn show_integer(n: i128) -> (res: String)
    requires
        -9223372036854775808 <= n <= 18446744073709551615,
    ensures
        res@ == integer_text(n as int),
{
    if n < 0 {
        joined("-", &decimal_text((-n) as u64))
    } else {
        decimal_text(n as u64)
    }
}

// ---------------------------------------------------------------------------
// Laws
// ---------------------------------------------------------------------------
proof fn lemma_doubled_bound(m: nat, e: int)
    requires
        m < 2 * full(),
        m > 0,
    ensures
        doubled(m, e) < (e + 1076) * 4503599627370496,
    decreases 2 * full() - m,
{
    if m < full() {
        lemma_doubled_bound(m * 2, e - 1);
    }
}


proof fn lemma_doubled_order(a: nat, b: nat, e: int)
    requires
        0 < a < b < 2 * full(),
    ensures
        doubled(a, e) < doubled(b, e),
    decreases 2 * full() - a,
{
    if b < full() {
        lemma_doubled_order(a * 2, b * 2, e - 1);
    } else if a < full() {
        lemma_doubled_bound(a * 2, e - 1);
    }
}

proof fn lemma_halved_bound(m: nat, e: int)
    requires
        m >= full(),
    ensures
        halved(m, e) matches Some(bits) ==> bits >= (e + 1075) * 4503599627370496,
    decreases m,
{
    if m >= 2 * full() && m % 2 == 0 {
        lemma_halved_bound(m / 2, e + 1);
    }
}

proof fn lemma_halved_order(a: nat, b: nat, e: int)
    requires
        full() <= a < b,
        halved(a, e) is Some,
        halved(b, e) is Some,
    ensures
        halved(a, e)->0 < halved(b, e)->0,
    decreases b,
{
    if a >= 2 * full() {
        lemma_halved_order(a / 2, b / 2, e + 1);
    } else if b >= 2 * full() {
        lemma_halved_bound(b / 2, e + 1);
    }
}

/// One is the least of the positive integers, and its position is positive.
proof fn lemma_doubled_positive(n: nat)
    requires
        0 < n < 2 * full(),
    ensures
        doubled(n, 0) > 0,
{
    assert(doubled(1, 0) > 0) by {
        reveal_with_fuel(doubled, 54);
    }
    if n > 1 {
        lemma_doubled_order(1, n, 0);
    }
}

proof fn lemma_magnitude_order(a: nat, b: nat)
    requires
        a < b,
        magnitude_bits(a) is Some,
        magnitude_bits(b) is Some,
    ensures
        0 <= magnitude_bits(a)->0 < magnitude_bits(b)->0,
{
    if a > 0 && a < 2 * full() {
        lemma_doubled_positive(a);
    }
    if b < 2 * full() {
        lemma_doubled_positive(b);
        if a > 0 {
            lemma_doubled_order(a, b, 0);
        }
    } else {
        lemma_halved_bound(b / 2, 1);
        if a >= 2 * full() {
            lemma_halved_bound(a, 0);
            lemma_halved_order(a, b, 0);
        } else if a > 0 {
            lemma_doubled_bound(a, 0);
        }
    }
}

/// Integers that are doubles compare as their positions among the doubles do.
pub proof fn law_exact_integers_keep_their_order(a: int, b: int)
    requires
        integer_rank(a) is Some,
        integer_rank(b) is Some,
    ensures
        order_of(a, b) == order_of(integer_rank(a)->0, integer_rank(b)->0),
{
    if a != b {
        let (low, high) = if a < b {
            (a, b)
        } else {
            (b, a)
        };
        if low >= 0 {
            lemma_magnitude_order(low as nat, high as nat);
        } else if high < 0 {
            lemma_magnitude_order((-high) as nat, (-low) as nat);
        } else {
            lemma_magnitude_order(0, (-low) as nat);
            if high > 0 {
                lemma_magnitude_order(0, high as nat);
            }
        }
    }
}

/// Every integer of at most 53 bits is exactly a double.
pub proof fn law_small_integers_are_exact(n: int)
    requires
        -9007199254740992 <= n <= 9007199254740992,
    ensures
        integer_rank(n) is Some,
{
    reveal_with_fuel(halved, 2);
}

} // verus!
