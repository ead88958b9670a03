//! Decimal digits of an integer and their order.

use vstd::prelude::*;

verus! {

/// The last decimal digit of `x`, carrying the sign of `x`.
pub open spec fn spec_last_digit(x: int) -> int {
    if x >= 0 {
        x % 10
    } else {
        -((-x) % 10)
    }
}

/// The decimal digits of `n`, most significant first. Zero has the single
/// digit 0; no other number has a leading zero.
pub open spec fn decimal_digits(n: nat) -> Seq<int>
    decreases n,
{
    if n < 10 {
        seq![n as int]
    } else {
        decimal_digits(n / 10).push((n % 10) as int)
    }
}

/// No element of `s` is smaller than an element that comes after it.
pub open spec fn non_increasing(s: Seq<int>) -> bool {
    forall|i: int, j: int| 0 <= i <= j < s.len() ==> s[i] >= s[j]
}

/// What `is_decreasing` decides: a positive number passes when its digits,
/// read from the most significant one, never go up. Zero and the negative
/// numbers pass without a look at their digits.
pub open spec fn spec_is_decreasing(x: int) -> bool {
    x <= 0 || non_increasing(decimal_digits(x as nat))
}

/// Every number has at least one digit, each digit lies between 0 and 9, and
/// the last of them is the remainder modulo ten.
pub proof fn lemma_decimal_digits(n: nat)
    ensures
        decimal_digits(n).len() >= 1,
        decimal_digits(n).last() == n % 10,
        forall|i: int| 0 <= i < decimal_digits(n).len() ==> 0 <= #[trigger] decimal_digits(n)[i] <= 9,
    decreases n,
{
    if n >= 10 {
        lemma_decimal_digits(n / 10);
    }
}

/// Appending one digit keeps the order exactly when the digits before it are
/// in order and the digit appended is no larger than the one before it.
pub proof fn lemma_non_increasing_step(n: nat)
    requires
        n >= 10,
    ensures
        non_increasing(decimal_digits(n)) <==> (non_increasing(decimal_digits(n / 10)) && (n / 10) % 10
            >= n % 10),
{
    let front = decimal_digits(n / 10);
    let all = decimal_digits(n);
    lemma_decimal_digits(n / 10);
    assert(all == front.push((n % 10) as int));
    if non_increasing(all) {
        assert forall|i: int, j: int| 0 <= i <= j < front.len() implies front[i] >= front[j] by {
            assert(all[i] >= all[j]);
        }
        assert(all[front.len() - 1] >= all[front.len() as int]);
    }
    if non_increasing(front) && (n / 10) % 10 >= n % 10 {
        assert forall|i: int, j: int| 0 <= i <= j < all.len() implies all[i] >= all[j] by {
            if j < front.len() {
                assert(front[i] >= front[j]);
            } else if i < front.len() {
                assert(front[i] >= front[front.len() - 1]);
            }
        }
    }
}

/// Returns the last decimal digit of `x`; for a negative `x` the digit is
/// negated, so the result lies strictly between -10 and 10.
pub fn last_digit(x: i64) -> (d: i64)
    ensures
        d == spec_last_digit(x as int),
        -10 < d < 10,
{
    x - (x / 10) * 10
}

/// Decides whether the decimal digits of `x`, read from the most significant
/// one, never go up. Equal neighbours are allowed. Every `x` that is not
/// positive passes.
pub fn is_decreasing(x: i64) -> (r: bool)
    ensures
        r == spec_is_decreasing(x as int),
{
    let mut tmp: i64 = x;
    let mut prev: i64 = -1;
    while tmp > 0
        invariant
            -1 <= prev <= 9,
            x > 0 ==> 0 <= tmp <= x,
            x <= 0 ==> tmp == x,
            x > 0 ==> (non_increasing(decimal_digits(x as nat)) <==> (tmp > 0 ==> non_increasing(
                decimal_digits(tmp as nat),
            ) && tmp % 10 >= prev)),
        decreases tmp,
    {
        let digit: i64 = last_digit(tmp);
        if digit < prev {
            return false;
        }
        proof {
            if tmp >= 10 {
                lemma_non_increasing_step(tmp as nat);
            } else {
                assert(non_increasing(decimal_digits(tmp as nat)));
            }
        }
        prev = digit;
        tmp = tmp / 10;
    }
    true
}

} // verus!
