//! Divisors, multiples and narrowing of numbers.
use vstd::arithmetic::div_mod::{
    lemma_fundamental_div_mod, lemma_fundamental_div_mod_converse, lemma_mod_multiples_basic,
};
use vstd::prelude::*;

verus! {

/// The greatest common divisor of two numbers; zero for two zeros.
pub open spec fn gcd(left: nat, right: nat) -> nat
    decreases right,
{
    if right == 0 {
        left
    } else {
        gcd(right, left % right)
    }
}

/// The least common multiple of two numbers that are not both zero.
pub open spec fn lcm(left: nat, right: nat) -> nat {
    left * (right / gcd(left, right))
}

/// The number is a multiple of the divisor.
pub open spec fn divides(divisor: nat, number: nat) -> bool {
    exists|factor: nat| number == #[trigger] (divisor * factor)
}

/// One number is a multiple of another in the sense of `is_multiple_of`.
pub open spec fn is_multiple(number: int, divisor: int) -> bool {
    if divisor == 0 {
        number == 0
    } else {
        number % divisor == 0
    }
}

proof fn lemma_divides_combination(divisor: nat, left: nat, right: nat, times: nat)
    requires
        divides(divisor, left),
        divides(divisor, right),
    ensures
        divides(divisor, left + right * times),
{
    let left_factor = choose|factor: nat| left == #[trigger] (divisor * factor);
    let right_factor = choose|factor: nat| right == #[trigger] (divisor * factor);
    assert(left + right * times == divisor * (left_factor + right_factor * times))
        by (nonlinear_arith)
        requires
            left == divisor * left_factor,
            right == divisor * right_factor,
    ;
}

proof fn lemma_divides_remainder(divisor: nat, left: nat, right: nat)
    requires
        divides(divisor, left),
        divides(divisor, right),
        right > 0,
    ensures
        divides(divisor, left % right),
{
    let left_factor = choose|factor: nat| left == #[trigger] (divisor * factor);
    let right_factor = choose|factor: nat| right == #[trigger] (divisor * factor);
    lemma_fundamental_div_mod(left as int, right as int);
    let quotient = left as int / right as int;
    let factor = left_factor - right_factor * quotient;
    assert(left % right == divisor * factor) by (nonlinear_arith)
        requires
            left == divisor * left_factor,
            right == divisor * right_factor,
            left == right * quotient + left % right,
            factor == left_factor - right_factor * quotient,
    ;
    if factor < 0 {
        assert(left % right <= 0) by (nonlinear_arith)
            requires
                left % right == divisor * factor,
                factor < 0,
        ;
        assert(left % right == divisor * 0nat);
    } else {
        assert(left % right == divisor * (factor as nat));
    }
}

/// The greatest common divisor divides both numbers, and every common divisor
/// divides it.
pub proof fn law_gcd_is_the_greatest_common_divisor(left: nat, right: nat, common: nat)
    ensures
        divides(gcd(left, right), left),
        divides(gcd(left, right), right),
        divides(common, left) && divides(common, right) ==> divides(common, gcd(left, right)),
    decreases right,
{
    if right == 0 {
        assert(left == left * 1nat) by (nonlinear_arith);
        assert(right == left * 0nat) by (nonlinear_arith)
            requires
                right == 0,
        ;
    } else {
        let remainder = left % right;
        law_gcd_is_the_greatest_common_divisor(right, remainder, common);
        let divisor = gcd(right, remainder);
        lemma_fundamental_div_mod(left as int, right as int);
        lemma_divides_combination(divisor, remainder, right, (left / right) as nat);
        assert(left == remainder + right * (left / right)) by (nonlinear_arith)
            requires
                left as int == right as int * (left as int / right as int) + left as int
                    % right as int,
                remainder == left % right,
        ;
        if divides(common, left) && divides(common, right) {
            lemma_divides_remainder(common, left, right);
        }
    }
}

/// A common divisor of two numbers that are not both zero is positive.
pub proof fn lemma_gcd_positive(left: nat, right: nat)
    requires
        left > 0 || right > 0,
    ensures
        gcd(left, right) > 0,
    decreases right,
{
    if right > 0 {
        lemma_gcd_positive(right, left % right);
    }
}

/// The least common multiple is a multiple of both numbers.
pub proof fn law_lcm_is_a_common_multiple(left: nat, right: nat)
    requires
        left > 0 || right > 0,
    ensures
        divides(left, lcm(left, right)),
        divides(right, lcm(left, right)),
{
    law_gcd_is_the_greatest_common_divisor(left, right, 1);
    lemma_gcd_positive(left, right);
    let common = gcd(left, right);
    let left_factor = choose|factor: nat| left == #[trigger] (common * factor);
    let right_factor = choose|factor: nat| right == #[trigger] (common * factor);
    assert(right == right_factor as int * common as int + 0) by (nonlinear_arith)
        requires
            right == common * right_factor,
    ;
    assert(right / common == right_factor) by {
        lemma_fundamental_div_mod_converse(right as int, common as int, right_factor as int, 0);
    }
    assert(lcm(left, right) == left * right_factor);
    assert(lcm(left, right) == right * left_factor) by (nonlinear_arith)
        requires
            lcm(left, right) == left * right_factor,
            left == common * left_factor,
            right == common * right_factor,
    ;
}

/// The greatest common divisor is a sum of multiples of the two numbers.
proof fn lemma_gcd_combines(left: nat, right: nat) -> (factors: (int, int))
    ensures
        gcd(left, right) == left * factors.0 + right * factors.1,
    decreases right,
{
    if right == 0 {
        assert(left == left * 1 + right * 0) by (nonlinear_arith);
        (1, 0)
    } else {
        let (first, second) = lemma_gcd_combines(right, left % right);
        let quotient = left as int / right as int;
        lemma_fundamental_div_mod(left as int, right as int);
        assert(right * first + (left % right) * second == left * second + right * (first
            - quotient * second)) by (nonlinear_arith)
            requires
                left == right * quotient + left % right,
        ;
        (second, first - quotient * second)
    }
}

/// Every common multiple of two numbers is a multiple of the least one.
pub proof fn law_lcm_is_the_least_common_multiple(left: nat, right: nat, multiple: nat)
    requires
        left > 0,
        right > 0,
        divides(left, multiple),
        divides(right, multiple),
    ensures
        divides(lcm(left, right), multiple),
        multiple > 0 ==> lcm(left, right) <= multiple,
{
    law_gcd_is_the_greatest_common_divisor(left, right, 1);
    lemma_gcd_positive(left, right);
    let common = gcd(left, right);
    let least = lcm(left, right);
    let right_factor = choose|factor: nat| right == #[trigger] (common * factor);
    assert(right == right_factor as int * common as int + 0) by (nonlinear_arith)
        requires
            right == common * right_factor,
    ;
    lemma_fundamental_div_mod_converse(right as int, common as int, right_factor as int, 0);
    assert(least == left * right_factor);
    let of_left = choose|factor: nat| multiple == #[trigger] (left * factor);
    let of_right = choose|factor: nat| multiple == #[trigger] (right * factor);
    let (first, second) = lemma_gcd_combines(left, right);
    let times: int = of_right * first + of_left * second;
    assert(multiple * common == (left * right) * times) by (nonlinear_arith)
        requires
            common == left * first + right * second,
            multiple == left * of_left,
            multiple == right * of_right,
            times == of_right * first + of_left * second,
    ;
    assert(multiple * common == (least * times) * common) by (nonlinear_arith)
        requires
            multiple * common == (left * right) * times,
            right == common * right_factor,
            least == left * right_factor,
    ;
    assert(multiple == least * times) by (nonlinear_arith)
        requires
            multiple * common == (least * times) * common,
            common > 0,
    ;
    if times < 0 {
        assert(least * times <= 0) by (nonlinear_arith)
            requires
                times < 0,
                least >= 0,
        ;
        assert(multiple == least * 0nat);
    } else {
        assert(multiple == least * (times as nat));
        if multiple > 0 {
            assert(least <= multiple) by (nonlinear_arith)
                requires
                    multiple == least * times,
                    multiple > 0,
                    least >= 0,
                    times >= 0,
            ;
        }
    }
}

/// A positive divisor in the sense of [`divides`] leaves no remainder.
pub proof fn lemma_divides_without_remainder(divisor: nat, number: nat)
    requires
        divisor > 0,
        divides(divisor, number),
    ensures
        number % divisor == 0,
{
    let factor = choose|factor: nat| number == #[trigger] (divisor * factor);
    lemma_mod_multiples_basic(factor as int, divisor as int);
    assert(factor as int * divisor as int == number) by (nonlinear_arith)
        requires
            number == divisor * factor,
    ;
}

/// The least common multiple of two positive numbers is positive, and neither
/// number leaves a remainder in it.
pub proof fn lemma_lcm_multiple(left: nat, right: nat)
    requires
        left > 0,
        right > 0,
    ensures
        lcm(left, right) > 0,
        lcm(left, right) % left == 0,
        lcm(left, right) % right == 0,
{
    law_lcm_is_a_common_multiple(left, right);
    lemma_divides_without_remainder(left, lcm(left, right));
    lemma_divides_without_remainder(right, lcm(left, right));
    law_gcd_is_the_greatest_common_divisor(left, right, 1);
    lemma_gcd_positive(left, right);
    let common = gcd(left, right);
    let factor = choose|factor: nat| right == #[trigger] (common * factor);
    assert(right / common >= 1) by (nonlinear_arith)
        requires
            right == common * factor,
            right > 0,
            common > 0,
    ;
    assert(lcm(left, right) > 0) by (nonlinear_arith)
        requires
            lcm(left, right) == left * (right / common),
            left > 0,
            right / common >= 1,
    ;
}

pub fn greatest_common_divisor(left: usize, right: usize) -> (result: usize)
    ensures
        result == gcd(left as nat, right as nat),
{
    let mut first: usize = left;
    let mut second: usize = right;
    while second != 0
        invariant
            gcd(first as nat, second as nat) == gcd(left as nat, right as nat),
        decreases second,
    {
        let rest: usize = first % second;
        first = second;
        second = rest;
    }
    first
}

/// The least common multiple, where it fits.
pub fn least_common_multiple(left: usize, right: usize) -> (result: Option<usize>)
    requires
        left != 0 || right != 0,
    ensures
        match result {
            Some(multiple) => multiple == lcm(left as nat, right as nat),
            None => lcm(left as nat, right as nat) > usize::MAX,
        },
{
    proof {
        lemma_gcd_positive(left as nat, right as nat);
    }
    left.checked_mul(right / greatest_common_divisor(left, right))
}

/// The number is a power of two.
pub open spec fn power_of_two(number: nat) -> bool
    decreases number,
{
    number == 1 || (number > 1 && number % 2 == 0 && power_of_two(number / 2))
}

pub fn is_power_of_two(number: usize) -> (result: bool)
    ensures
        result == power_of_two(number as nat),
{
    let mut rest: usize = number;
    while rest > 1 && rest % 2 == 0
        invariant
            power_of_two(rest as nat) == power_of_two(number as nat),
        decreases rest,
    {
        rest = rest / 2;
    }
    rest == 1
}

/// The number as `usize`, where it fits.
pub open spec fn narrowed(number: u64) -> Option<usize> {
    if number <= usize::MAX {
        Some(number as usize)
    } else {
        None
    }
}

pub fn narrow(number: u64) -> (result: Option<usize>)
    ensures
        result == narrowed(number),
{
    if number <= usize::MAX as u64 {
        Some(number as usize)
    } else {
        None
    }
}

} // verus!
