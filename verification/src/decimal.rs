use vstd::prelude::*;

verus! {

/// The character of a decimal digit.
pub open spec fn digit_char(d: int) -> char
    recommends
        0 <= d < 10,
{
    if d == 0 { '0' }
    else if d == 1 { '1' }
    else if d == 2 { '2' }
    else if d == 3 { '3' }
    else if d == 4 { '4' }
    else if d == 5 { '5' }
    else if d == 6 { '6' }
    else if d == 7 { '7' }
    else if d == 8 { '8' }
    else { '9' }
}

/// The decimal digits of a natural number, most significant first, without
/// leading zeros ("0" for zero).
pub open spec fn natural_digits(n: nat) -> Seq<char>
    decreases n,
{
    if n < 10 {
        seq![digit_char(n as int)]
    } else {
        natural_digits(n / 10).push(digit_char((n % 10) as int))
    }
}

/// How an integer is written in decimal: a minus sign for negative numbers,
/// then its digits.
pub open spec fn decimal_text(n: int) -> Seq<char> {
    if n < 0 {
        seq!['-'] + natural_digits((-n) as nat)
    } else {
        natural_digits(n as nat)
    }
}

fn digit_to_char(d: u64) -> (c: char)
    requires
        d < 10,
    ensures
        c == digit_char(d as int),
{
    if d == 0 { '0' }
    else if d == 1 { '1' }
    else if d == 2 { '2' }
    else if d == 3 { '3' }
    else if d == 4 { '4' }
    else if d == 5 { '5' }
    else if d == 6 { '6' }
    else if d == 7 { '7' }
    else if d == 8 { '8' }
    else { '9' }
}

/// Appends one character to a string (`String::push`).
#[verifier::external_body]
fn push_char(s: &mut String, c: char)
    ensures
        final(s)@ == old(s)@.push(c),
{
    s.push(c);
}

/// The digits of `n`, least significant first.
fn reversed_digits(n: u64) -> (digits: Vec<char>)
    ensures
        digits@.reverse() == natural_digits(n as nat),
{
    let mut rest: u64 = n;
    let mut digits: Vec<char> = Vec::new();
    assert(digits@.reverse() + natural_digits(n as nat) =~= natural_digits(n as nat));
    while rest >= 10
        invariant
            natural_digits(rest as nat) + digits@.reverse() == natural_digits(n as nat),
        decreases rest,
    {
        let d = rest % 10;
        let c = digit_to_char(d);
        proof {
            let r = rest as nat;
            assert(natural_digits(r) == natural_digits(r / 10).push(c));
            assert(digits@.push(c).reverse() =~= seq![c] + digits@.reverse());
            assert(natural_digits(r / 10) + seq![c] + digits@.reverse()
                =~= natural_digits(r / 10).push(c) + digits@.reverse());
        }
        digits.push(c);
        rest = rest / 10;
    }
    let c = digit_to_char(rest);
    proof {
        assert(natural_digits(rest as nat) == seq![c]);
        assert(digits@.push(c).reverse() =~= seq![c] + digits@.reverse());
    }
    digits.push(c);
    digits
}

/// Writes an `i32` in decimal, as its `Display` does (`i32::to_string`).
pub fn i32_to_decimal(n: i32) -> (text: String)
    ensures
        text@ == decimal_text(n as int),
{
    let mut text = String::new();
    let magnitude: u64;
    if n < 0 {
        push_char(&mut text, '-');
        magnitude = (0 - (n as i64)) as u64;
    } else {
        magnitude = n as u64;
    }
    let digits = reversed_digits(magnitude);
    let ghost start = text@;
    let mut i: usize = digits.len();
    while i > 0
        invariant
            i <= digits.len(),
            text@ == start + digits@.reverse().subrange(0, (digits.len() - i) as int),
        decreases i,
    {
        i = i - 1;
        let c = digits[i];
        proof {
            let k = (digits.len() - i) as int;
            assert(digits@.reverse()[k - 1] == c);
            assert(digits@.reverse().subrange(0, k) =~= digits@.reverse().subrange(0, k - 1).push(c));
        }
        push_char(&mut text, c);
    }
    assert(digits@.reverse().subrange(0, digits.len() as int) =~= digits@.reverse());
    text
}

} // verus!
