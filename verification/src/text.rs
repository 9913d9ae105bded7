use vstd::prelude::*;

verus! {

/// The character of a decimal digit `d` (0 to 9).
pub open spec fn digit_char(d: nat) -> char {
    (48 + d) as char
}

/// The decimal representation of `n`, with no leading zeros ("0" for zero).
pub open spec fn decimal(n: nat) -> Seq<char>
    decreases n,
{
    if n < 10 {
        seq![digit_char(n)]
    } else {
        decimal(n / 10).push(digit_char(n % 10))
    }
}

/// The decimal representation of a signed number: a '-' before the digits of its
/// magnitude when it is negative.
pub open spec fn signed_decimal(n: int) -> Seq<char> {
    if n < 0 {
        seq!['-'] + decimal((-n) as nat)
    } else {
        decimal(n as nat)
    }
}

/// `String::push`: appends the character to the end of the string.
#[verifier::external_body]
pub(crate) fn push_char(s: &mut String, c: char)
    ensures
        final(s)@ == old(s)@.push(c),
{
    s.push(c);
}

/// The character of the decimal digit `d`.
fn digit(d: u64) -> (c: char)
    requires
        d < 10,
    ensures
        c == digit_char(d as nat),
{
    let c = match d {
        0 => '0',
        1 => '1',
        2 => '2',
        3 => '3',
        4 => '4',
        5 => '5',
        6 => '6',
        7 => '7',
        8 => '8',
        _ => '9',
    };
    assert(c == digit_char(d as nat)) by {
        assert(('0' as u32) == 48);
    }
    c
}

/// Append the decimal representation of `n` to `s`.
pub fn push_decimal(s: &mut String, n: u64)
    ensures
        final(s)@ == old(s)@ + decimal(n as nat),
{
    // Digits from the least significant one on.
    let mut reversed: Vec<char> = Vec::new();
    let mut m: u64 = n;
    while m >= 10
        invariant
            decimal(n as nat) == decimal(m as nat) + reversed@.reverse(),
        decreases m,
    {
        let ghost before = reversed@;
        reversed.push(digit(m % 10));
        assert(decimal(m as nat) == decimal((m / 10) as nat).push(digit_char((m % 10) as nat)));
        assert(reversed@.reverse() =~= seq![digit_char((m % 10) as nat)] + before.reverse());
        assert(decimal(m as nat) + before.reverse() =~= decimal((m / 10) as nat) + reversed@.reverse());
        m = m / 10;
    }
    reversed.push(digit(m));
    assert(reversed@.reverse() =~= decimal(n as nat));
    let ghost start = s@;
    let mut k: usize = reversed.len();
    while k > 0
        invariant
            k <= reversed@.len(),
            s@ == start + reversed@.reverse().take(reversed@.len() - k),
        decreases k,
    {
        k = k - 1;
        push_char(s, reversed[k]);
        assert(reversed@.reverse().take(reversed@.len() - k) =~= reversed@.reverse().take(reversed@.len() - k - 1).push(reversed@[k as int]));
    }
    assert(reversed@.reverse().take(reversed@.len() as int) =~= reversed@.reverse());
}

/// Append the decimal representation of the signed number `n` to `s`.
pub fn push_signed_decimal(s: &mut String, n: i64)
    ensures
        final(s)@ == old(s)@ + signed_decimal(n as int),
{
    if n < 0 {
        push_char(s, '-');
        let magnitude: u64 = if n == i64::MIN {
            9223372036854775808u64
        } else {
            (-n) as u64
        };
        push_decimal(s, magnitude);
        assert(s@ =~= old(s)@ + signed_decimal(n as int));
    } else {
        push_decimal(s, n as u64);
    }
}

} // verus!
