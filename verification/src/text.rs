//! Text as the protocol writes it: comparison, decimal numbers and hexadecimal digits.

use vstd::arithmetic::div_mod::*;
use vstd::arithmetic::power::*;
use vstd::prelude::*;
use vstd::utf8::*;

verus! {

/// The character of a decimal or hexadecimal digit, letters in lower case.
pub open spec fn digit_char(d: int) -> char {
    if d == 0 {
        '0'
    } else if d == 1 {
        '1'
    } else if d == 2 {
        '2'
    } else if d == 3 {
        '3'
    } else if d == 4 {
        '4'
    } else if d == 5 {
        '5'
    } else if d == 6 {
        '6'
    } else if d == 7 {
        '7'
    } else if d == 8 {
        '8'
    } else if d == 9 {
        '9'
    } else if d == 10 {
        'a'
    } else if d == 11 {
        'b'
    } else if d == 12 {
        'c'
    } else if d == 13 {
        'd'
    } else if d == 14 {
        'e'
    } else {
        'f'
    }
}

/// The digits of `n` to base ten, most significant first, without leading zeros.
pub open spec fn decimal_digits(n: nat) -> Seq<char>
    decreases n,
{
    if n < 10 {
        seq![digit_char(n as int)]
    } else {
        decimal_digits(n / 10).push(digit_char((n % 10) as int))
    }
}

/// `n` in decimal: a minus sign where it is negative, then its digits.
pub open spec fn decimal(n: int) -> Seq<char> {
    if n < 0 {
        seq!['-'] + decimal_digits((-n) as nat)
    } else {
        decimal_digits(n as nat)
    }
}

/// The number that a row of decimal digits stands for.
pub open spec fn decimal_value(digits: Seq<char>) -> int
    decreases digits.len(),
{
    if digits.len() == 0 {
        0
    } else {
        decimal_value(digits.drop_last()) * 10 + (digits.last() as int - '0' as int)
    }
}

/// The number that a decimal numeral with an optional minus sign stands for.
pub open spec fn numeral_value(text: Seq<char>) -> int {
    if text.len() > 0 && text[0] == '-' {
        -decimal_value(text.skip(1))
    } else {
        decimal_value(text)
    }
}

/// Two texts with the same bytes are the same text.
pub(crate) proof fn lemma_encoding_is_injective(a: Seq<char>, b: Seq<char>)
    requires
        encode_utf8(a) == encode_utf8(b),
    ensures
        a == b,
{
    encode_utf8_decode_utf8(a);
    encode_utf8_decode_utf8(b);
}

/// Whether two texts are equal.
pub fn same_text(a: &str, b: &str) -> (same: bool)
    ensures
        same == (a@ == b@),
{
    let x = a.as_bytes();
    let y = b.as_bytes();
    if x.len() != y.len() {
        return false;
    }
    let mut i: usize = 0;
    while i < x.len()
        invariant
            i <= x@.len() == y@.len(),
            x@ == encode_utf8(a@),
            y@ == encode_utf8(b@),
            forall|j: int| 0 <= j < i ==> x@[j] == y@[j],
        decreases x.len() - i,
    {
        if x[i] != y[i] {
            return false;
        }
        i = i + 1;
    }
    proof {
        assert(x@ =~= y@);
        lemma_encoding_is_injective(a@, b@);
    }
    true
}

/// A text of one digit.
pub(crate) fn digit_text(d: u8) -> (text: &'static str)
    requires
        d < 16,
    ensures
        text@ == seq![digit_char(d as int)],
{
    proof {
        reveal_strlit("0");
        reveal_strlit("1");
        reveal_strlit("2");
        reveal_strlit("3");
        reveal_strlit("4");
        reveal_strlit("5");
        reveal_strlit("6");
        reveal_strlit("7");
        reveal_strlit("8");
        reveal_strlit("9");
        reveal_strlit("a");
        reveal_strlit("b");
        reveal_strlit("c");
        reveal_strlit("d");
        reveal_strlit("e");
        reveal_strlit("f");
    }
    match d {
        0 => "0",
        1 => "1",
        2 => "2",
        3 => "3",
        4 => "4",
        5 => "5",
        6 => "6",
        7 => "7",
        8 => "8",
        9 => "9",
        10 => "a",
        11 => "b",
        12 => "c",
        13 => "d",
        14 => "e",
        _ => "f",
    }
}

/// Appends the decimal digits of `n`.
fn push_decimal_digits(out: &mut String, n: u64)
    ensures
        final(out)@ == old(out)@ + decimal_digits(n as nat),
    decreases n,
{
    if n >= 10 {
        push_decimal_digits(out, n / 10);
    }
    out.append(digit_text((n % 10) as u8));
}

/// `n` in decimal.
pub fn decimal_text(n: i64) -> (text: String)
    ensures
        text@ == decimal(n as int),
{
    let mut text = String::new();
    if n < 0 {
        proof {
            reveal_strlit("-");
        }
        text.append("-");
        assert(text@ =~= seq!['-']);
        push_decimal_digits(&mut text, (-(n + 1)) as u64 + 1);
    } else {
        push_decimal_digits(&mut text, n as u64);
    }
    text
}

/// A count in decimal.
pub(crate) fn count_text(n: usize) -> (text: String)
    ensures
        text@ == decimal(n as int),
{
    let mut text = String::new();
    push_decimal_digits(&mut text, n as u64);
    assert(text@ =~= decimal(n as int));
    text
}

proof fn lemma_digit_char(d: int)
    requires
        0 <= d < 10,
    ensures
        digit_char(d) as int - '0' as int == d,
        digit_char(d) != '-',
{
}

proof fn lemma_decimal_digits_read_back(n: nat)
    ensures
        decimal_value(decimal_digits(n)) == n,
        decimal_digits(n).len() > 0,
        decimal_digits(n)[0] != '-',
    decreases n,
{
    lemma_digit_char((n % 10) as int);
    let digits = decimal_digits(n);
    if n < 10 {
        assert(digits.drop_last() =~= Seq::<char>::empty());
        assert(decimal_value(digits.drop_last()) == 0);
    } else {
        lemma_decimal_digits_read_back(n / 10);
        assert(digits.drop_last() =~= decimal_digits(n / 10));
    }
}

/// A number written in decimal reads back as that number, so no two numbers are written alike.
pub proof fn law_decimal_reads_back(n: int)
    ensures
        numeral_value(decimal(n)) == n,
{
    if n < 0 {
        lemma_decimal_digits_read_back((-n) as nat);
        assert(decimal(n).skip(1) =~= decimal_digits((-n) as nat));
    } else {
        lemma_decimal_digits_read_back(n as nat);
    }
}

/// The digit of `n` at the place of a power of ten.
spec fn digit_at(n: int, place: int) -> int {
    (n / pow(10, place as nat)) % 10
}

proof fn lemma_places(n: nat)
    ensures
        decimal_digits(n).len() > 0,
        n < pow(10, decimal_digits(n).len()),
        decimal_digits(n).len() > 1 ==> pow(10, (decimal_digits(n).len() - 1) as nat) <= n,
        forall|i: int|
            0 <= i < decimal_digits(n).len() ==> (#[trigger] decimal_digits(n)[i]) as int
                == '0' as int + digit_at(n as int, decimal_digits(n).len() - 1 - i),
    decreases n,
{
    let digits = decimal_digits(n);
    let len = digits.len();
    lemma_digit_char((n % 10) as int);
    lemma_pow0(10);
    lemma_pow1(10);
    if n >= 10 {
        let front = decimal_digits(n / 10);
        let k = front.len();
        lemma_places(n / 10);
        assert(pow(10, k + 1) == 10 * pow(10, k)) by {
            lemma_pow_adds(10, 1, k);
        }
        if k > 1 {
            assert(pow(10, k) == 10 * pow(10, (k - 1) as nat)) by {
                lemma_pow_adds(10, 1, (k - 1) as nat);
            }
        }
        assert forall|i: int| 0 <= i < len implies (#[trigger] digits[i]) as int == '0' as int
            + digit_at(n as int, len - 1 - i) by {
            if i < k {
                let place = (k - 1 - i) as nat;
                assert(digits[i] == front[i]);
                assert(front[i] as int == '0' as int + digit_at(n as int / 10, place as int));
                lemma_pow_positive(10, place);
                lemma_pow_adds(10, 1, place);
                lemma_div_denominator(n as int, 10, pow(10, place));
                assert((len - 1 - i) as nat == 1 + place);
                assert(digit_at(n as int, len - 1 - i) == digit_at(n as int / 10, place as int));
            } else {
                assert(digits[i] == digit_char((n % 10) as int));
                assert(digit_at(n as int, 0) == n % 10);
            }
        }
    } else {
        assert(digits[0] == digit_char(n as int));
        assert(digit_at(n as int, 0) == n);
    }
}

/// A number that is not negative is written with its decimal digits, each in its place and with no
/// zeros in front: the digit at a place is how often the power of ten of that place goes into the
/// number, but for whole tens of it.
pub proof fn law_decimal_digits_are_in_their_places(n: int, i: int)
    requires
        n >= 0,
        0 <= i < decimal(n).len(),
    ensures
        decimal(n)[i] as int == '0' as int + (n / pow(10, (decimal(n).len() - 1 - i) as nat)) % 10,
        '0' <= decimal(n)[i] <= '9',
        decimal(n)[0] == '0' ==> n == 0,
{
    lemma_places(n as nat);
    let digits = decimal(n);
    let len = digits.len();
    let c = digits[i];
    assert(c as int == '0' as int + digit_at(n, len - 1 - i));
    assert(0 <= digit_at(n, len - 1 - i) < 10);
    let top = pow(10, (len - 1) as nat);
    lemma_pow_positive(10, (len - 1) as nat);
    lemma_pow_adds(10, 1, (len - 1) as nat);
    lemma_pow0(10);
    lemma_pow1(10);
    let d = digits[0];
    assert(d as int == '0' as int + digit_at(n, len - 1));
    assert(0 <= n / top < 10) by (nonlinear_arith)
        requires
            0 <= n < 10 * top,
            top > 0,
    ;
    if len > 1 {
        assert(n / top >= 1) by (nonlinear_arith)
            requires
                top <= n,
                top > 0,
        ;
    }
}

/// A number that is not negative is written with as many digits as it takes, and at least one.
pub proof fn law_decimal_has_as_many_digits_as_it_takes(n: int)
    requires
        n >= 0,
    ensures
        decimal(n).len() > 0,
        n < pow(10, decimal(n).len()),
        decimal(n).len() > 1 ==> pow(10, (decimal(n).len() - 1) as nat) <= n,
{
    lemma_places(n as nat);
}

/// A negative number is written as a minus sign and then the number without it.
pub proof fn law_minus_sign_comes_first(n: int)
    requires
        n < 0,
    ensures
        decimal(n) == seq!['-'] + decimal(-n),
{
}

/// What is written of a position or of the number of a request is that number in decimal.
pub proof fn law_decimal_text_is_the_number(n: i64, text: String)
    requires
        call_ensures(decimal_text, (n,), text),
    ensures
        text@ == decimal(n as int),
        numeral_value(text@) == n,
{
    law_decimal_reads_back(n as int);
}

/// Two texts are taken for the same where they have the same characters, and nowhere else.
pub proof fn law_same_text_compares_characters(a: &str, b: &str, same: bool)
    requires
        call_ensures(same_text, (a, b), same),
    ensures
        same <==> a@.len() == b@.len() && forall|i: int|
            0 <= i < a@.len() ==> (#[trigger] a@[i]) == b@[i],
{
    if a@.len() == b@.len() && forall|i: int| 0 <= i < a@.len() ==> (#[trigger] a@[i]) == b@[i] {
        assert(a@ =~= b@);
    }
}

/// The sixteen digits: ten figures, then letters in lower case.
pub proof fn law_digits_are_figures_and_letters(d: int)
    requires
        0 <= d < 16,
    ensures
        d < 10 ==> digit_char(d) as int == '0' as int + d,
        d >= 10 ==> digit_char(d) as int == 'a' as int + d - 10,
{
}

} // verus!
