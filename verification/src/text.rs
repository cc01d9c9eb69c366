//! Decimal and hexadecimal text.

use vstd::prelude::*;
use vstd::string::*;

verus! {

/// The decimal digit of `d`.
pub open spec fn digit(d: nat) -> char
    recommends
        d < 10,
{
    if d == 0 {
        '0'
    } else if d == 1 {
        '1'
    } else if d == 2 {
        '2'
    } else if d == 3 {
        '3'
    } else if d == 4 {
        '4'
    } else if d == 5 {
        '5'
    } else if d == 6 {
        '6'
    } else if d == 7 {
        '7'
    } else if d == 8 {
        '8'
    } else {
        '9'
    }
}

/// The decimal text of `n`, without leading zeros.
pub open spec fn decimal(n: nat) -> Seq<char>
    decreases n,
{
    if n < 10 {
        seq![digit(n)]
    } else {
        decimal(n / 10).push(digit(n % 10))
    }
}

/// The decimal text of `n`, with a minus sign when it is negative.
pub open spec fn signed_decimal(n: int) -> Seq<char> {
    if n < 0 {
        seq!['-'] + decimal((-n) as nat)
    } else {
        decimal(n as nat)
    }
}

/// The last two decimal digits of `n`.
pub open spec fn two_digits(n: nat) -> Seq<char> {
    seq![digit((n / 10) % 10), digit(n % 10)]
}

/// The last four decimal digits of `n`.
pub open spec fn four_digits(n: nat) -> Seq<char> {
    two_digits(n / 100) + two_digits(n % 100)
}

/// Whether `c` is a hexadecimal digit, in either case.
pub open spec fn is_hex_digit(c: char) -> bool {
    '0' <= c <= '9' || 'a' <= c <= 'f' || 'A' <= c <= 'F'
}

/// The value of a hexadecimal digit.
pub open spec fn hex_digit_value(c: char) -> nat
    recommends
        is_hex_digit(c),
{
    if c <= '9' {
        (c as int - '0' as int) as nat
    } else if c <= 'F' {
        (c as int - 'A' as int + 10) as nat
    } else {
        (c as int - 'a' as int + 10) as nat
    }
}

/// The number which a sequence of hexadecimal digits denotes, the most significant digit first.
pub open spec fn hex_value(digits: Seq<char>) -> nat
    decreases digits.len(),
{
    if digits.len() == 0 {
        0
    } else {
        16 * hex_value(digits.drop_last()) + hex_digit_value(digits.last())
    }
}

/// The lowercase hexadecimal digit of `d`.
pub open spec fn hex_digit(d: nat) -> char
    recommends
        d < 16,
{
    if d < 10 {
        digit(d)
    } else {
        (d - 10 + 'a' as int) as char
    }
}

/// The lowercase hexadecimal text of `bytes`: two digits per byte, the high one first.
pub open spec fn hex_text(bytes: Seq<u8>) -> Seq<char> {
    Seq::new(
        2 * bytes.len(),
        |i: int|
            if i % 2 == 0 {
                hex_digit((bytes[i / 2] / 16) as nat)
            } else {
                hex_digit((bytes[i / 2] % 16) as nat)
            },
    )
}

/// Hexadecimal text determines the bytes it was written for.
pub proof fn law_hex_text_is_injective(a: Seq<u8>, b: Seq<u8>)
    requires
        hex_text(a) == hex_text(b),
    ensures
        a == b,
{
    assert(hex_text(a).len() == 2 * a.len());
    assert(hex_text(b).len() == 2 * b.len());
    assert forall|i: int| 0 <= i < a.len() implies a[i] == b[i] by {
        assert((2 * i) / 2 == i && (2 * i + 1) / 2 == i);
        assert((2 * i) % 2 == 0 && (2 * i + 1) % 2 == 1);
        assert(hex_text(a)[2 * i] == hex_digit((a[i] / 16) as nat));
        assert(hex_text(b)[2 * i] == hex_digit((b[i] / 16) as nat));
        assert(hex_text(a)[2 * i + 1] == hex_digit((a[i] % 16) as nat));
        assert(hex_text(b)[2 * i + 1] == hex_digit((b[i] % 16) as nat));
        lemma_hex_digit_is_injective((a[i] / 16) as nat, (b[i] / 16) as nat);
        lemma_hex_digit_is_injective((a[i] % 16) as nat, (b[i] % 16) as nat);
    }
    assert(a =~= b);
}

proof fn lemma_hex_digit_is_injective(a: nat, b: nat)
    requires
        a < 16,
        b < 16,
        hex_digit(a) == hex_digit(b),
    ensures
        a == b,
{
}

/// Renders bytes in hexadecimal.
///
/// Calls `hex::encode`. The contract claims that the call writes every byte as two lowercase
/// hexadecimal digits, the high one first.
#[verifier::external_body]
pub(crate) fn hex_encode(bytes: &[u8]) -> (text: String)
    ensures
        text@ == hex_text(bytes@),
{
    hex::encode(bytes)
}

/// The text of one decimal digit.
fn digit_text(d: u64) -> (text: &'static str)
    requires
        d < 10,
    ensures
        text@ == seq![digit(d as nat)],
{
    proof {
        reveal_strlit("0");
        reveal_strlit("1");
        reveal_strlit("2");
        reveal_strlit("3");
        reveal_strlit("4");
        reveal_strlit("5");
        reveal_strlit("6");
        reveal_strlit("7");
        reveal_strlit("8");
        reveal_strlit("9");
    }
    if d == 0 {
        "0"
    } else if d == 1 {
        "1"
    } else if d == 2 {
        "2"
    } else if d == 3 {
        "3"
    } else if d == 4 {
        "4"
    } else if d == 5 {
        "5"
    } else if d == 6 {
        "6"
    } else if d == 7 {
        "7"
    } else if d == 8 {
        "8"
    } else {
        "9"
    }
}

/// Renders `n` in decimal.
pub fn to_decimal(n: u64) -> (text: String)
    ensures
        text@ == decimal(n as nat),
    decreases n,
{
    if n < 10 {
        digit_text(n).to_owned()
    } else {
        let mut text = to_decimal(n / 10);
        text.append(digit_text(n % 10));
        assert(text@ == decimal((n / 10) as nat).push(digit((n % 10) as nat)));
        text
    }
}

/// Renders `n` in decimal, with a minus sign when it is negative.
pub fn to_signed_decimal(n: i32) -> (text: String)
    ensures
        text@ == signed_decimal(n as int),
{
    if n < 0 {
        proof {
            reveal_strlit("-");
        }
        let magnitude: u64 = (-(n as i64)) as u64;
        let mut text = "-".to_owned();
        text.append(to_decimal(magnitude).as_str());
        assert(text@ == seq!['-'] + decimal((-(n as int)) as nat));
        text
    } else {
        to_decimal(n as u64)
    }
}

/// Appends the last two decimal digits of `n`.
pub fn push_two_digits(text: &mut String, n: u64)
    ensures
        final(text)@ == old(text)@ + two_digits(n as nat),
{
    text.append(digit_text((n / 10) % 10));
    text.append(digit_text(n % 10));
    assert(text@ == old(text)@ + two_digits(n as nat));
}

/// Appends the last four decimal digits of `n`.
pub fn push_four_digits(text: &mut String, n: u64)
    ensures
        final(text)@ == old(text)@ + four_digits(n as nat),
{
    push_two_digits(text, n / 100);
    push_two_digits(text, n % 100);
    assert(text@ == old(text)@ + four_digits(n as nat));
}

/// Whether a text is the expected one.
pub fn is_text(value: &String, expected: &str) -> (same: bool)
    ensures
        same == (value@ == expected@),
{
    *value == expected.to_owned()
}

// LAWS OF TEXT
// ================================================================================================

/// The number which decimal digits denote, the most significant digit first.
pub open spec fn decimal_value(digits: Seq<char>) -> int
    decreases digits.len(),
{
    if digits.len() == 0 {
        0
    } else {
        10 * decimal_value(digits.drop_last()) + (digits.last() as int - '0' as int)
    }
}

/// Decimal text denotes the number it was written for, in digits alone and without leading zeros.
pub proof fn law_decimal_text_denotes_its_number(n: nat)
    ensures
        decimal(n).len() > 0,
        forall|i: int| 0 <= i < decimal(n).len() ==> '0' <= #[trigger] decimal(n)[i] <= '9',
        decimal_value(decimal(n)) == n,
        n > 0 ==> decimal(n)[0] != '0',
        n == 0 ==> decimal(n).len() == 1,
    decreases n,
{
    if n < 10 {
        assert(decimal(n).drop_last() =~= Seq::empty());
        assert(decimal_value(decimal(n).drop_last()) == 0);
    } else {
        law_decimal_text_denotes_its_number(n / 10);
        assert(decimal(n).drop_last() =~= decimal(n / 10));
        assert(decimal(n)[0] == decimal(n / 10)[0]);
    }
}

/// Signed text is a minus sign and the magnitude for a negative number, and the number otherwise.
pub proof fn law_signed_text_denotes_its_number(n: int)
    ensures
        n < 0 ==> signed_decimal(n)[0] == '-' && decimal_value(
            signed_decimal(n).subrange(1, signed_decimal(n).len() as int),
        ) == -n,
        n >= 0 ==> decimal_value(signed_decimal(n)) == n && signed_decimal(n)[0] != '-',
{
    if n < 0 {
        law_decimal_text_denotes_its_number((-n) as nat);
        assert(signed_decimal(n).subrange(1, signed_decimal(n).len() as int) =~= decimal(
            (-n) as nat,
        ));
    } else {
        law_decimal_text_denotes_its_number(n as nat);
        assert('0' <= signed_decimal(n)[0] <= '9');
    }
}

proof fn lemma_decimal_value_of_push(digits: Seq<char>, d: nat)
    requires
        d < 10,
    ensures
        decimal_value(digits.push(digit(d))) == 10 * decimal_value(digits) + d,
{
    assert(digits.push(digit(d)).drop_last() =~= digits);
}

/// Putting two more digits behind some multiplies what they denote by a hundred.
proof fn lemma_decimal_value_of_two_more(digits: Seq<char>, n: nat)
    ensures
        decimal_value(digits + two_digits(n)) == 100 * decimal_value(digits) + n % 100,
{
    let tens = (n / 10) % 10;
    lemma_decimal_value_of_push(digits, tens);
    lemma_decimal_value_of_push(digits.push(digit(tens)), n % 10);
    assert(digits + two_digits(n) =~= digits.push(digit(tens)).push(digit(n % 10)));
    assert(n % 100 == 10 * ((n / 10) % 10) + n % 10);
}

/// Two digits and four digits are as many, and denote the number up to its hundreds and its ten
/// thousands.
pub proof fn law_padded_text_denotes_the_last_digits(n: nat)
    ensures
        two_digits(n).len() == 2,
        four_digits(n).len() == 4,
        decimal_value(two_digits(n)) == n % 100,
        decimal_value(four_digits(n)) == n % 10000,
{
    let none: Seq<char> = Seq::empty();
    lemma_decimal_value_of_two_more(none, n);
    assert(none + two_digits(n) =~= two_digits(n));
    lemma_decimal_value_of_two_more(none, n / 100);
    assert(none + two_digits(n / 100) =~= two_digits(n / 100));
    lemma_decimal_value_of_two_more(two_digits(n / 100), n % 100);
    assert(n % 10000 == 100 * ((n / 100) % 100) + n % 100);
}

/// Hexadecimal text holds two lowercase digits for each byte, which denote the byte.
pub proof fn law_hex_text_denotes_its_bytes(bytes: Seq<u8>, i: int)
    requires
        0 <= i < bytes.len(),
    ensures
        hex_text(bytes).len() == 2 * bytes.len(),
        ({
            let high = hex_text(bytes)[2 * i];
            let low = hex_text(bytes)[2 * i + 1];
            &&& '0' <= high <= '9' || 'a' <= high <= 'f'
            &&& '0' <= low <= '9' || 'a' <= low <= 'f'
            &&& 16 * hex_digit_value(high) + hex_digit_value(low) == bytes[i]
        }),
{
    assert((2 * i) / 2 == i && (2 * i + 1) / 2 == i);
    assert((2 * i) % 2 == 0 && (2 * i + 1) % 2 == 1);
    assert(hex_text(bytes)[2 * i] == hex_digit((bytes[i] / 16) as nat));
    assert(hex_text(bytes)[2 * i + 1] == hex_digit((bytes[i] % 16) as nat));
}

/// Hexadecimal digits count from zero, and the letters go on from ten, in either case. Each further
/// digit multiplies what stands before it by sixteen.
pub proof fn law_hex_digits_count_up(digits: Seq<char>, c: char)
    ensures
        is_hex_digit(c) <==> '0' <= c <= '9' || 'a' <= c <= 'f' || 'A' <= c <= 'F',
        '0' <= c <= '9' ==> hex_digit_value(c) == c as int - '0' as int,
        'a' <= c <= 'f' ==> hex_digit_value(c) == c as int - 'a' as int + 10,
        'A' <= c <= 'F' ==> hex_digit_value(c) == c as int - 'A' as int + 10,
        hex_value(Seq::empty()) == 0,
        hex_value(digits.push(c)) == 16 * hex_value(digits) + hex_digit_value(c),
{
    assert(digits.push(c).drop_last() =~= digits);
}

} // verus!
