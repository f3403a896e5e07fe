//! Text for error messages: numerals, and the pieces they are joined from.
use vstd::prelude::*;

verus! {

/// The character for one digit in a base of at most sixteen.
pub open spec fn digit(d: int) -> char {
    if d == 0 {
        '0'
    } else if d == 1 {
        '1'
    } else if d == 2 {
        '2'
    } else if d == 3 {
        '3'
    } else if d == 4 {
        '4'
    } else if d == 5 {
        '5'
    } else if d == 6 {
        '6'
    } else if d == 7 {
        '7'
    } else if d == 8 {
        '8'
    } else if d == 9 {
        '9'
    } else if d == 10 {
        'a'
    } else if d == 11 {
        'b'
    } else if d == 12 {
        'c'
    } else if d == 13 {
        'd'
    } else if d == 14 {
        'e'
    } else {
        'f'
    }
}

/// A number written out in `base`, most significant digit first and without
/// leading zeros.
pub open spec fn numeral(n: int, base: int) -> Seq<char>
    decreases n,
{
    if n < base || base < 2 {
        seq![digit(n)]
    } else {
        proof {
            lemma_quotient_is_smaller(n, base);
        }
        numeral(n / base, base).push(digit(n % base))
    }
}

/// Dividing by a base of at least two makes a number smaller.
pub proof fn lemma_quotient_is_smaller(n: int, base: int)
    by (nonlinear_arith)
    requires
        2 <= base <= n,
    ensures
        0 <= n / base < n,
        0 <= n % base < base,
{
}

/// A number in decimal, with a sign where it is negative.
pub open spec fn decimal(n: int) -> Seq<char> {
    if n < 0 {
        seq!['-'] + numeral(-n, 10)
    } else {
        numeral(n, 10)
    }
}

/// A number in hexadecimal, with the usual prefix.
pub open spec fn hexadecimal(n: int) -> Seq<char> {
    seq!['0', 'x'] + numeral(n, 16)
}

/// A four-character code, lowest byte first. A zero byte in the second half is
/// shown as a space.
pub open spec fn four_characters(code: u32) -> Seq<char> {
    seq![
        (code % 0x100) as char,
        (code / 0x100 % 0x100) as char,
        blank((code / 0x1_0000 % 0x100) as char),
        blank((code / 0x100_0000) as char),
    ]
}

/// A space in place of the zero character.
pub open spec fn blank(c: char) -> char {
    if c == '\0' {
        ' '
    } else {
        c
    }
}

/// Add `c` at the end of `text`.
///
/// Calls `String::push`, which appends the given character and changes nothing
/// else.
#[verifier::external_body]
fn push_char(text: &mut String, c: char)
    ensures
        final(text)@ == old(text)@.push(c),
{
    text.push(c);
}

/// Add a number in `base` at the end of `text`.
pub fn append_numeral(text: &mut String, n: u64, base: u64)
    requires
        2 <= base <= 16,
    ensures
        final(text)@ == old(text)@ + numeral(n as int, base as int),
    decreases n,
{
    let ghost before = text@;
    if n >= base {
        proof {
            lemma_quotient_is_smaller(n as int, base as int);
        }
        append_numeral(text, n / base, base);
    } else {
        proof {
            vstd::arithmetic::div_mod::lemma_small_mod(n as nat, base as nat);
        }
    }
    let d: u64 = n % base;
    let c = if d == 0 {
        '0'
    } else if d == 1 {
        '1'
    } else if d == 2 {
        '2'
    } else if d == 3 {
        '3'
    } else if d == 4 {
        '4'
    } else if d == 5 {
        '5'
    } else if d == 6 {
        '6'
    } else if d == 7 {
        '7'
    } else if d == 8 {
        '8'
    } else if d == 9 {
        '9'
    } else if d == 10 {
        'a'
    } else if d == 11 {
        'b'
    } else if d == 12 {
        'c'
    } else if d == 13 {
        'd'
    } else if d == 14 {
        'e'
    } else {
        'f'
    };
    push_char(text, c);
    assert(c == digit(n as int % base as int));
    assert(text@ == before + numeral(n as int, base as int));
}

/// Add an unsigned number in decimal at the end of `text`.
pub fn append_decimal(text: &mut String, n: u64)
    ensures
        final(text)@ == old(text)@ + decimal(n as int),
{
    append_numeral(text, n, 10);
}

/// Add a signed number in decimal at the end of `text`.
pub fn append_signed(text: &mut String, n: i32)
    ensures
        final(text)@ == old(text)@ + decimal(n as int),
{
    let wide: i64 = n as i64;
    if wide < 0 {
        push_char(text, '-');
        append_numeral(text, (-wide) as u64, 10);
    } else {
        append_numeral(text, wide as u64, 10);
    }
}

/// Add a number in hexadecimal at the end of `text`.
pub fn append_hexadecimal(text: &mut String, n: u64)
    ensures
        final(text)@ == old(text)@ + hexadecimal(n as int),
{
    push_char(text, '0');
    push_char(text, 'x');
    append_numeral(text, n, 16);
}

/// Add the four characters of a code at the end of `text`.
pub fn append_four_characters(text: &mut String, code: u32)
    ensures
        final(text)@ == old(text)@ + four_characters(code),
{
    push_char(text, (code % 0x100) as u8 as char);
    push_char(text, (code / 0x100 % 0x100) as u8 as char);
    let third: u8 = (code / 0x1_0000 % 0x100) as u8;
    push_char(text, if third == 0 { ' ' } else { third as char });
    let fourth: u8 = (code / 0x100_0000) as u8;
    push_char(text, if fourth == 0 { ' ' } else { fourth as char });
}

/// The value of one digit.
pub open spec fn value(c: char) -> int {
    if '0' <= c <= '9' {
        c as int - '0' as int
    } else {
        c as int - 'a' as int + 10
    }
}

/// What a numeral reads as, in a base.
pub open spec fn reading(text: Seq<char>, base: int) -> int
    decreases text.len(),
{
    if text.len() == 0 {
        0
    } else {
        reading(text.drop_last(), base) * base + value(text.last())
    }
}

/// A number that is written out reads as that number.
pub proof fn a_numeral_reads_as_its_number(n: int, base: int)
    requires
        0 <= n,
        2 <= base <= 16,
    ensures
        reading(numeral(n, base), base) == n,
        numeral(n, base).len() > 0,
    decreases n,
{
    reveal_with_fuel(reading, 2);
    if n < base {
        assert(seq![digit(n)].drop_last() =~= Seq::empty());
    } else {
        lemma_quotient_is_smaller(n, base);
        a_numeral_reads_as_its_number(n / base, base);
        let rest = numeral(n / base, base);
        assert(numeral(n, base).drop_last() =~= rest);
        assert((n / base) * base + n % base == n) by (nonlinear_arith)
            requires
                2 <= base,
        ;
    }
}

} // verus!
