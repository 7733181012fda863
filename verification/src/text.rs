//! Text building: decimal and hexadecimal numbers, padding, concatenation.
//!
//! Strings are modelled by their sequence of characters. Every function here
//! states the exact characters it produces.

use vstd::prelude::*;
use vstd::string::*;

verus! {

/// `String::push` appends one character at the end.
pub assume_specification[ String::push ](s: &mut String, ch: char)
    ensures
        final(s)@ == old(s)@.push(ch),
;

/// `String::pop` removes and returns the last character, or returns `None`
/// on an empty string, which it leaves empty.
pub assume_specification[ String::pop ](s: &mut String) -> (ch: Option<char>)
    ensures
        old(s)@.len() == 0 ==> ch is None && final(s)@ == old(s)@,
        old(s)@.len() > 0 ==> ch == Some(old(s)@.last()) && final(s)@ == old(s)@.drop_last(),
;

/// The character of a decimal digit.
pub open spec fn digit(d: int) -> char {
    if d == 0 {
        '0'
    } else if d == 1 {
        '1'
    } else if d == 2 {
        '2'
    } else if d == 3 {
        '3'
    } else if d == 4 {
        '4'
    } else if d == 5 {
        '5'
    } else if d == 6 {
        '6'
    } else if d == 7 {
        '7'
    } else if d == 8 {
        '8'
    } else {
        '9'
    }
}

/// `n` in decimal, without leading zeros.
pub open spec fn decimal(n: nat) -> Seq<char>
    decreases n,
{
    if n < 10 {
        seq![digit(n as int)]
    } else {
        decimal(n / 10).push(digit((n % 10) as int))
    }
}

/// `n` in decimal, with a minus sign where it is negative.
pub open spec fn signed_decimal(n: int) -> Seq<char> {
    if n < 0 {
        seq!['-'] + decimal((-n) as nat)
    } else {
        decimal(n as nat)
    }
}

/// `n` in decimal, always with its sign.
pub open spec fn plus_decimal(n: int) -> Seq<char> {
    if n < 0 {
        seq!['-'] + decimal((-n) as nat)
    } else {
        seq!['+'] + decimal(n as nat)
    }
}

/// `count` times the same character.
pub open spec fn repeated(ch: char, count: int) -> Seq<char> {
    Seq::new(
        if count < 0 {
            0
        } else {
            count as nat
        },
        |i: int| ch,
    )
}

/// `text` followed by as many spaces as bring it to `width` characters.
/// A text that is already as wide stays as it is.
pub open spec fn pad_end(text: Seq<char>, width: int) -> Seq<char> {
    text + repeated(' ', width - text.len())
}

/// `n` in decimal with leading zeros up to `width` digits.
pub open spec fn zero_padded(n: nat, width: int) -> Seq<char> {
    repeated('0', width - decimal(n).len()) + decimal(n)
}

/// The character of an upper-case hexadecimal digit.
pub open spec fn hex_digit(d: int) -> char {
    if d < 10 {
        digit(d)
    } else if d == 10 {
        'A'
    } else if d == 11 {
        'B'
    } else if d == 12 {
        'C'
    } else if d == 13 {
        'D'
    } else if d == 14 {
        'E'
    } else {
        'F'
    }
}

/// One byte as two upper-case hexadecimal digits.
pub open spec fn hex_byte(b: u8) -> Seq<char> {
    seq![hex_digit(b as int / 16), hex_digit(b as int % 16)]
}

/// The comma-separated hexadecimal bytes of a list, without its brackets.
pub open spec fn hex_items(bytes: Seq<u8>) -> Seq<char>
    decreases bytes.len(),
{
    if bytes.len() == 0 {
        seq![]
    } else if bytes.len() == 1 {
        hex_byte(bytes[0])
    } else {
        hex_items(bytes.drop_last()) + ", "@ + hex_byte(bytes.last())
    }
}

/// A list of bytes as it is shown to an operator: `[AA, 55]`.
pub open spec fn hex_list(bytes: Seq<u8>) -> Seq<char> {
    "["@ + hex_items(bytes) + "]"@
}

/// The characters of a string slice, as a text of their own.
pub fn text(s: &str) -> (r: String)
    ensures
        r@ == s@,
{
    s.to_owned()
}

/// Append a text to another.
pub fn push_text(out: &mut String, s: &str)
    ensures
        final(out)@ == old(out)@ + s@,
{
    out.append(s);
}

pub fn digit_char(d: u8) -> (r: char)
    requires
        d < 10,
    ensures
        r == digit(d as int),
{
    match d {
        0 => '0',
        1 => '1',
        2 => '2',
        3 => '3',
        4 => '4',
        5 => '5',
        6 => '6',
        7 => '7',
        8 => '8',
        _ => '9',
    }
}

pub fn hex_char(d: u8) -> (r: char)
    requires
        d < 16,
    ensures
        r == hex_digit(d as int),
{
    match d {
        10 => 'A',
        11 => 'B',
        12 => 'C',
        13 => 'D',
        14 => 'E',
        15 => 'F',
        _ => digit_char(d),
    }
}

/// Append `n` in decimal.
pub fn push_decimal(out: &mut String, n: u64)
    ensures
        final(out)@ == old(out)@ + decimal(n as nat),
    decreases n,
{
    let ghost before = out@;
    if n < 10 {
        out.push(digit_char(n as u8));
        assert(out@ =~= before + decimal(n as nat));
    } else {
        push_decimal(out, n / 10);
        out.push(digit_char((n % 10) as u8));
        assert(out@ =~= before + decimal(n as nat));
    }
}

/// `n` in decimal.
pub fn decimal_text(n: u64) -> (r: String)
    ensures
        r@ == decimal(n as nat),
{
    let mut out = String::new();
    push_decimal(&mut out, n);
    assert(out@ =~= decimal(n as nat));
    out
}

/// The distance of `n` from zero.
fn magnitude(n: i64) -> (r: u64)
    ensures
        r == (if n < 0 {
            -(n as int)
        } else {
            n as int
        }),
{
    if n >= 0 {
        n as u64
    } else {
        ((-(n + 1)) as u64) + 1
    }
}

/// Append `n` in decimal, with a minus sign where it is negative.
pub fn push_signed(out: &mut String, n: i64)
    ensures
        final(out)@ == old(out)@ + signed_decimal(n as int),
{
    let ghost before = out@;
    if n < 0 {
        out.push('-');
    }
    push_decimal(out, magnitude(n));
    assert(out@ =~= before + signed_decimal(n as int));
}

/// Append `n` in decimal, always with its sign.
pub fn push_plus_signed(out: &mut String, n: i64)
    ensures
        final(out)@ == old(out)@ + plus_decimal(n as int),
{
    let ghost before = out@;
    if n < 0 {
        out.push('-');
    } else {
        out.push('+');
    }
    push_decimal(out, magnitude(n));
    assert(out@ =~= before + plus_decimal(n as int));
}

/// Append the same character `count` times.
pub fn push_repeated(out: &mut String, ch: char, count: usize)
    ensures
        final(out)@ == old(out)@ + repeated(ch, count as int),
{
    let ghost before = out@;
    let mut i: usize = 0;
    while i < count
        invariant
            i <= count,
            out@ == before + repeated(ch, i as int),
        decreases count - i,
    {
        out.push(ch);
        i += 1;
        assert(out@ =~= before + repeated(ch, i as int));
    }
}

/// Append a text and pad it with spaces to `width` characters.
pub fn push_padded(out: &mut String, s: &str, width: usize)
    ensures
        final(out)@ == old(out)@ + pad_end(s@, width as int),
{
    let ghost before = out@;
    out.append(s);
    let len: usize = s.unicode_len();
    if len < width {
        push_repeated(out, ' ', width - len);
    }
    assert(out@ =~= before + pad_end(s@, width as int));
}

/// Append `n` in decimal with leading zeros up to `width` digits.
pub fn push_zero_padded(out: &mut String, n: u64, width: usize)
    ensures
        final(out)@ == old(out)@ + zero_padded(n as nat, width as int),
{
    let ghost before = out@;
    let digits = decimal_text(n);
    let len: usize = digits.as_str().unicode_len();
    if len < width {
        push_repeated(out, '0', width - len);
    }
    out.append(digits.as_str());
    assert(out@ =~= before + zero_padded(n as nat, width as int));
}

/// A list of bytes as it is shown to an operator: `[AA, 55]`.
pub fn hex_list_text(bytes: &[u8]) -> (r: String)
    ensures
        r@ == hex_list(bytes@),
{
    let mut out = text("[");
    let ghost open = "["@;
    let mut i: usize = 0;
    while i < bytes.len()
        invariant
            i <= bytes@.len(),
            open == "["@,
            out@ == open + hex_items(bytes@.take(i as int)),
        decreases bytes@.len() - i,
    {
        let ghost before = out@;
        let ghost done = bytes@.take(i as int);
        if i > 0 {
            out.append(", ");
        }
        let b: u8 = bytes[i];
        out.push(hex_char(b / 16));
        out.push(hex_char(b % 16));
        proof {
            let next = bytes@.take(i + 1);
            assert(next.drop_last() =~= done);
            assert(next.last() == b);
            assert(out@ =~= open + hex_items(next));
        }
        i += 1;
    }
    assert(bytes@.take(bytes@.len() as int) =~= bytes@);
    out.append("]");
    out
}

/// The value of a digit, by where it stands among the characters. `None` for
/// any other character.
pub open spec fn char_value(c: char) -> Option<int> {
    if '0' as int <= c as int <= '9' as int {
        Some(c as int - '0' as int)
    } else {
        None
    }
}

/// The number that the digits of a text make up, read from left to right with
/// everything between them left out.
pub open spec fn read_number(s: Seq<char>) -> int
    decreases s.len(),
{
    if s.len() == 0 {
        0
    } else {
        match char_value(s.last()) {
            Some(d) => read_number(s.drop_last()) * 10 + d,
            None => read_number(s.drop_last()),
        }
    }
}

/// Whether a text is made of digits alone.
pub open spec fn all_digits(s: Seq<char>) -> bool {
    forall|i: int| 0 <= i < s.len() ==> char_value(#[trigger] s[i]) is Some
}

/// Whether a text has no digit in it.
pub open spec fn no_digits(s: Seq<char>) -> bool {
    forall|i: int| 0 <= i < s.len() ==> char_value(#[trigger] s[i]) is None
}

/// A number written in decimal is read back. It has no digit too many: only
/// zero itself starts with a zero.
pub proof fn a_written_number_reads_back(n: nat)
    ensures
        read_number(decimal(n)) == n,
        all_digits(decimal(n)),
        decimal(n).len() > 0,
        decimal(n)[0] == '0' ==> n == 0 && decimal(n).len() == 1,
    decreases n,
{
    reveal_with_fuel(read_number, 2);
    if n < 10 {
        assert(decimal(n).drop_last() =~= Seq::<char>::empty());
    } else {
        a_written_number_reads_back(n / 10);
        assert(decimal(n).drop_last() =~= decimal(n / 10));
    }
}

/// Two numbers that are written alike are the same.
pub proof fn numbers_are_not_written_alike(a: nat, b: nat)
    ensures
        decimal(a) == decimal(b) ==> a == b,
{
    a_written_number_reads_back(a);
    a_written_number_reads_back(b);
}

/// A signed number is read back behind its sign, which is there where it is
/// asked for and says which side of zero the number is on.
pub proof fn a_signed_number_reads_back(n: int)
    ensures
        read_number(signed_decimal(n)) == (if n < 0 {
            -n
        } else {
            n
        }),
        read_number(plus_decimal(n)) == (if n < 0 {
            -n
        } else {
            n
        }),
        n < 0 <==> signed_decimal(n)[0] == '-',
        n >= 0 ==> char_value(signed_decimal(n)[0]) is Some,
        n < 0 <==> plus_decimal(n)[0] == '-',
        n >= 0 <==> plus_decimal(n)[0] == '+',
{
    let m = if n < 0 {
        -n
    } else {
        n
    };
    a_written_number_reads_back(m as nat);
    number_behind(seq!['-'], decimal(m as nat));
    number_behind(seq!['+'], decimal(m as nat));
}

/// What stands in front of a number without being one does not change it.
pub proof fn number_behind(front: Seq<char>, s: Seq<char>)
    requires
        no_digits(front),
    ensures
        read_number(front + s) == read_number(s),
    decreases front.len() + s.len(),
{
    if s.len() > 0 {
        assert((front + s).drop_last() =~= front + s.drop_last());
        number_behind(front, s.drop_last());
    } else if front.len() > 0 {
        assert(front + s =~= front);
        assert(front.drop_last() + s =~= front.drop_last());
        number_behind(front.drop_last(), s);
    }
}

/// Neither does what stands behind it.
pub proof fn number_before(s: Seq<char>, back: Seq<char>)
    requires
        no_digits(back),
    ensures
        read_number(s + back) == read_number(s),
    decreases back.len(),
{
    if back.len() > 0 {
        assert((s + back).drop_last() =~= s + back.drop_last());
        number_before(s, back.drop_last());
    } else {
        assert(s + back =~= s);
    }
}

/// Three digits behind a number are its thousandfold and theirs.
pub proof fn three_more_digits(s: Seq<char>, group: Seq<char>)
    requires
        group.len() == 3,
        all_digits(group),
    ensures
        read_number(s + group) == read_number(s) * 1000 + read_number(group),
{
    reveal_with_fuel(read_number, 4);
    let whole = s + group;
    assert(char_value(group[0]) is Some && char_value(group[1]) is Some && char_value(
        group[2],
    ) is Some);
    assert(whole.drop_last() =~= s + group.drop_last());
    assert(whole.drop_last().drop_last() =~= s + group.drop_last().drop_last());
    assert(whole.drop_last().drop_last().drop_last() =~= s);
    assert(group.drop_last().drop_last().drop_last() =~= Seq::<char>::empty());
}

/// A number below a thousand has three digits once zeros are put in front of
/// it, and is read back from them.
pub proof fn a_group_has_three_digits(n: nat)
    requires
        n < 1000,
    ensures
        zero_padded(n, 3).len() == 3,
        all_digits(zero_padded(n, 3)),
        read_number(zero_padded(n, 3)) == n,
{
    reveal_with_fuel(decimal, 4);
    a_written_number_reads_back(n);
    let zeros = repeated('0', 3 - decimal(n).len());
    zeros_in_front(zeros, decimal(n));
}

proof fn zeros_in_front(zeros: Seq<char>, s: Seq<char>)
    requires
        forall|i: int| 0 <= i < zeros.len() ==> #[trigger] zeros[i] == '0',
    ensures
        read_number(zeros + s) == read_number(s),
    decreases zeros.len() + s.len(),
{
    if s.len() > 0 {
        assert((zeros + s).drop_last() =~= zeros + s.drop_last());
        zeros_in_front(zeros, s.drop_last());
    } else if zeros.len() > 0 {
        assert(zeros + s =~= zeros);
        assert(zeros.drop_last() + s =~= zeros.drop_last());
        zeros_in_front(zeros.drop_last(), s);
        assert(zeros.last() == '0');
    }
}

/// Padding keeps the text in front, puts nothing but spaces behind it, and
/// makes it exactly as wide as asked where it was not wider.
pub proof fn padding_keeps_the_text(text: Seq<char>, width: nat)
    ensures
        pad_end(text, width as int).take(text.len() as int) == text,
        pad_end(text, width as int).len() == (if text.len() < width {
            width
        } else {
            text.len()
        }),
        forall|i: int|
            text.len() <= i < pad_end(text, width as int).len() ==> #[trigger] pad_end(
                text,
                width as int,
            )[i] == ' ',
{
    assert(pad_end(text, width as int).take(text.len() as int) =~= text);
}

/// The value of an upper-case hexadecimal digit, by where it stands among the
/// characters.
pub open spec fn hex_value(c: char) -> int {
    if 'A' as int <= c as int <= 'F' as int {
        c as int - 'A' as int + 10
    } else {
        c as int - '0' as int
    }
}

/// A byte is read back from its two digits, the higher one first.
pub proof fn a_written_byte_reads_back(b: u8)
    ensures
        hex_byte(b).len() == 2,
        hex_value(hex_byte(b)[0]) * 16 + hex_value(hex_byte(b)[1]) == b,
{
}

/// Every byte of a list has its place in what is shown: two digits each, in
/// order, between brackets, with a comma and a space between them.
pub proof fn a_byte_list_shows_every_byte(bytes: Seq<u8>, i: int)
    requires
        0 <= i < bytes.len(),
    ensures
        hex_list(bytes).len() == 4 * bytes.len(),
        hex_list(bytes)[0] == '[',
        hex_list(bytes).last() == ']',
        hex_value(hex_list(bytes)[1 + 4 * i]) * 16 + hex_value(hex_list(bytes)[2 + 4 * i])
            == bytes[i],
        i + 1 < bytes.len() ==> hex_list(bytes)[3 + 4 * i] == ',' && hex_list(bytes)[4 + 4 * i]
            == ' ',
{
    reveal_strlit("[");
    reveal_strlit("]");
    items_show_every_byte(bytes, i);
}

proof fn items_show_every_byte(bytes: Seq<u8>, i: int)
    requires
        0 <= i < bytes.len(),
    ensures
        hex_items(bytes).len() == 4 * bytes.len() - 2,
        hex_value(hex_items(bytes)[4 * i]) * 16 + hex_value(hex_items(bytes)[4 * i + 1])
            == bytes[i],
        i + 1 < bytes.len() ==> hex_items(bytes)[4 * i + 2] == ',' && hex_items(bytes)[4 * i + 3]
            == ' ',
    decreases bytes.len(),
{
    reveal_strlit(", ");
    a_written_byte_reads_back(bytes[i]);
    if bytes.len() > 1 {
        if i < bytes.len() - 1 {
            items_show_every_byte(bytes.drop_last(), i);
        } else {
            items_show_every_byte(bytes.drop_last(), 0);
        }
    }
}

/// Leading zeros fill a number up to a width and change nothing of it.
pub proof fn leading_zeros_change_no_number(n: nat, width: nat)
    ensures
        read_number(zero_padded(n, width as int)) == n,
        zero_padded(n, width as int).len() == (if decimal(n).len() < width {
            width
        } else {
            decimal(n).len()
        }),
        all_digits(zero_padded(n, width as int)),
{
    a_written_number_reads_back(n);
    zeros_in_front(repeated('0', width - decimal(n).len()), decimal(n));
}

} // verus!
