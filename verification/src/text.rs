//! Decimal text: how a number is written into a key, and how it is read back
//! out of one.

use vstd::prelude::*;
use vstd::string::*;
use vstd::utf8::*;

verus! {

/// What `String::from_utf8_lossy` makes of bytes that are not well-formed
/// UTF-8: a text in which a replacement character stands for what could not
/// be read.
pub uninterp spec fn lossy_text(bytes: Seq<u8>) -> Seq<char>;

/// The text that bytes are shown as: the text that they encode, and for bytes
/// that encode none, the text made of them with loss.
pub open spec fn text_of(bytes: Seq<u8>) -> Seq<char> {
    if valid_utf8(bytes) {
        decode_utf8(bytes)
    } else {
        lossy_text(bytes)
    }
}

/// `String::from_utf8_lossy`: the text that `bytes` encode; bytes that are
/// not well-formed UTF-8 come out as the standard library replaces them.
/// Nothing of this is proved.
#[verifier::external_body]
pub(crate) fn bytes_to_text(bytes: &[u8]) -> (text: String)
    ensures
        text@ == (if valid_utf8(bytes@) {
            decode_utf8(bytes@)
        } else {
            lossy_text(bytes@)
        }),
{
    String::from_utf8_lossy(bytes).into_owned()
}

/// The character that stands for the digit `d`.
pub open spec fn digit_char(d: nat) -> char {
    if d == 0 {
        '0'
    } else if d == 1 {
        '1'
    } else if d == 2 {
        '2'
    } else if d == 3 {
        '3'
    } else if d == 4 {
        '4'
    } else if d == 5 {
        '5'
    } else if d == 6 {
        '6'
    } else if d == 7 {
        '7'
    } else if d == 8 {
        '8'
    } else {
        '9'
    }
}

/// `n` in decimal, without sign and without leading zeros.
pub open spec fn decimal(n: nat) -> Seq<char>
    decreases n,
{
    if n < 10 {
        seq![digit_char(n)]
    } else {
        decimal(n / 10).push(digit_char(n % 10))
    }
}

/// `n` in decimal, with zeros in front of it where it has fewer than `width`
/// digits. A number with more digits is written in full.
pub open spec fn zero_padded(n: nat, width: nat) -> Seq<char> {
    if decimal(n).len() >= width {
        decimal(n)
    } else {
        Seq::new((width - decimal(n).len()) as nat, |i: int| '0') + decimal(n)
    }
}

/// The byte is an ASCII digit.
pub open spec fn is_digit(byte: u8) -> bool {
    48 <= byte <= 57
}

/// Every byte is an ASCII digit.
pub open spec fn all_digits(digits: Seq<u8>) -> bool {
    forall|i: int| 0 <= i < digits.len() ==> is_digit(#[trigger] digits[i])
}

/// The number that a string of ASCII digits writes.
pub open spec fn digits_value(digits: Seq<u8>) -> nat
    decreases digits.len(),
{
    if digits.len() == 0 {
        0
    } else {
        digits_value(digits.drop_last()) * 10 + (digits.last() - 48) as nat
    }
}

/// The digits of a number text: the text without a plus sign in front.
pub open spec fn unsigned_part(text: Seq<u8>) -> Seq<u8> {
    if text.len() > 0 && text[0] == 43 {
        text.drop_first()
    } else {
        text
    }
}

/// The number that `text` writes, read as `str::parse::<u32>` reads it: one
/// or more ASCII digits, after a plus sign or none, that stay within `u32`.
/// Leading zeros count for nothing; any other byte, and no digit at all, give
/// `None`.
pub open spec fn parse_u32(text: Seq<u8>) -> Option<u32> {
    let digits = unsigned_part(text);
    if digits.len() > 0 && all_digits(digits) && digits_value(digits) <= u32::MAX {
        Some(digits_value(digits) as u32)
    } else {
        None
    }
}

/// A longer string of digits writes no smaller a number than its beginning.
pub proof fn lemma_digits_value_grows(digits: Seq<u8>, i: int)
    requires
        all_digits(digits),
        0 <= i <= digits.len(),
    ensures
        digits_value(digits.subrange(0, i)) <= digits_value(digits),
    decreases digits.len() - i,
{
    if i == digits.len() {
        assert(digits.subrange(0, i) =~= digits);
    } else {
        lemma_digits_value_grows(digits, i + 1);
        let longer = digits.subrange(0, i + 1);
        assert(longer.drop_last() =~= digits.subrange(0, i));
        assert(is_digit(digits[i]));
    }
}

/// The one-character text of a digit.
fn digit_text(d: u32) -> (text: &'static str)
    requires
        d < 10,
    ensures
        text@ == seq![digit_char(d as nat)],
{
    proof {
        reveal_strlit("0");
        reveal_strlit("1");
        reveal_strlit("2");
        reveal_strlit("3");
        reveal_strlit("4");
        reveal_strlit("5");
        reveal_strlit("6");
        reveal_strlit("7");
        reveal_strlit("8");
        reveal_strlit("9");
    }
    let text: &'static str = if d == 0 {
        "0"
    } else if d == 1 {
        "1"
    } else if d == 2 {
        "2"
    } else if d == 3 {
        "3"
    } else if d == 4 {
        "4"
    } else if d == 5 {
        "5"
    } else if d == 6 {
        "6"
    } else if d == 7 {
        "7"
    } else if d == 8 {
        "8"
    } else {
        "9"
    };
    assert(text@ =~= seq![digit_char(d as nat)]);
    text
}

/// Writes `n` in decimal at the end of `text`.
pub fn append_decimal(text: &mut String, n: u32)
    ensures
        final(text)@ == old(text)@ + decimal(n as nat),
    decreases n,
{
    if n >= 10 {
        append_decimal(text, n / 10);
    }
    text.append(digit_text(n % 10));
    assert(text@ =~= old(text)@ + decimal(n as nat));
}

/// The number of digits that `n` has in decimal.
pub fn decimal_len(n: u32) -> (len: usize)
    ensures
        len == decimal(n as nat).len(),
        1 <= len <= 10,
    decreases n,
{
    if n >= 10 {
        let shorter: usize = decimal_len(n / 10);
        assert(shorter <= 9) by {
            lemma_decimal_len_bound((n / 10) as nat);
        }
        shorter + 1
    } else {
        1
    }
}

/// A number below a power of ten has no more digits than the power has zeros.
pub proof fn lemma_decimal_len_bound(n: nat)
    ensures
        decimal(n).len() >= 1,
        n < 10 ==> decimal(n).len() == 1,
        n < 100 ==> decimal(n).len() <= 2,
        n < 1_000 ==> decimal(n).len() <= 3,
        n < 10_000 ==> decimal(n).len() <= 4,
        n < 100_000 ==> decimal(n).len() <= 5,
        n < 1_000_000 ==> decimal(n).len() <= 6,
        n < 10_000_000 ==> decimal(n).len() <= 7,
        n < 100_000_000 ==> decimal(n).len() <= 8,
        n < 1_000_000_000 ==> decimal(n).len() <= 9,
        n < 10_000_000_000 ==> decimal(n).len() <= 10,
    decreases n,
{
    if n >= 10 {
        lemma_decimal_len_bound(n / 10);
    }
}

/// Writes `n` at the end of `text`, in decimal and with zeros before it up to
/// `width` characters.
pub fn append_zero_padded(text: &mut String, n: u32, width: usize)
    ensures
        final(text)@ == old(text)@ + zero_padded(n as nat, width as nat),
{
    let digits: usize = decimal_len(n);
    let mut written: usize = digits;
    while written < width
        invariant
            digits == decimal(n as nat).len(),
            digits <= written,
            written <= width || written == digits,
            text@ == old(text)@ + Seq::new((written - digits) as nat, |i: int| '0'),
        decreases width - written,
    {
        proof {
            reveal_strlit("0");
        }
        text.append("0");
        written = written + 1;
        assert(text@ =~= old(text)@ + Seq::new((written - digits) as nat, |i: int| '0'));
    }
    let ghost zeros = text@;
    append_decimal(text, n);
    proof {
        if digits >= width {
            assert(zeros =~= old(text)@);
        }
        assert(text@ =~= old(text)@ + zero_padded(n as nat, width as nat));
    }
}

/// Reads the number that the bytes of `text` from `start` on write, as
/// [`parse_u32`] says. A start behind the end of the text gives no number.
pub fn parse_u32_from(text: &[u8], start: usize) -> (number: Option<u32>)
    ensures
        number == (if start <= text@.len() {
            parse_u32(text@.subrange(start as int, text@.len() as int))
        } else {
            None
        }),
{
    if start > text.len() {
        return None;
    }
    let ghost whole = text@.subrange(start as int, text@.len() as int);
    let mut at: usize = start;
    if at < text.len() && text[at] == 43 {
        at = at + 1;
    }
    let ghost digits = unsigned_part(whole);
    assert(digits =~= text@.subrange(at as int, text@.len() as int));
    if at == text.len() {
        return None;
    }
    let first: usize = at;
    let mut value: u64 = 0;
    while at < text.len()
        invariant
            start <= first <= at <= text@.len(),
            digits == unsigned_part(text@.subrange(start as int, text@.len() as int)),
            digits == text@.subrange(first as int, text@.len() as int),
            all_digits(digits.subrange(0, at - first)),
            value == digits_value(digits.subrange(0, at - first)),
            value <= u32::MAX,
        decreases text@.len() - at,
    {
        let byte: u8 = text[at];
        let ghost read = digits.subrange(0, at - first + 1);
        assert(read.drop_last() =~= digits.subrange(0, at - first));
        assert(read.last() == byte);
        if byte < 48 || byte > 57 {
            assert(!is_digit(digits[at - first]));
            return None;
        }
        let next: u64 = value * 10 + (byte - 48) as u64;
        assert(all_digits(read)) by {
            assert forall|i: int| 0 <= i < read.len() implies is_digit(#[trigger] read[i]) by {
                if i < at - first {
                    assert(read[i] == digits.subrange(0, at - first)[i]);
                }
            }
        }
        if next > 0xffff_ffff {
            proof {
                if all_digits(digits) {
                    lemma_digits_value_grows(digits, at - first + 1);
                }
            }
            return None;
        }
        value = next;
        at = at + 1;
    }
    assert(digits.subrange(0, at - first) =~= digits);
    Some(value as u32)
}

/// The bytes of `n` in decimal: ASCII digits, the highest first.
pub open spec fn decimal_bytes(n: nat) -> Seq<u8>
    decreases n,
{
    if n < 10 {
        seq![(48 + n) as u8]
    } else {
        decimal_bytes(n / 10).push((48 + n % 10) as u8)
    }
}

/// The encoding of two texts, one after the other, is the encoding of the
/// first followed by that of the second.
pub proof fn lemma_encode_concat(a: Seq<char>, b: Seq<char>)
    ensures
        encode_utf8(a + b) == encode_utf8(a) + encode_utf8(b),
    decreases a.len(),
{
    if a.len() == 0 {
        assert(a + b =~= b);
        assert(encode_utf8(a) + encode_utf8(b) =~= encode_utf8(b));
    } else {
        lemma_encode_concat(a.drop_first(), b);
        assert((a + b).drop_first() =~= a.drop_first() + b);
        assert(encode_utf8(a + b) =~= encode_utf8(a) + encode_utf8(b));
    }
}

/// Two texts with the same encoding are the same text.
pub proof fn lemma_encode_injective(a: Seq<char>, b: Seq<char>)
    requires
        encode_utf8(a) == encode_utf8(b),
    ensures
        a == b,
{
    encode_utf8_decode_utf8(a);
    encode_utf8_decode_utf8(b);
}

/// The encoding of `n` in decimal is its decimal bytes.
pub proof fn lemma_encode_decimal(n: nat)
    ensures
        encode_utf8(decimal(n)) == decimal_bytes(n),
    decreases n,
{
    let digit = seq![digit_char(n % 10)];
    assert(is_ascii_chars(digit));
    is_ascii_chars_encode_utf8(digit);
    assert(encode_utf8(digit) =~= seq![(48 + n % 10) as u8]);
    if n >= 10 {
        lemma_encode_decimal(n / 10);
        lemma_encode_concat(decimal(n / 10), digit);
        assert(decimal(n) =~= decimal(n / 10) + digit);
        assert(decimal_bytes(n) =~= decimal_bytes(n / 10) + seq![(48 + n % 10) as u8]);
    }
}

/// The decimal bytes of a number are digits, at least one, and write the
/// number.
pub proof fn lemma_decimal_bytes(n: nat)
    ensures
        decimal_bytes(n).len() >= 1,
        all_digits(decimal_bytes(n)),
        digits_value(decimal_bytes(n)) == n,
    decreases n,
{
    let bytes = decimal_bytes(n);
    if n >= 10 {
        lemma_decimal_bytes(n / 10);
        assert(bytes.drop_last() =~= decimal_bytes(n / 10));
        assert(bytes.last() == (48 + n % 10) as u8);
        assert forall|i: int| 0 <= i < bytes.len() implies is_digit(#[trigger] bytes[i]) by {
            if i < bytes.len() - 1 {
                assert(bytes[i] == decimal_bytes(n / 10)[i]);
            }
        }
    } else {
        assert(bytes.drop_last() =~= Seq::<u8>::empty());
        assert(bytes.last() == (48 + n) as u8);
        assert(digits_value(bytes.drop_last()) == 0);
    }
    assert(digits_value(bytes) == digits_value(bytes.drop_last()) * 10 + (bytes.last() - 48));
}

/// A number written in decimal is read back as itself.
pub proof fn lemma_parse_decimal(n: u32)
    ensures
        parse_u32(encode_utf8(decimal(n as nat))) == Some(n),
{
    lemma_encode_decimal(n as nat);
    lemma_decimal_bytes(n as nat);
    let bytes = decimal_bytes(n as nat);
    assert(is_digit(bytes[0]));
    assert(unsigned_part(bytes) == bytes);
}

/// A number in decimal has as many bytes as digits.
pub proof fn lemma_decimal_bytes_len(n: nat)
    ensures
        decimal_bytes(n).len() == decimal(n).len(),
    decreases n,
{
    if n >= 10 {
        lemma_decimal_bytes_len(n / 10);
    }
}

/// A number in decimal holds no dot.
pub proof fn lemma_decimal_without_dot(n: nat)
    ensures
        forall|i: int| 0 <= i < decimal(n).len() ==> decimal(n)[i] != '.',
    decreases n,
{
    let digits = decimal(n);
    if n >= 10 {
        lemma_decimal_without_dot(n / 10);
        assert forall|i: int| 0 <= i < digits.len() implies digits[i] != '.' by {
            if i < digits.len() - 1 {
                assert(digits[i] == decimal(n / 10)[i]);
            }
        }
    }
}

/// No byte of the encoding of a character is the byte of the dot, but the
/// one byte of the dot itself.
proof fn lemma_scalar_bytes_without_dot(c: u32)
    by (bit_vector)
    ensures
        c <= 0x7F && c != 46 ==> (c & 0x7F) as u8 != 46u8,
        (0xC0u8 | ((c >> 6) & 0x1F) as u8) != 46u8,
        (0xE0u8 | ((c >> 12) & 0x0F) as u8) != 46u8,
        (0xF0u8 | ((c >> 18) & 0x7) as u8) != 46u8,
        (0x80u8 | (c & 0x3F) as u8) != 46u8,
        (0x80u8 | ((c >> 6) & 0x3F) as u8) != 46u8,
        (0x80u8 | ((c >> 12) & 0x3F) as u8) != 46u8,
{
}

/// The encoding of a text without a dot holds no byte of a dot.
pub proof fn lemma_encode_without_dot(text: Seq<char>)
    requires
        !text.contains('.'),
    ensures
        forall|i: int| 0 <= i < encode_utf8(text).len() ==> encode_utf8(text)[i] != 46,
    decreases text.len(),
{
    if text.len() > 0 {
        let rest = text.drop_first();
        assert(!rest.contains('.')) by {
            if rest.contains('.') {
                let at = choose|at: int| 0 <= at < rest.len() && rest[at] == '.';
                assert(text[at + 1] == '.');
                assert(text.contains('.'));
            }
        }
        lemma_encode_without_dot(rest);
        assert(text.contains(text[0]));
        let c = text[0] as u32;
        assert(c != 46) by {
            if c == 46 {
                char_u32_cast(text[0], 46u32);
                char_u32_cast('.', 46u32);
            }
        }
        char_is_scalar(text[0]);
        lemma_scalar_bytes_without_dot(c);
        let first = encode_scalar(c);
        assert forall|i: int| 0 <= i < first.len() implies first[i] != 46 by {
            if has_width_1_encoding(c) {
                assert(first[i] == leading_byte_width_1(c));
            } else if has_width_2_encoding(c) {
                assert(first[0] == leading_byte_width_2(c));
                assert(first[1] == last_continuation_byte(c));
            } else if has_width_3_encoding(c) {
                assert(first[0] == leading_byte_width_3(c));
                assert(first[1] == second_last_continuation_byte(c));
                assert(first[2] == last_continuation_byte(c));
            } else {
                assert(first[0] == leading_byte_width_4(c));
                assert(first[1] == third_last_continuation_byte(c));
                assert(first[2] == second_last_continuation_byte(c));
                assert(first[3] == last_continuation_byte(c));
            }
        }
        assert(encode_utf8(text) == first + encode_utf8(rest));
        assert forall|i: int| 0 <= i < encode_utf8(text).len() implies encode_utf8(text)[i]
            != 46 by {
            if i < first.len() {
                assert(encode_utf8(text)[i] == first[i]);
            } else {
                assert(encode_utf8(text)[i] == encode_utf8(rest)[i - first.len()]);
            }
        }
    }
}

} // verus!
