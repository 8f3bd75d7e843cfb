//! Hexadecimal text: how addresses, words, byte strings and integers are
//! written in a document.

use vstd::prelude::*;
use vstd::string::is_ascii_spec_bytes;

verus! {

/// The view of the value, if there is one.
pub open spec fn option_view<T: View>(found: Option<T>) -> Option<T::V> {
    match found {
        Some(value) => Some(value@),
        None => None,
    }
}

/// The character of a hexadecimal digit, in lower case.
pub open spec fn digit_char(nibble: u8) -> char {
    if nibble < 10 {
        (nibble + 48) as char
    } else {
        (nibble + 87) as char
    }
}

/// The digit that a character stands for, in either case, if it is a
/// hexadecimal digit.
pub open spec fn digit_value(c: char) -> Option<u8> {
    if '0' <= c <= '9' {
        Some((c as u8 - 48) as u8)
    } else if 'a' <= c <= 'f' {
        Some((c as u8 - 87) as u8)
    } else if 'A' <= c <= 'F' {
        Some((c as u8 - 55) as u8)
    } else {
        None
    }
}

/// All the characters are hexadecimal digits.
pub open spec fn is_digits(text: Seq<char>) -> bool {
    forall|i: int| 0 <= i < text.len() ==> digit_value(#[trigger] text[i]) is Some
}

/// The digits that the characters stand for.
pub open spec fn nibbles_of(text: Seq<char>) -> Seq<u8> {
    Seq::new(text.len(), |i: int| digit_value(text[i]).unwrap_or(0))
}

/// The characters of the digits, in lower case.
pub open spec fn digits_of(nibbles: Seq<u8>) -> Seq<char> {
    Seq::new(nibbles.len(), |i: int| digit_char(nibbles[i]))
}

/// The two digits of each byte, the high one first.
pub open spec fn nibbles(bytes: Seq<u8>) -> Seq<u8> {
    Seq::new(
        2 * bytes.len(),
        |i: int|
            if i % 2 == 0 {
                bytes[i / 2] / 16
            } else {
                bytes[i / 2] % 16
            },
    )
}

/// The bytes that pairs of digits make, the high digit first.
pub open spec fn pack(nibbles: Seq<u8>) -> Seq<u8> {
    Seq::new(nibbles.len() / 2, |i: int| (nibbles[2 * i] * 16 + nibbles[2 * i + 1]) as u8)
}

/// The text with `0x` before it.
pub open spec fn with_prefix(digits: Seq<char>) -> Seq<char> {
    seq!['0', 'x'] + digits
}

/// What follows `0x`, where the text starts with it.
pub open spec fn strip_prefix(text: Seq<char>) -> Option<Seq<char>> {
    if text.len() >= 2 && text[0] == '0' && text[1] == 'x' {
        Some(text.skip(2))
    } else {
        None
    }
}

/// The text of a byte string: `0x`, then two digits for each byte.
pub open spec fn bytes_text(bytes: Seq<u8>) -> Seq<char> {
    with_prefix(digits_of(nibbles(bytes)))
}

/// The byte string that a text stands for: `None` unless the text is `0x`
/// and then an even number of hexadecimal digits.
pub open spec fn parse_bytes(text: Seq<char>) -> Option<Seq<u8>> {
    match strip_prefix(text) {
        Some(digits) => if digits.len() % 2 == 0 && is_digits(digits) {
            Some(pack(nibbles_of(digits)))
        } else {
            None
        },
        None => None,
    }
}

/// The number that digits stand for, the highest first. No digit stands for
/// zero.
pub open spec fn value16(nibbles: Seq<u8>) -> nat
    decreases nibbles.len(),
{
    if nibbles.len() == 0 {
        0
    } else {
        value16(nibbles.drop_last()) * 16 + nibbles.last() as nat
    }
}

/// The digits of a number without a leading zero digit: none for zero.
pub open spec fn minimal_nibbles(n: nat) -> Seq<u8>
    decreases n,
{
    if n == 0 {
        Seq::empty()
    } else {
        minimal_nibbles(n / 16).push((n % 16) as u8)
    }
}

/// The most digits that an integer of 256 bits has.
pub const MAX_QUANTITY_DIGITS: usize = 64;

/// The text of an integer: `0x`, then its digits without a leading zero,
/// and `0x0` for zero.
pub open spec fn quantity_text(n: nat) -> Seq<char> {
    with_prefix(
        if n == 0 {
            seq!['0']
        } else {
            digits_of(minimal_nibbles(n))
        },
    )
}

/// The integer that a text stands for: `None` unless the text is `0x` and
/// then between one and 64 hexadecimal digits.
pub open spec fn parse_quantity(text: Seq<char>) -> Option<nat> {
    match strip_prefix(text) {
        Some(digits) => if 1 <= digits.len() <= MAX_QUANTITY_DIGITS && is_digits(digits) {
            Some(value16(nibbles_of(digits)))
        } else {
            None
        },
        None => None,
    }
}

/// The byte string of a given length that a text stands for: `None` unless
/// the text is `0x` and then two hexadecimal digits for each of `width`
/// bytes.
pub open spec fn parse_fixed(text: Seq<char>, width: nat) -> Option<Seq<u8>> {
    match parse_bytes(text) {
        Some(bytes) => if bytes.len() == width {
            Some(bytes)
        } else {
            None
        },
        None => None,
    }
}

/// Leading zero digits do not change the number.
pub proof fn lemma_value16_leading_zeros(nibbles: Seq<u8>, count: int)
    requires
        0 <= count <= nibbles.len(),
        forall|i: int| 0 <= i < count ==> nibbles[i] == 0,
    ensures
        value16(nibbles) == value16(nibbles.skip(count)),
    decreases nibbles.len(),
{
    if nibbles.len() == 0 {
        assert(nibbles.skip(count) =~= nibbles);
    } else if count == nibbles.len() {
        lemma_value16_leading_zeros(nibbles.drop_last(), count - 1);
        assert(nibbles.drop_last().skip(count - 1).len() == 0);
        assert(nibbles.skip(count).len() == 0);
    } else {
        lemma_value16_leading_zeros(nibbles.drop_last(), count);
        assert(nibbles.skip(count).drop_last() =~= nibbles.drop_last().skip(count));
    }
}

/// Digits that start with a non-zero digit stand for a positive number.
pub proof fn lemma_value16_positive(nibbles: Seq<u8>)
    requires
        nibbles.len() > 0,
        nibbles[0] != 0,
    ensures
        value16(nibbles) > 0,
    decreases nibbles.len(),
{
    if nibbles.len() > 1 {
        lemma_value16_positive(nibbles.drop_last());
    }
}

/// Digits without a leading zero are the digits of their number.
pub proof fn lemma_minimal_nibbles_of_value(nibbles: Seq<u8>)
    requires
        nibbles.len() == 0 || nibbles[0] != 0,
        forall|i: int| 0 <= i < nibbles.len() ==> nibbles[i] < 16,
    ensures
        minimal_nibbles(value16(nibbles)) == nibbles,
    decreases nibbles.len(),
{
    if nibbles.len() > 0 {
        lemma_value16_positive(nibbles);
        lemma_minimal_nibbles_of_value(nibbles.drop_last());
        let n = value16(nibbles);
        let high = value16(nibbles.drop_last());
        assert(n / 16 == high && n % 16 == nibbles.last() as nat);
        assert(minimal_nibbles(n) == minimal_nibbles(high).push(nibbles.last()));
        assert(nibbles.drop_last().push(nibbles.last()) =~= nibbles);
    }
}

/// A number has no more digits than any run of digits that stands for it.
pub proof fn lemma_minimal_nibbles_bound(nibbles: Seq<u8>)
    requires
        forall|i: int| 0 <= i < nibbles.len() ==> nibbles[i] < 16,
    ensures
        minimal_nibbles(value16(nibbles)).len() <= nibbles.len(),
    decreases nibbles.len(),
{
    if nibbles.len() > 0 {
        lemma_minimal_nibbles_bound(nibbles.drop_last());
        let n = value16(nibbles);
        let high = value16(nibbles.drop_last());
        assert(n / 16 == high);
    }
}

/// The digits of a number stand for that number, and each is below 16.
pub proof fn lemma_value16_of_minimal(n: nat)
    ensures
        value16(minimal_nibbles(n)) == n,
        minimal_nibbles(n).len() == 0 <==> n == 0,
        forall|i: int| 0 <= i < minimal_nibbles(n).len() ==> minimal_nibbles(n)[i] < 16,
    decreases n,
{
    if n > 0 {
        lemma_value16_of_minimal(n / 16);
        let high = minimal_nibbles(n / 16);
        assert(high.push((n % 16) as u8).drop_last() =~= high);
    }
}

/// Read two digits at a time, a byte string stands for the same number.
pub proof fn lemma_value16_nibbles(bytes: Seq<u8>)
    ensures
        value16(nibbles(bytes)) == crate::encoding::be_value(bytes),
    decreases bytes.len(),
{
    if bytes.len() > 0 {
        let front = bytes.drop_last();
        let last = bytes.last();
        lemma_value16_nibbles(front);
        let all = nibbles(bytes);
        assert(all.drop_last().drop_last() =~= nibbles(front));
        assert(all.last() == last % 16);
        assert(all.drop_last().last() == last / 16);
        assert(value16(all) == value16(all.drop_last()) * 16 + (last % 16) as nat);
        assert(value16(all.drop_last()) == value16(nibbles(front)) * 16 + (last / 16) as nat);
    }
}

/// The text of an integer is read back as that integer, as long as the
/// integer has no more than 64 digits.
pub proof fn lemma_parse_quantity_text(n: nat)
    requires
        minimal_nibbles(n).len() <= MAX_QUANTITY_DIGITS,
    ensures
        parse_quantity(quantity_text(n)) == Some(n),
{
    lemma_value16_of_minimal(n);
    let found = if n == 0 {
        seq![0u8]
    } else {
        minimal_nibbles(n)
    };
    let digits = if n == 0 {
        seq!['0']
    } else {
        digits_of(minimal_nibbles(n))
    };
    assert(quantity_text(n).skip(2) =~= digits);
    assert forall|i: int| 0 <= i < digits.len() implies digit_value(#[trigger] digits[i])
        == Some(found[i]) by {
        lemma_digit_round_trip(found[i]);
    }
    assert(nibbles_of(digits) =~= found);
    if n == 0 {
        assert(found.drop_last() =~= Seq::<u8>::empty());
        assert(value16(found) == value16(found.drop_last()) * 16 + 0);
    }
}

/// A digit is read back from its character.
pub proof fn lemma_digit_round_trip(nibble: u8)
    requires
        nibble < 16,
    ensures
        digit_value(digit_char(nibble)) == Some(nibble),
{
}

/// The text of a byte string is read back as that byte string.
pub proof fn lemma_parse_bytes_text(bytes: Seq<u8>)
    ensures
        parse_bytes(bytes_text(bytes)) == Some(bytes),
{
    let digits = digits_of(nibbles(bytes));
    assert(bytes_text(bytes).skip(2) =~= digits);
    assert forall|i: int| 0 <= i < digits.len() implies digit_value(#[trigger] digits[i])
        == Some(nibbles(bytes)[i]) by {
        lemma_digit_round_trip(nibbles(bytes)[i]);
    }
    assert(nibbles_of(digits) =~= nibbles(bytes));
    assert(pack(nibbles(bytes)) =~= bytes);
}

/// `String::push`: appends one character to the text.
#[verifier::external_body]
pub(crate) fn push_char(text: &mut String, c: char)
    ensures
        final(text)@ == old(text)@.push(c),
{
    text.push(c);
}

/// The character of a hexadecimal digit, in lower case.
pub(crate) fn digit_to_char(nibble: u8) -> (c: char)
    requires
        nibble < 16,
    ensures
        c == digit_char(nibble),
{
    if nibble < 10 {
        (nibble + 48) as char
    } else {
        (nibble + 87) as char
    }
}

/// The digit that an ASCII character stands for, if it is a hexadecimal
/// digit.
pub(crate) fn digit_of_byte(byte: u8) -> (digit: Option<u8>)
    requires
        byte < 128,
    ensures
        digit == digit_value(byte as char),
        digit is Some ==> digit->Some_0 < 16,
{
    if 48 <= byte && byte <= 57 {
        Some(byte - 48)
    } else if 97 <= byte && byte <= 102 {
        Some(byte - 87)
    } else if 65 <= byte && byte <= 70 {
        Some(byte - 55)
    } else {
        None
    }
}

/// The text of `bytes`: `0x`, then two digits for each byte.
pub fn encode_hex(bytes: &[u8]) -> (text: String)
    ensures
        text@ == bytes_text(bytes@),
{
    let mut text = String::new();
    push_char(&mut text, '0');
    push_char(&mut text, 'x');
    let mut i: usize = 0;
    while i < bytes.len()
        invariant
            i <= bytes.len(),
            text@ == with_prefix(digits_of(nibbles(bytes@.take(i as int)))),
        decreases bytes.len() - i,
    {
        let byte = bytes[i];
        push_char(&mut text, digit_to_char(byte / 16));
        push_char(&mut text, digit_to_char(byte % 16));
        proof {
            let before = digits_of(nibbles(bytes@.take(i as int)));
            let after = digits_of(nibbles(bytes@.take(i + 1)));
            assert(after =~= before.push(digit_char(byte / 16)).push(digit_char(byte % 16)));
            assert(with_prefix(after) =~= with_prefix(before).push(digit_char(byte / 16)).push(
                digit_char(byte % 16),
            ));
        }
        i = i + 1;
    }
    proof {
        assert(bytes@.take(bytes.len() as int) =~= bytes@);
    }
    text
}

/// The bytes that `text` stands for, where it is `0x` and then an even number
/// of hexadecimal digits.
pub fn decode_hex(text: &str) -> (bytes: Option<Vec<u8>>)
    ensures
        option_view(bytes) == parse_bytes(text@),
{
    if !text.is_ascii() {
        proof {
            lemma_not_ascii(text@);
        }
        return None;
    }
    let raw = text.as_bytes();
    proof {
        is_ascii_spec_bytes(text);
    }
    if raw.len() < 2 || raw[0] != 48 || raw[1] != 120 || raw.len() % 2 != 0 {
        return None;
    }
    let ghost digits = text@.skip(2);
    let mut bytes: Vec<u8> = Vec::new();
    let mut i: usize = 2;
    while i < raw.len()
        invariant
            2 <= i <= raw.len(),
            i % 2 == 0,
            raw.len() % 2 == 0,
            raw@.len() == text@.len(),
            forall|k: int| 0 <= k < raw@.len() ==> #[trigger] raw@[k] == text@[k] as u8,
            vstd::utf8::is_ascii_chars(text@),
            digits == text@.skip(2),
            is_digits(digits.take(i - 2)),
            bytes@ == pack(nibbles_of(digits.take(i - 2))),
        decreases raw.len() - i,
    {
        proof {
            assert('\0' <= text@[i as int] <= '\u{7f}');
            assert('\0' <= text@[i + 1] <= '\u{7f}');
            assert(raw@[i as int] as char == text@[i as int]);
            assert(raw@[i + 1] as char == text@[i + 1]);
            assert(digits[i - 2] == text@[i as int]);
            assert(digits[i - 1] == text@[i + 1]);
        }
        let high = digit_of_byte(raw[i]);
        let low = digit_of_byte(raw[i + 1]);
        match (high, low) {
            (Some(high), Some(low)) => {
                bytes.push(high * 16 + low);
                proof {
                    let before = digits.take(i - 2);
                    let after = digits.take(i as int);
                    assert(after =~= before.push(digits[i - 2]).push(digits[i - 1]));
                    assert(bytes@ =~= pack(nibbles_of(after)));
                }
            },
            _ => {
                return None;
            },
        }
        i = i + 2;
    }
    proof {
        assert(digits.take(i - 2) =~= digits);
    }
    Some(bytes)
}

/// The bytes that `text` stands for, where it is `0x` and then two
/// hexadecimal digits for each of `N` bytes.
pub fn decode_hex_fixed<const N: usize>(text: &str) -> (bytes: Option<[u8; N]>)
    ensures
        option_view(bytes) == parse_fixed(text@, N as nat),
{
    match decode_hex(text) {
        Some(found) => {
            if found.len() != N {
                return None;
            }
            let mut bytes = [0u8; N];
            let mut i: usize = 0;
            while i < N
                invariant
                    i <= N,
                    found.len() == N,
                    forall|k: int| 0 <= k < i ==> bytes@[k] == found@[k],
                decreases N - i,
            {
                bytes[i] = found[i];
                i = i + 1;
            }
            proof {
                assert(bytes@ =~= found@);
            }
            Some(bytes)
        },
        None => None,
    }
}

/// A text with a character outside ASCII is not hexadecimal.
pub proof fn lemma_not_ascii(text: Seq<char>)
    requires
        !vstd::utf8::is_ascii_chars(text),
    ensures
        parse_bytes(text) is None,
        strip_prefix(text) is Some ==> !is_digits(strip_prefix(text)->Some_0),
{
    let i = choose|i: int| 0 <= i < text.len() && !('\0' <= #[trigger] text[i] <= '\u{7f}');
    if strip_prefix(text) is Some {
        let digits = text.skip(2);
        assert(i >= 2);
        assert(digits[i - 2] == text[i]);
    }
}

} // verus!
