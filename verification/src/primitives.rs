//! The fixed-width values that transactions are made of: addresses, 32-byte
//! words, 256-bit integers and signatures.

use vstd::prelude::*;
use vstd::string::is_ascii_spec_bytes;
use vstd::std_specs::convert::FromSpecImpl;
use crate::encoding::{
    be_value, lemma_be_value_injective, lemma_be_value_leading_zeros,
    lemma_minimal_be_of_value, minimal_be,
};
use crate::hex::{
    bytes_text, decode_hex_fixed, digit_of_byte, digit_to_char, digits_of, encode_hex, is_digits,
    lemma_minimal_nibbles_bound, lemma_minimal_nibbles_of_value, lemma_not_ascii,
    lemma_value16_leading_zeros, lemma_value16_nibbles, minimal_nibbles, nibbles, nibbles_of,
    option_view, parse_fixed, parse_quantity, push_char, quantity_text, with_prefix,
    MAX_QUANTITY_DIGITS,
};

verus! {

/// A 20-byte account address.
#[derive(Clone, Copy, Debug, PartialEq, Eq, Hash)]
pub struct Address(pub [u8; 20]);

impl View for Address {
    type V = Seq<u8>;

    open spec fn view(&self) -> Seq<u8> {
        self.0@
    }
}

impl Address {
    /// The address of twenty zero bytes.
    pub fn zero() -> (address: Address)
        ensures
            address@ == Seq::new(20, |i: int| 0u8),
    {
        let address = Address([0u8; 20]);
        assert(address@ =~= Seq::new(20, |i: int| 0u8));
        address
    }

    /// The bytes of the address.
    pub fn as_bytes(&self) -> (bytes: &[u8])
        ensures
            bytes@ == self@,
    {
        self.0.as_slice()
    }

    /// The text of the address: `0x` and forty digits.
    pub fn to_hex(&self) -> (text: String)
        ensures
            text@ == bytes_text(self@),
    {
        encode_hex(self.0.as_slice())
    }

    /// The address that `text` stands for, where it is `0x` and forty
    /// hexadecimal digits.
    pub fn from_hex(text: &str) -> (address: Option<Address>)
        ensures
            option_view(address) == parse_fixed(text@, 20),
    {
        match decode_hex_fixed::<20>(text) {
            Some(bytes) => Some(Address(bytes)),
            None => None,
        }
    }
}

/// A 32-byte word: a storage key or a digest.
#[derive(Clone, Copy, Debug, PartialEq, Eq, Hash)]
pub struct H256(pub [u8; 32]);

impl View for H256 {
    type V = Seq<u8>;

    open spec fn view(&self) -> Seq<u8> {
        self.0@
    }
}

impl H256 {
    /// The word of thirty-two zero bytes.
    pub fn zero() -> (word: H256)
        ensures
            word@ == Seq::new(32, |i: int| 0u8),
    {
        let word = H256([0u8; 32]);
        assert(word@ =~= Seq::new(32, |i: int| 0u8));
        word
    }

    /// The bytes of the word.
    pub fn as_bytes(&self) -> (bytes: &[u8])
        ensures
            bytes@ == self@,
    {
        self.0.as_slice()
    }

    /// The text of the word: `0x` and sixty-four digits.
    pub fn to_hex(&self) -> (text: String)
        ensures
            text@ == bytes_text(self@),
    {
        encode_hex(self.0.as_slice())
    }

    /// The word that `text` stands for, where it is `0x` and sixty-four
    /// hexadecimal digits.
    pub fn from_hex(text: &str) -> (word: Option<H256>)
        ensures
            option_view(word) == parse_fixed(text@, 32),
    {
        match decode_hex_fixed::<32>(text) {
            Some(bytes) => Some(H256(bytes)),
            None => None,
        }
    }
}

/// An unsigned integer of 256 bits, held as 32 big-endian bytes.
#[derive(Clone, Copy, Debug, PartialEq, Eq, Hash)]
pub struct U256 {
    bytes: [u8; 32],
}

/// The number that `bytes` stands for after `high`: each byte multiplies what
/// came before by 256.
pub open spec fn be_fold(high: nat, bytes: Seq<u8>) -> nat
    decreases bytes.len(),
{
    if bytes.len() == 0 {
        high
    } else {
        be_fold(high * 256 + bytes[0] as nat, bytes.drop_first())
    }
}

/// Folding from the left and reading from the right give the same number.
pub proof fn lemma_be_fold_push(high: nat, bytes: Seq<u8>, last: u8)
    ensures
        be_fold(high, bytes.push(last)) == be_fold(high, bytes) * 256 + last as nat,
    decreases bytes.len(),
{
    let longer = bytes.push(last);
    if bytes.len() == 0 {
        assert(longer.drop_first() =~= bytes);
        assert(be_fold(high * 256 + last as nat, longer.drop_first()) == high * 256 + last as nat);
    } else {
        lemma_be_fold_push(high * 256 + bytes[0] as nat, bytes.drop_first(), last);
        assert(longer.drop_first() =~= bytes.drop_first().push(last));
        assert(longer[0] == bytes[0]);
    }
}

/// Folding from zero gives the number that the bytes stand for.
pub proof fn lemma_be_fold_is_value(bytes: Seq<u8>)
    ensures
        be_fold(0, bytes) == be_value(bytes),
    decreases bytes.len(),
{
    if bytes.len() > 0 {
        lemma_be_fold_is_value(bytes.drop_last());
        lemma_be_fold_push(0, bytes.drop_last(), bytes.last());
        assert(bytes.drop_last().push(bytes.last()) =~= bytes);
    }
}

impl View for U256 {
    type V = nat;

    open spec fn view(&self) -> nat {
        be_value(self.be_bytes())
    }
}

impl U256 {
    /// The 32 big-endian bytes of the integer.
    pub closed spec fn be_bytes(&self) -> Seq<u8> {
        self.bytes@
    }

    /// The integer of a given value. Each value below 2^256 has exactly one.
    pub closed spec fn of_value(value: nat) -> U256 {
        choose|n: U256| n@ == value
    }

    /// Two integers of the same value are the same.
    pub proof fn lemma_same_value(a: U256, b: U256)
        requires
            a@ == b@,
        ensures
            a == b,
    {
        lemma_be_value_injective(a.bytes@, b.bytes@);
        assert(a.bytes == b.bytes);
    }

    /// The integer zero.
    pub fn zero() -> (n: U256)
        ensures
            n@ == 0,
    {
        let n = U256 { bytes: [0u8; 32] };
        proof {
            lemma_be_value_leading_zeros(n.bytes@, 32);
        }
        n
    }

    /// The integer whose big-endian bytes are `bytes`.
    pub fn from_be_bytes(bytes: [u8; 32]) -> (n: U256)
        ensures
            n.be_bytes() == bytes@,
    {
        U256 { bytes }
    }

    /// The 32 big-endian bytes of the integer.
    pub fn to_be_bytes(&self) -> (bytes: [u8; 32])
        ensures
            bytes@ == self.be_bytes(),
    {
        self.bytes
    }

    /// The integer with the value of `value`.
    pub fn from_u64(value: u64) -> (n: U256)
        ensures
            n@ == value as nat,
            n == U256::of_value(value as nat),
    {
        let mut bytes = [0u8; 32];
        let mut rest: u64 = value;
        let mut i: usize = 32;
        proof {
            reveal_with_fuel(pow256, 9);
        }
        while i > 24
            invariant
                24 <= i <= 32,
                forall|k: int| 0 <= k < i ==> bytes@[k] == 0,
                be_fold(rest as nat, bytes@.skip(i as int)) == value as nat,
                (rest as nat) < pow256((i - 24) as nat),
            decreases i,
        {
            i = i - 1;
            let ghost before = bytes@;
            bytes[i] = (rest % 256) as u8;
            proof {
                assert(bytes@.skip(i as int).drop_first() =~= before.skip(i + 1));
            }
            rest = rest / 256;
        }
        proof {
            assert(rest == 0);
            lemma_be_fold_is_value(bytes@.skip(24));
            lemma_be_value_leading_zeros(bytes@, 24);
            let n = U256 { bytes };
            U256::lemma_same_value(n, U256::of_value(value as nat));
        }
        U256 { bytes }
    }

    /// The shortest big-endian byte string of the integer: its bytes without
    /// the leading zero bytes.
    pub fn to_minimal_bytes(&self) -> (out: Vec<u8>)
        ensures
            out@ == minimal_be(self@),
    {
        let mut start: usize = 0;
        while start < 32 && self.bytes[start] == 0
            invariant
                start <= 32,
                forall|k: int| 0 <= k < start ==> self.bytes@[k] == 0,
            decreases 32 - start,
        {
            start = start + 1;
        }
        let mut out: Vec<u8> = Vec::new();
        let mut i: usize = start;
        while i < 32
            invariant
                start <= i <= 32,
                out@ == self.bytes@.subrange(start as int, i as int),
            decreases 32 - i,
        {
            out.push(self.bytes[i]);
            proof {
                assert(out@ =~= self.bytes@.subrange(start as int, i + 1));
            }
            i = i + 1;
        }
        proof {
            assert(out@ =~= self.bytes@.skip(start as int));
            lemma_be_value_leading_zeros(self.bytes@, start as int);
            lemma_minimal_be_of_value(out@);
        }
        out
    }
}

/// One hexadecimal digit of 32 bytes: the digit at `index`, counted from the
/// highest.
fn nibble_at(bytes: &[u8; 32], index: usize) -> (nibble: u8)
    requires
        index < 64,
    ensures
        nibble == nibbles(bytes@)[index as int],
        nibble < 16,
{
    if index % 2 == 0 {
        bytes[index / 2] / 16
    } else {
        bytes[index / 2] % 16
    }
}

impl U256 {
    /// An integer of 256 bits has at most 64 hexadecimal digits.
    pub proof fn lemma_quantity_digits(&self)
        ensures
            minimal_nibbles(self@).len() <= MAX_QUANTITY_DIGITS,
    {
        lemma_value16_nibbles(self.bytes@);
        lemma_minimal_nibbles_bound(nibbles(self.bytes@));
    }

    /// The text of the integer: `0x`, then its hexadecimal digits without a
    /// leading zero, and `0x0` for zero.
    pub fn to_hex(&self) -> (text: String)
        ensures
            text@ == quantity_text(self@),
    {
        let mut start: usize = 0;
        while start < 64 && nibble_at(&self.bytes, start) == 0
            invariant
                start <= 64,
                forall|k: int| 0 <= k < start ==> nibbles(self.bytes@)[k] == 0,
            decreases 64 - start,
        {
            start = start + 1;
        }
        let ghost all = nibbles(self.bytes@);
        proof {
            lemma_value16_leading_zeros(all, start as int);
            lemma_value16_nibbles(self.bytes@);
        }
        let mut text = String::new();
        push_char(&mut text, '0');
        push_char(&mut text, 'x');
        if start == 64 {
            push_char(&mut text, '0');
            proof {
                assert(all.skip(64).len() == 0);
                assert(text@ =~= quantity_text(0));
            }
            return text;
        }
        let mut i: usize = start;
        while i < 64
            invariant
                start <= i <= 64,
                all == nibbles(self.bytes@),
                text@ == with_prefix(digits_of(all.subrange(start as int, i as int))),
            decreases 64 - i,
        {
            push_char(&mut text, digit_to_char(nibble_at(&self.bytes, i)));
            proof {
                let before = digits_of(all.subrange(start as int, i as int));
                let after = digits_of(all.subrange(start as int, i + 1));
                assert(after =~= before.push(digits_of(all)[i as int]));
                assert(with_prefix(after) =~= with_prefix(before).push(digits_of(all)[i as int]));
            }
            i = i + 1;
        }
        proof {
            let kept = all.skip(start as int);
            assert(all.subrange(start as int, 64) =~= kept);
            assert(kept[0] == all[start as int]);
            lemma_minimal_nibbles_of_value(kept);
            crate::hex::lemma_value16_positive(kept);
        }
        text
    }

    /// The integer that `text` stands for, where it is `0x` and then between
    /// one and 64 hexadecimal digits.
    pub fn from_hex(text: &str) -> (n: Option<U256>)
        ensures
            option_view(n) == parse_quantity(text@),
    {
        if !text.is_ascii() {
            proof {
                lemma_not_ascii(text@);
            }
            return None;
        }
        let raw = text.as_bytes();
        proof {
            is_ascii_spec_bytes(text);
        }
        if raw.len() < 3 || raw.len() > 66 || raw[0] != 48 || raw[1] != 120 {
            return None;
        }
        let ghost digits = text@.skip(2);
        let count: usize = raw.len() - 2;
        let first: usize = 64 - count;
        let mut bytes = [0u8; 32];
        let mut j: usize = 0;
        while j < count
            invariant
                j <= count,
                1 <= count <= 64,
                first == 64 - count,
                count == raw.len() - 2,
                raw@.len() == text@.len(),
                forall|k: int| 0 <= k < raw@.len() ==> #[trigger] raw@[k] == text@[k] as u8,
                vstd::utf8::is_ascii_chars(text@),
                digits == text@.skip(2),
                is_digits(digits.take(j as int)),
                forall|q: int|
                    0 <= q < 64 ==> #[trigger] nibbles(bytes@)[q] == if first <= q < first + j {
                        nibbles_of(digits)[q - first]
                    } else {
                        0
                    },
            decreases count - j,
        {
            proof {
                assert('\0' <= text@[j + 2] <= '\u{7f}');
                assert(raw@[j + 2] as char == text@[j + 2]);
                assert(digits[j as int] == text@[j + 2]);
            }
            let digit = match digit_of_byte(raw[j + 2]) {
                Some(digit) => digit,
                None => {
                    return None;
                },
            };
            let position: usize = first + j;
            let ghost before = bytes@;
            proof {
                assert(nibbles(before)[position as int] == 0);
                if position % 2 == 0 {
                    assert(nibbles(before)[position + 1] == 0);
                }
            }
            if position % 2 == 0 {
                bytes[position / 2] = digit * 16;
            } else {
                bytes[position / 2] = bytes[position / 2] + digit;
            }
            proof {
                assert(digits.take(j + 1) =~= digits.take(j as int).push(digits[j as int]));
                assert forall|q: int| 0 <= q < 64 implies #[trigger] nibbles(bytes@)[q] == if first
                    <= q < first + j + 1 {
                    nibbles_of(digits)[q - first]
                } else {
                    0
                } by {
                    assert(nibbles(before)[q] == if first <= q < first + j {
                        nibbles_of(digits)[q - first]
                    } else {
                        0
                    });
                    if q / 2 != position / 2 {
                        assert(bytes@[q / 2] == before[q / 2]);
                    }
                }
            }
            j = j + 1;
        }
        proof {
            let all = nibbles(bytes@);
            let found = nibbles_of(digits);
            assert(digits.take(count as int) =~= digits);
            assert(all.skip(first as int) =~= found);
            lemma_value16_leading_zeros(all, first as int);
            lemma_value16_nibbles(bytes@);
        }
        Some(U256 { bytes })
    }
}

impl From<u64> for U256 {
    fn from(value: u64) -> (n: U256)
        ensures
            n@ == value as nat,
    {
        U256::from_u64(value)
    }
}

impl FromSpecImpl<u64> for U256 {
    open spec fn obeys_from_spec() -> bool {
        true
    }

    open spec fn from_spec(value: u64) -> U256 {
        U256::of_value(value as nat)
    }
}

/// 256 to the power of `exp`.
pub open spec fn pow256(exp: nat) -> nat
    decreases exp,
{
    if exp == 0 {
        1
    } else {
        256 * pow256((exp - 1) as nat)
    }
}

/// What a signature is: three numbers.
pub struct SignatureView {
    pub v: nat,
    pub r: nat,
    pub s: nat,
}

impl View for Signature {
    type V = SignatureView;

    open spec fn view(&self) -> SignatureView {
        SignatureView { v: self.v as nat, r: self.r@, s: self.s@ }
    }
}

/// The signature of a transaction.
#[derive(Clone, Copy, Debug, PartialEq, Eq, Hash)]
pub struct Signature {
    /// The recovery value.
    pub v: u64,
    /// The first half of the signature.
    pub r: U256,
    /// The second half of the signature.
    pub s: U256,
}

} // verus!
