//! UUID texts: the deterministic ones that settlement identifiers are made of, and the
//! random ones that label events.
#[allow(unused_imports)]
use vstd::arithmetic::power::pow;
use vstd::prelude::*;

use crate::hash::option_settlement_hash;

verus! {

/// The namespace of the hash that fills the first half of a settlement UUID.
pub open spec fn primary_namespace() -> Seq<u8> {
    vstd::utf8::encode_utf8("option-settlement-v1"@)
}

/// The namespace of the hash that fills the second half of a settlement UUID.
pub open spec fn secondary_namespace() -> Seq<u8> {
    vstd::utf8::encode_utf8("option-settlement-v1-alt"@)
}

/// The lower-case hexadecimal digit for `value`.
pub open spec fn hex_digit(value: int) -> char
    recommends
        0 <= value < 16,
{
    seq!['0', '1', '2', '3', '4', '5', '6', '7', '8', '9', 'a', 'b', 'c', 'd', 'e', 'f'][value]
}

/// Two hexadecimal digits for each byte, the more significant first.
pub open spec fn hex_text(bytes: Seq<u8>) -> Seq<char> {
    Seq::new(
        2 * bytes.len(),
        |i: int|
            if i % 2 == 0 {
                hex_digit(bytes[i / 2] as int / 16)
            } else {
                hex_digit(bytes[i / 2] as int % 16)
            },
    )
}

/// The hyphenated text of a UUID: groups of 4, 2, 2, 2 and 6 bytes.
pub open spec fn uuid_text(bytes: Seq<u8>) -> Seq<char> {
    hex_text(bytes.subrange(0, 4)) + seq!['-'] + hex_text(bytes.subrange(4, 6)) + seq!['-']
        + hex_text(bytes.subrange(6, 8)) + seq!['-'] + hex_text(bytes.subrange(8, 10)) + seq!['-']
        + hex_text(bytes.subrange(10, 16))
}

/// The bytes of a UUID with this version number and the RFC 9562 variant.
pub open spec fn is_uuid(bytes: Seq<u8>, version: int) -> bool {
    &&& bytes.len() == 16
    &&& bytes[6] as int / 16 == version
    &&& bytes[8] as int / 64 == 2
}

/// The text of some UUID of version 4.
pub open spec fn is_random_uuid_text(text: Seq<char>) -> bool {
    exists|bytes: Seq<u8>| #[trigger] is_uuid(bytes, 4) && text == uuid_text(bytes)
}

/// The eight bytes of `value`, the most significant first.
pub open spec fn big_endian(value: u64) -> Seq<u8> {
    Seq::new(
        8,
        |i: int| (value as int / vstd::arithmetic::power::pow(256, (7 - i) as nat) % 256) as u8,
    )
}

/// The bytes of the settlement UUID for `parts`: the two hashes side by side, with the
/// version (5) and variant bits written over them.
pub open spec fn settlement_uuid_bytes(parts: Seq<Seq<u8>>) -> Seq<u8> {
    let hashes = big_endian(crate::hash::settlement_hash(primary_namespace(), parts))
        + big_endian(crate::hash::settlement_hash(secondary_namespace(), parts));
    hashes.update(6, (0x50 + hashes[6] % 16) as u8).update(8, (0x80 + hashes[8] % 64) as u8)
}

/// The text of the settlement UUID for `parts`.
#[verifier::opaque]
pub open spec fn settlement_uuid(parts: Seq<Seq<u8>>) -> Seq<char> {
    uuid_text(settlement_uuid_bytes(parts))
}

/// A settlement UUID is a well-formed UUID of version 5.
pub proof fn law_settlement_uuid_is_version_5(parts: Seq<Seq<u8>>)
    ensures
        is_uuid(settlement_uuid_bytes(parts), 5),
{
}

/// A lower-case hexadecimal digit.
pub open spec fn is_hex_digit(c: char) -> bool {
    ('0' <= c && c <= '9') || ('a' <= c && c <= 'f')
}

/// Every UUID text has 36 characters: hyphens in the four usual places and lower-case
/// hexadecimal digits in all others, among them the digit of its version behind the second
/// hyphen and that of its variant behind the third.
pub proof fn law_uuid_text_shape(bytes: Seq<u8>, version: int)
    requires
        is_uuid(bytes, version),
        0 <= version < 16,
    ensures
        uuid_text(bytes).len() == 36,
        forall|i: int|
            #![trigger uuid_text(bytes)[i]]
            0 <= i < 36 ==> if i == 8 || i == 13 || i == 18 || i == 23 {
                uuid_text(bytes)[i] == '-'
            } else {
                is_hex_digit(uuid_text(bytes)[i])
            },
        uuid_text(bytes)[14] == hex_digit(version),
        ({
            let variant = uuid_text(bytes)[19];
            variant == '8' || variant == '9' || variant == 'a' || variant == 'b'
        }),
{
    lemma_hex_text(bytes.subrange(0, 4));
    lemma_hex_text(bytes.subrange(4, 6));
    lemma_hex_text(bytes.subrange(6, 8));
    lemma_hex_text(bytes.subrange(8, 10));
    lemma_hex_text(bytes.subrange(10, 16));
    let variant = uuid_text(bytes)[19];
    assert(variant == hex_digit(bytes[8] as int / 16));
}

/// Hexadecimal text is made of hexadecimal digits.
proof fn lemma_hex_text(bytes: Seq<u8>)
    ensures
        forall|i: int| 0 <= i < 2 * bytes.len() ==> is_hex_digit(#[trigger] hex_text(bytes)[i]),
{
    assert forall|i: int| 0 <= i < 2 * bytes.len() implies is_hex_digit(
        #[trigger] hex_text(bytes)[i],
    ) by {
        let byte = bytes[i / 2] as int;
        lemma_hex_digit(byte / 16);
        lemma_hex_digit(byte % 16);
    }
}

/// The hexadecimal digit of a small number is one.
proof fn lemma_hex_digit(value: int)
    requires
        0 <= value < 16,
    ensures
        is_hex_digit(hex_digit(value)),
        hex_digit(value) as int == if value < 10 {
            '0' as int + value
        } else {
            'a' as int + value - 10
        },
{
}

/// The bytes of a settlement UUID are the two hashes of its parts, the most significant byte
/// first: every byte is a byte of a hash, but that the upper half of the seventh byte is 5,
/// and the upper quarter of the ninth is 2.
pub proof fn law_settlement_uuid_holds_two_hashes(parts: Seq<Seq<u8>>, i: int)
    requires
        0 <= i < 16,
    ensures
        settlement_uuid(parts) == uuid_text(settlement_uuid_bytes(parts)),
        settlement_uuid_bytes(parts).len() == 16,
        ({
            let byte = settlement_uuid_bytes(parts)[i] as int;
            let namespace = if i < 8 {
                "option-settlement-v1"@
            } else {
                "option-settlement-v1-alt"@
            };
            let hash = crate::hash::settlement_hash(vstd::utf8::encode_utf8(namespace), parts);
            let of_hash = hash as int / pow(256, (7 - i % 8) as nat) % 256;
            if i == 6 {
                byte / 16 == 5 && byte % 16 == of_hash % 16
            } else if i == 8 {
                byte / 64 == 2 && byte % 64 == of_hash % 64
            } else {
                byte == of_hash
            }
        }),
{
    reveal(settlement_uuid);
}

/// Two digits of a UUID text stand for each byte, the upper half first, behind one hyphen
/// for each group before: a digit below ten is that digit, and one of ten or more is a
/// letter from `a` on.
pub proof fn law_uuid_text_spells_bytes(bytes: Seq<u8>, i: int)
    requires
        bytes.len() == 16,
        0 <= i < 16,
    ensures
        ({
            let hyphens: int = if i < 4 {
                0
            } else if i < 6 {
                1
            } else if i < 8 {
                2
            } else if i < 10 {
                3
            } else {
                4
            };
            let upper = uuid_text(bytes)[2 * i + hyphens] as int;
            let lower = uuid_text(bytes)[2 * i + hyphens + 1] as int;
            let high = bytes[i] as int / 16;
            let low = bytes[i] as int % 16;
            &&& upper == if high < 10 {
                '0' as int + high
            } else {
                'a' as int + high - 10
            }
            &&& lower == if low < 10 {
                '0' as int + low
            } else {
                'a' as int + low - 10
            }
        }),
{
    lemma_hex_digit(bytes[i] as int / 16);
    lemma_hex_digit(bytes[i] as int % 16);
}

/// A random UUID text is one of 36 characters with the version 4 and the usual variant.
pub proof fn law_random_uuid_text_shape(text: Seq<char>)
    requires
        is_random_uuid_text(text),
    ensures
        text.len() == 36,
        text[8] == '-' && text[13] == '-' && text[18] == '-' && text[23] == '-',
        text[14] == '4',
        text[19] == '8' || text[19] == '9' || text[19] == 'a' || text[19] == 'b',
        forall|i: int|
            0 <= i < 36 && i != 8 && i != 13 && i != 18 && i != 23 ==> ('0' <= #[trigger] text[i]
                && text[i] <= '9') || ('a' <= text[i] && text[i] <= 'f'),
{
    let bytes = choose|bytes: Seq<u8>| #[trigger] is_uuid(bytes, 4) && text == uuid_text(bytes);
    law_uuid_text_shape(bytes, 4);
    assert(hex_digit(4) == '4');
    assert forall|i: int|
        0 <= i < 36 && i != 8 && i != 13 && i != 18 && i != 23 implies ('0' <= #[trigger] text[i]
        && text[i] <= '9') || ('a' <= text[i] && text[i] <= 'f') by {
        assert(is_hex_digit(uuid_text(bytes)[i]));
    }
}

/// Calls `uuid::Uuid::from_bytes` and `to_string` on its result: the text is the bytes in
/// lower-case hexadecimal, in hyphenated groups of 4, 2, 2, 2 and 6 bytes.
#[verifier::external_body]
fn uuid_from_bytes(bytes: [u8; 16]) -> (text: String)
    ensures
        text@ == uuid_text(bytes@),
{
    uuid::Uuid::from_bytes(bytes).to_string()
}

/// Calls `uuid::Uuid::new_v4` and `to_string` on its result. Which UUID comes back is
/// chance; every outcome is the text of a UUID of version 4.
#[verifier::external_body]
pub(crate) fn random_uuid() -> (text: String)
    ensures
        is_random_uuid_text(text@),
{
    uuid::Uuid::new_v4().to_string()
}

/// The byte of `value` that is worth 256^`7 - index`.
fn byte_of(value: u64, index: u64) -> (byte: u8)
    requires
        index < 8,
    ensures
        byte == big_endian(value)[index as int],
{
    let shift: u64 = 8 * (7 - index);
    proof {
        reveal_with_fuel(vstd::arithmetic::power::pow, 8);
        assert(value >> 0u64 == value) by (bit_vector);
        assert(value >> 8u64 == value / 0x100) by (bit_vector);
        assert(value >> 16u64 == value / 0x1_0000) by (bit_vector);
        assert(value >> 24u64 == value / 0x100_0000) by (bit_vector);
        assert(value >> 32u64 == value / 0x1_0000_0000) by (bit_vector);
        assert(value >> 40u64 == value / 0x100_0000_0000) by (bit_vector);
        assert(value >> 48u64 == value / 0x1_0000_0000_0000) by (bit_vector);
        assert(value >> 56u64 == value / 0x100_0000_0000_0000) by (bit_vector);
    }
    let shifted: u64 = value >> shift;
    (shifted % 256) as u8
}

/// The settlement UUID for `parts`, as text.
pub fn deterministic_option_settlement_uuid(parts: &[&[u8]]) -> (text: String)
    ensures
        text@ == settlement_uuid(crate::hash::contents(parts@)),
{
    let primary: u64 = option_settlement_hash("option-settlement-v1".as_bytes(), parts);
    let secondary: u64 = option_settlement_hash("option-settlement-v1-alt".as_bytes(), parts);
    let mut bytes: [u8; 16] = [0u8; 16];
    let ghost hashes = big_endian(primary) + big_endian(secondary);
    let mut i: usize = 0;
    while i < 8
        invariant
            i <= 8,
            hashes == big_endian(primary) + big_endian(secondary),
            forall|k: int| 0 <= k < i ==> bytes@[k] == hashes[k],
            forall|k: int| 8 <= k < 8 + i ==> bytes@[k] == hashes[k],
        decreases 8 - i,
    {
        bytes[i] = byte_of(primary, i as u64);
        bytes[8 + i] = byte_of(secondary, i as u64);
        i += 1;
    }
    assert(bytes@ =~= hashes);
    let versioned: u8 = 0x50 + bytes[6] % 16;
    bytes[6] = versioned;
    let marked: u8 = 0x80 + bytes[8] % 64;
    bytes[8] = marked;
    proof {
        assert(bytes@ =~= settlement_uuid_bytes(crate::hash::contents(parts@)));
        reveal(settlement_uuid);
    }
    uuid_from_bytes(bytes)
}

} // verus!
