//! The keyed hash behind deterministic settlement identifiers: 64-bit FNV-1a over a
//! list of byte strings, each closed by a separator byte.
#[allow(unused_imports)]
use vstd::arithmetic::div_mod::{lemma_fundamental_div_mod_converse, lemma_mul_mod_noop_left};
use vstd::prelude::*;

verus! {

/// The offset basis of 64-bit FNV-1a.
pub const FNV_OFFSET_BASIS: u64 = 0xcbf2_9ce4_8422_2325;

/// The prime of 64-bit FNV-1a.
pub const FNV_PRIME: u64 = 0x0100_0000_01b3;

/// The byte that closes each part. It occurs in no UTF-8 text.
pub const PART_SEPARATOR: u8 = 0xff;

/// One round of FNV-1a: fold in a byte, then multiply modulo 2^64.
pub open spec fn fnv_round(hash: u64, byte: u8) -> u64 {
    (((hash ^ (byte as u64)) * FNV_PRIME) % 0x1_0000_0000_0000_0000) as u64
}

/// FNV-1a of `bytes`, continued from the running value `hash`.
pub open spec fn fnv1a(hash: u64, bytes: Seq<u8>) -> u64
    decreases bytes.len(),
{
    if bytes.len() == 0 {
        hash
    } else {
        fnv_round(fnv1a(hash, bytes.drop_last()), bytes.last())
    }
}

/// The byte string that a list of parts stands for: each part followed by the separator.
pub open spec fn framed(parts: Seq<Seq<u8>>) -> Seq<u8>
    decreases parts.len(),
{
    if parts.len() == 0 {
        seq![]
    } else {
        framed(parts.drop_last()) + parts.last().push(PART_SEPARATOR)
    }
}

/// The contents of a slice of byte slices.
pub open spec fn contents(parts: Seq<&[u8]>) -> Seq<Seq<u8>> {
    parts.map_values(|part: &[u8]| part@)
}

/// The hash of `parts` within `namespace`.
pub open spec fn settlement_hash(namespace: Seq<u8>, parts: Seq<Seq<u8>>) -> u64 {
    fnv1a(FNV_OFFSET_BASIS, framed(seq![namespace] + parts))
}

/// Hashing in two goes is hashing the concatenation.
pub proof fn lemma_fnv1a_concat(hash: u64, first: Seq<u8>, second: Seq<u8>)
    ensures
        fnv1a(hash, first + second) == fnv1a(fnv1a(hash, first), second),
    decreases second.len(),
{
    if second.len() == 0 {
        assert(first + second =~= first);
    } else {
        assert((first + second).drop_last() =~= first + second.drop_last());
        lemma_fnv1a_concat(hash, first, second.drop_last());
    }
}

/// Multiplying by the prime modulo 2^64 can be undone.
proof fn lemma_prime_is_invertible(left: u64, right: u64)
    requires
        (left * FNV_PRIME) % 0x1_0000_0000_0000_0000 == (right * FNV_PRIME)
            % 0x1_0000_0000_0000_0000,
    ensures
        left == right,
{
    let modulus: int = 0x1_0000_0000_0000_0000;
    let inverse: int = 0xce96_5057_aff6_957b;
    lemma_undo_prime(left);
    lemma_undo_prime(right);
    lemma_mul_mod_noop_left(left * FNV_PRIME, inverse, modulus);
    lemma_mul_mod_noop_left(right * FNV_PRIME, inverse, modulus);
}

/// Multiplying by the prime and then by its inverse modulo 2^64 changes nothing.
proof fn lemma_undo_prime(value: u64)
    ensures
        ((value * FNV_PRIME) * 0xce96_5057_aff6_957bint) % 0x1_0000_0000_0000_0000 == value,
{
    let modulus: int = 0x1_0000_0000_0000_0000;
    let inverse: int = 0xce96_5057_aff6_957b;
    let turns: int = (FNV_PRIME * inverse) / modulus;
    assert(FNV_PRIME * inverse == turns * modulus + 1);
    assert((value * FNV_PRIME) * inverse == (value * turns) * modulus + value) by (nonlinear_arith)
        requires
            FNV_PRIME * inverse == turns * modulus + 1,
    ;
    lemma_fundamental_div_mod_converse(
        (value * FNV_PRIME) * inverse,
        modulus,
        value * turns,
        value as int,
    );
}

/// A round tells running values apart, and bytes.
pub proof fn law_a_round_is_injective(hash: u64, other: u64, byte: u8, other_byte: u8)
    ensures
        fnv_round(hash, byte) == fnv_round(other, byte) ==> hash == other,
        fnv_round(hash, byte) == fnv_round(hash, other_byte) ==> byte == other_byte,
{
    let b = byte as u64;
    let c = other_byte as u64;
    if fnv_round(hash, byte) == fnv_round(other, byte) {
        lemma_prime_is_invertible(hash ^ b, other ^ b);
        assert(hash ^ b == other ^ b ==> hash == other) by (bit_vector);
    }
    if fnv_round(hash, byte) == fnv_round(hash, other_byte) {
        lemma_prime_is_invertible(hash ^ b, hash ^ c);
        assert(hash ^ b == hash ^ c ==> b == c) by (bit_vector);
    }
}

/// Hashing the same bytes tells running values apart. So does an update, which closes the
/// bytes with the separator.
pub proof fn law_hashing_is_injective_in_the_running_value(hash: u64, other: u64, bytes: Seq<u8>)
    ensures
        fnv1a(hash, bytes) == fnv1a(other, bytes) ==> hash == other,
        fnv1a(hash, bytes.push(PART_SEPARATOR)) == fnv1a(other, bytes.push(PART_SEPARATOR))
            ==> hash == other,
    decreases bytes.len(),
{
    if bytes.len() > 0 {
        law_hashing_is_injective_in_the_running_value(hash, other, bytes.drop_last());
        law_a_round_is_injective(
            fnv1a(hash, bytes.drop_last()),
            fnv1a(other, bytes.drop_last()),
            bytes.last(),
            0,
        );
    }
    assert(bytes.push(PART_SEPARATOR).drop_last() =~= bytes);
    law_a_round_is_injective(fnv1a(hash, bytes), fnv1a(other, bytes), PART_SEPARATOR, 0);
}

/// Changing one byte changes the hash.
pub proof fn law_one_changed_byte_changes_the_hash(hash: u64, bytes: Seq<u8>, i: int, byte: u8)
    requires
        0 <= i < bytes.len(),
        byte != bytes[i],
    ensures
        fnv1a(hash, bytes.update(i, byte)) != fnv1a(hash, bytes),
    decreases bytes.len(),
{
    let changed = bytes.update(i, byte);
    if i == bytes.len() - 1 {
        assert(changed.drop_last() =~= bytes.drop_last());
        law_a_round_is_injective(fnv1a(hash, bytes.drop_last()), 0, bytes.last(), byte);
    } else {
        assert(changed.drop_last() =~= bytes.drop_last().update(i, byte));
        law_one_changed_byte_changes_the_hash(hash, bytes.drop_last(), i, byte);
        law_a_round_is_injective(
            fnv1a(hash, changed.drop_last()),
            fnv1a(hash, bytes.drop_last()),
            bytes.last(),
            0,
        );
    }
}

/// Changing one byte of one part changes one byte of the framed list.
proof fn lemma_framed_update(parts: Seq<Seq<u8>>, part: int, i: int, byte: u8) -> (at: int)
    requires
        0 <= part < parts.len(),
        0 <= i < parts[part].len(),
    ensures
        0 <= at < framed(parts).len(),
        framed(parts)[at] == parts[part][i],
        framed(parts.update(part, parts[part].update(i, byte))) == framed(parts).update(at, byte),
    decreases parts.len(),
{
    let changed = parts.update(part, parts[part].update(i, byte));
    let front = framed(parts.drop_last());
    let last = parts.last().push(PART_SEPARATOR);
    if part == parts.len() - 1 {
        let at = front.len() + i;
        assert(changed.drop_last() =~= parts.drop_last());
        assert(framed(changed) =~= framed(parts).update(at, byte));
        at
    } else {
        let at = lemma_framed_update(parts.drop_last(), part, i, byte);
        assert(changed.drop_last() =~= parts.drop_last().update(part, parts[part].update(i, byte)));
        assert((front + last).update(at, byte) =~= front.update(at, byte) + last);
        at
    }
}

/// Changing one byte of one part changes the hash of the parts.
pub proof fn law_one_changed_byte_changes_the_settlement_hash(
    namespace: Seq<u8>,
    parts: Seq<Seq<u8>>,
    part: int,
    i: int,
    byte: u8,
)
    requires
        0 <= part < parts.len(),
        0 <= i < parts[part].len(),
        byte != parts[part][i],
    ensures
        settlement_hash(namespace, parts.update(part, parts[part].update(i, byte)))
            != settlement_hash(namespace, parts),
{
    let all = seq![namespace] + parts;
    let at = lemma_framed_update(all, part + 1, i, byte);
    assert(seq![namespace] + parts.update(part, parts[part].update(i, byte)) =~= all.update(
        part + 1,
        all[part + 1].update(i, byte),
    ));
    law_one_changed_byte_changes_the_hash(FNV_OFFSET_BASIS, framed(all), at, byte);
}

/// Hashing one more byte folds it into the hash of the bytes before: the byte is combined
/// with it bit by bit, and the result is multiplied by the FNV prime modulo 2^64.
pub proof fn law_hash_goes_on_byte_by_byte(hash: u64, bytes: Seq<u8>, byte: u8)
    ensures
        fnv1a(hash, seq![]) == hash,
        fnv1a(hash, bytes.push(byte)) as int == ((fnv1a(hash, bytes) ^ (byte as u64)) as int
            * 0x0100_0000_01b3) % 0x1_0000_0000_0000_0000,
{
    assert(bytes.push(byte).drop_last() =~= bytes);
}

/// Hashing one more part goes on from the hash of the parts before with the part and a
/// separator; without parts, the hash is that of the namespace and a separator.
pub proof fn law_settlement_hash_goes_on_part_by_part(
    namespace: Seq<u8>,
    parts: Seq<Seq<u8>>,
    part: Seq<u8>,
)
    ensures
        settlement_hash(namespace, seq![]) == fnv1a(0xcbf2_9ce4_8422_2325, namespace.push(0xff)),
        settlement_hash(namespace, parts.push(part)) == fnv1a(
            settlement_hash(namespace, parts),
            part.push(0xff),
        ),
{
    let none: Seq<Seq<u8>> = seq![];
    let one = seq![namespace] + none;
    assert(one.drop_last() =~= none);
    assert(framed(none) =~= seq![]);
    assert(framed(one) =~= namespace.push(0xff));
    let all = seq![namespace] + parts.push(part);
    assert(all.drop_last() =~= seq![namespace] + parts);
    lemma_fnv1a_concat(0xcbf2_9ce4_8422_2325, framed(seq![namespace] + parts), part.push(0xff));
}

/// The contents of a slice of byte slices are those of each slice, in their order.
pub proof fn law_contents_are_those_of_each_slice(parts: Seq<&[u8]>, i: int)
    ensures
        contents(parts).len() == parts.len(),
        0 <= i < parts.len() ==> contents(parts)[i] == parts[i]@,
{
}

/// Folds `bytes` and the separator that closes them into a running hash.
pub fn update_option_settlement_hash(hash: &mut u64, bytes: &[u8])
    ensures
        *final(hash) == fnv1a(*old(hash), bytes@.push(PART_SEPARATOR)),
{
    let ghost start = *hash;
    let mut i: usize = 0;
    assert(bytes@.take(0) =~= seq![]);
    while i < bytes.len()
        invariant
            i <= bytes@.len(),
            *hash == fnv1a(start, bytes@.take(i as int)),
        decreases bytes@.len() - i,
    {
        let byte: u8 = bytes[i];
        assert(bytes@.take(i + 1).drop_last() =~= bytes@.take(i as int));
        *hash = *hash ^ (byte as u64);
        *hash = hash.wrapping_mul(FNV_PRIME);
        i += 1;
    }
    assert(bytes@.take(i as int) =~= bytes@);
    assert(bytes@.push(PART_SEPARATOR).drop_last() =~= bytes@);
    *hash = *hash ^ 0xff;
    *hash = hash.wrapping_mul(FNV_PRIME);
}

/// The FNV-1a hash of `namespace` and `parts`, each closed by the separator.
pub fn option_settlement_hash(namespace: &[u8], parts: &[&[u8]]) -> (hash: u64)
    ensures
        hash == settlement_hash(namespace@, contents(parts@)),
{
    let mut hash: u64 = FNV_OFFSET_BASIS;
    let ghost all = seq![namespace@] + contents(parts@);
    proof {
        assert(all.take(1).drop_last() =~= seq![]);
        assert(framed(all.take(1).drop_last()) =~= seq![]);
        assert(framed(all.take(1)) =~= namespace@.push(PART_SEPARATOR));
    }
    update_option_settlement_hash(&mut hash, namespace);
    let mut i: usize = 0;
    while i < parts.len()
        invariant
            i <= parts@.len(),
            all == seq![namespace@] + contents(parts@),
            hash == fnv1a(FNV_OFFSET_BASIS, framed(all.take(i + 1))),
        decreases parts@.len() - i,
    {
        let part: &[u8] = parts[i];
        proof {
            assert(all.take(i + 2).drop_last() =~= all.take(i + 1));
            assert(all.take(i + 2).last() == part@);
            lemma_fnv1a_concat(
                FNV_OFFSET_BASIS,
                framed(all.take(i + 1)),
                part@.push(PART_SEPARATOR),
            );
        }
        update_option_settlement_hash(&mut hash, part);
        i += 1;
    }
    assert(all.take(i + 1) =~= all);
    hash
}

} // verus!
