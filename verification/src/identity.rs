//! What the identifiers of a leg say about it: they stay the same for as long as the
//! position exists, and what they are hashed from tells any two legs apart.
use vstd::prelude::*;

#[allow(unused_imports)]
use crate::hash::{framed, PART_SEPARATOR};
#[allow(unused_imports)]
use crate::model::{PositionView, Text};
#[allow(unused_imports)]
use crate::terms::{deterministic_ids, identity_parts, little_endian, utf8, EngineView};

verus! {

/// Two views of one position: at different times, its side, its quantity and whether it is
/// closed may differ.
pub open spec fn same_position(left: PositionView, right: PositionView) -> bool {
    &&& left.account_id == right.account_id
    &&& left.trader_id == right.trader_id
    &&& left.strategy_id == right.strategy_id
    &&& left.id == right.id
    &&& left.opening_order_id == right.opening_order_id
    &&& left.ts_opened == right.ts_opened
}

/// Two views of the engine for one instrument: at different times, its warnings, its
/// accounts, its close price and the rest of the instrument may differ.
pub open spec fn same_market(left: EngineView, right: EngineView) -> bool {
    &&& left.venue == right.venue
    &&& left.instrument.id == right.instrument.id
    &&& left.instrument.expiration_ns == right.instrument.expiration_ns
}

/// The identifiers of a leg do not change while its position's fills are applied, nor over
/// a restart of the engine.
pub proof fn law_identifiers_are_stable(
    engine: EngineView,
    later_engine: EngineView,
    position: PositionView,
    later_position: PositionView,
    leg_role: Text,
)
    requires
        same_market(engine, later_engine),
        same_position(position, later_position),
    ensures
        deterministic_ids(engine, position, leg_role) == deterministic_ids(
            later_engine,
            later_position,
            leg_role,
        ),
{
}

/// The separator byte occurs nowhere in `bytes`.
spec fn is_plain(bytes: Seq<u8>) -> bool {
    forall|i: int| 0 <= i < bytes.len() ==> #[trigger] bytes[i] != PART_SEPARATOR
}

/// The separator byte occurs in no text.
proof fn lemma_text_is_plain(text: Text)
    ensures
        is_plain(utf8(text)),
{
    let bytes = utf8(text);
    vstd::utf8::encode_utf8_valid_utf8(text);
    assert forall|i: int| 0 <= i < bytes.len() implies #[trigger] bytes[i] != PART_SEPARATOR by {
        vstd::utf8::is_char_boundary_iff_not_is_continuation_byte(bytes, i);
        vstd::utf8::is_char_boundary_iff_is_leading_byte(bytes, i);
    }
}

/// Different texts have different bytes.
proof fn lemma_text_bytes_injective(left: Text, right: Text)
    requires
        utf8(left) == utf8(right),
    ensures
        left == right,
{
    vstd::utf8::encode_utf8_decode_utf8(left);
    vstd::utf8::encode_utf8_decode_utf8(right);
}

/// Two parts that can be told apart behind a common separator: of the same length, or both
/// without a separator inside.
spec fn comparable(left: Seq<u8>, right: Seq<u8>) -> bool {
    left.len() == right.len() || (is_plain(left) && is_plain(right))
}

/// A framed list of parts ends in a separator.
proof fn lemma_framed_ends(parts: Seq<Seq<u8>>)
    requires
        parts.len() > 0,
    ensures
        framed(parts).len() > 0,
        framed(parts).last() == PART_SEPARATOR,
{
    assert(framed(parts) =~= framed(parts.drop_last()) + parts.last().push(PART_SEPARATOR));
}

/// In two equal framed lists of the same number of comparable parts, the last part is not
/// shorter on the left.
proof fn lemma_last_not_shorter(left: Seq<Seq<u8>>, right: Seq<Seq<u8>>)
    requires
        left.len() == right.len(),
        left.len() > 0,
        comparable(left.last(), right.last()),
        framed(left) == framed(right),
    ensures
        left.last().len() >= right.last().len(),
{
    let a = left.last();
    let b = right.last();
    let whole = framed(left);
    assert(whole == framed(left.drop_last()) + a.push(PART_SEPARATOR));
    assert(whole == framed(right.drop_last()) + b.push(PART_SEPARATOR));
    if a.len() < b.len() {
        if left.len() == 1 {
            assert(framed(left.drop_last()).len() == 0);
            assert(framed(right.drop_last()).len() == 0);
        } else {
            lemma_framed_ends(left.drop_last());
            let at = framed(left.drop_last()).len() - 1;
            assert(whole[at] == framed(left.drop_last()).last());
            let inside = at - framed(right.drop_last()).len();
            assert(whole[at] == b.push(PART_SEPARATOR)[inside]);
            assert(b[inside] == PART_SEPARATOR);
        }
    }
}

/// Equal framed lists of the same number of comparable parts have equal parts.
proof fn lemma_framed_injective(left: Seq<Seq<u8>>, right: Seq<Seq<u8>>)
    requires
        left.len() == right.len(),
        forall|i: int| 0 <= i < left.len() ==> comparable(#[trigger] left[i], right[i]),
        framed(left) == framed(right),
    ensures
        left == right,
    decreases left.len(),
{
    if left.len() > 0 {
        let n = left.len() - 1;
        let a = left.last();
        let b = right.last();
        assert(comparable(left[n], right[n]));
        lemma_last_not_shorter(left, right);
        lemma_last_not_shorter(right, left);
        let whole = framed(left);
        assert(whole == framed(left.drop_last()) + a.push(PART_SEPARATOR));
        assert(whole == framed(right.drop_last()) + b.push(PART_SEPARATOR));
        let start = framed(left.drop_last()).len() as int;
        assert(framed(left.drop_last()) =~= whole.take(start));
        assert(framed(right.drop_last()) =~= whole.take(start));
        assert forall|i: int| 0 <= i < a.len() implies a[i] == b[i] by {
            assert(whole[start + i] == a.push(PART_SEPARATOR)[i]);
            assert(whole[start + i] == b.push(PART_SEPARATOR)[i]);
        }
        assert(a =~= b);
        assert forall|i: int| 0 <= i < left.drop_last().len() implies comparable(
            #[trigger] left.drop_last()[i],
            right.drop_last()[i],
        ) by {
            assert(left.drop_last()[i] == left[i]);
        }
        lemma_framed_injective(left.drop_last(), right.drop_last());
        assert forall|i: int| 0 <= i < left.len() implies left[i] == right[i] by {
            if i < n {
                assert(left[i] == left.drop_last()[i]);
                assert(right[i] == right.drop_last()[i]);
            }
        }
        assert(left =~= right);
    }
}

/// What an identifier is hashed from tells apart everything that it is to tell apart: two
/// byte strings are equal only for one position of one instrument and expiration, one leg
/// and one kind of identifier.
pub proof fn law_identity_is_unambiguous(
    engine: EngineView,
    position: PositionView,
    leg_role: Text,
    id_role: Text,
    other_engine: EngineView,
    other_position: PositionView,
    other_leg_role: Text,
    other_id_role: Text,
)
    requires
        engine.instrument.expiration_ns is Some,
        other_engine.instrument.expiration_ns is Some,
        framed(identity_parts(engine, position, leg_role, id_role)) == framed(
            identity_parts(other_engine, other_position, other_leg_role, other_id_role),
        ),
    ensures
        same_position(position, other_position),
        engine.instrument.id == other_engine.instrument.id,
        engine.instrument.expiration_ns == other_engine.instrument.expiration_ns,
        leg_role == other_leg_role,
        id_role == other_id_role,
{
    let left = identity_parts(engine, position, leg_role, id_role);
    let right = identity_parts(other_engine, other_position, other_leg_role, other_id_role);
    lemma_identity_parts_comparable(engine, position, leg_role, id_role);
    lemma_identity_parts_comparable(
        other_engine,
        other_position,
        other_leg_role,
        other_id_role,
    );
    assert forall|i: int| 0 <= i < left.len() implies comparable(
        #[trigger] left[i],
        right[i],
    ) by {
        assert(right[i].len() == 8 || is_plain(right[i]));
    }
    lemma_framed_injective(left, right);
    assert(left[0] == right[0] && left[1] == right[1] && left[2] == right[2] && left[3] == right[3]
        && left[4] == right[4] && left[5] == right[5] && left[6] == right[6] && left[7] == right[7]
        && left[8] == right[8] && left[9] == right[9]);
    lemma_text_bytes_injective(position.account_id, other_position.account_id);
    lemma_text_bytes_injective(position.trader_id, other_position.trader_id);
    lemma_text_bytes_injective(position.strategy_id, other_position.strategy_id);
    lemma_text_bytes_injective(engine.instrument.id, other_engine.instrument.id);
    lemma_text_bytes_injective(position.id, other_position.id);
    lemma_text_bytes_injective(position.opening_order_id, other_position.opening_order_id);
    lemma_text_bytes_injective(leg_role, other_leg_role);
    lemma_text_bytes_injective(id_role, other_id_role);
    vstd::bytes::lemma_auto_spec_u64_to_from_le_bytes();
    assert(vstd::bytes::spec_u64_from_le_bytes(little_endian(position.ts_opened))
        == position.ts_opened);
    assert(vstd::bytes::spec_u64_from_le_bytes(little_endian(other_position.ts_opened))
        == other_position.ts_opened);
    let expiration = engine.instrument.expiration_ns->0;
    let other_expiration = other_engine.instrument.expiration_ns->0;
    assert(vstd::bytes::spec_u64_from_le_bytes(little_endian(expiration)) == expiration);
    assert(vstd::bytes::spec_u64_from_le_bytes(little_endian(other_expiration))
        == other_expiration);
}

/// The two timestamps have eight bytes each; the other parts are texts.
proof fn lemma_identity_parts_comparable(
    engine: EngineView,
    position: PositionView,
    leg_role: Text,
    id_role: Text,
)
    ensures
        identity_parts(engine, position, leg_role, id_role).len() == 10,
        forall|i: int|
            0 <= i < 10 ==> if i == 6 || i == 7 {
                (#[trigger] identity_parts(engine, position, leg_role, id_role)[i]).len() == 8
            } else {
                is_plain(identity_parts(engine, position, leg_role, id_role)[i])
            },
{
    vstd::bytes::lemma_auto_spec_u64_to_from_le_bytes();
    lemma_text_is_plain(position.account_id);
    lemma_text_is_plain(position.trader_id);
    lemma_text_is_plain(position.strategy_id);
    lemma_text_is_plain(engine.instrument.id);
    lemma_text_is_plain(position.id);
    lemma_text_is_plain(position.opening_order_id);
    lemma_text_is_plain(leg_role);
    lemma_text_is_plain(id_role);
}

} // verus!
