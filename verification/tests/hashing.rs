use option_settlement::hash::{
    option_settlement_hash, update_option_settlement_hash, FNV_OFFSET_BASIS,
};
use option_settlement::uuids::deterministic_option_settlement_uuid;

#[test]
fn hash_of_nothing_in_an_empty_namespace() {
    assert_eq!(option_settlement_hash(b"", &[]), 0xaf64_724c_8602_eb6e);
}

#[test]
fn hash_of_the_namespace_alone() {
    assert_eq!(option_settlement_hash(b"option-settlement-v1", &[]), 0x581b_9314_c945_6bfb);
}

#[test]
fn parts_are_told_apart_by_where_they_end() {
    assert_eq!(option_settlement_hash(b"n", &[b"a", b"bc"]), 0x017b_246d_3070_691a);
    assert_eq!(option_settlement_hash(b"n", &[b"ab", b"c"]), 0xf81c_b56e_8001_2ea4);
}

#[test]
fn update_closes_the_bytes_with_the_separator() {
    let mut hash: u64 = FNV_OFFSET_BASIS;
    update_option_settlement_hash(&mut hash, b"foobar");
    assert_eq!(hash, 0x3452_4ba7_168a_2c15);
}

#[test]
fn updates_in_turn_are_the_hash_of_the_parts() {
    let mut hash: u64 = FNV_OFFSET_BASIS;
    update_option_settlement_hash(&mut hash, b"n");
    update_option_settlement_hash(&mut hash, b"a");
    update_option_settlement_hash(&mut hash, b"bc");
    assert_eq!(hash, option_settlement_hash(b"n", &[b"a", b"bc"]));
}

#[test]
fn uuid_of_no_parts() {
    assert_eq!(deterministic_option_settlement_uuid(&[]), "581b9314-c945-5bfb-9e8e-d8f8a750ac2d");
}

#[test]
fn uuid_of_two_parts() {
    assert_eq!(
        deterministic_option_settlement_uuid(&[b"a", b"bc"]),
        "da35cb94-3b78-5a3d-bf79-64e4a9dfb783"
    );
}

#[test]
fn deterministic_uuids_have_version_five_and_the_usual_shape() {
    for part in [b"x".as_slice(), b"y".as_slice(), &[0xff, 0x00], &[]] {
        let text = deterministic_option_settlement_uuid(&[part]);
        let chars: Vec<char> = text.chars().collect();
        assert_eq!(chars.len(), 36);
        for at in [8, 13, 18, 23] {
            assert_eq!(chars[at], '-');
        }
        assert_eq!(chars[14], '5');
        assert!(['8', '9', 'a', 'b'].contains(&chars[19]));
        for (at, c) in chars.iter().enumerate() {
            if ![8, 13, 18, 23].contains(&at) {
                assert!(('0'..='9').contains(c) || ('a'..='f').contains(c));
            }
        }
    }
}

#[test]
fn update_tells_running_values_apart() {
    for other in [1_u64, 2, 0xff, u64::MAX, FNV_OFFSET_BASIS] {
        let mut left: u64 = 0;
        let mut right: u64 = other;
        update_option_settlement_hash(&mut left, b"foobar");
        update_option_settlement_hash(&mut right, b"foobar");
        assert_ne!(left, right);
    }
}

#[test]
fn one_changed_byte_changes_the_hash() {
    let hash = option_settlement_hash(b"n", &[b"abc", b"de"]);
    for byte in 0..=255_u8 {
        let changed = [b'a', byte, b'c'];
        assert_eq!(
            option_settlement_hash(b"n", &[&changed, b"de"]) == hash,
            byte == b'b'
        );
    }
}
