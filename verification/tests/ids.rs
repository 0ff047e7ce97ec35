use openrouter_api::ids::{hex_of, IdMinter};

fn text(chars: Vec<char>) -> String {
    chars.into_iter().collect()
}

#[test]
fn hex_is_lower_case_without_leading_zeros() {
    assert_eq!(text(hex_of(0)), "0");
    assert_eq!(text(hex_of(9)), "9");
    assert_eq!(text(hex_of(10)), "a");
    assert_eq!(text(hex_of(255)), "ff");
    assert_eq!(text(hex_of(0x18c2a4f3b10)), "18c2a4f3b10");
    assert_eq!(text(hex_of(u128::MAX)), "ffffffffffffffffffffffffffffffff");
}

#[test]
fn identifier_joins_prefix_time_and_counter() {
    let mut ids = IdMinter::new();
    assert_eq!(ids.next_id_at("resp", 0x18c2a4f3b10), "resp_18c2a4f3b100001");
    assert_eq!(ids.next_id_at("msg", 0x18c2a4f3b10), "msg_18c2a4f3b100002");
    assert_eq!(ids.next_id_at("fc", 255), "fc_ff0003");
    assert_eq!(ids.counter, 4);
}

#[test]
fn counter_is_padded_to_four_digits_and_may_be_longer() {
    let mut ids = IdMinter::starting_at(0xabc);
    assert_eq!(ids.next_id_at("fc", 1), "fc_10abc");
    let mut ids = IdMinter::starting_at(0x12345);
    assert_eq!(ids.next_id_at("fc", 0), "fc_012345");
    let mut ids = IdMinter::starting_at(0);
    assert_eq!(ids.next_id_at("", 0), "_00000");
}

#[test]
fn counter_starts_over_after_the_largest_value() {
    let mut ids = IdMinter::starting_at(u64::MAX);
    assert_eq!(ids.next_id_at("fc", 1), "fc_1ffffffffffffffff");
    assert_eq!(ids.counter, 0);
    assert_eq!(ids.next_id_at("fc", 1), "fc_10000");
    assert_eq!(ids.counter, 1);
}

#[test]
fn identifier_by_the_clock_has_the_same_form() {
    let mut ids = IdMinter::starting_at(0x2a);
    let id = ids.next_id("resp");
    assert!(id.starts_with("resp_"));
    assert!(id.ends_with("002a"));
    assert!(id.len() > "resp_002a".len());
    assert!(id["resp_".len()..].chars().all(|c| c.is_ascii_hexdigit() && !c.is_ascii_uppercase()));
    assert_eq!(ids.counter, 0x2b);
}

#[test]
fn identifiers_of_one_minter_differ() {
    let mut ids = IdMinter::new();
    let a = ids.next_id("fc");
    let b = ids.next_id("fc");
    assert_ne!(a, b);
}

#[test]
fn successive_identifiers_differ_at_any_times() {
    for first in [0u64, 1, 15, 16, 0xffff, 0x12345, u64::MAX - 1, u64::MAX] {
        for (t1, t2) in [(1u128, 1u128), (0x1, 0x12), (0x12, 0x1), (0xabc, 0xab)] {
            let mut ids = IdMinter::starting_at(first);
            let a = ids.next_id_at("fc", t1);
            let b = ids.next_id_at("fc", t2);
            assert_ne!(a, b);
        }
    }
}
