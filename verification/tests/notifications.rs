use openwhatsapp::ids::id_text;
use openwhatsapp::notifications::{notification_id, notification_target, stable_text_hash};

#[test]
fn notification_id_contains_account_id() {
    let account_id: u128 = 0x1234_5678_9abc_def0_1234_5678_9abc_def0;

    assert_eq!(
        notification_id(account_id, "A", "B"),
        format!("openwhatsapp-{}-{}", id_text(account_id), stable_text_hash("A", "B"))
    );
}

#[test]
fn text_hash_is_fnv1a_over_title_nul_body() {
    let mut expected: u64 = 0xcbf2_9ce4_8422_2325;
    for byte in "A".bytes().chain([0]).chain("B".bytes()) {
        expected ^= u64::from(byte);
        expected = expected.wrapping_mul(0x0000_0100_0000_01b3);
    }

    assert_eq!(stable_text_hash("A", "B"), expected);
    assert_ne!(stable_text_hash("AB", ""), stable_text_hash("A", "B"));
}

#[test]
fn notification_target_reads_the_account() {
    let account_id: u128 = 42;

    assert_eq!(notification_target(Some(&id_text(account_id))), Some(account_id));
    assert_eq!(notification_target(Some("bad")), None);
    assert_eq!(notification_target(None), None);
}
