use edge_modem::inbox::{Ledger, fragment_fingerprint, seen_before};

fn ledger(entries: &[(&str, u32)]) -> Ledger {
    let mut ledger = Ledger::new();
    for (fingerprint, copies) in entries {
        ledger = ledger.enter(fingerprint, *copies);
    }
    ledger
}

/// The property the whole ledger exists for: identity comes from what the
/// network sent, so it survives anything done to the modem afterwards.
/// Marking a message read, or its moving to another storage index, must
/// not make it look like a different message.
#[test]
fn the_same_delivery_fingerprints_the_same_way_twice() {
    let first = fragment_fingerprint("10086", Some(1_756_058_516_000), 0xc3, 4, 2, "part two");
    let second = fragment_fingerprint("10086", Some(1_756_058_516_000), 0xc3, 4, 2, "part two");
    assert_eq!(first, second);
}

#[test]
fn a_different_fragment_of_one_message_is_a_different_row() {
    let second = fragment_fingerprint("10086", Some(1_756_058_516_000), 0xc3, 4, 2, "part two");
    let third = fragment_fingerprint("10086", Some(1_756_058_516_000), 0xc3, 4, 3, "part three");
    assert_ne!(second, third);
}

/// Two messages from one sender in the same second, which 10086 does send.
/// Without the body in the key they would collide and the second would be
/// silently dropped as a duplicate.
#[test]
fn two_texts_stamped_in_the_same_second_are_two_messages() {
    let stamp = Some(1_756_058_516_000);
    assert_ne!(
        fragment_fingerprint("10086", stamp, 0, 1, 1, "balance 12.30"),
        fragment_fingerprint("10086", stamp, 0, 1, 1, "balance 9.80")
    );
}

/// A PDU with no readable timestamp still gets a stable identity rather
/// than a fresh one every pass, which would re-store it every eight
/// seconds forever.
#[test]
fn an_undated_fragment_still_has_one_identity() {
    assert_eq!(
        fragment_fingerprint("10086", None, 0, 1, 1, "no scts"),
        fragment_fingerprint("10086", None, 0, 1, 1, "no scts")
    );
}

#[test]
fn a_fragment_never_stored_is_new() {
    let pass = vec![fragment_fingerprint("10086", Some(1), 0, 1, 1, "hello")];
    assert_eq!(seen_before(&pass, &ledger(&[])), vec![false]);
}

/// The case that makes reading read messages safe: it is on the modem and
/// it is on our books, so it is not stored again.
#[test]
fn a_fragment_already_stored_is_not_new_again() {
    let one = fragment_fingerprint("10086", Some(1), 0, 1, 1, "hello");
    assert_eq!(seen_before(&[one.clone()], &ledger(&[(&one, 1)])), vec![true]);
}

/// The service centre delivering the same message twice is a real event,
/// and the second copy is a real message. Having stored one
/// copy must not swallow the other.
#[test]
fn a_second_copy_of_a_stored_message_is_still_new() {
    let one = fragment_fingerprint("10086", Some(1), 0xc3, 2, 1, "half");
    let pass = vec![one.clone(), one.clone()];
    assert_eq!(seen_before(&pass, &ledger(&[(&one, 1)])), vec![true, false]);
}

#[test]
fn both_copies_are_old_once_both_are_stored() {
    let one = fragment_fingerprint("10086", Some(1), 0xc3, 2, 1, "half");
    let pass = vec![one.clone(), one.clone()];
    assert_eq!(seen_before(&pass, &ledger(&[(&one, 2)])), vec![true, true]);
}
