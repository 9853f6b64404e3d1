use smech_farm::clock::now;

#[test]
fn seconds_become_a_signed_stamp() {
    assert_eq!(now(0), 0);
    assert_eq!(now(1700000000), 1700000000);
    for s in [i64::MAX as u64, i64::MAX as u64 + 1, u64::MAX - 5, u64::MAX] {
        assert_eq!(now(s), s as i64);
    }
}
