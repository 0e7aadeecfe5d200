use slatedb_wal_bench::ids::{new_run_id, run_id_of};
use ulid::Ulid;

#[test]
fn run_id_is_lower_case_base32() {
    assert_eq!(run_id_of(0), "00000000000000000000000000");
    assert_eq!(run_id_of(u128::MAX), "7zzzzzzzzzzzzzzzzzzzzzzzzz");
    assert_eq!(run_id_of(0x1f << 5 | 0x12), "000000000000000000000000zj");
    for id in [1, 31, 32, 1 << 77, 0x0123_4567_89ab_cdef_fedc_ba98_7654_3210] {
        assert_eq!(run_id_of(id), Ulid(id).to_string().to_ascii_lowercase());
    }
}

#[test]
fn every_digit_of_a_run_id_is_its_own() {
    let mut texts: Vec<String> = (0..32).map(run_id_of).collect();
    texts.sort();
    texts.dedup();
    assert_eq!(texts.len(), 32);
    assert_eq!(texts[10], "0000000000000000000000000a");
}

#[test]
fn new_run_ids_are_ulids() {
    let a = new_run_id();
    let b = new_run_id();
    assert_ne!(a, b);
    for run_id in [a, b] {
        assert_eq!(run_id.len(), 26);
        let ulid = Ulid::from_string(&run_id.to_ascii_uppercase()).unwrap();
        assert_eq!(run_id_of(ulid.0), run_id);
        assert!(ulid.timestamp_ms() > 0);
    }
}
