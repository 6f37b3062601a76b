use i_am_mt::utils::prime_numbers::{split_pq, split_pq_with};

#[test]
fn test_split_pq() {
    assert_eq!(Some((0x494c553b, 0x53911073)), split_pq(0x17ED48941A08F981, 64));
    assert_eq!(Some((0x40822411, 0x61577731)), split_pq(0x188759ed8a73ce41, 64));
    assert_eq!(Some((0x47897bed, 0x512cf1fb)), split_pq(0x16af0f75db329e5f, 64));
    assert_eq!(Some((0x5286cd49, 0x6111977f)), split_pq(0x1f4abf92becee637, 64));
    assert_eq!(Some((0x452fce43, 0x72a5fd79)), split_pq(0x1efc262ab99fb4ab, 64));
    assert_eq!(Some((0x421a6eeb, 0x516c00a9)), split_pq(0x1506406ac9973923, 64));
    assert_eq!(Some((0x5676b90f, 0x6bd1453f)), split_pq(0x246a4da9a15795b1, 64));
    assert_eq!(Some((0x48fe0c7d, 0x6c9d6085)), split_pq(0x1ef80c9795545cf1, 64));
}

#[test]
fn small_products_split_too() {
    assert_eq!(split_pq(15, 64), Some((3, 5)));
    assert_eq!(split_pq(77, 64), Some((7, 11)));
    assert_eq!(split_pq(10403, 64), Some((101, 103)));
}

#[test]
fn what_is_found_multiplies_to_the_product() {
    for pq in [1000u64, 4, 9, 8633, 0xffff_ffff_ffff_ffff, 6, 1 << 40] {
        if let Some((lesser, greater)) = split_pq(pq, 8) {
            assert!(1 < lesser && lesser <= greater);
            assert_eq!(lesser.checked_mul(greater), Some(pq));
        }
    }
}

#[test]
fn there_is_nothing_to_split_in_primes_and_small_numbers() {
    assert_eq!(split_pq(0, 3), None);
    assert_eq!(split_pq(1, 3), None);
    assert_eq!(split_pq(2, 3), None);
    assert_eq!(split_pq(3, 3), None);
    assert_eq!(split_pq(13, 3), None);
    assert_eq!(split_pq(15, 0), None);
}

#[test]
fn a_round_is_decided_by_its_draws() {
    // x -> x * x + 1 modulo 15 from 2: 5, 11, ...; gcd(5 - 2, 15) = 3.
    assert_eq!(split_pq_with(15, 1, 1), Some((3, 5)));
    assert_eq!(split_pq_with(15, 1, 1), split_pq_with(15, 1, 1));
    // x -> x * x modulo 15 from 1 stays at 1: the difference is 0, gcd(0, 15) = 15.
    assert_eq!(split_pq_with(15, 0, 0), None);
    // x -> x * x modulo 8633 from 2: 4, 16, 256, 5125 ...
    let found = split_pq_with(8633, 2, 1);
    assert!(found == None || found == Some((89, 97)));
    assert_eq!(split_pq_with(0, 5, 7), None);
    assert_eq!(split_pq_with(1, 5, 7), None);
}

#[test]
fn arithmetic_near_the_top_of_the_range_does_not_wrap() {
    let pq = 0xffff_ffff_ffff_ffc5u64;
    assert_eq!(split_pq_with(pq, 1, u64::MAX), None);
    let pq = 4294967291u64 * 4294967279u64;
    let found = split_pq(pq, 64);
    assert_eq!(found, Some((4294967279, 4294967291)));
}
