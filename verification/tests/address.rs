use sandbox_job::address::{Address, AddressCounter, AddressPair};
use sandbox_job::text::decimal_string;
use std::collections::HashSet;

#[test]
fn first_two_pairs() {
    let mut counter = AddressCounter::new();
    assert_eq!(
        counter.next_pair(),
        AddressPair {
            host: Address { a: 192, b: 168, c: 0, d: 0 },
            guest: Address { a: 192, b: 168, c: 0, d: 1 },
        }
    );
    assert_eq!(
        counter.next_pair(),
        AddressPair {
            host: Address { a: 192, b: 168, c: 0, d: 2 },
            guest: Address { a: 192, b: 168, c: 0, d: 3 },
        }
    );
}

#[test]
fn low_byte_carries_into_third_octet() {
    let mut counter = AddressCounter::new();
    let mut pair = counter.next_pair();
    for _ in 0..128 {
        pair = counter.next_pair();
    }
    assert_eq!(pair.host, Address { a: 192, b: 168, c: 1, d: 0 });
    assert_eq!(pair.guest, Address { a: 192, b: 168, c: 1, d: 1 });
    for _ in 0..127 {
        pair = counter.next_pair();
    }
    assert_eq!(pair.host, Address { a: 192, b: 168, c: 1, d: 254 });
    assert_eq!(pair.guest, Address { a: 192, b: 168, c: 1, d: 255 });
}

#[test]
fn pairs_do_not_overlap_until_the_counter_wraps() {
    let mut counter = AddressCounter::new();
    let mut seen: HashSet<Address> = HashSet::new();
    for _ in 0..32768 {
        let pair = counter.next_pair();
        assert!(seen.insert(pair.host));
        assert!(seen.insert(pair.guest));
    }
    assert_eq!(seen.len(), 65536);
    let again = counter.next_pair();
    assert_eq!(again.host, Address { a: 192, b: 168, c: 0, d: 0 });
    for _ in 0..32767 {
        counter.next_pair();
    }
    assert_eq!(counter.next_pair().host, Address { a: 192, b: 168, c: 0, d: 0 });
}

#[test]
fn dotted_text() {
    assert_eq!(Address { a: 192, b: 168, c: 0, d: 1 }.to_text(), "192.168.0.1");
    assert_eq!(Address { a: 0, b: 0, c: 0, d: 0 }.to_text(), "0.0.0.0");
    assert_eq!(Address { a: 255, b: 255, c: 255, d: 255 }.to_text(), "255.255.255.255");
    assert_eq!(Address { a: 10, b: 100, c: 9, d: 99 }.to_text(), "10.100.9.99");
}

#[test]
fn decimal_numerals() {
    assert_eq!(decimal_string(0), "0");
    assert_eq!(decimal_string(7), "7");
    assert_eq!(decimal_string(10), "10");
    assert_eq!(decimal_string(8080), "8080");
    assert_eq!(decimal_string(30002), "30002");
    assert_eq!(decimal_string(65535), "65535");
    for n in [0u16, 1, 9, 10, 99, 100, 999, 1000, 9999, 10000, 54321, 65535] {
        assert_eq!(decimal_string(n), n.to_string());
    }
}
