use sandbox_job::command::{nat_commands, Tool};
use sandbox_job::address::AddressCounter;
use sandbox_job::ports::{
    allocate, allocate_from, allocate_with, port_set, AllocError, PortMapping, PortRange,
};
use std::collections::HashSet;

fn set(ports: &[u16]) -> HashSet<u16> {
    ports.iter().copied().collect()
}

#[test]
fn scan_wraps_and_skips_used_ports() {
    let range = PortRange { start: 30000, end: 30010 };
    let used = set(&[30009, 30000, 22]);
    let mapped = allocate_from(range, 30008, &used, &vec![80, 443, 8080]).unwrap();
    assert_eq!(
        mapped,
        vec![
            PortMapping { logical: 80, host: 30008 },
            PortMapping { logical: 443, host: 30001 },
            PortMapping { logical: 8080, host: 30002 },
        ]
    );
}

#[test]
fn scan_from_start_takes_lowest_free_ports() {
    let range = PortRange { start: 100, end: 105 };
    let mapped = allocate_from(range, 100, &set(&[101]), &vec![1, 2, 3, 4]).unwrap();
    let hosts: Vec<u16> = mapped.iter().map(|m| m.host).collect();
    assert_eq!(hosts, vec![100, 102, 103, 104]);
    let logicals: Vec<u16> = mapped.iter().map(|m| m.logical).collect();
    assert_eq!(logicals, vec![1, 2, 3, 4]);
}

#[test]
fn allocation_is_all_or_nothing() {
    let range = PortRange { start: 100, end: 103 };
    let used = set(&[101]);
    for first in 100..103 {
        assert_eq!(
            allocate_from(range, first, &used, &vec![1, 2, 3]),
            Err(AllocError::InsufficientPorts)
        );
        assert_eq!(allocate_from(range, first, &used, &vec![1, 2]).unwrap().len(), 2);
    }
    assert_eq!(allocate(range, &used, &vec![1, 2, 3]), Err(AllocError::InsufficientPorts));
}

#[test]
fn word_selects_first_port_modulo_range_size() {
    let range = PortRange { start: 100, end: 110 };
    let mapped = allocate_with(range, 13, &set(&[]), &vec![7]).unwrap();
    assert_eq!(mapped, vec![PortMapping { logical: 7, host: 103 }]);
    let mapped = allocate_with(range, u32::MAX, &set(&[]), &vec![7]).unwrap();
    assert_eq!(mapped, vec![PortMapping { logical: 7, host: 105 }]);
}

#[test]
fn nothing_requested_gives_empty_mapping() {
    let empty = PortRange { start: 5, end: 5 };
    assert_eq!(allocate(empty, &set(&[]), &vec![]), Ok(vec![]));
    assert_eq!(allocate_with(empty, 9, &set(&[]), &vec![]), Ok(vec![]));
    let range = PortRange { start: 5, end: 9 };
    assert_eq!(allocate(range, &set(&[5, 6, 7, 8]), &vec![]), Ok(vec![]));
}

#[test]
fn empty_or_inverted_range_has_no_free_port() {
    let empty = PortRange { start: 5, end: 5 };
    assert_eq!(allocate(empty, &set(&[]), &vec![80]), Err(AllocError::InsufficientPorts));
    let inverted = PortRange { start: 9, end: 5 };
    assert_eq!(inverted.len(), 0);
    assert_eq!(allocate(inverted, &set(&[]), &vec![80]), Err(AllocError::InsufficientPorts));
}

#[test]
fn enough_room_always_succeeds_with_distinct_free_hosts() {
    let range = PortRange { start: 40000, end: 40020 };
    let used = set(&[40000, 40005, 40019, 80]);
    let requested: Vec<u16> = (1..=16).collect();
    for _ in 0..50 {
        let mapped = allocate(range, &used, &requested).unwrap();
        assert_eq!(mapped.len(), 16);
        let hosts: HashSet<u16> = mapped.iter().map(|m| m.host).collect();
        assert_eq!(hosts.len(), 16);
        for (m, want) in mapped.iter().zip(requested.iter()) {
            assert_eq!(m.logical, *want);
            assert!(range.contains(m.host));
            assert!(!used.contains(&m.host));
        }
    }
}

#[test]
fn used_ports_outside_the_range_do_not_count() {
    let range = PortRange { start: 30000, end: 30010 };
    let used = set(&[22, 80]);
    let requested: Vec<u16> = (1..=9).collect();
    assert_eq!(allocate(range, &used, &requested).unwrap().len(), 9);
    let requested: Vec<u16> = (1..=11).collect();
    assert_eq!(allocate(range, &used, &requested), Err(AllocError::InsufficientPorts));
}

#[test]
fn full_range_can_be_taken() {
    let range = PortRange { start: 65530, end: 65535 };
    let mapped = allocate_from(range, 65533, &set(&[]), &vec![1, 2, 3, 4, 5]).unwrap();
    let hosts: Vec<u16> = mapped.iter().map(|m| m.host).collect();
    assert_eq!(hosts, vec![65533, 65534, 65530, 65531, 65532]);
}

#[test]
fn duplicate_logical_ports_get_distinct_hosts() {
    let range = PortRange { start: 10, end: 20 };
    let mapped = allocate_from(range, 10, &set(&[]), &vec![80, 80]).unwrap();
    assert_eq!(
        mapped,
        vec![PortMapping { logical: 80, host: 10 }, PortMapping { logical: 80, host: 11 }]
    );
}

#[test]
fn port_set_forgets_order_and_repeats() {
    assert_eq!(port_set(&vec![22, 80, 22, 443]), set(&[22, 80, 443]));
    assert_eq!(port_set(&vec![]), set(&[]));
}

#[test]
fn range_len_and_contains() {
    let range = PortRange { start: 30000, end: 30010 };
    assert_eq!(range.len(), 10);
    assert!(range.contains(30000));
    assert!(range.contains(30009));
    assert!(!range.contains(30010));
    assert!(!range.contains(29999));
}

#[test]
fn one_port_from_a_partly_used_range() {
    let range = PortRange { start: 30000, end: 30010 };
    let used = set(&[30000, 30001]);
    let mapped = allocate(range, &used, &vec![80]).unwrap();
    assert_eq!(mapped.len(), 1);
    assert_eq!(mapped[0].logical, 80);
    assert!(30002 <= mapped[0].host && mapped[0].host < 30010);

    let pair = AddressCounter::new().next_pair();
    let rules = nat_commands("job", "eth0", &pair, &mapped);
    let host = mapped[0].host.to_string();
    let dnat: Vec<_> = rules
        .iter()
        .filter(|r| r.args.iter().any(|a| a == "DNAT"))
        .collect();
    assert_eq!(dnat.len(), 1);
    assert_eq!(dnat[0].tool, Tool::Firewall);
    assert_eq!(
        dnat[0].args,
        vec![
            "-t", "nat", "-A", "PREROUTING", "-p", "tcp", "-i", "job-host", "--dport",
            host.as_str(), "-j", "DNAT", "--to-destination", "192.168.0.1:80",
        ]
    );
    assert_eq!(rules.iter().filter(|r| r.args.contains(&host)).count(), 1);
    let accept: Vec<_> = rules
        .iter()
        .filter(|r| r.args.iter().any(|a| a == "--state"))
        .collect();
    assert_eq!(accept.len(), 1);
    assert_eq!(
        accept[0].args,
        vec![
            "-A", "FORWARD", "-p", "tcp", "-d", "192.168.0.1", "--dport", "80", "-m", "state",
            "--state", "NEW,ESTABLISHED,RELATED", "-j", "ACCEPT",
        ]
    );
    assert_eq!(rules.len(), 6);
}
