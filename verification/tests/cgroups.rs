use interference_mitigation::cgroup::{
    bytes_equal, find_bytes, first_cgroup2_mount, first_unified_cgroup, group_action,
    kill_wait_continues, CGroup,
};
use interference_mitigation::order::removal_order;
use interference_mitigation::pids::{parse_i32, parse_pids};
use interference_mitigation::records::Irq;

#[test]
fn populated_events() {
    assert!(CGroup::events_populated("populated 1\nfrozen 0\n"));
    assert!(!CGroup::events_populated("populated 0\nfrozen 0\n"));
    assert!(!CGroup::events_populated("populated 1"));
    assert!(CGroup::events_populated("frozen 1\npopulated 1\n"));
}

#[test]
fn byte_search() {
    assert!(find_bytes(b"abcabd", b"abd"));
    assert!(!find_bytes(b"abcab", b"abd"));
    assert!(find_bytes(b"abc", b""));
    assert!(!find_bytes(b"ab", b"abc"));
}

#[test]
fn frozen_contents() {
    assert!(CGroup::freeze_contents_frozen(b"1\n"));
    assert!(!CGroup::freeze_contents_frozen(b"0\n"));
    assert!(!CGroup::freeze_contents_frozen(b"1"));
    assert!(!CGroup::freeze_contents_frozen(b"1\n\n"));
}

#[test]
fn group_actions() {
    assert_eq!(group_action(Irq::Freeze(1), false), Some(Irq::Freeze(1)));
    assert_eq!(group_action(Irq::Freeze(1), true), None);
    assert_eq!(group_action(Irq::Unfreeze(2), true), Some(Irq::Unfreeze(2)));
    assert_eq!(group_action(Irq::Unfreeze(2), false), None);
}

#[test]
fn cgroup_keeps_path() {
    let g = CGroup::new(b"/sys/fs/cgroup/runner\xff".to_vec());
    assert_eq!(g.path, b"/sys/fs/cgroup/runner\xff".to_vec());
}

#[test]
fn pids_one_per_line() {
    assert_eq!(parse_pids("12\n345\n"), Some(vec![12, 345]));
    assert_eq!(parse_pids("7"), Some(vec![7]));
    assert_eq!(parse_pids(""), Some(vec![]));
    assert_eq!(parse_pids("1\r\n2\r\n"), Some(vec![1, 2]));
    assert_eq!(parse_pids("-3\n+4\n"), Some(vec![-3, 4]));
}

#[test]
fn bad_pids_are_refused() {
    assert_eq!(parse_pids("12\nabc\n"), None);
    assert_eq!(parse_pids("12\n\n3\n"), None);
    assert_eq!(parse_pids("2147483648\n"), None);
    assert_eq!(parse_pids("-2147483648\n"), Some(vec![i32::MIN]));
    assert_eq!(parse_pids("1\r"), None);
}

#[test]
fn integers_as_str_parse_reads_them() {
    for s in ["0", "-0", "+17", "2147483647", "-2147483648", "007"] {
        assert_eq!(parse_i32(s.as_bytes(), 0, s.len()), s.parse::<i32>().ok());
    }
    for s in ["", "-", "+", "1a", "2147483648", "-2147483649", " 1", "99999999999999999999"] {
        assert_eq!(parse_i32(s.as_bytes(), 0, s.len()), None);
        assert!(s.parse::<i32>().is_err());
    }
}

#[test]
fn deepest_directories_first() {
    let depths = vec![0, 2, 1, 2, 1];
    assert_eq!(removal_order(&depths), vec![1, 3, 2, 4, 0]);
    assert_eq!(removal_order(&vec![]), Vec::<usize>::new());
}

#[test]
fn mount_and_hierarchy_selection() {
    let types = vec![b"proc".to_vec(), b"cgroup".to_vec(), b"cgroup2".to_vec(), b"cgroup2".to_vec()];
    assert_eq!(first_cgroup2_mount(&types), Some(2));
    assert_eq!(first_cgroup2_mount(&vec![b"tmpfs".to_vec()]), None);
    assert_eq!(first_unified_cgroup(&vec![3, 0, 0]), Some(1));
    assert_eq!(first_unified_cgroup(&vec![3, 4]), None);
    assert!(bytes_equal(b"ab", b"ab"));
    assert!(!bytes_equal(b"ab", b"abc"));
}

#[test]
fn kill_waits_one_second() {
    assert!(kill_wait_continues(0));
    assert!(kill_wait_continues(999_999_999));
    assert!(!kill_wait_continues(1_000_000_000));
}
