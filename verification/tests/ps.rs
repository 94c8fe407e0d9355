use std::collections::{HashMap, HashSet};

use barista::ps::{children, descendants, groups, ps_parse, states, Proc, State};

fn out_0() -> &'static str {
    "PID PPID PGRP"
}

fn out_1() -> &'static str {
    "  PID  PPID  PGRP STATE
    1     0     1     Z
    2     1     2     Z
    3     1     3     Z
    4     1     4     Z
    5     4     4     Z
"
}

#[test]
fn test_0_1_parse() {
    assert!(ps_parse(out_0()).unwrap().is_empty());
}

#[test]
fn test_0_2_process_groups() {
    assert!(groups(ps_parse(out_0()).unwrap().as_slice()).is_empty());
}

#[test]
fn test_0_3_children() {
    assert!(children(ps_parse(out_0()).unwrap().as_slice()).is_empty());
}

#[test]
fn test_1_1_parse() {
    let out = out_1();
    let list_expected = vec![
        Proc {
            pid: 1,
            ppid: 0,
            pgrp: 1,
            state: State::Zombie,
        },
        Proc {
            pid: 2,
            ppid: 1,
            pgrp: 2,
            state: State::Zombie,
        },
        Proc {
            pid: 3,
            ppid: 1,
            pgrp: 3,
            state: State::Zombie,
        },
        Proc {
            pid: 4,
            ppid: 1,
            pgrp: 4,
            state: State::Zombie,
        },
        Proc {
            pid: 5,
            ppid: 4,
            pgrp: 4,
            state: State::Zombie,
        },
    ];
    let list_actual = ps_parse(out).unwrap();
    assert_eq!(list_expected, list_actual);
}

#[test]
fn test_1_2_process_groups() {
    let out = out_1();
    let groups_expected = HashMap::from([
        (1, HashSet::from([1])),
        (2, HashSet::from([2])),
        (3, HashSet::from([3])),
        (4, HashSet::from([4, 5])),
    ]);
    let list = ps_parse(out).unwrap();
    let groups_actual = groups(&list[..]);
    assert_eq!(groups_expected, groups_actual);
}

#[test]
fn test_1_3_children() {
    let out = out_1();
    let children_expected = HashMap::from([
        (0, HashSet::from([1])),
        (1, HashSet::from([2, 3, 4])),
        (4, HashSet::from([5])),
    ]);
    let list = ps_parse(out).unwrap();
    let children_actual = children(&list[..]);
    assert_eq!(children_expected, children_actual);
}

#[test]
fn test_1_4_descendants() {
    let out = out_1();
    let descendants_expected = HashMap::from([
        (0, HashSet::from([1, 2, 3, 4, 5])),
        (1, HashSet::from([2, 3, 4, 5])),
        (4, HashSet::from([5])),
    ]);
    let list = ps_parse(out).unwrap();
    let descendants_actual = descendants(&list[..]);
    assert_eq!(descendants_expected, descendants_actual);
}

#[test]
fn test_1_5_states() {
    let out = out_1();
    let states_expected = HashMap::from([
        (1, State::Zombie),
        (2, State::Zombie),
        (3, State::Zombie),
        (4, State::Zombie),
        (5, State::Zombie),
    ]);
    let list = ps_parse(out).unwrap();
    let states_actual = states(&list[..]);
    assert_eq!(states_expected, states_actual);
}

#[test]
fn state_codes_round_trip() {
    let codes = ["D", "I", "R", "S", "T", "t", "W", "X", "Z"];
    for code in codes {
        let state = State::parse(code).unwrap();
        assert_eq!(code, state.to_str());
    }
    assert!(State::parse("Q").is_err());
    assert!(State::parse("").is_err());
    assert!(State::parse("ZZ").is_err());
}

// A row whose numeric columns do not all parse fails the whole call,
// naming that row.
#[test]
fn invalid_row_rejected() {
    let out = "PID PPID PGRP STATE\n1 0 1 Z\nx 0 1 Z\n";
    match ps_parse(out) {
        Err(barista::ps::Error::InvalidLine { line }) => {
            assert_eq!("x 0 1 Z", line);
        }
        other => panic!("expected an invalid-line error, got {:?}", other.is_ok()),
    }
    let short = "PID PPID PGRP STATE\n1 0 1\n";
    assert!(ps_parse(short).is_err());
    let bad_state = "PID PPID PGRP STATE\n1 0 1 Q\n";
    assert!(ps_parse(bad_state).is_err());
}

// Collecting adds every reachable pid, also those reachable only
// through pids the accumulator already held.
#[test]
fn collect_into_prepopulated_accumulator() {
    let out = "H\n2 1 2 S\n3 2 3 S\n";
    let list = barista::ps::ps_parse(out).unwrap();
    let mut acc = HashSet::from([2]);
    barista::ps::collect_descendants(&list, 1, &mut acc);
    assert_eq!(HashSet::from([2, 3]), acc);
    let mut disjoint = HashSet::from([99]);
    barista::ps::collect_descendants(&list, 1, &mut disjoint);
    assert_eq!(HashSet::from([99, 2, 3]), disjoint);
}

// Extra columns are ignored; descendants follow cycles without hanging.
#[test]
fn parse_extra_columns_and_cycle() {
    let out = "H\n7 8 7 S extra column\n8 7 8 S\n";
    let list = ps_parse(out).unwrap();
    assert_eq!(2, list.len());
    assert_eq!(7, list[0].pid);
    let d = descendants(&list[..]);
    assert_eq!(HashSet::from([7, 8]), d[&7]);
    assert_eq!(HashSet::from([7, 8]), d[&8]);
}
