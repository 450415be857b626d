use gossip_ids::gossip::{BroadcastProtocol, ProtocolError, State};
use gossip_ids::retry::{deliver_with_retry, should_retry};

fn topo(entries: Vec<(&str, Vec<&str>)>) -> BroadcastProtocol {
    BroadcastProtocol::Topology {
        topology: entries
            .into_iter()
            .map(|(k, v)| (k.to_string(), v.into_iter().map(|s| s.to_string()).collect()))
            .collect(),
    }
}

#[test]
fn broadcast_twice_fans_out_once() {
    let node = "n1".to_string();
    let mut st = State::new();
    let r = st.to_response(&node, topo(vec![("n1", vec!["n2", "n3"])]));
    assert!(matches!(r, Ok((BroadcastProtocol::TopologyOk, _))));

    let (reply, fanout) = st
        .to_response(&node, BroadcastProtocol::Broadcast { message: 42 })
        .unwrap();
    assert!(matches!(reply, BroadcastProtocol::BroadcastOk));
    assert_eq!(
        fanout,
        vec![("n2".to_string(), 42), ("n3".to_string(), 42)]
    );

    let (reply, fanout) = st
        .to_response(&node, BroadcastProtocol::Broadcast { message: 42 })
        .unwrap();
    assert!(matches!(reply, BroadcastProtocol::BroadcastOk));
    assert!(fanout.is_empty());

    match st.to_response(&node, BroadcastProtocol::Read).unwrap() {
        (BroadcastProtocol::ReadOk { messages }, tasks) => {
            assert_eq!(messages, vec![42]);
            assert!(tasks.is_empty());
        }
        other => panic!("unexpected reply: {:?}", other),
    }
}

#[test]
fn add_deduplicates() {
    let mut st = State::new();
    assert!(st.add(5));
    assert!(st.add(6));
    assert!(!st.add(5));
    assert_eq!(st.all(), vec![5, 6]);
}

#[test]
fn read_snapshots_seen_values() {
    let node = "n1".to_string();
    let mut st = State::new();
    for v in [3, 1, 2, 1] {
        let r = st.to_response(&node, BroadcastProtocol::Broadcast { message: v });
        assert!(r.is_ok());
    }
    match st.to_response(&node, BroadcastProtocol::Read).unwrap() {
        (BroadcastProtocol::ReadOk { messages }, _) => assert_eq!(messages, vec![3, 1, 2]),
        other => panic!("unexpected reply: {:?}", other),
    }
}

#[test]
fn second_topology_fails_and_keeps_neighbours() {
    let node = "n1".to_string();
    let mut st = State::new();
    let r = st.to_response(&node, topo(vec![("n0", vec![]), ("n1", vec!["n2"])]));
    assert!(matches!(r, Ok((BroadcastProtocol::TopologyOk, _))));
    assert_eq!(st.neighbours(), &vec!["n2".to_string()]);

    let r = st.to_response(&node, topo(vec![("n1", vec!["n3", "n4"])]));
    assert_eq!(r.unwrap_err(), ProtocolError::NeighboursAlreadySet);
    assert_eq!(st.neighbours(), &vec!["n2".to_string()]);
}

#[test]
fn set_neighbours_twice_fails() {
    let mut st = State::new();
    assert!(st.set_neighbours(vec!["a".to_string()]).is_ok());
    assert_eq!(
        st.set_neighbours(vec!["b".to_string()]).unwrap_err(),
        ProtocolError::NeighboursAlreadySet
    );
    assert_eq!(st.neighbours(), &vec!["a".to_string()]);
}

#[test]
fn empty_first_topology_still_fixes_the_table() {
    let node = "n1".to_string();
    let mut st = State::new();
    let r = st.to_response(&node, topo(vec![("n1", vec![])]));
    assert!(matches!(r, Ok((BroadcastProtocol::TopologyOk, _))));
    assert!(st.neighbours().is_empty());

    let r = st.to_response(&node, topo(vec![("n1", vec!["n2"])]));
    assert_eq!(r.unwrap_err(), ProtocolError::NeighboursAlreadySet);
    assert!(st.neighbours().is_empty());
}

#[test]
fn set_neighbours_empty_then_nonempty_fails() {
    let mut st = State::new();
    assert!(st.set_neighbours(vec![]).is_ok());
    assert_eq!(
        st.set_neighbours(vec!["b".to_string()]).unwrap_err(),
        ProtocolError::NeighboursAlreadySet
    );
    assert!(st.neighbours().is_empty());
}

#[test]
fn topology_without_this_node_fails() {
    let node = "n1".to_string();
    let mut st = State::new();
    let r = st.to_response(&node, topo(vec![("n2", vec!["n1"])]));
    assert_eq!(r.unwrap_err(), ProtocolError::NoNeighboursForNode);
    assert!(st.neighbours().is_empty());
}

#[test]
fn unrecognized_requests_fail_without_mutation() {
    let node = "n1".to_string();
    let mut st = State::new();
    for req in [
        BroadcastProtocol::BroadcastOk,
        BroadcastProtocol::ReadOk { messages: vec![1] },
        BroadcastProtocol::TopologyOk,
        BroadcastProtocol::BroadcastBatch { message: vec![9] },
        BroadcastProtocol::BroadcastBatchOk,
    ] {
        let r = st.to_response(&node, req);
        assert_eq!(r.unwrap_err(), ProtocolError::UnexpectedRequest);
    }
    match st.to_response(&node, BroadcastProtocol::Read).unwrap() {
        (BroadcastProtocol::ReadOk { messages }, _) => assert!(messages.is_empty()),
        other => panic!("unexpected reply: {:?}", other),
    }
    assert!(st.neighbours().is_empty());
}

#[test]
fn broadcast_before_topology_fans_out_to_nobody() {
    let node = "n1".to_string();
    let mut st = State::new();
    let (reply, fanout) = st
        .to_response(&node, BroadcastProtocol::Broadcast { message: 8 })
        .unwrap();
    assert!(matches!(reply, BroadcastProtocol::BroadcastOk));
    assert!(fanout.is_empty());
    match st.to_response(&node, BroadcastProtocol::Read).unwrap() {
        (BroadcastProtocol::ReadOk { messages }, _) => assert_eq!(messages, vec![8]),
        other => panic!("unexpected reply: {:?}", other),
    }
}

#[test]
fn retry_until_first_acknowledgment() {
    // First k = 3 attempts fail, the fourth succeeds: exactly 4 attempts.
    let outcomes = vec![false, false, false, true, true, false];
    assert_eq!(deliver_with_retry(&outcomes), 4);
}

#[test]
fn retry_stops_at_immediate_success() {
    assert_eq!(deliver_with_retry(&vec![true]), 1);
    assert_eq!(deliver_with_retry(&vec![true, false]), 1);
}

#[test]
fn retry_policy_is_retry_on_failure() {
    assert!(should_retry(false));
    assert!(!should_retry(true));
}
