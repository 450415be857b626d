use gossip_ids::allocator::{generate, refill_request, Block, CasCounter, LIMIT};
use gossip_ids::local_ids;

#[test]
fn fresh_store_reads_zero() {
    let store = CasCounter::new();
    assert_eq!(store.read(), 0);
}

#[test]
fn cas_semantics() {
    let mut store = CasCounter::new();
    // Absent key: only a creating swap succeeds.
    assert!(!store.cas(0, 20, false));
    assert_eq!(store.read(), 0);
    assert!(store.cas(0, 20, true));
    assert_eq!(store.read(), 20);
    // Present key: the expected old value is the sole arbiter.
    assert!(!store.cas(0, 40, true));
    assert_eq!(store.read(), 20);
    assert!(store.cas(20, 40, false));
    assert_eq!(store.read(), 40);
}

#[test]
fn refill_request_advances_by_one_block() {
    assert_eq!(refill_request(0), (0, LIMIT, true));
    assert_eq!(refill_request(LIMIT), (LIMIT, 2 * LIMIT, false));
}

#[test]
fn block_counts_through_a_block() {
    let mut b = Block::new();
    assert!(b.next_block());
    b.update_block(100);
    assert!(!b.next_block());
    for k in 0..LIMIT {
        assert_eq!(b.next_id(), 100 + k);
    }
    assert!(b.next_block());
}

#[test]
fn twenty_one_generates_one_cas_per_block() {
    // Counter starts at 0. The first generate swaps 0 -> 20 and returns 0;
    // calls 2..=20 return 1..=19 without touching the store; call 21 swaps
    // 20 -> 40 and returns 20.
    let mut b = Block::new();
    let mut store = CasCounter::new();

    let first = generate(&mut b, &mut store);
    assert_eq!(first, 0);
    assert_eq!(store.read(), 20);

    let mut last = first;
    for expected in 1..20 {
        last = generate(&mut b, &mut store);
        assert_eq!(last, expected);
        assert_eq!(store.read(), 20);
    }

    let over_boundary = generate(&mut b, &mut store);
    assert_eq!(over_boundary, 20);
    assert_eq!(over_boundary, last + 1);
    assert_eq!(store.read(), 40);
}

#[test]
fn losing_a_cas_race_retries_against_fresh_value() {
    // Two allocators race on the same observed old value 0: exactly one
    // swap succeeds; the loser re-reads and reserves the next block.
    let mut store = CasCounter::new();
    let mut a = Block::new();
    let mut b = Block::new();

    let a_observed = store.read();
    let b_observed = store.read();
    assert_eq!((a_observed, b_observed), (0, 0));

    let (a_old, a_new, a_create) = refill_request(a_observed);
    let (b_old, b_new, b_create) = refill_request(b_observed);
    assert!(store.cas(a_old, a_new, a_create));
    assert!(!store.cas(b_old, b_new, b_create));
    a.update_block(a_old);

    let b_observed = store.read();
    assert_eq!(b_observed, 20);
    let (b_old, b_new, b_create) = refill_request(b_observed);
    assert!(store.cas(b_old, b_new, b_create));
    b.update_block(b_old);
    assert_eq!(store.read(), 40);

    let mut issued: Vec<u64> = Vec::new();
    for _ in 0..LIMIT {
        issued.push(a.next_id());
        issued.push(b.next_id());
    }
    let count = issued.len();
    issued.sort();
    issued.dedup();
    assert_eq!(issued.len(), count);
    assert!(issued.iter().all(|id| *id < 40));
}

#[test]
fn local_init_finds_this_nodes_slot() {
    let nodes: Vec<String> = vec!["n0".into(), "n1".into(), "n2".into()];
    let b = local_ids::Block::init(&nodes, &"n1".to_string()).unwrap();
    assert_eq!((b.offset, b.network_size, b.internal_counter), (1, 3, 0));
    assert!(local_ids::Block::init(&nodes, &"n9".to_string()).is_none());
}

#[test]
fn local_ids_stride_without_collision() {
    let nodes: Vec<String> = vec!["n0".into(), "n1".into(), "n2".into()];
    let mut b0 = local_ids::Block::init(&nodes, &"n0".to_string()).unwrap();
    let mut b1 = local_ids::Block::init(&nodes, &"n1".to_string()).unwrap();
    assert_eq!([b0.next_id(), b0.next_id(), b0.next_id()], [0, 3, 6]);
    assert_eq!([b1.next_id(), b1.next_id(), b1.next_id()], [1, 4, 7]);
}
