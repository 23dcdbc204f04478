//! The client session: chunk validation against the queried name, error
//! fallbacks, elder selection by distance, startup batches and send tallies.

use safe_network::addr::NodeAddr;
use safe_network::client::{
    closest_elders, contact_batch_bounds, tally_sends, QueryDecision, QueryResponse, QueryState,
    NODES_TO_CONTACT_PER_STARTUP_BATCH, NUM_OF_ELDERS_SUBSET_FOR_QUERIES,
};
use safe_network::crypto::sha3_256;
use safe_network::errors::{ClientError, ErrorMessage};
use safe_network::node_state::Peer;
use safe_network::xor::XorName;

fn name_of(data: &[u8]) -> XorName {
    XorName::from_bytes(sha3_256(&data.to_vec()))
}

#[test]
fn valid_chunk_is_accepted() {
    let data = b"chunk contents".to_vec();
    let mut state = QueryState::new(3, Some(name_of(b"chunk contents")));
    let decision = state.on_response(QueryResponse::GetChunk(Ok(data)));
    assert!(matches!(decision, QueryDecision::Accept(_)));
    assert_eq!(state.discarded, 0);
}

#[test]
fn byzantine_chunk_is_discarded_and_counted() {
    // the elder answers with bytes that do not hash to the queried name
    let mut state = QueryState::new(3, Some(name_of(b"what was asked")));
    let decision = state.on_response(QueryResponse::GetChunk(Ok(b"something else".to_vec())));
    assert!(matches!(decision, QueryDecision::Discard(None)));
    assert_eq!(state.discarded, 1);
    assert!(!state.exhausted());
}

#[test]
fn three_byzantine_chunks_exhaust_into_no_response() {
    let mut state = QueryState::new(NUM_OF_ELDERS_SUBSET_FOR_QUERIES, Some(name_of(b"asked")));
    for _ in 0..3 {
        let _ = state.on_response(QueryResponse::GetChunk(Ok(b"forged".to_vec())));
    }
    assert!(state.exhausted());
    assert_eq!(state.conclude(), Err(ClientError::NoResponse));
}

#[test]
fn error_is_held_as_fallback_until_all_elders_failed() {
    let mut state = QueryState::new(2, Some(name_of(b"asked")));
    let _ = state.on_response(QueryResponse::GetChunk(Err(ErrorMessage::NoSuchEntry)));
    assert!(!state.exhausted());
    let _ = state.on_response(QueryResponse::GetChunk(Err(ErrorMessage::NoSuchEntry)));
    assert!(state.exhausted());
    match state.conclude() {
        Ok(QueryResponse::GetChunk(Err(ErrorMessage::NoSuchEntry))) => {}
        other => panic!("expected the held error, got {:?}", other),
    }
}

#[test]
fn non_chunk_response_is_accepted_directly() {
    let mut state = QueryState::new(3, None);
    let decision = state.on_response(QueryResponse::Other(Ok(b"register".to_vec())));
    assert!(matches!(decision, QueryDecision::Accept(_)));
}

#[test]
fn closest_elders_picks_the_nearest_by_xor() {
    let dst = XorName::from_bytes(vec![0u8; 32]);
    let mut pool = Vec::new();
    for i in 1..=6u8 {
        let mut bytes = vec![0u8; 32];
        bytes[0] = i * 0x10;
        pool.push(Peer::new(XorName::from_bytes(bytes), NodeAddr::new(i as u128, i as u16)));
    }
    let chosen = closest_elders(pool, NUM_OF_ELDERS_SUBSET_FOR_QUERIES, &dst);
    assert_eq!(chosen.len(), 3);
    // the three smallest leading bytes are the closest to the zero name
    let mut leads: Vec<u8> = chosen.iter().map(|p| p.name.bit_byte(0)).collect();
    leads.sort();
    assert_eq!(leads, vec![0x10, 0x20, 0x30]);
}

#[test]
fn contact_batches_walk_the_candidates() {
    assert_eq!(contact_batch_bounds(0, 8), (0, 3));
    assert_eq!(contact_batch_bounds(1, 8), (3, 6));
    assert_eq!(contact_batch_bounds(2, 8), (6, 8));
    // past the end, the last full batch is contacted again
    let (s, e) = contact_batch_bounds(5, 8);
    assert_eq!(e, 8);
    assert!(e - s <= NODES_TO_CONTACT_PER_STARTUP_BATCH);
}

#[test]
fn tally_reports_aggregate_not_per_peer() {
    let a = NodeAddr::new(1, 1);
    let b = NodeAddr::new(2, 2);
    let c = NodeAddr::new(3, 3);
    let (successes, total, failed) = tally_sends(vec![(a, true), (b, false), (c, true)]);
    assert_eq!(successes, 2);
    assert_eq!(total, 3);
    assert_eq!(failed, vec![b]);
}
