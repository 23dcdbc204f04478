//! Node dispatch: anti-entropy classification, retry idempotence by message
//! id, chain proofs for retries, and startup decisions.

use safe_network::addr::NodeAddr;
use safe_network::errors::RoutingError;
use safe_network::node::{ae_check, startup_decision, AeDecision, ProcessedIds, StartupAction};
use safe_network::node_state::Peer;
use safe_network::prefix_map::NetworkPrefixMap;
use safe_network::section::{sign_with_share, Section};
use safe_network::crypto::bls_keyset_random;
use safe_network::sap::{Elder, SectionAuthorityProvider};
use safe_network::signed::SectionAuth;
use safe_network::wire::MessageId;
use safe_network::xor::{Prefix, XorName};

fn name_with(first: u8, seed: u8) -> XorName {
    let mut bytes = vec![seed; 32];
    bytes[0] = first;
    bytes[31] = 9;
    XorName::from_bytes(bytes)
}

/// A section that went from its genesis key to a second key for prefix `0`.
fn two_key_section() -> Section {
    let founder = Peer::new(name_with(0, 1), NodeAddr::new(1, 1));
    let (mut section, share) = Section::first_node(founder).unwrap();
    let set = bls_keyset_random(0);
    let elder = Elder { name: name_with(0, 1), addr: NodeAddr::new(1, 1) };
    let sap = SectionAuthorityProvider::new(Prefix::empty().pushed(false), vec![elder], set.pk_set)
        .unwrap();
    let encoded = sap.encode();
    let sap_sig = sign_with_share(&set.secret_key_share, &sap.public_key_set, &encoded).unwrap();
    let signed_sap = SectionAuth { value: sap, sig: sap_sig };
    let key_sig = sign_with_share(
        &share.secret_key_share,
        &share.public_key_set,
        &signed_sap.sig.public_key,
    )
    .unwrap();
    assert!(section.update_elders(signed_sap, key_sig));
    section
}

#[test]
fn stale_key_gets_a_retry() {
    let section = two_key_section();
    let genesis = section.genesis_key().clone();
    let dst_name = name_with(0, 3);
    assert_eq!(
        ae_check(&section, &dst_name, Some(&genesis)),
        AeDecision::Retry
    );
}

#[test]
fn wrong_destination_gets_a_redirect() {
    let section = two_key_section();
    let current = section.chain().last_key();
    // a name outside prefix `0`
    let other_side = name_with(0xff, 3);
    assert_eq!(
        ae_check(&section, &other_side, Some(&current)),
        AeDecision::Redirect
    );
}

#[test]
fn current_key_and_matching_name_are_handled() {
    let section = two_key_section();
    let current = section.chain().last_key();
    let ours = name_with(0, 3);
    assert_eq!(ae_check(&section, &ours, Some(&current)), AeDecision::Handle);
}

#[test]
fn retried_message_id_is_processed_once() {
    let mut processed = ProcessedIds::new();
    let id = MessageId::new();
    // the first arrival is handled
    assert!(processed.should_process(&id));
    // the retry with the same id is a no-op
    assert!(!processed.should_process(&id));
    assert!(!processed.should_process(&id));
    // another id is handled on its own
    let other = MessageId::new();
    assert!(processed.should_process(&other));
}

#[test]
fn retry_proof_chain_is_minimized_from_the_stale_key() {
    let section = two_key_section();
    let genesis = section.genesis_key().clone();
    // the proof chain a retry carries: from the stale key to the latest
    let proof = section.chain().minimize(&genesis).unwrap();
    assert_eq!(proof.root_key(), &genesis);
    assert_eq!(proof.last_key(), section.chain().last_key());
    assert_eq!(proof.key_count(), 2);
    // a key the chain never saw yields no proof
    let stranger = bls_keyset_random(0);
    assert!(section.chain().minimize(&stranger.public_key).is_err());
}

#[test]
fn ae_retry_heals_a_stale_client() {
    // a receiver on the second key classifies a genesis-keyed message as
    // stale and answers with its SAP and a proof chain from the stale key
    let section = two_key_section();
    let genesis = section.genesis_key().clone();
    let dst_name = name_with(0, 3);
    assert_eq!(ae_check(&section, &dst_name, Some(&genesis)), AeDecision::Retry);
    let proof = section.chain().minimize(&genesis).unwrap();
    let sap = section.section_signed_authority_provider();

    // the client, who knew only the genesis key, verifies and learns the SAP
    let mut client_map = NetworkPrefixMap::new(genesis.clone());
    assert_eq!(client_map.known_sections_count(), 0);
    let learned = client_map.insert(
        SectionAuth { value: sap.value.duplicate(), sig: sap.sig.duplicate() },
        &proof,
    );
    assert!(learned);
    assert_eq!(client_map.known_sections_count(), 1);

    // the resend under the fresh key, with the message id kept, is handled
    assert_eq!(
        ae_check(&section, &dst_name, Some(&section.chain().last_key())),
        AeDecision::Handle
    );
    let mut receiver_log = ProcessedIds::new();
    let msg_id = MessageId::new();
    assert!(receiver_log.should_process(&msg_id));
    // the receiver had not yet processed the id, so the resend goes through;
    // a duplicate of the same id afterwards is a no-op
    assert!(!receiver_log.should_process(&msg_id));
}

#[test]
fn chain_insert_rejects_a_bad_signature() {
    let section = two_key_section();
    let mut chain = section.chain().clone();
    let stranger = bls_keyset_random(0);
    let bogus_sig = vec![0u8; 96];
    let r = chain.insert(&section.genesis_key().clone(), stranger.public_key, bogus_sig);
    assert!(r.is_err());
    assert_eq!(chain.key_count(), 2);
}

#[test]
fn startup_errors_map_to_shell_actions() {
    assert_eq!(
        startup_decision(&RoutingError::CannotConnectEndpoint),
        StartupAction::SuggestPortForwarding
    );
    assert_eq!(startup_decision(&RoutingError::TryJoinLater), StartupAction::RetryLater);
    assert_eq!(
        startup_decision(&RoutingError::NodeNotReachable(NodeAddr::new(1, 1))),
        StartupAction::ExitUnreachable
    );
    assert_eq!(startup_decision(&RoutingError::JoinTimeout), StartupAction::RetryAfterTimeout);
    assert_eq!(startup_decision(&RoutingError::FailedSend), StartupAction::Fatal);
}
