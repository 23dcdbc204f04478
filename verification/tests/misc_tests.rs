//! Names and prefixes, error conversion, the joining stage and adult duties.

use safe_network::addr::NodeAddr;
use safe_network::adult::{
    chunk_matches_name, AdultDuties, AdultDuty, ChunkDuty, ChunkReply, NodeDuty, NodeOperation,
};
use safe_network::crypto::{bls_keyset_random, random_bytes32, sha3_256};
use safe_network::errors::{convert_dt_error_to_error_message, Error, ErrorMessage, PublicKey};
use safe_network::joining::{Connected, JoinType, Joining, MessageAction, Variant};
use safe_network::sap::{Elder, SectionAuthorityProvider};
use safe_network::xor::{closer_to_target, Prefix, XorName};

fn name_with(first: u8, seed: u8) -> XorName {
    let mut bytes = vec![seed; 32];
    bytes[0] = first;
    XorName::from_bytes(bytes)
}

#[test]
fn prefix_matching_and_growth() {
    let p0 = Prefix::empty();
    let name = name_with(0x80, 3);
    assert!(p0.matches(&name));
    let p1 = p0.pushed(true);
    assert!(p1.matches(&name));
    let p1b = p0.pushed(false);
    assert!(!p1b.matches(&name));
    assert!(p0.is_ancestor_of(&p1));
    assert!(!p1.is_ancestor_of(&p0));
    assert!(p1.is_extension_of(&p0));
}

#[test]
fn relocation_embeds_the_granted_age() {
    // a relocated node takes on a name whose final byte is its new age
    let old = name_with(0x12, 4);
    let relocated = old.with_age(9);
    assert_eq!(relocated.age(), 9);
    assert_eq!(relocated.bit_byte(0), 0x12);
}

#[test]
fn xor_distance_orders_names() {
    let target = name_with(0x00, 0);
    let near = name_with(0x01, 0);
    let far = name_with(0xf0, 0);
    assert!(closer_to_target(&near, &far, &target));
    assert!(!closer_to_target(&far, &near, &target));
    assert!(!closer_to_target(&near, &near, &target));
}

#[test]
fn dt_errors_convert_to_wire_errors() {
    assert_eq!(
        convert_dt_error_to_error_message(Error::NoSuchEntry),
        ErrorMessage::NoSuchEntry
    );
    let pk = PublicKey::Bls(vec![1u8; 48]);
    assert_eq!(
        convert_dt_error_to_error_message(Error::AccessDenied(pk.clone())),
        ErrorMessage::AccessDenied(pk)
    );
    match convert_dt_error_to_error_message(Error::InvalidOperation) {
        ErrorMessage::InvalidOperation(reason) => {
            assert_eq!(reason, "DtError::InvalidOperation");
        }
        other => panic!("unexpected conversion: {:?}", other),
    }
    match convert_dt_error_to_error_message(Error::OutOfRange) {
        ErrorMessage::InvalidOperation(reason) => assert_eq!(reason, "DtError: OutOfRange"),
        other => panic!("unexpected conversion: {:?}", other),
    }
    match convert_dt_error_to_error_message(Error::NoSuchKey) {
        ErrorMessage::InvalidOperation(reason) => assert_eq!(reason, "DtError: NoSuchKey"),
        other => panic!("unexpected conversion: {:?}", other),
    }
}

fn target_sap() -> SectionAuthorityProvider {
    let set = bls_keyset_random(sm(2));
    let elders = vec![
        Elder { name: name_with(1, 1), addr: NodeAddr::new(1, 1) },
        Elder { name: name_with(2, 2), addr: NodeAddr::new(2, 2) },
    ];
    SectionAuthorityProvider::new(Prefix::empty(), elders, set.pk_set).unwrap()
}

/// The threshold a key set needs for `n` elders.
fn sm(n: usize) -> usize {
    safe_network::supermajority(n) - 1
}

#[test]
fn joining_sends_one_request_per_elder_and_retries_on_timeout() {
    let (mut joining, sends) = Joining::new(target_sap(), JoinType::First, 1);
    assert_eq!(sends.len(), 2);
    assert_eq!(joining.connect_type(), Connected::First);
    // a foreign timer token changes nothing
    assert!(joining.handle_timeout(99, 100).is_empty());
    assert_eq!(joining.timer_token, 1);
    // our token resends and rearms
    let resent = joining.handle_timeout(1, 2);
    assert_eq!(resent.len(), 2);
    assert_eq!(joining.timer_token, 2);
}

#[test]
fn joining_message_decisions() {
    let (joining, _) = Joining::new(target_sap(), JoinType::First, 1);
    assert_eq!(
        joining.decide_message_action(&Variant::NodeApproval { verified: false }),
        Ok(MessageAction::Handle)
    );
    assert_eq!(
        joining.decide_message_action(&Variant::Ping),
        Ok(MessageAction::Discard)
    );
    assert_eq!(
        joining.decide_message_action(&Variant::JoinRequest),
        Ok(MessageAction::Bounce)
    );
    assert!(joining
        .decide_message_action(&Variant::Bounce { verified: false })
        .is_err());
    // while relocating, an unverified approval is refused
    let (relocating, _) = Joining::new(target_sap(), JoinType::Relocate(vec![0u8; 48]), 1);
    assert!(relocating
        .decide_message_action(&Variant::NodeApproval { verified: false })
        .is_err());
    assert_eq!(
        relocating.decide_message_action(&Variant::NodeApproval { verified: true }),
        Ok(MessageAction::Handle)
    );
}

#[test]
fn joining_adopts_newer_matching_section() {
    let (mut joining, _) = Joining::new(target_sap(), JoinType::First, 1);
    let our_name = name_with(0x00, 5);
    // a view with another key whose prefix matches our name is adopted
    let set = bls_keyset_random(0);
    let newer = SectionAuthorityProvider::new(
        Prefix::empty().pushed(false),
        vec![Elder { name: name_with(3, 3), addr: NodeAddr::new(3, 3) }],
        set.pk_set,
    )
    .unwrap();
    let newer_key = newer.public_key.clone();
    let resent = joining.handle_bootstrap_response(&our_name, newer).unwrap();
    assert_eq!(resent.len(), 1);
    assert_eq!(joining.elders_info.public_key, newer_key);
    // a view for the wrong half is ignored
    let set2 = bls_keyset_random(0);
    let wrong = SectionAuthorityProvider::new(
        Prefix::empty().pushed(true),
        vec![Elder { name: name_with(4, 4), addr: NodeAddr::new(4, 4) }],
        set2.pk_set,
    )
    .unwrap();
    let resent = joining.handle_bootstrap_response(&our_name, wrong).unwrap();
    assert!(resent.is_empty());
    assert_eq!(joining.elders_info.public_key, newer_key);
}

#[test]
fn adult_stores_and_reads_chunks_by_digest() {
    let mut adult = AdultDuties::new(random_bytes32()).unwrap();
    let data = b"stored chunk".to_vec();
    let name = XorName::from_bytes(sha3_256(&data));

    let write = AdultDuty::RunAsChunks(ChunkDuty::WriteChunk(data.clone()));
    let op = adult.process(&write);
    assert!(matches!(op, Some(NodeOperation::RunAsNode(NodeDuty::ProcessMessaging(_)))));

    let read = AdultDuty::RunAsChunks(ChunkDuty::ReadChunk(name.duplicate()));
    match adult.process(&read) {
        Some(NodeOperation::RunAsNode(NodeDuty::ProcessMessaging(ChunkReply::Chunk(out)))) => {
            assert_eq!(out, data);
            assert!(chunk_matches_name(&out, &name));
        }
        other => panic!("expected the chunk back, got {:?}", other),
    }

    // a name nothing was stored under errs
    let missing = AdultDuty::RunAsChunks(ChunkDuty::ReadChunk(name_with(9, 9)));
    match adult.process(&missing) {
        Some(NodeOperation::RunAsNode(NodeDuty::ProcessMessaging(ChunkReply::Failure(e)))) => {
            assert_eq!(e, ErrorMessage::NoSuchEntry);
        }
        other => panic!("expected a failure, got {:?}", other),
    }
}
