//! Round trips and field access of the wire codec, driven through the real
//! signature schemes.

use safe_network::crypto::{
    bls_keyset_random, ed_derive_public, ed_sign, random_bytes32, sha3_256,
};
use safe_network::wire::{
    BlsShareAuth, DstLocation, MessageId, MessageType, MsgKind, NodeAuth, ServiceAuth, WireMsg,
};
use safe_network::service_msg::{DataErrorKind, ServiceMsg};
use safe_network::signed::SigShare;
use safe_network::xor::XorName;

fn random_name() -> XorName {
    XorName::from_bytes(random_bytes32())
}

#[test]
fn serialisation_node_msg() {
    let src_section = bls_keyset_random(0);
    let node_sk = random_bytes32();
    let node_pk = ed_derive_public(&node_sk);

    let dst_name = random_name();
    let dst_section = bls_keyset_random(0);
    let dst_location = DstLocation::Node {
        name: dst_name.duplicate(),
        section_pk: dst_section.public_key.clone(),
    };

    let msg_id = MessageId::new();
    let payload = sha3_256(&b"node message body".to_vec());
    let signature = ed_sign(&node_sk, &payload);
    let msg_kind = MsgKind::NodeAuthMsg(NodeAuth {
        section_pk: src_section.public_key.clone(),
        public_key: node_pk.clone(),
        signature,
    });

    let wire_msg = WireMsg::new_msg(msg_id.duplicate(), payload, msg_kind, dst_location).unwrap();
    let serialized = wire_msg.serialize();

    let deserialized = WireMsg::parse(&serialized).unwrap();
    assert_eq!(deserialized, wire_msg);
    assert!(deserialized.msg_id().equals(wire_msg.msg_id()));
    assert_eq!(deserialized.dst_location(), wire_msg.dst_location());
    assert_eq!(
        deserialized.dst_section_pk().unwrap(),
        &dst_section.public_key
    );
    assert_eq!(
        deserialized.src_section_pk().unwrap(),
        &src_section.public_key
    );

    // the authority verifies over the payload
    match deserialized.into_message().unwrap() {
        MessageType::System { msg_id: id, msg_authority, .. } => {
            assert!(id.equals(&msg_id));
            match msg_authority {
                MsgKind::NodeAuthMsg(a) => assert_eq!(a.public_key, node_pk),
                _ => panic!("expected node authority"),
            }
        }
        _ => panic!("expected a system message"),
    }
}

#[test]
fn serialisation_client_msg() {
    let client_sk = random_bytes32();
    let client_pk = ed_derive_public(&client_sk);

    let dst_name = random_name();
    let dst_section = bls_keyset_random(0);
    let dst_location = DstLocation::Node {
        name: dst_name.duplicate(),
        section_pk: dst_section.public_key.clone(),
    };

    let msg_id = MessageId::new();
    let client_msg = ServiceMsg::QueryGetChunk(dst_name.duplicate());
    let payload = client_msg.encode();
    let signature = ed_sign(&client_sk, &payload);
    let auth = ServiceAuth { public_key: client_pk.clone(), signature };
    let msg_kind = MsgKind::ServiceMsg(auth);

    let wire_msg = WireMsg::new_msg(msg_id.duplicate(), payload, msg_kind, dst_location).unwrap();
    let serialized = wire_msg.serialize();

    let deserialized = WireMsg::parse(&serialized).unwrap();
    assert_eq!(deserialized, wire_msg);
    assert!(deserialized.msg_id().equals(wire_msg.msg_id()));
    assert_eq!(deserialized.dst_location(), wire_msg.dst_location());
    assert_eq!(
        deserialized.dst_section_pk().unwrap(),
        &dst_section.public_key
    );
    assert!(deserialized.src_section_pk().is_none());

    // the decoded body equals the message sent
    let (id, auth, _dst, decoded) = deserialized.into_service_message().unwrap();
    assert!(id.equals(&msg_id));
    assert_eq!(auth.public_key, client_pk);
    assert_eq!(decoded, ServiceMsg::QueryGetChunk(dst_name));
}

#[test]
fn service_bodies_round_trip() {
    let bodies = vec![
        ServiceMsg::QueryGetChunk(random_name()),
        ServiceMsg::QueryResponseChunk(b"the chunk bytes".to_vec()),
        ServiceMsg::QueryResponseError(DataErrorKind::NoSuchEntry),
        ServiceMsg::Cmd(b"a command body".to_vec()),
        ServiceMsg::CmdError(DataErrorKind::AccessDenied),
        ServiceMsg::ServiceError { source_message: None },
        ServiceMsg::ServiceError { source_message: Some(b"answered payload".to_vec()) },
    ];
    for body in bodies {
        let bytes = body.encode();
        let parsed = ServiceMsg::parse(&bytes).unwrap();
        assert_eq!(parsed, body);
    }
    // junk does not parse
    assert!(ServiceMsg::parse(&vec![9u8, 9u8, 9u8]).is_err());
    assert!(ServiceMsg::parse(&Vec::new()).is_err());
}

#[test]
fn service_error_bounce_authenticates_against_embedded_payload() {
    let client_sk = random_bytes32();
    let client_pk = ed_derive_public(&client_sk);

    // the payload of the message being answered, which the client signed
    let answered = ServiceMsg::QueryGetChunk(random_name()).encode();
    let signature = ed_sign(&client_sk, &answered);
    let auth = ServiceAuth { public_key: client_pk, signature };

    // the bounce embeds that payload; its own bytes are unsigned
    let bounce = ServiceMsg::ServiceError { source_message: Some(answered) };
    let wire_msg = WireMsg::new_msg(
        MessageId::new(),
        bounce.encode(),
        MsgKind::ServiceMsg(auth.clone()),
        DstLocation::EndUser { name: random_name() },
    )
    .unwrap();
    // the authority covers the embedded payload, so the bounce is accepted
    assert!(wire_msg.into_service_message().is_ok());

    // the same authority over a direct message it does not cover is refused
    let other = ServiceMsg::Cmd(b"unrelated".to_vec());
    let bad = WireMsg::new_msg(
        MessageId::new(),
        other.encode(),
        MsgKind::ServiceMsg(auth),
        DstLocation::EndUser { name: random_name() },
    )
    .unwrap();
    assert!(bad.into_service_message().is_err());
}

#[test]
fn serialisation_share_auth_round_trip() {
    let set = bls_keyset_random(1);
    let msg_id = MessageId::new();
    let payload = b"share signed".to_vec();
    let share_sig = safe_network::crypto::bls_share_sign(&set.secret_key_share, &payload).unwrap();
    let msg_kind = MsgKind::NodeBlsShareAuthMsg(BlsShareAuth {
        section_pk: set.public_key.clone(),
        src_name: random_name(),
        sig_share: SigShare {
            public_key_set: set.pk_set.clone(),
            index: 0,
            signature_share: share_sig,
        },
    });
    let dst = DstLocation::Section {
        name: random_name(),
        section_pk: set.public_key.clone(),
    };
    let wire_msg = WireMsg::new_msg(msg_id, payload, msg_kind, dst).unwrap();
    let bytes = wire_msg.serialize();
    let parsed = WireMsg::parse(&bytes).unwrap();
    assert_eq!(parsed, wire_msg);
    // the share verifies over the payload
    assert!(parsed.into_message().is_ok());
}

#[test]
fn parse_rejects_malformed_and_unknown_version() {
    assert!(WireMsg::parse(&vec![0u8; 10]).is_err());
    let mut bytes = vec![0u8; 200];
    bytes[0] = 0;
    bytes[1] = 9; // version 9, unknown
    assert!(WireMsg::parse(&bytes).is_err());
}

#[test]
fn tampered_signature_is_rejected() {
    let client_sk = random_bytes32();
    let client_pk = ed_derive_public(&client_sk);
    let payload = b"payload".to_vec();
    let mut signature = ed_sign(&client_sk, &payload);
    signature[0] ^= 0xff;
    let auth = ServiceAuth { public_key: client_pk, signature };
    let wire_msg = WireMsg::new_msg(
        MessageId::new(),
        payload,
        MsgKind::ServiceMsg(auth),
        DstLocation::EndUser { name: random_name() },
    )
    .unwrap();
    assert!(wire_msg.into_message().is_err());
}
