//! The prefix map: trusted insertion, idempotence, ancestor replacement and
//! closest-section lookup.

use safe_network::crypto::bls_keyset_random;
use safe_network::node_state::Peer;
use safe_network::prefix_map::NetworkPrefixMap;
use safe_network::sap::{Elder, SectionAuthorityProvider};
use safe_network::section::{sign_with_share, Section};
use safe_network::signed::SectionAuth;
use safe_network::xor::{Prefix, XorName};
use safe_network::addr::NodeAddr;

fn name_with(first: u8, seed: u8) -> XorName {
    let mut bytes = vec![seed; 32];
    bytes[0] = first;
    bytes[31] = 9;
    XorName::from_bytes(bytes)
}

/// A self-signed SAP for the given prefix, plus its secret key share.
fn signed_sap_for(prefix: Prefix, first: u8) -> (SectionAuth<SectionAuthorityProvider>, Vec<u8>) {
    let set = bls_keyset_random(0);
    let elder = Elder { name: name_with(first, 1), addr: NodeAddr::new(1, 1000 + first as u16) };
    let sap = SectionAuthorityProvider::new(prefix, vec![elder], set.pk_set).unwrap();
    let encoded = sap.encode();
    let sig = sign_with_share(&set.secret_key_share, &sap.public_key_set, &encoded).unwrap();
    (SectionAuth { value: sap, sig }, set.secret_key_share)
}

#[test]
fn insert_is_idempotent() {
    let founder = Peer::new(name_with(0, 1), NodeAddr::new(1, 1));
    let (section, _) = Section::first_node(founder).unwrap();
    let mut map = NetworkPrefixMap::new(section.genesis_key().clone());
    let sap = section.section_signed_authority_provider();
    let entry = SectionAuth { value: sap.value.duplicate(), sig: sap.sig.duplicate() };
    let entry_again = SectionAuth { value: sap.value.duplicate(), sig: sap.sig.duplicate() };

    assert!(map.insert(entry, section.chain()));
    assert_eq!(map.known_sections_count(), 1);
    // inserting the same SAP again changes nothing
    assert!(!map.insert(entry_again, section.chain()));
    assert_eq!(map.known_sections_count(), 1);
}

#[test]
fn untrusted_sap_is_rejected() {
    let founder = Peer::new(name_with(0, 1), NodeAddr::new(1, 1));
    let (section, _) = Section::first_node(founder).unwrap();
    let mut map = NetworkPrefixMap::new(section.genesis_key().clone());
    // a SAP signed by a key the chain does not know
    let (stranger, _) = signed_sap_for(Prefix::empty().pushed(true), 0xff);
    assert!(!map.insert(stranger, section.chain()));
    assert_eq!(map.known_sections_count(), 0);
}

#[test]
fn split_children_replace_their_ancestor() {
    let founder = Peer::new(name_with(0, 1), NodeAddr::new(1, 1));
    let (section, share) = Section::first_node(founder).unwrap();
    let mut map = NetworkPrefixMap::new(section.genesis_key().clone());
    let root = section.section_signed_authority_provider();
    let root_entry = SectionAuth { value: root.value.duplicate(), sig: root.sig.duplicate() };
    assert!(map.insert(root_entry, section.chain()));

    // two children, their keys signed into a chain by the genesis key
    let mut chain = section.chain().clone();
    for bit in [false, true] {
        let (child, _) = signed_sap_for(Prefix::empty().pushed(bit), if bit { 0xff } else { 0 });
        let key_sig = sign_with_share(
            &share.secret_key_share,
            &share.public_key_set,
            &child.sig.public_key,
        )
        .unwrap();
        chain
            .insert(&key_sig.public_key, child.sig.public_key.clone(), key_sig.signature)
            .unwrap();
        assert!(map.insert(child, &chain));
    }
    // the empty-prefix ancestor is gone; the two children tile the space
    assert_eq!(map.known_sections_count(), 2);
    let zero_side = map.closest_or_opposite(&name_with(0x00, 5)).unwrap();
    assert_eq!(zero_side.value.prefix.bit_count(), 1);
    assert!(!zero_side.value.prefix.bit(0));
    let one_side = map.closest_or_opposite(&name_with(0xff, 5)).unwrap();
    assert!(one_side.value.prefix.bit(0));
}

#[test]
fn ancestor_of_known_prefix_is_rejected() {
    let founder = Peer::new(name_with(0, 1), NodeAddr::new(1, 1));
    let (mut section, share) = Section::first_node(founder).unwrap();
    let mut map = NetworkPrefixMap::new(section.genesis_key().clone());
    let root = section.section_signed_authority_provider();
    let stale = SectionAuth { value: root.value.duplicate(), sig: root.sig.duplicate() };

    let (child, _) = signed_sap_for(Prefix::empty().pushed(false), 0);
    let key_sig = sign_with_share(
        &share.secret_key_share,
        &share.public_key_set,
        &child.sig.public_key,
    )
    .unwrap();
    assert!(section.update_elders(
        SectionAuth { value: child.value.duplicate(), sig: child.sig.duplicate() },
        key_sig,
    ));
    assert!(map.insert(child, section.chain()));
    assert_eq!(map.known_sections_count(), 1);

    // the stale empty-prefix SAP is an ancestor of the known child: rejected
    assert_eq!(stale.value.prefix.bit_count(), 0);
    assert!(!map.insert(stale, section.chain()));
    assert_eq!(map.known_sections_count(), 1);
}

#[test]
fn closest_or_opposite_prefers_match_then_closest() {
    let founder = Peer::new(name_with(0, 1), NodeAddr::new(1, 1));
    let (mut section, share) = Section::first_node(founder).unwrap();
    let mut map = NetworkPrefixMap::new(section.genesis_key().clone());

    // only the `0` side is known
    let (child, _) = signed_sap_for(Prefix::empty().pushed(false), 0);
    let key_sig = sign_with_share(
        &share.secret_key_share,
        &share.public_key_set,
        &child.sig.public_key,
    )
    .unwrap();
    assert!(section.update_elders(
        SectionAuth { value: child.value.duplicate(), sig: child.sig.duplicate() },
        key_sig,
    ));
    assert!(map.insert(child, section.chain()));

    // a name on the `1` side still gets the only section: the opposite one
    let opposite = map.closest_or_opposite(&name_with(0xff, 2)).unwrap();
    assert!(!opposite.value.prefix.bit(0));
    // an empty map yields nothing
    let empty = NetworkPrefixMap::new(section.genesis_key().clone());
    assert!(empty.closest_or_opposite(&name_with(0, 2)).is_none());
}
