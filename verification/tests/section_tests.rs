//! Sections: genesis boot, joining members, elder candidacy and splitting.

use safe_network::addr::NodeAddr;
use safe_network::crypto::{bls_keyset_random, random_bytes32};
use safe_network::node_state::{MembershipState, NodeState, Peer, MIN_ADULT_AGE};
use safe_network::prefix_map::NetworkPrefixMap;
use safe_network::sap::{Elder, SectionAuthorityProvider};
use safe_network::section::{sign_with_share, Section};
use safe_network::signed::SectionAuth;
use safe_network::xor::{Prefix, XorName};
use safe_network::{supermajority, ELDER_SIZE, RECOMMENDED_SECTION_SIZE};

fn name_with(first: u8, age: u8, seed: u8) -> XorName {
    let mut bytes = vec![seed; 32];
    bytes[0] = first;
    bytes[31] = age;
    XorName::from_bytes(bytes)
}

fn addr(port: u16) -> NodeAddr {
    NodeAddr::new(0x7f000001, port)
}

fn random_peer() -> Peer {
    Peer::new(XorName::from_bytes(random_bytes32()), addr(12000))
}

#[test]
fn genesis_boot_single_elder_chain_and_prefix_map() {
    let peer = random_peer();
    let peer_name = peer.name.duplicate();
    let (section, share) = Section::first_node(peer).unwrap();

    // the first node is the only elder and the chain holds one key: genesis
    assert_eq!(section.authority_provider().elder_count(), 1);
    assert_eq!(section.chain().key_count(), 1);
    assert_eq!(section.genesis_key(), &section.chain().last_key());
    assert_eq!(section.prefix().bit_count(), 0);
    assert_eq!(section.members().len(), 1);
    assert!(section.is_elder(&peer_name));
    assert_eq!(share.index, 0);

    // its signed SAP fills an empty prefix map with one entry, empty prefix
    let mut map = NetworkPrefixMap::new(section.genesis_key().clone());
    let sap = section.section_signed_authority_provider();
    let inserted = map.insert(
        SectionAuth { value: sap.value.duplicate(), sig: sap.sig.duplicate() },
        section.chain(),
    );
    assert!(inserted);
    assert_eq!(map.known_sections_count(), 1);
    let found = map.closest_or_opposite(&peer_name).unwrap();
    assert_eq!(found.value.prefix.bit_count(), 0);
}

#[test]
fn second_node_join_adds_member() {
    let peer = random_peer();
    let (mut section, share) = Section::first_node(peer).unwrap();

    let joiner = Peer::new(name_with(0x80, 3, 7), addr(12001));
    let state = NodeState::joined(joiner, None);
    let encoded = state.encode();
    let sig = sign_with_share(&share.secret_key_share, &share.public_key_set, &encoded).unwrap();
    let accepted = section.update_member(SectionAuth { value: state, sig });
    assert!(accepted);
    assert_eq!(section.members().len(), 2);
    // both records say Joined
    for i in 0..section.members().len() {
        assert_eq!(section.members().get(i).value.state, MembershipState::Joined);
    }
    // the chain still has exactly one key
    assert_eq!(section.chain().key_count(), 1);
}

#[test]
fn tampered_member_record_is_rejected() {
    let peer = random_peer();
    let (mut section, share) = Section::first_node(peer).unwrap();

    let joiner = Peer::new(name_with(0x80, 3, 9), addr(12002));
    let state = NodeState::joined(joiner, None);
    let encoded = state.encode();
    let mut sig = sign_with_share(&share.secret_key_share, &share.public_key_set, &encoded).unwrap();
    sig.signature[0] ^= 0x01;
    let accepted = section.update_member(SectionAuth { value: state, sig });
    assert!(!accepted);
    assert_eq!(section.members().len(), 1);
}

/// Builds a section whose first node is mature, and adds `extra` mature
/// members whose names are balanced on the first bit.
fn grown_section(extra: usize) -> (Section, safe_network::section::SectionKeyShare) {
    let founder = Peer::new(name_with(0x00, MIN_ADULT_AGE + 1, 1), addr(12000));
    let (mut section, share) = Section::first_node(founder).unwrap();
    for i in 0..extra {
        let first = if i % 2 == 0 { 0xff } else { 0x00 };
        let name = name_with(first, MIN_ADULT_AGE + 1, 10 + i as u8);
        let peer = Peer::new(name, addr(13000 + i as u16));
        let state = NodeState::joined(peer, None);
        let encoded = state.encode();
        let sig =
            sign_with_share(&share.secret_key_share, &share.public_key_set, &encoded).unwrap();
        assert!(section.update_member(SectionAuth { value: state, sig }));
    }
    (section, share)
}

#[test]
fn try_split_with_twenty_balanced_mature_members() {
    // 1 founder + 19 extras: 10 with first bit 0, 10 with first bit 1
    let (section, _share) = grown_section(19);
    assert_eq!(section.members().len(), 20);
    let our_name = name_with(0x00, MIN_ADULT_AGE + 1, 1);
    let split = section.try_split(&our_name, &Vec::new());
    let (ours, siblings) = split.expect("both halves are large enough to split");
    assert_eq!(ours.prefix.bit_count(), 1);
    assert_eq!(siblings.prefix.bit_count(), 1);
    assert!(!ours.prefix.bit(0));
    assert!(siblings.prefix.bit(0));
    assert!(ours.elders.len() <= ELDER_SIZE);
    assert!(siblings.elders.len() <= ELDER_SIZE);

    // promote-and-demote proposes both child candidate sets
    let candidates = section.promote_and_demote_elders(&our_name, &Vec::new());
    assert_eq!(candidates.len(), 2);
}

#[test]
fn try_split_needs_enough_mature_members_each_side() {
    // 1 founder + 9 extras: neither half reaches the recommended size
    let (section, _share) = grown_section(9);
    assert!(section.members().len() < 2 * RECOMMENDED_SECTION_SIZE);
    let our_name = name_with(0x00, MIN_ADULT_AGE + 1, 1);
    assert!(section.try_split(&our_name, &Vec::new()).is_none());
}

#[test]
fn empty_elder_set_is_rejected() {
    let set = bls_keyset_random(0);
    let r = SectionAuthorityProvider::new(Prefix::empty(), Vec::new(), set.pk_set);
    assert!(r.is_err());
}

#[test]
fn sap_threshold_must_match_supermajority() {
    // a set with threshold 0 cannot stand for five elders, whose
    // supermajority is four
    let set = bls_keyset_random(0);
    let mut elders = Vec::new();
    for i in 0..5u8 {
        elders.push(Elder { name: name_with(i, 5, i), addr: addr(14000 + i as u16) });
    }
    assert!(SectionAuthorityProvider::new(Prefix::empty(), elders, set.pk_set).is_err());

    // with the right threshold the same elders are accepted
    let good = bls_keyset_random(supermajority(5) - 1);
    let mut elders2 = Vec::new();
    for i in 0..5u8 {
        elders2.push(Elder { name: name_with(i, 5, i), addr: addr(14000 + i as u16) });
    }
    let sap = SectionAuthorityProvider::new(Prefix::empty(), elders2, good.pk_set).unwrap();
    assert_eq!(sap.elder_count(), 5);
}

#[test]
fn elder_candidates_rank_by_age_first() {
    let founder = Peer::new(name_with(0x00, 20, 1), addr(12000));
    let (mut section, share) = Section::first_node(founder).unwrap();
    // add ELDER_SIZE peers older than everyone else plus some young ones
    for i in 0..10u8 {
        let age = if i < 7 { 40 + i } else { 6 };
        let peer = Peer::new(name_with(0x40, age, 50 + i), addr(15000 + i as u16));
        let state = NodeState::joined(peer, None);
        let encoded = state.encode();
        let sig =
            sign_with_share(&share.secret_key_share, &share.public_key_set, &encoded).unwrap();
        assert!(section.update_member(SectionAuth { value: state, sig }));
    }
    let our_name = name_with(0x00, 20, 1);
    let proposals = section.promote_and_demote_elders(&our_name, &Vec::new());
    assert_eq!(proposals.len(), 1);
    let elders = &proposals[0].elders;
    assert_eq!(elders.len(), ELDER_SIZE);
    // every proposed elder is one of the old ones
    for e in elders.iter() {
        assert!(e.name.age() >= 40);
    }
}

#[test]
fn update_elders_extends_chain_and_prunes() {
    let founder = Peer::new(name_with(0x00, 20, 1), addr(12000));
    let (mut section, share) = Section::first_node(founder).unwrap();
    // a stranger whose name will not match prefix `1`
    let outsider = Peer::new(name_with(0x00, 9, 3), addr(12007));
    let state = NodeState::joined(outsider, None);
    let encoded = state.encode();
    let sig = sign_with_share(&share.secret_key_share, &share.public_key_set, &encoded).unwrap();
    assert!(section.update_member(SectionAuth { value: state, sig }));
    assert_eq!(section.members().len(), 2);

    // a new authority for child prefix `0`, signed by the current key
    let new_set = bls_keyset_random(0);
    let elder = Elder { name: name_with(0x00, 20, 1), addr: addr(12000) };
    let new_sap = SectionAuthorityProvider::new(
        Prefix::empty().pushed(false),
        vec![elder],
        new_set.pk_set,
    )
    .unwrap();
    let encoded_sap = new_sap.encode();
    let sap_sig =
        sign_with_share(&new_set.secret_key_share, &new_sap.public_key_set, &encoded_sap).unwrap();
    let signed_sap = SectionAuth { value: new_sap, sig: sap_sig };
    // the current section key signs the new key into the chain
    let key_sig = sign_with_share(
        &share.secret_key_share,
        &share.public_key_set,
        &signed_sap.sig.public_key,
    )
    .unwrap();
    assert!(section.update_elders(signed_sap, key_sig));
    assert_eq!(section.chain().key_count(), 2);
    assert_eq!(section.prefix().bit_count(), 1);
    // both member names carry first bit 0, so both still match
    assert_eq!(section.members().len(), 2);
}
