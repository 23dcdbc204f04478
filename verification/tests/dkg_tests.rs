//! The DKG voter: the one-candidate special case, buffering of early
//! messages, replay on session start, and the bounded backlog.

use safe_network::addr::NodeAddr;
use safe_network::dkg::{DkgCommand, DkgVoter, BACKLOG_CAP};
use safe_network::sap::{Elder, ElderCandidates};
use safe_network::system_msg::{DkgFailureSig, DkgSessionId};
use safe_network::xor::{Prefix, XorName};

fn name_with(first: u8, seed: u8) -> XorName {
    let mut bytes = vec![seed; 32];
    bytes[0] = first;
    XorName::from_bytes(bytes)
}

fn session_id(tag: u8, generation: u64) -> DkgSessionId {
    DkgSessionId { hash: name_with(tag, tag), generation }
}

#[test]
fn single_elder_session_succeeds_in_one_step() {
    let mut voter = DkgVoter::new();
    let our_name = name_with(1, 1);
    let candidates = ElderCandidates::new(
        vec![Elder { name: our_name.duplicate(), addr: NodeAddr::new(1, 1) }],
        Prefix::empty(),
    );
    let commands = voter.start(&our_name, session_id(7, 0), candidates, 1).unwrap();
    assert_eq!(commands.len(), 1);
    match &commands[0] {
        DkgCommand::HandleDkgOutcome { section_auth, outcome } => {
            assert_eq!(section_auth.elder_count(), 1);
            assert_eq!(section_auth.prefix.bit_count(), 0);
            assert_eq!(outcome.index, 0);
            assert_eq!(outcome.public_key_set, section_auth.public_key_set);
        }
        _ => panic!("a sole candidate must get its outcome at once"),
    }
}

#[test]
fn early_message_is_buffered_and_replayed_once() {
    let mut voter = DkgVoter::new();
    let id = session_id(3, 1);
    // a message before its session exists is buffered
    let commands = voter.process_message(&id, vec![1, 2, 3]).unwrap();
    assert!(commands.is_empty());
    assert_eq!(voter.backlog.len(), 1);
    let commands = voter.process_message(&id, vec![4, 5, 6]).unwrap();
    assert!(commands.is_empty());
    assert_eq!(voter.backlog.len(), 2);
    // a message of another session stays out of the way
    let other = session_id(9, 1);
    let _ = voter.process_message(&other, vec![9]).unwrap();
    assert_eq!(voter.backlog.len(), 3);

    // starting the session drains its share of the backlog exactly once
    let our_name = name_with(1, 1);
    let candidates = ElderCandidates::new(
        vec![
            Elder { name: our_name.duplicate(), addr: NodeAddr::new(1, 1) },
            Elder { name: name_with(2, 2), addr: NodeAddr::new(2, 2) },
            Elder { name: name_with(3, 3), addr: NodeAddr::new(3, 3) },
        ],
        Prefix::empty(),
    );
    let commands = voter.start(&our_name, id.duplicate(), candidates, 1).unwrap();
    // the engine's first broadcast goes out, whatever the replay produced
    assert_eq!(commands.len(), 1);
    match &commands[0] {
        DkgCommand::SendDkgMessages { session_id: sid, messages } => {
            assert!(sid.equals(&id));
            assert!(!messages.is_empty());
        }
        _ => panic!("a multi-candidate start must broadcast messages"),
    }
    // only the other session's message is still buffered
    assert_eq!(voter.backlog.len(), 1);
    assert!(voter.backlog[0].0.equals(&other));
    assert_eq!(voter.sessions.len(), 1);

    // starting the same session again is a no-op
    let candidates2 = ElderCandidates::new(
        vec![Elder { name: our_name.duplicate(), addr: NodeAddr::new(1, 1) }],
        Prefix::empty(),
    );
    let commands = voter.start(&our_name, id, candidates2, 2).unwrap();
    assert!(commands.is_empty());
    assert_eq!(voter.sessions.len(), 1);
}

#[test]
fn non_participant_starts_nothing() {
    let mut voter = DkgVoter::new();
    let our_name = name_with(1, 1);
    let candidates = ElderCandidates::new(
        vec![Elder { name: name_with(2, 2), addr: NodeAddr::new(2, 2) }],
        Prefix::empty(),
    );
    let commands = voter.start(&our_name, session_id(5, 0), candidates, 1).unwrap();
    assert!(commands.is_empty());
    assert!(voter.sessions.is_empty());
}

#[test]
fn backlog_is_bounded() {
    let mut voter = DkgVoter::new();
    for i in 0..(BACKLOG_CAP + 10) {
        let id = session_id((i % 200) as u8, i as u64);
        let _ = voter.process_message(&id, vec![i as u8]).unwrap();
    }
    assert_eq!(voter.backlog.len(), BACKLOG_CAP);
}

#[test]
fn failure_agreement_needs_a_supermajority() {
    let mut voter = DkgVoter::new();
    let our_name = name_with(1, 1);
    let candidates = ElderCandidates::new(
        vec![
            Elder { name: name_with(1, 1), addr: NodeAddr::new(1, 1) },
            Elder { name: name_with(2, 2), addr: NodeAddr::new(2, 2) },
            Elder { name: name_with(3, 3), addr: NodeAddr::new(3, 3) },
        ],
        Prefix::empty(),
    );
    let id = session_id(4, 2);
    let _ = voter.start(&our_name, id.duplicate(), candidates, 1).unwrap();
    // an unknown session records nothing
    let stranger = session_id(9, 9);
    let sig1 = DkgFailureSig { public_key: vec![1u8; 48], signature: vec![1u8; 96] };
    assert!(voter.process_failure(&stranger, Vec::new(), sig1).is_none());
    // one observer of three is no supermajority
    let sig1 = DkgFailureSig { public_key: vec![1u8; 48], signature: vec![1u8; 96] };
    assert!(voter.process_failure(&id, Vec::new(), sig1).is_none());
    // the same key again adds nothing
    let sig1b = DkgFailureSig { public_key: vec![1u8; 48], signature: vec![2u8; 96] };
    assert!(voter.process_failure(&id, Vec::new(), sig1b).is_none());
    // a third distinct observer reaches the supermajority of three
    let sig2 = DkgFailureSig { public_key: vec![2u8; 48], signature: vec![2u8; 96] };
    assert!(voter.process_failure(&id, Vec::new(), sig2).is_none());
    let sig3 = DkgFailureSig { public_key: vec![3u8; 48], signature: vec![3u8; 96] };
    let agreement = voter.process_failure(&id, vec![name_with(2, 2)], sig3);
    let set = agreement.expect("three of three observers are a supermajority");
    assert_eq!(set.sigs.len(), 3);
    assert_eq!(set.failed_participants.len(), 1);
}

#[test]
fn newer_generation_supersedes_older_sessions() {
    let mut voter = DkgVoter::new();
    let our_name = name_with(1, 1);
    let mk_candidates = || {
        ElderCandidates::new(
            vec![
                Elder { name: name_with(1, 1), addr: NodeAddr::new(1, 1) },
                Elder { name: name_with(2, 2), addr: NodeAddr::new(2, 2) },
            ],
            Prefix::empty(),
        )
    };
    let _ = voter.start(&our_name, session_id(1, 1), mk_candidates(), 1).unwrap();
    assert_eq!(voter.sessions.len(), 1);
    // a newer generation drops the older session
    let _ = voter.start(&our_name, session_id(2, 5), mk_candidates(), 2).unwrap();
    assert_eq!(voter.sessions.len(), 1);
    assert_eq!(voter.sessions[0].id.generation, 5);
}
