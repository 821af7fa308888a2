//! Unit tests for the individual components.

use diem::aggregator::Aggregator;
use diem::committee::Committee;
use diem::consensus::Core;
use diem::crypto::{Secret, SigKind, Signature, SignatureService};
use diem::error::{ConfigError, ProtocolError};
use diem::leader::LeaderElector;
use diem::messages::{TimeoutMessage, Vote, QC};
use diem::node::{Node, Parameters};
use diem::pacemaker::Pacemaker;
use diem::synchronizer::Synchronizer;

fn committee4() -> Committee {
    Committee::new(vec![10, 11, 12, 13]).unwrap()
}

fn node(name: u64) -> Core {
    let params = Parameters { timeout_delay: 1000, sync_retry_delay: 10000 };
    Core::new(Secret { name, secret: 3 }, committee4(), &params).unwrap()
}

fn vote_for(hash: u64, round: u64, author: u64) -> Vote {
    let service = SignatureService::new(Secret { name: author, secret: 1 });
    let signature = service.sign(SigKind::VoteSig, hash, round);
    Vote { hash, round, author, signature }
}

#[test]
fn default_parameters_match_documentation() {
    let p = Parameters::default();
    assert_eq!(p.timeout_delay, 1000);
    assert_eq!(p.sync_retry_delay, 10000);
}

#[test]
fn committee_shape_is_validated() {
    assert_eq!(Committee::new(vec![1, 2, 3]).err().unwrap(), ConfigError::BadCommitteeSize);
    assert_eq!(Committee::new(vec![1, 2, 3, 4, 5]).err().unwrap(), ConfigError::BadCommitteeSize);
    assert_eq!(Committee::new(vec![1, 2, 2, 4]).err().unwrap(), ConfigError::DuplicateMember);
    let c = Committee::new(vec![1, 2, 3, 4, 5, 6, 7]).unwrap();
    assert_eq!(c.quorum_threshold(), 5, "n = 7 means f = 2 and quorum 2f + 1 = 5");
    assert_eq!(committee4().quorum_threshold(), 3, "n = 4 means f = 1 and quorum 3");
}

#[test]
fn unknown_identity_is_fatal_at_startup() {
    let params = Parameters::default();
    let err = Core::new(Secret { name: 99, secret: 1 }, committee4(), &params).err().unwrap();
    assert_eq!(err, ConfigError::NotInCommittee);
}

#[test]
fn leader_rotation_is_deterministic() {
    let e = LeaderElector::new(committee4());
    assert_eq!(e.leader(0), 10);
    assert_eq!(e.leader(1), 11);
    assert_eq!(e.leader(5), 11, "round 5 on four members wraps to position 1");
    assert_eq!(e.leader(7), 13);
}

#[test]
fn pacemaker_doubles_until_the_cap() {
    let mut p = Pacemaker::new(1000, 5000);
    assert_eq!(p.delay(), 1000);
    p.on_timeout();
    assert_eq!(p.delay(), 2000, "after one miss the delay is base * 2");
    p.on_timeout();
    assert_eq!(p.delay(), 4000, "after two misses the delay is base * 4");
    p.on_timeout();
    assert_eq!(p.delay(), 5000, "base * 8 exceeds the cap, so the cap holds");
    p.on_timeout();
    assert_eq!(p.delay(), 5000);
    p.reset();
    assert_eq!(p.delay(), 1000, "round progress rearms the base delay");
}

#[test]
fn two_signatures_never_form_a_certificate_three_do() {
    let c = committee4();
    let mut agg = Aggregator::new();
    assert!(agg.add_vote(vote_for(77, 1, 10), &c).is_none(), "one signer is no quorum");
    assert!(agg.add_vote(vote_for(77, 1, 11), &c).is_none(), "two signers are no quorum");
    let qc = agg.add_vote(vote_for(77, 1, 12), &c).expect("three distinct signers are a quorum");
    assert_eq!(qc.hash, 77);
    assert_eq!(qc.round, 1);
    assert_eq!(qc.votes.len(), 3);
    assert!(qc.check(&c));
}

#[test]
fn duplicate_signer_is_ignored_and_certificate_emitted_once() {
    let c = committee4();
    let mut agg = Aggregator::new();
    assert!(agg.add_vote(vote_for(77, 1, 10), &c).is_none());
    assert!(agg.add_vote(vote_for(77, 1, 10), &c).is_none(), "same signer counts once");
    assert!(agg.add_vote(vote_for(77, 1, 11), &c).is_none(), "still only two distinct signers");
    assert!(agg.add_vote(vote_for(77, 1, 12), &c).is_some());
    assert!(agg.add_vote(vote_for(77, 1, 13), &c).is_none(), "the certificate went out once");
}

#[test]
fn certificate_validation_rejects_thin_or_foreign_quorums() {
    let c = committee4();
    // two signatures are below the 2f + 1 threshold
    let thin = QC {
        hash: 5,
        round: 1,
        votes: vec![
            Signature { signer: 10, kind: SigKind::VoteSig, hash: 5, round: 1 },
            Signature { signer: 11, kind: SigKind::VoteSig, hash: 5, round: 1 },
        ],
    };
    assert!(!thin.check(&c));
    // a repeated signer cannot stretch two signatures into three
    let padded = QC {
        hash: 5,
        round: 1,
        votes: vec![
            Signature { signer: 10, kind: SigKind::VoteSig, hash: 5, round: 1 },
            Signature { signer: 11, kind: SigKind::VoteSig, hash: 5, round: 1 },
            Signature { signer: 11, kind: SigKind::VoteSig, hash: 5, round: 1 },
        ],
    };
    assert!(!padded.check(&c));
    // an outsider's signature does not count
    let foreign = QC {
        hash: 5,
        round: 1,
        votes: vec![
            Signature { signer: 10, kind: SigKind::VoteSig, hash: 5, round: 1 },
            Signature { signer: 11, kind: SigKind::VoteSig, hash: 5, round: 1 },
            Signature { signer: 99, kind: SigKind::VoteSig, hash: 5, round: 1 },
        ],
    };
    assert!(!foreign.check(&c));
}

#[test]
fn node_votes_at_most_once_per_round() {
    let proposer = node(11);
    let b1 = proposer.make_proposal(42, None).unwrap();
    let mut voter = node(10);
    let first = voter.handle_proposal(&b1).unwrap();
    assert!(first.vote.is_some(), "the first proposal of the round earns a vote");
    let second = voter.handle_proposal(&b1).unwrap();
    assert!(second.vote.is_none(), "the same round never earns a second vote");
}

#[test]
fn synchronizer_deduplicates_fetches() {
    let mut s = Synchronizer::new(10000, 3);
    assert!(s.request(42), "the first request goes to the network");
    assert!(!s.request(42), "a pending ancestor is not fetched again");
    let children = s.deliver(42);
    assert!(children.is_empty());
    assert!(!s.request(42), "a resolved ancestor is never fetched again");
    assert!(s.request(43), "an unrelated ancestor still goes out");
}

#[test]
fn synchronizer_gives_up_after_bounded_retries() {
    let mut s = Synchronizer::new(10000, 2);
    assert!(s.request(42));
    assert!(s.retry(42), "first retry goes out");
    assert!(s.retry(42), "second retry goes out");
    assert!(!s.retry(42), "the retry budget is exhausted; the fetch is abandoned");
    assert!(!s.retry(99), "nothing pending for an unknown hash");
}

#[test]
fn proposal_rejections_name_the_violation() {
    let mut n = node(10);
    let proposer = node(11);
    let good = proposer.make_proposal(42, None).unwrap();
    assert!(good.check(&committee4()), "a leader's own proposal verifies");

    let mut unknown_author = good.clone();
    unknown_author.author = 99;
    assert_eq!(n.handle_proposal(&unknown_author).err().unwrap(), ProtocolError::UnknownAuthor);

    let mut bad_round = good.clone();
    bad_round.round = 0;
    assert_eq!(n.handle_proposal(&bad_round).err().unwrap(), ProtocolError::BadRound);

    let mut bad_cert = good.clone();
    bad_cert.qc.round = 2;
    bad_cert.round = 3;
    assert_eq!(n.handle_proposal(&bad_cert).err().unwrap(), ProtocolError::InvalidCertificate);

    let mut bad_digest = good.clone();
    bad_digest.payload = 43;
    assert_eq!(n.handle_proposal(&bad_digest).err().unwrap(), ProtocolError::BadDigest);

    let mut bad_sig = good.clone();
    bad_sig.signature = Signature { signer: 12, kind: SigKind::BlockSig, hash: good.hash, round: 1 };
    assert_eq!(n.handle_proposal(&bad_sig).err().unwrap(), ProtocolError::BadSignature);

    assert!(node(12).make_proposal(42, None).is_none(), "only the leader builds a proposal");

    // a block signed by a member who is not the round's leader
    let not_leader_block = {
        let service = SignatureService::new(Secret { name: 12, secret: 1 });
        let mut b = good.clone();
        b.author = 12;
        b.hash = diem::messages::compute_digest(b.round, 12, b.payload, b.qc.hash);
        b.signature = service.sign(SigKind::BlockSig, b.hash, b.round);
        b
    };
    assert_eq!(n.handle_proposal(&not_leader_block).err().unwrap(), ProtocolError::NotLeader);
}

#[test]
fn vote_rejections_name_the_violation() {
    let mut n = node(10);
    let mut forged = vote_for(5, 1, 11);
    forged.signature.signer = 12;
    assert_eq!(n.handle_vote(&forged, 0).err().unwrap(), ProtocolError::BadSignature);
    let outsider = vote_for(5, 1, 99);
    assert_eq!(n.handle_vote(&outsider, 0).err().unwrap(), ProtocolError::UnknownAuthor);
    // a stale vote is dropped silently, not an error
    let mut n2 = node(10);
    let stale = vote_for(5, 0, 11);
    let out = n2.handle_vote(&stale, 0).unwrap();
    assert!(out.qc.is_none());
}

#[test]
fn aggregator_purges_rounds_below_the_bound() {
    let c = committee4();
    let mut agg = Aggregator::new();
    assert!(agg.add_vote(vote_for(7, 1, 10), &c).is_none());
    assert!(agg.add_vote(vote_for(9, 5, 10), &c).is_none());
    assert_eq!(agg.votes.len(), 2);
    agg.cleanup(3, &c);
    assert_eq!(agg.votes.len(), 1, "the round-1 entry is purged, the round-5 entry kept");
    // the purged signer set is gone: three fresh signers are needed again
    assert!(agg.add_vote(vote_for(7, 1, 11), &c).is_none());
    assert!(agg.add_vote(vote_for(7, 1, 12), &c).is_none());
    assert!(agg.add_vote(vote_for(7, 1, 13), &c).is_some());
}

#[test]
fn timeout_rejections_name_the_violation() {
    let mut n = node(10);
    assert!(node(11).local_timeout().check(&committee4()), "an honest timeout verifies");
    let service = SignatureService::new(Secret { name: 11, secret: 1 });
    // a correct node's highest certificate always trails its round
    let overreach = TimeoutMessage {
        round: 1,
        high_qc: QC { hash: 9, round: 1, votes: vec![] },
        author: 11,
        signature: service.sign(SigKind::TimeoutSig, 1, 1),
    };
    assert_eq!(
        n.handle_timeout_message(&overreach, 0).err().unwrap(),
        ProtocolError::InvalidCertificate,
        "a one-signature certificate never verifies"
    );
    let mut tampered = node(11).local_timeout();
    tampered.round = 2;
    assert_eq!(
        n.handle_timeout_message(&tampered, 0).err().unwrap(),
        ProtocolError::BadSignature
    );
    let genesis_high = node(11).local_timeout();
    let fake = TimeoutMessage { round: 0, ..genesis_high };
    // a signature over the wrong round fails before any round check
    assert_eq!(n.handle_timeout_message(&fake, 0).err().unwrap(), ProtocolError::BadSignature);
}

#[test]
fn key_file_round_trips() {
    let secret = Secret { name: 0x1122334455667788, secret: 0xa0b0c0d0e0f01020 };
    let bytes = Node::print_key_file(&secret);
    assert_eq!(bytes.len(), 16);
    assert_eq!(bytes[0], 0x88, "the identity is little endian");
    assert_eq!(bytes[7], 0x11);
    let back = Node::read_key_file(&bytes).expect("sixteen bytes parse");
    assert_eq!(back, secret);
    assert!(Node::read_key_file(&vec![1, 2, 3]).is_none(), "a short file is rejected");
}
