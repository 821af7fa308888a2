//! End-to-end protocol scenarios on a four-node committee.

use diem::committee::Committee;
use diem::consensus::Core;
use diem::crypto::Secret;
use diem::messages::Block;
use diem::node::Parameters;

fn committee4() -> Committee {
    Committee::new(vec![10, 11, 12, 13]).unwrap()
}

fn node(name: u64) -> Core {
    let params = Parameters { timeout_delay: 1000, sync_retry_delay: 10000 };
    Core::new(Secret { name, secret: 7 * name + 1 }, committee4(), &params).unwrap()
}

/// Drives `block` through every node; collects the votes and feeds them
/// to the leader of the next round; returns that leader's proposal for
/// the next round and everything the aggregating leader committed.
fn run_round(nodes: &mut Vec<Core>, block: &Block, payload: u64) -> (Option<Block>, Vec<Block>) {
    let mut votes = Vec::new();
    let mut next_leader = 0u64;
    for n in nodes.iter_mut() {
        let outcome = n.handle_proposal(block).expect("proposal accepted");
        if let Some(v) = outcome.vote {
            next_leader = outcome.next_leader;
            votes.push(v);
        }
    }
    assert_eq!(votes.len(), 4, "all four nodes vote on the happy path");
    // feed the votes to the next leader only, as the protocol sends them
    let idx = (next_leader - 10) as usize;
    let mut proposal = None;
    let mut committed = Vec::new();
    for v in votes {
        let out = nodes[idx].handle_vote(&v, payload).expect("vote accepted");
        if let Some(b) = out.proposal {
            proposal = Some(b);
        }
        for c in out.committed {
            committed.push(c);
        }
    }
    (proposal, committed)
}

/// Scenario: happy path.  The round-1 leader proposes block B1 over
/// genesis; all nodes vote; the next leader aggregates the votes into a
/// certificate and proposes B2, then B3; once the certificate for round
/// 3 forms, B1 — and only B1 — is committed.
#[test]
fn scenario_happy_path_commits_first_block() {
    let mut nodes = vec![node(10), node(11), node(12), node(13)];
    // leader of round 1 is names[1 % 4] = 11
    let leader1 = (11 - 10) as usize;
    let b1 = nodes[leader1].make_proposal(501, None).expect("round-1 leader proposes");
    assert_eq!(b1.round, 1);

    let (b2, committed) = run_round(&mut nodes, &b1, 502);
    assert!(committed.is_empty(), "no commit after one certificate");
    let b2 = b2.expect("round-2 leader proposes");
    assert_eq!(b2.round, 2);

    let (b3, committed) = run_round(&mut nodes, &b2, 503);
    assert!(committed.is_empty(), "no commit after two certificates");
    let b3 = b3.expect("round-3 leader proposes");
    assert_eq!(b3.round, 3);

    let (b4, committed) = run_round(&mut nodes, &b3, 504);
    // three consecutively certified rounds: exactly [B1] is emitted
    assert_eq!(committed.len(), 1);
    assert_eq!(committed[0].round, b1.round);
    assert_eq!(committed[0].hash, b1.hash);
    assert_eq!(committed[0].payload, 501);

    // B4 carries the certificate for round 3 to everyone: every correct
    // node commits the same single block at round 1 — the aggregating
    // node already did when the certificate formed
    let b4 = b4.expect("round-4 leader proposes");
    let mut votes4 = Vec::new();
    let mut next_leader = 0u64;
    for (i, n) in nodes.iter_mut().enumerate() {
        let out = n.handle_proposal(&b4).expect("proposal accepted");
        if i == 0 {
            assert!(out.committed.is_empty(), "the aggregator committed earlier");
        } else {
            assert_eq!(out.committed.len(), 1);
            assert_eq!(out.committed[0].hash, b1.hash, "the same block at round 1 everywhere");
        }
        assert_eq!(n.committed_round(), 1);
        next_leader = out.next_leader;
        votes4.push(out.vote.expect("every node votes on B4"));
    }

    // one more certified round commits B2 — after B1, never revising it
    let idx = (next_leader - 10) as usize;
    let mut committed = Vec::new();
    for v in votes4 {
        let out = nodes[idx].handle_vote(&v, 505).expect("vote accepted");
        for c in out.committed {
            committed.push(c);
        }
    }
    assert_eq!(committed.len(), 1);
    assert_eq!(committed[0].round, 2, "the commit sequence strictly ascends in round");
    assert_eq!(committed[0].hash, b2.hash);
}

/// Scenario: leader failure.  The round-1 leader stays silent; the
/// other three nodes time out, exchange timeout declarations, form a
/// timeout certificate at the third signature, and advance to round 2
/// with nothing committed.
#[test]
fn scenario_leader_failure_advances_round() {
    let mut nodes = vec![node(10), node(12), node(13)];
    let mut timeouts = Vec::new();
    for n in nodes.iter_mut() {
        timeouts.push(n.local_timeout());
    }
    for (k, tm) in timeouts.iter().enumerate() {
        for n in nodes.iter_mut() {
            let out = n.handle_timeout_message(tm, 99).expect("timeout accepted");
            if k < 2 {
                assert!(out.tc.is_none(), "two signatures never form a certificate");
            } else {
                let tc = out.tc.expect("third distinct signature forms the certificate");
                assert_eq!(tc.round, 1);
                assert_eq!(tc.votes.len(), 3);
            }
            assert!(out.committed.is_empty(), "a timeout commits nothing");
        }
    }
    for n in nodes.iter() {
        assert_eq!(n.current_round(), 2, "the round advanced without any proposal");
        assert_eq!(n.committed_round(), 0);
    }
}

/// Scenario: gap repair.  A node receives B3 whose parent B2 it never
/// saw: B3 is buffered and B2 is fetched — once.  B2 in turn needs B1.
/// Once B1 arrives, validation and voting replay in ascending round
/// order.
#[test]
fn scenario_gap_repair_replays_in_order() {
    // build the chain B1..B3 on a healthy committee
    let mut nodes = vec![node(10), node(11), node(12), node(13)];
    let leader1 = 1usize;
    let b1 = nodes[leader1].make_proposal(601, None).unwrap();
    let (b2, _) = run_round(&mut nodes, &b1, 602);
    let b2 = b2.unwrap();
    let (b3, _) = run_round(&mut nodes, &b2, 603);
    let b3 = b3.unwrap();

    // a fresh node receives B3 first
    let mut late = node(13);
    let out3 = late.handle_proposal(&b3).expect("valid block, missing parent");
    assert!(out3.vote.is_none(), "no vote before the gap is repaired");
    assert!(!out3.stored);
    assert_eq!(out3.sync_request, Some(b3.qc.hash), "fetch the missing parent");

    // a duplicate of B3 does not trigger a second fetch
    let out3b = late.handle_proposal(&b3).expect("duplicate accepted quietly");
    assert_eq!(out3b.sync_request, None, "the fetch is deduplicated");

    // B2 arrives: still missing B1, so it is buffered and B1 fetched
    let out2 = late.handle_proposal(&b2).expect("valid block, missing parent");
    assert!(out2.vote.is_none());
    assert_eq!(out2.sync_request, Some(b2.qc.hash));

    // B1 arrives: it extends genesis, is stored and voted on, and
    // unblocks B2, which unblocks B3 — ascending round order throughout
    let out1 = late.handle_proposal(&b1).expect("ancestor accepted");
    assert!(out1.stored);
    let v1 = out1.vote.expect("vote on B1");
    assert_eq!(v1.round, 1);
    assert_eq!(out1.replay.len(), 1);
    assert_eq!(out1.replay[0].hash, b2.hash);

    let out2b = late.handle_proposal(&out1.replay[0].clone()).expect("replayed B2 accepted");
    assert!(out2b.stored);
    let v2 = out2b.vote.expect("vote on B2");
    assert_eq!(v2.round, 2);
    assert_eq!(out2b.replay.len(), 1);
    assert_eq!(out2b.replay[0].hash, b3.hash);

    let out3c = late.handle_proposal(&out2b.replay[0].clone()).expect("replayed B3 accepted");
    assert!(out3c.stored);
    let v3 = out3c.vote.expect("vote on B3");
    assert_eq!(v3.round, 3);
}

/// A full node serves the ancestor chain a gapped peer asks for:
/// newest first, each block followed by its parent, down to genesis
/// exclusive; the retry budget bounds how often an unanswered fetch is
/// re-sent.
#[test]
fn ancestor_fetch_service_and_retries() {
    let mut nodes = vec![node(10), node(11), node(12), node(13)];
    let b1 = nodes[1].make_proposal(701, None).unwrap();
    let (b2, _) = run_round(&mut nodes, &b1, 702);
    let b2 = b2.unwrap();
    let (b3, _) = run_round(&mut nodes, &b2, 703);
    let b3 = b3.unwrap();

    // any node that stored the chain can serve it
    let chain = nodes[0].ancestor_chain(b2.hash);
    assert_eq!(chain.len(), 2, "B2 then its parent B1; genesis is never sent");
    assert_eq!(chain[0].hash, b2.hash);
    assert_eq!(chain[1].hash, b1.hash);
    assert_eq!(chain[1].hash, chain[0].qc.hash, "each block is followed by its parent");
    assert!(nodes[0].ancestor_chain(0xdead_beef).is_empty(), "an unknown hash yields nothing");

    // a gapped node re-sends an unanswered fetch only while the budget
    // lasts
    let mut late = node(13);
    let out = late.handle_proposal(&b3).unwrap();
    assert_eq!(out.sync_request, Some(b2.hash));
    assert!(late.retry_ancestor(b2.hash), "first retry goes out");
    assert!(late.retry_ancestor(b2.hash), "second retry goes out");
    assert!(late.retry_ancestor(b2.hash), "third retry goes out");
    assert!(!late.retry_ancestor(b2.hash), "the budget is exhausted; the branch is abandoned");
}
