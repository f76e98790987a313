use read_index::message::{Entry, Message};
use read_index::read_only::{ReadOnly, ReadOnlyOption, ReadState};

/// A message whose first entry's payload — the correlation token — and
/// context both hold `token`, as a read-index request and the heartbeat
/// responses echoing it do.
fn new_message(from: u64, to: u64, token: &[u8]) -> Message {
    Message {
        from,
        to,
        context: token.to_vec(),
        entries: vec![Entry { data: token.to_vec() }],
    }
}

fn tokens_of(ro: &ReadOnly) -> Vec<Vec<u8>> {
    ro.pending_read_index
        .iter()
        .map(|st| st.req.entries[0].data.clone())
        .collect()
}

#[test]
fn test_add_request_counts_and_duplicate() {
    let mut ro = ReadOnly::new(ReadOnlyOption::Safe);
    assert_eq!(ro.pending_read_count(), 0);
    ro.add_request(5, new_message(1, 2, b"c1"));
    ro.add_request(6, new_message(1, 2, b"c2"));
    ro.add_request(7, new_message(1, 2, b"c3"));
    assert_eq!(ro.pending_read_count(), 3);

    // an ack lands before the duplicate arrives
    let acks = ro.recv_ack(&new_message(3, 1, b"c1"));
    assert_eq!(acks.len(), 2);

    // a duplicate token is silently discarded: size, order, captured
    // index and ack state all stay as they were
    ro.add_request(99, new_message(4, 5, b"c1"));
    assert_eq!(ro.pending_read_count(), 3);
    assert_eq!(tokens_of(&ro), vec![b"c1".to_vec(), b"c2".to_vec(), b"c3".to_vec()]);
    assert_eq!(ro.pending_read_index[0].index, 5);
    assert_eq!(ro.pending_read_index[0].acks, vec![3]);
    assert_eq!(ro.pending_read_index[1].acks, Vec::<u64>::new());
}

#[test]
fn test_advance_ready_releases_prefix() {
    let mut ro = ReadOnly::new(ReadOnlyOption::Safe);
    ro.add_request(5, new_message(1, 2, b"c1"));
    ro.add_request(6, new_message(1, 2, b"c2"));
    ro.add_request(7, new_message(1, 2, b"c3"));

    let rss = ro.advance(&new_message(3, 1, b"c2"), true);
    assert_eq!(rss.len(), 2);
    assert_eq!(rss[0].req.entries[0].data, b"c1".to_vec());
    assert_eq!(rss[0].index, 5);
    assert_eq!(rss[1].req.entries[0].data, b"c2".to_vec());
    assert_eq!(rss[1].index, 6);

    // the later entry stays pending, untouched and retrievable
    assert_eq!(ro.pending_read_count(), 1);
    assert_eq!(ro.last_pending_request_ctx(), Some(b"c3".to_vec()));
    assert_eq!(ro.pending_read_index[0].index, 7);

    // a released token is no longer known
    let rss = ro.advance(&new_message(3, 1, b"c1"), true);
    assert!(rss.is_empty());
    assert_eq!(ro.pending_read_count(), 1);
}

#[test]
fn test_advance_unknown_token() {
    let mut ro = ReadOnly::new(ReadOnlyOption::Safe);
    ro.add_request(5, new_message(1, 2, b"c1"));
    let rss = ro.advance(&new_message(3, 1, b"nope"), true);
    assert!(rss.is_empty());
    assert_eq!(ro.pending_read_count(), 1);
    assert_eq!(ro.waiting_for_ready, 0);
}

#[test]
fn test_advance_not_ready_only_raises_gate() {
    let mut ro = ReadOnly::new(ReadOnlyOption::Safe);
    ro.add_request(5, new_message(1, 2, b"c1"));
    ro.add_request(6, new_message(1, 2, b"c2"));
    ro.add_request(7, new_message(1, 2, b"c3"));

    let rss = ro.advance(&new_message(3, 1, b"c2"), false);
    assert!(rss.is_empty());
    assert_eq!(ro.pending_read_count(), 3);
    assert_eq!(ro.waiting_for_ready, 2);

    // a lower or equal position never lowers the counter
    let rss = ro.advance(&new_message(3, 1, b"c1"), false);
    assert!(rss.is_empty());
    assert_eq!(ro.waiting_for_ready, 2);

    // a later position raises it
    let rss = ro.advance(&new_message(3, 1, b"c3"), false);
    assert!(rss.is_empty());
    assert_eq!(ro.waiting_for_ready, 3);
    assert_eq!(tokens_of(&ro), vec![b"c1".to_vec(), b"c2".to_vec(), b"c3".to_vec()]);
}

#[test]
fn test_advance_by_commit_drains_blocked_prefix() {
    let mut ro = ReadOnly::new(ReadOnlyOption::Safe);

    // nothing blocked: nothing drains
    ro.add_request(5, new_message(1, 2, b"c1"));
    assert!(ro.advance_by_commit(9).is_empty());
    assert_eq!(ro.pending_read_count(), 1);

    // block the first two of three, then a later commit flushes exactly
    // those two, stamped with the newly committed index
    ro.add_request(6, new_message(1, 2, b"c2"));
    ro.add_request(7, new_message(1, 2, b"c3"));
    ro.advance(&new_message(3, 1, b"c2"), false);
    assert_eq!(ro.waiting_for_ready, 2);

    let rss = ro.advance_by_commit(10);
    assert_eq!(rss.len(), 2);
    assert_eq!(rss[0].req.entries[0].data, b"c1".to_vec());
    assert_eq!(rss[0].index, 10);
    assert_eq!(rss[1].req.entries[0].data, b"c2".to_vec());
    assert_eq!(rss[1].index, 10);
    assert_eq!(ro.waiting_for_ready, 0);
    assert_eq!(ro.pending_read_count(), 1);
    assert_eq!(ro.pending_read_index[0].index, 7);
}

#[test]
fn test_recv_ack() {
    let mut ro = ReadOnly::new(ReadOnlyOption::Safe);

    // unknown token: empty result, no mutation
    let acks = ro.recv_ack(&new_message(2, 1, b"c1"));
    assert!(acks.is_empty());
    assert_eq!(ro.pending_read_count(), 0);

    ro.add_request(5, new_message(1, 2, b"c1"));

    // the result is every recorded acker plus the responded-to identity
    let mut acks = ro.recv_ack(&new_message(2, 1, b"c1"));
    acks.sort();
    assert_eq!(acks, vec![1, 2]);
    assert_eq!(ro.pending_read_index[0].acks, vec![2]);

    // a repeated acker is kept once; the stored set only grows
    let mut acks = ro.recv_ack(&new_message(2, 1, b"c1"));
    acks.sort();
    assert_eq!(acks, vec![1, 2]);
    assert_eq!(ro.pending_read_index[0].acks, vec![2]);

    let mut acks = ro.recv_ack(&new_message(3, 1, b"c1"));
    acks.sort();
    assert_eq!(acks, vec![1, 2, 3]);
    let mut stored = ro.pending_read_index[0].acks.clone();
    stored.sort();
    assert_eq!(stored, vec![2, 3]);
}

#[test]
fn test_last_pending_request_ctx() {
    let mut ro = ReadOnly::new(ReadOnlyOption::Safe);
    assert_eq!(ro.last_pending_request_ctx(), None);

    ro.add_request(5, new_message(1, 2, b"c1"));
    assert_eq!(ro.last_pending_request_ctx(), Some(b"c1".to_vec()));
    ro.add_request(6, new_message(1, 2, b"c2"));
    assert_eq!(ro.last_pending_request_ctx(), Some(b"c2".to_vec()));

    // a duplicate registration does not become the most recent one
    ro.add_request(7, new_message(1, 2, b"c1"));
    assert_eq!(ro.last_pending_request_ctx(), Some(b"c2".to_vec()));

    let rss = ro.advance(&new_message(3, 1, b"c2"), true);
    assert_eq!(rss.len(), 2);
    assert_eq!(ro.last_pending_request_ctx(), None);
}

#[test]
fn test_drain_all() {
    let mut ro = ReadOnly::new(ReadOnlyOption::Safe);
    ro.add_request(5, new_message(1, 2, b"c1"));
    ro.add_request(6, new_message(1, 2, b"c2"));
    ro.advance(&new_message(3, 1, b"c1"), false);
    assert_eq!(ro.waiting_for_ready, 1);

    let rss = ro.drain_all();
    assert_eq!(rss.len(), 2);
    assert_eq!(rss[0].req.entries[0].data, b"c1".to_vec());
    assert_eq!(rss[1].req.entries[0].data, b"c2".to_vec());
    assert_eq!(ro.pending_read_count(), 0);
    assert_eq!(ro.waiting_for_ready, 0);
    assert_eq!(ro.last_pending_request_ctx(), None);
}

#[test]
fn test_quorum_read_scenario() {
    // a leader of a three-node cluster serves one read while another
    // stays pending
    let mut ro = ReadOnly::new(ReadOnlyOption::Safe);
    ro.add_request(5, new_message(1, 1, b"c1"));
    ro.add_request(7, new_message(1, 1, b"c2"));

    let mut acks = ro.recv_ack(&new_message(2, 1, b"c1"));
    acks.sort();
    assert_eq!(acks, vec![1, 2]);

    // two of three is a quorum, so the engine releases through c1
    let rss = ro.advance(&new_message(2, 1, b"c1"), true);
    assert_eq!(rss.len(), 1);
    assert_eq!(rss[0].req.entries[0].data, b"c1".to_vec());
    assert_eq!(rss[0].acks, vec![2]);
    assert_eq!(ro.pending_read_count(), 1);

    // what the engine would hand outward for the released read
    let state = ReadState {
        index: rss[0].index,
        request_ctx: rss[0].req.entries[0].data.clone(),
    };
    assert_eq!(state.index, 5);
    assert_eq!(state.request_ctx, b"c1".to_vec());
    assert_eq!(
        state,
        ReadState { index: 5, request_ctx: b"c1".to_vec() }
    );
    assert_ne!(
        state,
        ReadState { index: 6, request_ctx: b"c1".to_vec() }
    );
}

#[test]
fn test_read_state_default() {
    let state = ReadState::default();
    assert_eq!(state.index, 0);
    assert!(state.request_ctx.is_empty());
}

#[test]
fn test_gating_scenario() {
    // a freshly elected leader has not committed in its own term yet
    let mut ro = ReadOnly::new(ReadOnlyOption::Safe);
    ro.add_request(3, new_message(1, 1, b"c3"));

    let rss = ro.advance(&new_message(2, 1, b"c3"), false);
    assert!(rss.is_empty());
    assert_eq!(ro.waiting_for_ready, 1);

    // the term-start entry commits at index 10: the read is released at
    // the committed index, not the stale captured one
    let rss = ro.advance_by_commit(10);
    assert_eq!(rss.len(), 1);
    assert_eq!(rss[0].req.entries[0].data, b"c3".to_vec());
    assert_eq!(rss[0].index, 10);
    assert_eq!(ro.waiting_for_ready, 0);
    assert_eq!(ro.pending_read_count(), 0);
}

#[test]
fn test_default_option_is_safe() {
    assert!(matches!(ReadOnlyOption::default(), ReadOnlyOption::Safe));
    assert_eq!(ReadOnlyOption::default(), ReadOnlyOption::Safe);
}
