//! The pending-read registry: quorum-acknowledgment tracking, the
//! term-start readiness gate, and the two drain paths that release
//! confirmed reads in registration order.

use vstd::prelude::*;

use crate::message::Message;

verus! {

/// Determines the relative safety and consistency of read-only requests.
#[derive(Debug, Clone, Copy, PartialEq, Eq, Structural)]
pub enum ReadOnlyOption {
    /// Guarantees linearizability of the read-only request by
    /// communicating with the quorum.  It is the default and suggested
    /// option.
    Safe,
    /// Ensures linearizability of the read-only request by relying on the
    /// leader lease, which can be affected by clock drift.
    LeaseBased,
}

impl Default for ReadOnlyOption {
    /// The default is the quorum-confirmed mode.
    fn default() -> (r: ReadOnlyOption)
        ensures
            r == ReadOnlyOption::Safe,
    {
        ReadOnlyOption::Safe
    }
}

/// State for one answered read-only query, handed outward once the read
/// is confirmed: the index it is safe to read at, and the correlation
/// token that lets the application match the answer to its request.
#[derive(Debug, Clone)]
pub struct ReadState {
    /// The confirmed-safe commit index to read at.
    pub index: u64,
    /// The correlation token of the original request.
    pub request_ctx: Vec<u8>,
}

impl ReadState {
    /// Whether two read states agree on the index and the token.
    pub open spec fn same_state(self, other: ReadState) -> bool {
        self.index == other.index && self.request_ctx@ == other.request_ctx@
    }
}

impl PartialEq for ReadState {
    fn eq(&self, other: &ReadState) -> (r: bool) {
        self.index == other.index && bytes_eq(&self.request_ctx, &other.request_ctx)
    }
}

impl vstd::std_specs::cmp::PartialEqSpecImpl for ReadState {
    open spec fn obeys_eq_spec() -> bool {
        true
    }

    open spec fn eq_spec(&self, other: &ReadState) -> bool {
        self.same_state(*other)
    }
}

impl Default for ReadState {
    /// An empty read state: index zero and an empty token.
    fn default() -> (r: ReadState)
        ensures
            r.index == 0,
            r.request_ctx@ == Seq::<u8>::empty(),
    {
        ReadState { index: 0, request_ctx: Vec::new() }
    }
}

/// One in-flight read-only request: the original request message, the
/// commit index observed when it was registered, and the identities that
/// have acknowledged the heartbeat round carrying its token.
#[derive(Debug, Clone)]
pub struct ReadIndexStatus {
    /// The original read-only request message.
    pub req: Message,
    /// The commit index observed at registration time.
    pub index: u64,
    /// Distinct identities that have acknowledged the request's heartbeat.
    pub acks: Vec<u64>,
}

impl ReadIndexStatus {
    /// The correlation token this entry is registered under.
    pub open spec fn token(self) -> Seq<u8> {
        self.req.token()
    }

    /// A tracked entry always carries its token in the request's first
    /// entry, and its acknowledgers are pairwise distinct, so that their
    /// count can stand against a quorum size.
    pub open spec fn wf(self) -> bool {
        &&& self.req.entries@.len() >= 1
        &&& self.acks@.no_duplicates()
    }
}

/// Whether some entry of `q` is registered under token `t`.
pub open spec fn has_token(q: Seq<ReadIndexStatus>, t: Seq<u8>) -> bool {
    exists|i: int| 0 <= i < q.len() && q[i].token() == t
}

/// The queue position of the entry registered under token `t`.
pub open spec fn token_pos(q: Seq<ReadIndexStatus>, t: Seq<u8>) -> int {
    choose|i: int| 0 <= i < q.len() && q[i].token() == t
}

/// No two entries of `q` are registered under the same token.
pub open spec fn distinct_tokens(q: Seq<ReadIndexStatus>) -> bool {
    forall|i: int, j: int|
        0 <= i < j < q.len() ==> q[i].token() != q[j].token()
}

/// Under distinct tokens, the position of a token is the one index that
/// carries it.
pub proof fn lemma_token_pos(q: Seq<ReadIndexStatus>, t: Seq<u8>, j: int)
    requires
        distinct_tokens(q),
        0 <= j < q.len(),
        q[j].token() == t,
    ensures
        has_token(q, t),
        token_pos(q, t) == j,
{
    assert(has_token(q, t));
    let i = token_pos(q, t);
    if i != j {
        if i < j {
            assert(q[i].token() != q[j].token());
        } else {
            assert(q[j].token() != q[i].token());
        }
    }
}

/// The effect of one registration on the registry: a request whose token
/// is already pending leaves the registry as it was, any other request
/// joins the queue tail with nothing recorded; the blocked counter and
/// the serving option never move.
pub open spec fn register_effect(pre: ReadOnly, post: ReadOnly, index: u64, m: Message) -> bool {
    &&& post.option == pre.option
    &&& post.waiting_for_ready == pre.waiting_for_ready
    &&& if has_token(pre.queue(), m.token()) {
        post == pre
    } else {
        &&& post.queue().len() == pre.queue().len() + 1
        &&& (forall|i: int| 0 <= i < pre.queue().len() ==> post.queue()[i] == pre.queue()[i])
        &&& post.queue().last().req == m
        &&& post.queue().last().index == index
        &&& post.queue().last().acks@.len() == 0
    }
}

/// Law: registrations under pairwise-distinct tokens are all kept, each
/// appended in order, so a registry that starts empty and registers `n`
/// requests with distinct tokens has exactly `n` reads pending, queued in
/// registration order.
///
/// `states` is the trace of registry values, `states[k + 1]` arising from
/// `states[k]` by registering `msgs[k]` at captured index `indices[k]`.
pub proof fn lemma_register_distinct_counts(
    states: Seq<ReadOnly>,
    indices: Seq<u64>,
    msgs: Seq<Message>,
)
    requires
        states.len() == msgs.len() + 1,
        indices.len() == msgs.len(),
        states[0].queue().len() == 0,
        forall|a: int, b: int| 0 <= a < b < msgs.len() ==> msgs[a].token() != msgs[b].token(),
        forall|k: int|
            0 <= k < msgs.len() ==> register_effect(
                states[k],
                #[trigger] states[k + 1],
                indices[k],
                msgs[k],
            ),
    ensures
        states.last().queue().len() == msgs.len(),
        forall|i: int|
            0 <= i < msgs.len() ==> (#[trigger] states.last().queue()[i]).token()
                == msgs[i].token(),
    decreases msgs.len(),
{
    if msgs.len() == 0 {
        assert(states.last() == states[0]);
    } else {
        let n: int = msgs.len() as int;
        let prev_states = states.subrange(0, n);
        let prev_indices = indices.subrange(0, n - 1);
        let prev_msgs = msgs.subrange(0, n - 1);
        assert forall|k: int|
            0 <= k < prev_msgs.len() implies register_effect(
            prev_states[k],
            #[trigger] prev_states[k + 1],
            prev_indices[k],
            prev_msgs[k],
        ) by {
            assert(register_effect(states[k], states[k + 1], indices[k], msgs[k]));
        }
        lemma_register_distinct_counts(prev_states, prev_indices, prev_msgs);
        let pre = states[n - 1];
        let post = states[n];
        assert(pre == prev_states.last());
        assert(pre.queue().len() == n - 1);
        assert(register_effect(pre, post, indices[n - 1], msgs[n - 1]));
        if has_token(pre.queue(), msgs[n - 1].token()) {
            let i = choose|i: int|
                0 <= i < pre.queue().len() && pre.queue()[i].token() == msgs[n - 1].token();
            assert(pre.queue()[i] == prev_states.last().queue()[i]);
            assert(prev_msgs[i].token() == msgs[n - 1].token());
            assert(msgs[i].token() == msgs[n - 1].token());
            assert(false);
        }
        assert(states.last() == post);
        assert forall|i: int|
            0 <= i < msgs.len() implies (#[trigger] states.last().queue()[i]).token()
            == msgs[i].token() by {
            if i < n - 1 {
                assert(post.queue()[i] == pre.queue()[i]);
                assert(pre.queue()[i].token() == prev_msgs[i].token());
            } else {
                assert(post.queue()[i] == post.queue().last());
            }
        }
    }
}

/// The effect of a not-ready release on a registry whose entry at
/// position `i` matched: nothing is dequeued and nothing in the queue
/// moves, only the blocked counter rises to at least `i + 1`, and it
/// never falls.
pub open spec fn mark_blocked_effect(pre: ReadOnly, post: ReadOnly, i: int) -> bool {
    &&& post.option == pre.option
    &&& post.pending_read_index == pre.pending_read_index
    &&& post.waiting_for_ready as int == (if pre.waiting_for_ready as int >= i + 1 {
        pre.waiting_for_ready as int
    } else {
        i + 1
    })
}

/// Law: not-ready releases only raise the blocked counter.  One such
/// release raises it to at least the matched position plus one and never
/// lowers it, so across repeated calls the counter is non-decreasing, and
/// a call at a lower or equal position than one already marked leaves the
/// counter exactly where it was.
pub proof fn lemma_gate_monotonic(s0: ReadOnly, s1: ReadOnly, s2: ReadOnly, i1: int, i2: int)
    requires
        mark_blocked_effect(s0, s1, i1),
        mark_blocked_effect(s1, s2, i2),
    ensures
        s1.waiting_for_ready >= s0.waiting_for_ready,
        s1.waiting_for_ready >= i1 + 1,
        s2.waiting_for_ready >= s1.waiting_for_ready,
        i2 <= i1 ==> s2.waiting_for_ready == s1.waiting_for_ready,
{
}

/// The registry of pending read-only requests.
///
/// Entries live in `pending_read_index` in registration order, each
/// registered under a distinct correlation token; the first
/// `waiting_for_ready` of them are blocked behind the term-start commit
/// rule, to be drained together once a later index commits.
#[derive(Debug, Clone)]
pub struct ReadOnly {
    /// How read-only requests are to be served.
    pub option: ReadOnlyOption,
    /// Pending entries in registration order, tokens pairwise distinct.
    pub pending_read_index: Vec<ReadIndexStatus>,
    /// Entries at the front of the queue, this many of them, are pending
    /// because the leader has not yet committed an entry of its own term.
    pub waiting_for_ready: usize,
}

impl ReadOnly {
    /// The pending entries, in registration order.
    pub open spec fn queue(self) -> Seq<ReadIndexStatus> {
        self.pending_read_index@
    }

    /// The registry is well formed: every entry is, tokens are pairwise
    /// distinct, and the blocked prefix never outruns the queue.
    pub open spec fn wf(self) -> bool {
        &&& forall|i: int|
            0 <= i < self.queue().len() ==> (#[trigger] self.queue()[i]).wf()
        &&& distinct_tokens(self.queue())
        &&& self.waiting_for_ready <= self.queue().len()
    }

    /// Creates an empty registry serving reads under `option`.
    pub fn new(option: ReadOnlyOption) -> (r: ReadOnly)
        ensures
            r.wf(),
            r.option == option,
            r.queue().len() == 0,
            r.waiting_for_ready == 0,
    {
        ReadOnly { option, pending_read_index: Vec::new(), waiting_for_ready: 0 }
    }

    /// How many read-only requests are pending.
    pub fn pending_read_count(&self) -> (n: usize)
        ensures
            n == self.queue().len(),
    {
        self.pending_read_index.len()
    }

    /// Finds the queue position of the entry registered under token `t`,
    /// or reports that no entry carries it.
    fn find_token(&self, t: &Vec<u8>) -> (r: Option<usize>)
        requires
            self.wf(),
        ensures
            r is Some <==> has_token(self.queue(), t@),
            r matches Some(j) ==> j == token_pos(self.queue(), t@) && j < self.queue().len(),
    {
        let n: usize = self.pending_read_index.len();
        let mut j: usize = 0;
        while j < n
            invariant
                n == self.queue().len(),
                0 <= j <= n,
                self.wf(),
                forall|k: int| 0 <= k < j ==> self.queue()[k].token() != t@,
            decreases n - j,
        {
            if bytes_eq(&self.pending_read_index[j].req.entries[0].data, t) {
                proof {
                    lemma_token_pos(self.queue(), t@, j as int);
                }
                return Some(j);
            }
            j += 1;
        }
        proof {
            assert(!has_token(self.queue(), t@));
        }
        None
    }

    /// Registers a read-only request into the registry.
    ///
    /// `index` is the commit index of the consensus state machine when it
    /// received the request, and `m` is the original request message; the
    /// correlation token is the payload of the message's first entry.  A
    /// request whose token is already pending is silently discarded.
    pub fn add_request(&mut self, index: u64, m: Message)
        requires
            old(self).wf(),
            m.entries@.len() >= 1,
        ensures
            final(self).wf(),
            register_effect(*old(self), *final(self), index, m),
    {
        if let Some(_) = self.find_token(&m.entries[0].data) {
            return;
        }
        let status = ReadIndexStatus { req: m, index, acks: Vec::new() };
        self.pending_read_index.push(status);
        proof {
            let q = self.queue();
            let oq = old(self).queue();
            assert forall|i: int, j: int| 0 <= i < j < q.len() implies q[i].token()
                != q[j].token() by {
                if j < oq.len() {
                    assert(oq[i].token() != oq[j].token());
                } else {
                    assert(!has_token(oq, q[j].token()));
                }
            }
        }
    }

    /// Records that `m.from` acknowledged the heartbeat carrying the
    /// read-only request context `m.context`.
    ///
    /// On an unknown token nothing changes and the result is empty.
    /// Otherwise the acknowledger joins the entry's ack set, and the
    /// result is that set together with the responded-to identity `m.to`
    /// (the leader counts itself as having implicitly confirmed); the
    /// caller holds the result's size against the cluster's quorum size.
    pub fn recv_ack(&mut self, m: &Message) -> (r: Vec<u64>)
        requires
            old(self).wf(),
        ensures
            final(self).wf(),
            final(self).option == old(self).option,
            final(self).waiting_for_ready == old(self).waiting_for_ready,
            !has_token(old(self).queue(), m.context@) ==> *final(self) == *old(self)
                && r@.len() == 0,
            has_token(old(self).queue(), m.context@) ==> {
                let i = token_pos(old(self).queue(), m.context@);
                let oq = old(self).queue();
                let q = final(self).queue();
                &&& q.len() == oq.len()
                &&& forall|k: int| 0 <= k < q.len() && k != i ==> q[k] == oq[k]
                &&& q[i].req == oq[i].req
                &&& q[i].index == oq[i].index
                &&& q[i].acks@ == (if oq[i].acks@.contains(m.from) {
                    oq[i].acks@
                } else {
                    oq[i].acks@.push(m.from)
                })
                &&& q[i].acks@.to_set() == oq[i].acks@.to_set().insert(m.from)
                &&& oq[i].acks@.to_set() <= q[i].acks@.to_set()
                &&& r@.no_duplicates()
                &&& r@.to_set() == q[i].acks@.to_set().insert(m.to)
            },
    {
        let found = self.find_token(&m.context);
        match found {
            None => Vec::new(),
            Some(j) => {
                let ghost oq = old(self).queue();
                let ghost i = j as int;
                let mut st = self.pending_read_index.remove(j);
                if !contains_u64(&st.acks, m.from) {
                    let ghost old_acks = st.acks@;
                    st.acks.push(m.from);
                    proof {
                        old_acks.lemma_push_to_set_commute(m.from);
                        assert forall|a: int, b: int|
                            0 <= a < b < st.acks@.len() implies st.acks@[a] != st.acks@[b] by {
                            if b == st.acks@.len() - 1 {
                                assert(!old_acks.contains(st.acks@[b]));
                            }
                        }
                        assert(st.acks@.no_duplicates());
                    }
                } else {
                    proof {
                        assert(oq[i].acks@.to_set().contains(m.from));
                        assert(st.acks@.to_set() =~= oq[i].acks@.to_set().insert(m.from));
                    }
                }
                let mut r = copy_vec(&st.acks);
                if !contains_u64(&r, m.to) {
                    let ghost old_r = r@;
                    r.push(m.to);
                    proof {
                        old_r.lemma_push_to_set_commute(m.to);
                        assert forall|a: int, b: int|
                            0 <= a < b < r@.len() implies r@[a] != r@[b] by {
                            if b == r@.len() - 1 {
                                assert(!old_r.contains(r@[b]));
                            }
                        }
                        assert(r@.no_duplicates());
                    }
                } else {
                    proof {
                        assert(st.acks@.to_set().contains(m.to));
                        assert(r@.to_set() =~= st.acks@.to_set().insert(m.to));
                    }
                }
                self.pending_read_index.insert(j, st);
                proof {
                    let q = self.queue();
                    assert forall|k: int| 0 <= k < q.len() && k != i implies q[k] == oq[k] by {
                        assert(q == oq.remove(i).insert(i, st));
                    }
                    assert(q[i] == st);
                }
                r
            },
        }
    }

    /// Advances the pending-read queue: dequeues requests up to and
    /// including the one whose context matches `m.context`.
    ///
    /// On an unknown context nothing changes and nothing is released.
    /// With `ready` false the matching request cannot be confirmed yet —
    /// the leader has not proven its term by a quorum-committed entry —
    /// so the entry and everything queued before it are only marked
    /// blocked, raising the blocked counter to at least the entry's
    /// position plus one, never lowering it.  With `ready` true the
    /// matching entry and every earlier-queued one are removed and
    /// returned in registration order: the commit index is monotonic, so
    /// confirming this read also confirms every read registered before it.
    pub fn advance(&mut self, m: &Message, ready: bool) -> (rss: Vec<ReadIndexStatus>)
        requires
            old(self).wf(),
        ensures
            final(self).wf(),
            final(self).option == old(self).option,
            !has_token(old(self).queue(), m.context@) ==> *final(self) == *old(self)
                && rss@.len() == 0,
            has_token(old(self).queue(), m.context@) && !ready ==> {
                let i = token_pos(old(self).queue(), m.context@);
                &&& rss@.len() == 0
                &&& mark_blocked_effect(*old(self), *final(self), i)
                &&& final(self).waiting_for_ready >= old(self).waiting_for_ready
            },
            has_token(old(self).queue(), m.context@) && ready ==> {
                let i = token_pos(old(self).queue(), m.context@);
                let oq = old(self).queue();
                &&& rss@ == oq.subrange(0, i + 1)
                &&& final(self).queue() == oq.subrange(i + 1, oq.len() as int)
                &&& final(self).waiting_for_ready as int == (if old(
                    self,
                ).waiting_for_ready as int >= i + 1 {
                    old(self).waiting_for_ready - (i + 1)
                } else {
                    0
                })
            },
    {
        let mut rss: Vec<ReadIndexStatus> = Vec::new();
        let found = self.find_token(&m.context);
        match found {
            None => rss,
            Some(i) => {
                let n: usize = self.pending_read_index.len();
                assert(i < n);
                if !ready {
                    if self.waiting_for_ready < i + 1 {
                        self.waiting_for_ready = i + 1;
                    }
                    return rss;
                }
                let ghost oq = old(self).queue();
                let drained: usize = i + 1;
                let mut k: usize = 0;
                while k < drained
                    invariant
                        0 <= k <= drained,
                        drained <= oq.len(),
                        rss@ =~= oq.subrange(0, k as int),
                        self.pending_read_index@ =~= oq.subrange(k as int, oq.len() as int),
                        self.waiting_for_ready == old(self).waiting_for_ready,
                        self.option == old(self).option,
                    decreases drained - k,
                {
                    let st = self.pending_read_index.remove(0);
                    rss.push(st);
                    proof {
                        assert(rss@ =~= oq.subrange(0, k + 1 as int));
                        assert(self.pending_read_index@ =~= oq.subrange(
                            k + 1 as int,
                            oq.len() as int,
                        ));
                    }
                    k += 1;
                }
                if self.waiting_for_ready > drained {
                    self.waiting_for_ready = self.waiting_for_ready - drained;
                } else {
                    self.waiting_for_ready = 0;
                }
                proof {
                    let q = self.queue();
                    assert(q =~= oq.subrange(i + 1 as int, oq.len() as int));
                    assert(rss@ =~= oq.subrange(0, i + 1 as int));
                    assert forall|a: int| 0 <= a < q.len() implies (#[trigger] q[a]).wf() by {
                        assert(q[a] == oq[a + i + 1]);
                    }
                    assert forall|a: int, b: int|
                        0 <= a < b < q.len() implies q[a].token() != q[b].token() by {
                        assert(q[a] == oq[a + i + 1] && q[b] == oq[b + i + 1]);
                    }
                }
                rss
            },
        }
    }

    /// Releases everything blocked behind the term-start gate, now that
    /// `committed` — an index at least as new as anything those requests
    /// observed — has committed.
    ///
    /// Drains exactly the blocked prefix of the queue (nothing when no
    /// entry is blocked), resets the blocked counter to zero, and stamps
    /// every drained entry with `committed`: the newly committed index is
    /// authoritative over the possibly stale index captured at
    /// registration, since followers may have lagged behind it.
    pub fn advance_by_commit(&mut self, committed: u64) -> (rss: Vec<ReadIndexStatus>)
        requires
            old(self).wf(),
        ensures
            final(self).wf(),
            final(self).option == old(self).option,
            final(self).waiting_for_ready == 0,
            rss@.len() == old(self).waiting_for_ready,
            forall|j: int|
                0 <= j < rss@.len() ==> (#[trigger] rss@[j]).req == old(self).queue()[j].req
                    && rss@[j].acks == old(self).queue()[j].acks && rss@[j].index == committed,
            final(self).queue() == old(self).queue().subrange(
                old(self).waiting_for_ready as int,
                old(self).queue().len() as int,
            ),
            old(self).waiting_for_ready == 0 ==> *final(self) == *old(self) && rss@.len() == 0,
    {
        let ghost oq = old(self).queue();
        let mut rss: Vec<ReadIndexStatus> = Vec::new();
        let w: usize = self.waiting_for_ready;
        if w == 0 {
            proof {
                assert(self.queue() =~= oq.subrange(0, oq.len() as int));
            }
            return rss;
        }
        let mut k: usize = 0;
        while k < w
            invariant
                0 <= k <= w,
                w <= oq.len(),
                rss@.len() == k,
                forall|j: int|
                    0 <= j < k ==> (#[trigger] rss@[j]).req == oq[j].req && rss@[j].acks
                        == oq[j].acks && rss@[j].index == committed,
                self.pending_read_index@ =~= oq.subrange(k as int, oq.len() as int),
                self.waiting_for_ready == w,
                self.option == old(self).option,
            decreases w - k,
        {
            let mut st = self.pending_read_index.remove(0);
            st.index = committed;
            rss.push(st);
            proof {
                assert(self.pending_read_index@ =~= oq.subrange(k + 1 as int, oq.len() as int));
            }
            k += 1;
        }
        self.waiting_for_ready = 0;
        proof {
            let q = self.queue();
            assert(q =~= oq.subrange(w as int, oq.len() as int));
            assert forall|a: int| 0 <= a < q.len() implies (#[trigger] q[a]).wf() by {
                assert(q[a] == oq[a + w]);
            }
            assert forall|a: int, b: int|
                0 <= a < b < q.len() implies q[a].token() != q[b].token() by {
                assert(q[a] == oq[a + w] && q[b] == oq[b + w]);
            }
        }
        rss
    }

    /// The correlation token of the most recently registered, still
    /// pending request, or nothing once the registry is empty.
    pub fn last_pending_request_ctx(&self) -> (r: Option<Vec<u8>>)
        requires
            self.wf(),
        ensures
            self.queue().len() == 0 ==> r is None,
            self.queue().len() > 0 ==> (r matches Some(ctx) && ctx@ == self.queue().last().token()),
    {
        let n: usize = self.pending_read_index.len();
        if n == 0 {
            None
        } else {
            Some(copy_vec(&self.pending_read_index[n - 1].req.entries[0].data))
        }
    }

    /// Removes and returns every pending entry, in registration order,
    /// and clears the term-start gate.
    ///
    /// For the owning engine's use when leadership is lost: every
    /// outstanding request must then be reported failed to its caller,
    /// and nothing may stay behind in the registry.
    pub fn drain_all(&mut self) -> (rss: Vec<ReadIndexStatus>)
        requires
            old(self).wf(),
        ensures
            final(self).wf(),
            final(self).option == old(self).option,
            final(self).waiting_for_ready == 0,
            final(self).queue().len() == 0,
            rss@ == old(self).queue(),
    {
        let mut rss: Vec<ReadIndexStatus> = Vec::new();
        core::mem::swap(&mut rss, &mut self.pending_read_index);
        self.waiting_for_ready = 0;
        rss
    }
}

/// Whether `v` holds `x`.
fn contains_u64(v: &Vec<u64>, x: u64) -> (r: bool)
    ensures
        r <==> v@.contains(x),
{
    let n: usize = v.len();
    let mut k: usize = 0;
    while k < n
        invariant
            n == v@.len(),
            0 <= k <= n,
            forall|t: int| 0 <= t < k ==> v@[t] != x,
        decreases n - k,
    {
        if v[k] == x {
            return true;
        }
        k += 1;
    }
    false
}

/// A fresh vector holding the same elements as `v`, in the same order.
fn copy_vec<T: Copy>(v: &Vec<T>) -> (r: Vec<T>)
    ensures
        r@ == v@,
{
    let n: usize = v.len();
    let mut r: Vec<T> = Vec::new();
    let mut k: usize = 0;
    while k < n
        invariant
            n == v@.len(),
            0 <= k <= n,
            r@ == v@.subrange(0, k as int),
        decreases n - k,
    {
        r.push(v[k]);
        proof {
            assert(r@ =~= v@.subrange(0, k + 1 as int));
        }
        k += 1;
    }
    proof {
        assert(r@ =~= v@);
    }
    r
}

/// Whether two byte strings hold the same bytes.
fn bytes_eq(a: &Vec<u8>, b: &Vec<u8>) -> (r: bool)
    ensures
        r <==> a@ == b@,
{
    if a.len() != b.len() {
        return false;
    }
    let n: usize = a.len();
    let mut k: usize = 0;
    while k < n
        invariant
            n == a@.len(),
            a@.len() == b@.len(),
            0 <= k <= n,
            forall|t: int| 0 <= t < k ==> a@[t] == b@[t],
        decreases n - k,
    {
        if a[k] != b[k] {
            return false;
        }
        k += 1;
    }
    proof {
        assert(a@ =~= b@);
    }
    true
}

} // verus!
