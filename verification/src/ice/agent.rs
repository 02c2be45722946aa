//! ICE agent (RFC 8445): candidate pairing, pair ordering and selection, and the reading of
//! the STUN answers that gathering receives. Sockets and timers are driven from outside.
use crate::ice::candidate::{pair_priority, Candidate, CandidateType};
use crate::ice::stun::{sock_of, SockView, StunError, StunErrorView, StunServer};
use crate::net::{IpAddr, SocketAddr};
use crate::wire::{be16, be32, read_u16, read_u32};
use vstd::prelude::*;

verus! {

/// ICE agent errors.
#[derive(Debug)]
pub enum IceError {
    /// An I/O error.
    Io(std::io::Error),
    /// A STUN error.
    Stun(StunError),
    /// No candidates available.
    NoCandidates,
    /// ICE failed.
    Failed(String),
}

impl From<std::io::Error> for IceError {
    fn from(e: std::io::Error) -> (r: Self) {
        IceError::Io(e)
    }
}

impl vstd::std_specs::convert::FromSpecImpl<std::io::Error> for IceError {
    open spec fn obeys_from_spec() -> bool {
        true
    }

    open spec fn from_spec(e: std::io::Error) -> IceError {
        IceError::Io(e)
    }
}

impl From<StunError> for IceError {
    fn from(e: StunError) -> (r: Self) {
        IceError::Stun(e)
    }
}

impl vstd::std_specs::convert::FromSpecImpl<StunError> for IceError {
    open spec fn obeys_from_spec() -> bool {
        true
    }

    open spec fn from_spec(e: StunError) -> IceError {
        IceError::Stun(e)
    }
}

impl IceError {
    /// The error's message.
    pub fn to_text(&self) -> (s: String)
        ensures
            match self {
                IceError::Io(_) => s@.len() >= 10 && s@.take(10) == "IO error: "@,
                IceError::Stun(e) => s@.len() >= 12 && s@.take(12) == "STUN error: "@,
                IceError::NoCandidates => s@ == "No candidates available"@,
                IceError::Failed(m) => s@ == "ICE failed: "@ + m@,
            },
    {
        let mut v: Vec<char> = Vec::new();
        match self {
            IceError::Io(e) => {
                crate::text::push_str(&mut v, "IO error: ");
                proof {
                    reveal_strlit("IO error: ");
                }
                let ghost head = v@;
                let t = crate::ice::stun::io_error_text(e);
                crate::text::push_str(&mut v, t.as_str());
                assert(v@.take(10) =~= head);
            },
            IceError::Stun(e) => {
                crate::text::push_str(&mut v, "STUN error: ");
                proof {
                    reveal_strlit("STUN error: ");
                }
                let ghost head = v@;
                let t = e.to_text();
                crate::text::push_str(&mut v, t.as_str());
                assert(v@.take(12) =~= head);
            },
            IceError::NoCandidates => crate::text::push_str(&mut v, "No candidates available"),
            IceError::Failed(m) => {
                crate::text::push_str(&mut v, "ICE failed: ");
                crate::text::push_str(&mut v, m.as_str());
            },
        }
        crate::text::string_of(v.as_slice())
    }
}

/// ICE agent role.
#[derive(Debug, Clone, Copy, PartialEq, Eq, Structural)]
pub enum IceRole {
    /// Controlling agent (makes nomination decisions).
    Controlling,
    /// Controlled agent (follows controlling agent's decisions).
    Controlled,
}

/// ICE agent state.
#[derive(Debug, Clone, Copy, PartialEq, Eq, Structural)]
pub enum IceState {
    /// Not started.
    New,
    /// Gathering candidates.
    Gathering,
    /// Checking connectivity.
    Checking,
    /// At least one valid pair found.
    Connected,
    /// All checks complete, selected pair nominated.
    Completed,
    /// ICE failed.
    Failed,
    /// ICE closed.
    Closed,
}

/// Candidate pair state.
#[derive(Debug, Clone, Copy, PartialEq, Eq, Structural)]
pub enum PairState {
    /// Waiting to be checked.
    Waiting,
    /// Check in progress.
    InProgress,
    /// Check succeeded.
    Succeeded,
    /// Check failed.
    Failed,
    /// Pair frozen (waiting for other checks).
    Frozen,
}

/// ICE candidate pair.
#[derive(Debug, Clone)]
pub struct CandidatePair {
    /// Local candidate.
    pub local: Candidate,
    /// Remote candidate.
    pub remote: Candidate,
    /// Pair priority.
    pub priority: u64,
    /// Pair state.
    pub state: PairState,
    /// Whether this pair is nominated.
    pub nominated: bool,
}

/// A copy of a candidate.
pub(crate) fn copy_candidate(c: &Candidate) -> (r: Candidate)
    ensures
        r == *c,
{
    Candidate {
        foundation: c.foundation.clone(),
        component: c.component,
        transport: c.transport,
        priority: c.priority,
        address: c.address,
        candidate_type: c.candidate_type,
        related_address: c.related_address,
    }
}

/// A copy of a pair.
pub fn copy_pair(p: &CandidatePair) -> (r: CandidatePair)
    ensures
        r == *p,
{
    CandidatePair {
        local: copy_candidate(&p.local),
        remote: copy_candidate(&p.remote),
        priority: p.priority,
        state: p.state,
        nominated: p.nominated,
    }
}

/// Whether two candidates may form a pair: same component and transport.
pub open spec fn pairable(l: Candidate, r: Candidate) -> bool {
    l.component == r.component && l.transport == r.transport
}

/// Whether `ps` already pairs the address of `l` with the address of `r`.
pub open spec fn has_pair(ps: Seq<CandidatePair>, l: Candidate, r: Candidate) -> bool {
    exists|i: int| 0 <= i < ps.len() && (#[trigger] ps[i]).local.address == l.address && ps[i].remote.address == r.address
}

/// The new pair of `l` and `r`: frozen, not nominated, with the pair priority for `role`.
pub open spec fn new_pair(l: Candidate, r: Candidate, role: IceRole) -> CandidatePair {
    CandidatePair {
        local: l,
        remote: r,
        priority: pair_priority(role == IceRole::Controlling, l.priority, r.priority) as u64,
        state: PairState::Frozen,
        nominated: false,
    }
}

/// `ps` with a pair for `l` and each of `rs` in turn, where they are pairable and not
/// already paired.
pub open spec fn pairs_with(ps: Seq<CandidatePair>, l: Candidate, rs: Seq<Candidate>, role: IceRole) -> Seq<CandidatePair>
    decreases rs.len(),
{
    if rs.len() == 0 {
        ps
    } else {
        let prev = pairs_with(ps, l, rs.drop_last(), role);
        let r = rs.last();
        if pairable(l, r) && !has_pair(prev, l, r) {
            prev.push(new_pair(l, r, role))
        } else {
            prev
        }
    }
}

/// Whether the priority of every pair that pairing `l` with `rs` adds to `ps` fits 64 bits.
pub open spec fn fits_with(ps: Seq<CandidatePair>, l: Candidate, rs: Seq<Candidate>, role: IceRole) -> bool
    decreases rs.len(),
{
    if rs.len() == 0 {
        true
    } else {
        let prev = pairs_with(ps, l, rs.drop_last(), role);
        let r = rs.last();
        &&& fits_with(ps, l, rs.drop_last(), role)
        &&& (pairable(l, r) && !has_pair(prev, l, r) ==> pair_priority(role == IceRole::Controlling, l.priority, r.priority)
            <= u64::MAX)
    }
}

/// Whether the priority of every pair that pairing `ls` with `rs` adds to `ps` fits 64 bits.
pub open spec fn fits_of(ps: Seq<CandidatePair>, ls: Seq<Candidate>, rs: Seq<Candidate>, role: IceRole) -> bool
    decreases ls.len(),
{
    if ls.len() == 0 {
        true
    } else {
        fits_of(ps, ls.drop_last(), rs, role) && fits_with(pairs_of(ps, ls.drop_last(), rs, role), ls.last(), rs, role)
    }
}

proof fn lemma_fits_with_prefix(ps: Seq<CandidatePair>, l: Candidate, rs: Seq<Candidate>, role: IceRole, k: int)
    requires
        0 <= k <= rs.len(),
        fits_with(ps, l, rs, role),
    ensures
        fits_with(ps, l, rs.take(k), role),
    decreases rs.len(),
{
    if k < rs.len() {
        assert(rs.drop_last().take(k) =~= rs.take(k));
        lemma_fits_with_prefix(ps, l, rs.drop_last(), role, k);
    } else {
        assert(rs.take(k) =~= rs);
    }
}

proof fn lemma_fits_of_prefix(ps: Seq<CandidatePair>, ls: Seq<Candidate>, rs: Seq<Candidate>, role: IceRole, k: int)
    requires
        0 <= k <= ls.len(),
        fits_of(ps, ls, rs, role),
    ensures
        fits_of(ps, ls.take(k), rs, role),
    decreases ls.len(),
{
    if k < ls.len() {
        assert(ls.drop_last().take(k) =~= ls.take(k));
        lemma_fits_of_prefix(ps, ls.drop_last(), rs, role, k);
    } else {
        assert(ls.take(k) =~= ls);
    }
}

/// `ps` with the pairs of each of `ls` with `rs`, local candidates in order.
pub open spec fn pairs_of(ps: Seq<CandidatePair>, ls: Seq<Candidate>, rs: Seq<Candidate>, role: IceRole) -> Seq<CandidatePair>
    decreases ls.len(),
{
    if ls.len() == 0 {
        ps
    } else {
        pairs_with(pairs_of(ps, ls.drop_last(), rs, role), ls.last(), rs, role)
    }
}

/// `s` (sorted by descending priority) with `x` inserted after every pair of at least its
/// priority.
pub open spec fn insert_desc(s: Seq<CandidatePair>, x: CandidatePair) -> Seq<CandidatePair>
    decreases s.len(),
{
    if s.len() == 0 {
        seq![x]
    } else if s.last().priority >= x.priority {
        s.push(x)
    } else {
        insert_desc(s.drop_last(), x).push(s.last())
    }
}

/// `s` sorted by descending priority, pairs of equal priority kept in their order (a stable
/// sort).
pub open spec fn sort_desc(s: Seq<CandidatePair>) -> Seq<CandidatePair>
    decreases s.len(),
{
    if s.len() == 0 {
        s
    } else {
        insert_desc(sort_desc(s.drop_last()), s.last())
    }
}

/// Whether `s` is in descending order of priority.
pub open spec fn is_desc(s: Seq<CandidatePair>) -> bool {
    forall|i: int, j: int| 0 <= i < j < s.len() ==> s[i].priority >= s[j].priority
}

/// Whether two pairs share the foundations of both candidates.
pub open spec fn same_foundations(a: CandidatePair, b: CandidatePair) -> bool {
    a.local.foundation@ == b.local.foundation@ && a.remote.foundation@ == b.remote.foundation@
}

/// Whether pair `i` is the first of its foundations.
pub open spec fn first_of_foundation(s: Seq<CandidatePair>, i: int) -> bool {
    forall|j: int| 0 <= j < i ==> !same_foundations(#[trigger] s[j], s[i])
}

/// `s` with the first pair of each pair of foundations set waiting.
pub open spec fn unfreeze(s: Seq<CandidatePair>) -> Seq<CandidatePair> {
    Seq::new(
        s.len(),
        |i: int| if first_of_foundation(s, i) { CandidatePair { state: PairState::Waiting, ..s[i] } } else { s[i] },
    )
}

/// The pairs after adding pairs of `ls` with `rs` to `ps`, then sorting and unfreezing.
pub open spec fn formed_pairs(ps: Seq<CandidatePair>, ls: Seq<Candidate>, rs: Seq<Candidate>, role: IceRole) -> Seq<CandidatePair> {
    unfreeze(sort_desc(pairs_of(ps, ls, rs, role)))
}

proof fn lemma_insert_desc(s: Seq<CandidatePair>, x: CandidatePair)
    requires
        is_desc(s),
    ensures
        is_desc(insert_desc(s, x)),
        insert_desc(s, x).len() == s.len() + 1,
        insert_desc(s, x).to_multiset() =~= s.to_multiset().insert(x),
    decreases s.len(),
{
    broadcast use vstd::seq_lib::group_to_multiset_ensures;

    if s.len() == 0 {
        assert(seq![x] =~= s.push(x));
    } else {
        assert(s.drop_last().push(s.last()) =~= s);
        if s.last().priority < x.priority {
            lemma_insert_desc(s.drop_last(), x);
            let t = insert_desc(s.drop_last(), x);
            assert forall|i: int, j: int| 0 <= i < j < t.len() + 1 implies t.push(s.last())[i].priority >= t.push(
                s.last(),
            )[j].priority by {
                if j == t.len() {
                    assert(t.push(s.last())[j] == s.last());
                    lemma_insert_desc_bound(s.drop_last(), x, s.last().priority);
                    assert(t.push(s.last())[i] == t[i]);
                } else {
                    assert(t.push(s.last())[i] == t[i]);
                    assert(t.push(s.last())[j] == t[j]);
                }
            }
        }
    }
}

proof fn lemma_insert_desc_bound(s: Seq<CandidatePair>, x: CandidatePair, b: u64)
    requires
        forall|k: int| 0 <= k < s.len() ==> s[k].priority >= b,
        x.priority >= b,
    ensures
        forall|k: int| 0 <= k < insert_desc(s, x).len() ==> insert_desc(s, x)[k].priority >= b,
    decreases s.len(),
{
    if s.len() > 0 && s.last().priority < x.priority {
        lemma_insert_desc_bound(s.drop_last(), x, b);
        let t = insert_desc(s.drop_last(), x);
        assert forall|k: int| 0 <= k < t.len() + 1 implies t.push(s.last())[k].priority >= b by {
            if k < t.len() {
                assert(t.push(s.last())[k] == t[k]);
            }
        }
    }
}

/// The sort puts the pairs in descending order of priority, and keeps every pair.
pub proof fn lemma_sort_desc(s: Seq<CandidatePair>)
    ensures
        is_desc(sort_desc(s)),
        sort_desc(s).to_multiset() =~= s.to_multiset(),
        sort_desc(s).len() == s.len(),
    decreases s.len(),
{
    broadcast use vstd::seq_lib::group_to_multiset_ensures;

    if s.len() > 0 {
        lemma_sort_desc(s.drop_last());
        lemma_insert_desc(sort_desc(s.drop_last()), s.last());
        assert(s.drop_last().push(s.last()) =~= s);
    }
}

/// Inserts `x` into `v` (sorted by descending priority) after every pair of at least its
/// priority.
fn insert_pair(v: &mut Vec<CandidatePair>, x: CandidatePair)
    ensures
        final(v)@ == insert_desc(old(v)@, x),
{
    let ghost s = v@;
    let mut i = v.len();
    assert(s.take(s.len() as int) =~= s);
    assert(s.subrange(s.len() as int, s.len() as int) =~= Seq::<CandidatePair>::empty());
    while i > 0 && v[i - 1].priority < x.priority
        invariant
            i <= v@.len(),
            v@ == s,
            insert_desc(s, x) == insert_desc(s.take(i as int), x) + s.subrange(i as int, s.len() as int),
        decreases i,
    {
        let ghost t = s.take(i as int);
        assert(t.drop_last() =~= s.take(i - 1));
        assert(t.last() == s[i - 1]);
        assert(insert_desc(s.take(i - 1), x).push(s[i - 1]) + s.subrange(i as int, s.len() as int)
            =~= insert_desc(s.take(i - 1), x) + s.subrange(i - 1, s.len() as int));
        i -= 1;
    }
    proof {
        let t = s.take(i as int);
        if i > 0 {
            assert(t.last() == s[i - 1]);
        }
        assert(insert_desc(t, x) =~= t.push(x));
    }
    v.insert(i, x);
    assert(v@ =~= s.take(i as int).push(x) + s.subrange(i as int, s.len() as int));
}

/// The core of an ICE agent: its role, state, candidates, pairs and selected pair.
pub struct IceCore {
    role: IceRole,
    state: IceState,
    local_candidates: Vec<Candidate>,
    remote_candidates: Vec<Candidate>,
    candidate_pairs: Vec<CandidatePair>,
    selected_pair: Option<CandidatePair>,
}

/// An ICE agent as plain values.
pub struct IceCoreView {
    pub role: IceRole,
    pub state: IceState,
    pub local: Seq<Candidate>,
    pub remote: Seq<Candidate>,
    pub pairs: Seq<CandidatePair>,
    pub selected: Option<CandidatePair>,
}

impl View for IceCore {
    type V = IceCoreView;

    closed spec fn view(&self) -> IceCoreView {
        IceCoreView {
            role: self.role,
            state: self.state,
            local: self.local_candidates@,
            remote: self.remote_candidates@,
            pairs: self.candidate_pairs@,
            selected: self.selected_pair,
        }
    }
}

/// Whether a pair connects two host candidates.
pub open spec fn host_to_host(p: CandidatePair) -> bool {
    p.local.candidate_type == CandidateType::Host && p.remote.candidate_type == CandidateType::Host
}

/// The first waiting host-to-host pair at or after `i`.
pub open spec fn first_host_waiting(s: Seq<CandidatePair>, i: int) -> Option<int>
    decreases s.len() - i,
{
    if i < 0 || i >= s.len() {
        None
    } else if s[i].state == PairState::Waiting && host_to_host(s[i]) {
        Some(i)
    } else {
        first_host_waiting(s, i + 1)
    }
}

/// The pair that checks select: the first waiting host-to-host pair, else the first pair.
pub open spec fn chosen_pair(s: Seq<CandidatePair>) -> Option<int> {
    match first_host_waiting(s, 0) {
        Some(i) => Some(i),
        None => if s.len() > 0 { Some(0) } else { None },
    }
}

impl IceCore {
    /// A new agent with the given role: state New, nothing gathered, paired or selected.
    pub fn new(role: IceRole) -> (a: Self)
        ensures
            a@ == (IceCoreView {
                role,
                state: IceState::New,
                local: Seq::empty(),
                remote: Seq::empty(),
                pairs: Seq::empty(),
                selected: None,
            }),
    {
        let a = IceCore {
            role,
            state: IceState::New,
            local_candidates: Vec::new(),
            remote_candidates: Vec::new(),
            candidate_pairs: Vec::new(),
            selected_pair: None,
        };
        assert(a@.local =~= Seq::<Candidate>::empty());
        assert(a@.remote =~= Seq::<Candidate>::empty());
        assert(a@.pairs =~= Seq::<CandidatePair>::empty());
        a
    }

    /// The current state.
    pub fn state(&self) -> (s: IceState)
        ensures
            s == self@.state,
    {
        self.state
    }

    /// Sets the state.
    pub fn set_state(&mut self, s: IceState)
        ensures
            final(self)@ == (IceCoreView { state: s, ..old(self)@ }),
    {
        self.state = s;
    }

    /// The local candidates.
    pub fn local_candidates(&self) -> (v: &Vec<Candidate>)
        ensures
            v@ == self@.local,
    {
        &self.local_candidates
    }

    /// The candidate pairs.
    pub fn candidate_pairs(&self) -> (v: &Vec<CandidatePair>)
        ensures
            v@ == self@.pairs,
    {
        &self.candidate_pairs
    }

    /// The selected pair.
    pub fn selected_pair(&self) -> (p: &Option<CandidatePair>)
        ensures
            *p == self@.selected,
    {
        &self.selected_pair
    }

    /// Records gathered local candidates, in place of those before.
    pub fn set_local_candidates(&mut self, candidates: Vec<Candidate>)
        ensures
            final(self)@ == (IceCoreView { local: candidates@, ..old(self)@ }),
    {
        self.local_candidates = candidates;
    }

    /// Add remote candidates, then pair every local candidate with every remote one of the
    /// same component and transport (once per pair of addresses), order the pairs by
    /// descending priority, and set the first pair of each pair of foundations waiting.
    pub fn add_remote_candidates(&mut self, candidates: Vec<Candidate>)
        requires
            fits_of(old(self)@.pairs, old(self)@.local, old(self)@.remote + candidates@, old(self)@.role),
        ensures
            final(self)@ == (IceCoreView {
                remote: old(self)@.remote + candidates@,
                pairs: formed_pairs(old(self)@.pairs, old(self)@.local, old(self)@.remote + candidates@, old(self)@.role),
                ..old(self)@
            }),
    {
        let mut c = candidates;
        self.remote_candidates.append(&mut c);
        self.form_candidate_pairs();
    }

    /// Form candidate pairs from local and remote candidates.
    fn form_candidate_pairs(&mut self)
        requires
            fits_of(old(self)@.pairs, old(self)@.local, old(self)@.remote, old(self)@.role),
        ensures
            final(self)@ == (IceCoreView {
                pairs: formed_pairs(old(self)@.pairs, old(self)@.local, old(self)@.remote, old(self)@.role),
                ..old(self)@
            }),
    {
        let ghost ls = self.local_candidates@;
        let ghost rs = self.remote_candidates@;
        let ghost ps0 = self.candidate_pairs@;
        let role = self.role;
        let is_controlling = role == IceRole::Controlling;
        let mut pairs: Vec<CandidatePair> = Vec::new();
        std::mem::swap(&mut pairs, &mut self.candidate_pairs);
        let mut a: usize = 0;
        while a < self.local_candidates.len()
            invariant
                a <= ls.len(),
                ls == self.local_candidates@,
                rs == self.remote_candidates@,
                role == self.role,
                is_controlling == (role == IceRole::Controlling),
                fits_of(ps0, ls, rs, role),
                fits_of(ps0, ls.take(a as int), rs, role),
                pairs@ == pairs_of(ps0, ls.take(a as int), rs, role),
            decreases ls.len() - a,
        {
            let l = &self.local_candidates[a];
            let ghost before = pairs@;
            proof {
                lemma_fits_of_prefix(ps0, ls, rs, role, a + 1);
                assert(ls.take(a + 1).drop_last() =~= ls.take(a as int));
            }
            let mut b: usize = 0;
            while b < self.remote_candidates.len()
                invariant
                    b <= rs.len(),
                    a < ls.len(),
                    ls == self.local_candidates@,
                    rs == self.remote_candidates@,
                    *l == ls[a as int],
                    is_controlling == (role == IceRole::Controlling),
                    fits_with(before, ls[a as int], rs, role),
                    pairs@ == pairs_with(before, ls[a as int], rs.take(b as int), role),
                decreases rs.len() - b,
            {
                let r = &self.remote_candidates[b];
                let ghost t = rs.take(b + 1);
                assert(t.drop_last() =~= rs.take(b as int));
                proof {
                    lemma_fits_with_prefix(before, ls[a as int], rs, role, b + 1);
                }
                if l.component == r.component && l.transport == r.transport {
                    let ghost prev = pairs@;
                    let mut exists = false;
                    let mut k: usize = 0;
                    while k < pairs.len()
                        invariant
                            k <= pairs@.len(),
                            pairs@ == prev,
                            exists == (exists|i: int| 0 <= i < k && (#[trigger] prev[i]).local.address == l.address
                                && prev[i].remote.address == r.address),
                        decreases pairs.len() - k,
                    {
                        if pairs[k].local.address.same(&l.address) && pairs[k].remote.address.same(&r.address) {
                            exists = true;
                        }
                        k += 1;
                    }
                    if !exists {
                        let priority = crate::ice::candidate::calculate_pair_priority(is_controlling, l.priority, r.priority);
                        pairs.push(
                            CandidatePair {
                                local: copy_candidate(l),
                                remote: copy_candidate(r),
                                priority,
                                state: PairState::Frozen,
                                nominated: false,
                            },
                        );
                    }
                }
                b += 1;
            }
            assert(rs.take(rs.len() as int) =~= rs);
            assert(ls.take(a + 1).drop_last() =~= ls.take(a as int));
            a += 1;
        }
        assert(ls.take(ls.len() as int) =~= ls);
        let ghost formed = pairs@;
        assert(formed.len() == pairs.len());
        let mut sorted: Vec<CandidatePair> = Vec::new();
        let mut q: usize = 0;
        proof {
            lemma_sort_desc(formed.take(0));
        }
        while pairs.len() > 0
            invariant
                formed.len() <= usize::MAX,
                q + pairs@.len() == formed.len(),
                pairs@ == formed.subrange(q as int, formed.len() as int),
                sorted@ == sort_desc(formed.take(q as int)),
            decreases pairs.len(),
        {
            let p = pairs.remove(0);
            assert(p == formed[q as int]);
            insert_pair(&mut sorted, p);
            assert(formed.take(q + 1).drop_last() =~= formed.take(q as int));
            assert(pairs@ =~= formed.subrange(q + 1, formed.len() as int));
            q += 1;
        }
        assert(formed.take(formed.len() as int) =~= formed);
        let ghost s = sorted@;
        let mut i: usize = 0;
        while i < sorted.len()
            invariant
                i <= s.len(),
                sorted@.len() == s.len(),
                forall|k: int| 0 <= k < i ==> sorted@[k] == unfreeze(s)[k],
                forall|k: int| i <= k < s.len() ==> sorted@[k] == s[k],
            decreases s.len() - i,
        {
            let mut first = true;
            let mut j: usize = 0;
            while j < i
                invariant
                    j <= i < s.len(),
                    sorted@.len() == s.len(),
                    forall|k: int| 0 <= k < i ==> sorted@[k] == unfreeze(s)[k],
                    forall|k: int| i <= k < s.len() ==> sorted@[k] == s[k],
                    first == (forall|k: int| 0 <= k < j ==> !same_foundations(#[trigger] s[k], s[i as int])),
                decreases i - j,
            {
                assert(sorted@[j as int].local == s[j as int].local && sorted@[j as int].remote == s[j as int].remote);
                if sorted[j].local.foundation == sorted[i].local.foundation
                    && sorted[j].remote.foundation == sorted[i].remote.foundation {
                    first = false;
                }
                j += 1;
            }
            if first {
                sorted[i].state = PairState::Waiting;
            }
            i += 1;
        }
        assert(sorted@ =~= unfreeze(s));
        self.candidate_pairs = sorted;
    }

    /// Start connectivity checks: select the first waiting host-to-host pair, or else the
    /// first pair, and become connected; with no pair, fail.
    pub fn start_checks(&mut self) -> (r: Result<(), IceError>)
        ensures
            match chosen_pair(old(self)@.pairs) {
                Some(i) => r is Ok && final(self)@ == (IceCoreView {
                    state: IceState::Connected,
                    selected: Some(old(self)@.pairs[i]),
                    ..old(self)@
                }),
                None => r matches Err(IceError::NoCandidates) && final(self)@ == (IceCoreView {
                    state: IceState::Failed,
                    ..old(self)@
                }),
            },
    {
        let ghost s = self.candidate_pairs@;
        let mut i: usize = 0;
        while i < self.candidate_pairs.len()
            invariant
                i <= s.len(),
                s == self.candidate_pairs@,
                *self == *old(self),
                first_host_waiting(s, 0) == first_host_waiting(s, i as int),
            decreases s.len() - i,
        {
            let p = &self.candidate_pairs[i];
            if p.state == PairState::Waiting && p.local.candidate_type == CandidateType::Host
                && p.remote.candidate_type == CandidateType::Host {
                self.selected_pair = Some(copy_pair(p));
                self.state = IceState::Connected;
                return Ok(());
            }
            i += 1;
        }
        if self.candidate_pairs.len() > 0 {
            self.selected_pair = Some(copy_pair(&self.candidate_pairs[0]));
            self.state = IceState::Connected;
            return Ok(());
        }
        self.state = IceState::Failed;
        Err(IceError::NoCandidates)
    }

    /// Close the agent.
    pub fn close(&mut self)
        ensures
            final(self)@ == (IceCoreView { state: IceState::Closed, ..old(self)@ }),
    {
        self.state = IceState::Closed;
    }
}

/// The outcome of reading the attributes of a gathering answer from `p`: the IPv4
/// XOR-MAPPED-ADDRESS found, none, or a read past the end of the attributes (`Err`).
pub open spec fn scan_xor_v4(a: Seq<u8>, p: int) -> Result<Option<SockView>, ()>
    decreases a.len() - p,
{
    if p < 0 || a.len() - p < 4 {
        Ok(None)
    } else {
        let t = be16(a, p);
        let len = be16(a, p + 2);
        let q = p + 4;
        if t == 0x0020 && len >= 8 {
            if a.len() - q < 4 {
                Err(())
            } else if a[q + 1] == 0x01 {
                if a.len() - q < 8 {
                    Err(())
                } else {
                    Ok(
                        Some(
                            (
                                (true, seq![a[q + 4] ^ 0x21u8, a[q + 5] ^ 0x12u8, a[q + 6] ^ 0xA4u8, a[q + 7] ^ 0x42u8]),
                                (be16(a, q + 2) as u16) ^ 0x2112u16,
                            ),
                        ),
                    )
                }
            } else if a.len() - (q + 4) >= crate::ice::stun::round4(len) {
                scan_xor_v4(a, q + 4 + crate::ice::stun::round4(len))
            } else {
                Ok(None)
            }
        } else if a.len() - q >= crate::ice::stun::round4(len) {
            scan_xor_v4(a, q + crate::ice::stun::round4(len))
        } else {
            Ok(None)
        }
    }
}

/// What the answer `d` that gathering receives gives: the IPv4 XOR-MAPPED-ADDRESS of a
/// Binding Response, or the error (the transaction ID is not checked).
pub open spec fn gather_answer_decode(d: Seq<u8>) -> Result<SockView, StunErrorView> {
    if d.len() < 20 {
        Err(StunErrorView::InvalidResponse("Too short"@))
    } else if be16(d, 0) != 0x0101 {
        Err(StunErrorView::InvalidResponse("Not a response"@))
    } else if be32(d, 4) != 0x2112A442 {
        Err(StunErrorView::InvalidResponse("Bad cookie"@))
    } else {
        match scan_xor_v4(d.subrange(20, 20 + be16(d, 2) as int), 0) {
            Ok(Some(a)) => Ok(a),
            _ => Err(StunErrorView::NoMappedAddress),
        }
    }
}

/// Whether reading the answer `d` stays inside the buffer: its attributes fit the message,
/// and no XOR-MAPPED-ADDRESS is read past their end.
pub open spec fn gather_answer_readable(d: Seq<u8>) -> bool {
    d.len() >= 20 && be16(d, 0) == 0x0101 && be32(d, 4) == 0x2112A442 ==> {
        &&& 20 + be16(d, 2) <= d.len()
        &&& scan_xor_v4(d.subrange(20, 20 + be16(d, 2) as int), 0) is Ok
    }
}

/// Whether the attributes `a` from `p` on read without running past their end.
fn scan_ok(a: &[u8], p0: usize) -> (b: bool)
    requires
        p0 <= a@.len(),
    ensures
        b == (scan_xor_v4(a@, p0 as int) is Ok),
{
    let mut p = p0;
    while a.len() - p >= 4
        invariant
            p <= a@.len(),
            scan_xor_v4(a@, p0 as int) == scan_xor_v4(a@, p as int),
        decreases a.len() - p,
    {
        let t = read_u16(a, p);
        let len = read_u16(a, p + 2) as usize;
        let q = p + 4;
        let padded = (len + 3) / 4 * 4;
        assert(padded == crate::ice::stun::round4(len as nat));
        if t == 0x0020 && len >= 8 {
            if a.len() - q < 4 {
                return false;
            }
            if a[q + 1] == 0x01 {
                return a.len() - q >= 8;
            }
            if a.len() - (q + 4) >= padded {
                p = q + 4 + padded;
            } else {
                return true;
            }
        } else {
            if a.len() - q >= padded {
                p = q + padded;
            } else {
                return true;
            }
        }
    }
    true
}

/// Whether `parse_gather_answer` can read `data`: a Binding Response whose attributes lie
/// within the message and can be read without running past their end.
pub fn gather_answer_is_readable(data: &[u8]) -> (b: bool)
    ensures
        b == gather_answer_readable(data@),
{
    if data.len() < 20 || read_u16(data, 0) != 0x0101 || read_u32(data, 4) != 0x2112A442 {
        return true;
    }
    let msg_len = read_u16(data, 2) as usize;
    if data.len() - 20 < msg_len {
        return false;
    }
    let attrs = vstd::slice::slice_subrange(data, 20, 20 + msg_len);
    scan_ok(attrs, 0)
}

/// Read the answer that a gathering Binding Request receives: the IPv4 XOR-MAPPED-ADDRESS of
/// a Binding Response.
pub fn parse_gather_answer(data: &[u8]) -> (r: Result<SocketAddr, StunError>)
    requires
        gather_answer_readable(data@),
    ensures
        match gather_answer_decode(data@) {
            Ok(a) => r matches Ok(x) && sock_of(x) == a,
            Err(e) => r matches Err(x) && x@ == e,
        },
{
    if data.len() < 20 {
        return Err(StunError::InvalidResponse("Too short".to_string()));
    }
    let msg_type = read_u16(data, 0);
    if msg_type != 0x0101 {
        return Err(StunError::InvalidResponse("Not a response".to_string()));
    }
    let msg_len = read_u16(data, 2) as usize;
    let cookie = read_u32(data, 4);
    if cookie != 0x2112A442 {
        return Err(StunError::InvalidResponse("Bad cookie".to_string()));
    }
    let attrs = vstd::slice::slice_subrange(data, 20, 20 + msg_len);
    let mut p: usize = 0;
    while attrs.len() - p >= 4
        invariant
            p <= attrs@.len(),
            data@.len() >= 20,
            be16(data@, 0) == 0x0101,
            be32(data@, 4) == 0x2112A442,
            attrs@ == data@.subrange(20, 20 + be16(data@, 2) as int),
            scan_xor_v4(attrs@, 0) is Ok,
            scan_xor_v4(attrs@, 0) == scan_xor_v4(attrs@, p as int),
        decreases attrs.len() - p,
    {
        let attr_type = read_u16(attrs, p);
        let attr_len = read_u16(attrs, p + 2) as usize;
        let q = p + 4;
        let padded = (attr_len + 3) / 4 * 4;
        if attr_type == 0x0020 && attr_len >= 8 {
            let family = attrs[q + 1];
            let port = read_u16(attrs, q + 2) ^ 0x2112u16;
            if family == 0x01 {
                let ip: [u8; 4] = [attrs[q + 4] ^ 0x21u8, attrs[q + 5] ^ 0x12u8, attrs[q + 6] ^ 0xA4u8, attrs[q + 7] ^ 0x42u8];
                let r = SocketAddr { ip: IpAddr::V4(ip), port };
                assert(crate::ice::stun::ip_bytes_of(r) =~= seq![
                    attrs@[q + 4] ^ 0x21u8,
                    attrs@[q + 5] ^ 0x12u8,
                    attrs@[q + 6] ^ 0xA4u8,
                    attrs@[q + 7] ^ 0x42u8,
                ]);
                return Ok(r);
            }
            if attrs.len() - (q + 4) >= padded {
                p = q + 4 + padded;
            } else {
                p = attrs.len();
            }
        } else {
            if attrs.len() - q >= padded {
                p = q + padded;
            } else {
                p = attrs.len();
            }
        }
    }
    Err(StunError::NoMappedAddress)
}

/// ICE agent configuration.
#[derive(Debug, Clone)]
pub struct IceConfig {
    /// STUN servers to use for gathering.
    pub stun_servers: Vec<StunServer>,
    /// ICE username fragment.
    pub local_ufrag: String,
    /// ICE password.
    pub local_pwd: String,
    /// Gather timeout.
    pub gather_timeout_ms: u64,
    /// Check timeout.
    pub check_timeout_ms: u64,
}

/// Whether every character is a digit or a lower-case ASCII letter.
pub open spec fn lower_alnum(s: Seq<char>) -> bool {
    forall|i: int| 0 <= i < s.len() ==> ('0' <= #[trigger] s[i] <= '9' || 'a' <= s[i] <= 'z')
}

/// A random index below `n`, from `rand::Rng::gen_range(0..n)` on the thread generator.
#[verifier::external_body]
fn random_below(n: u8) -> (r: u8)
    requires
        n > 0,
    ensures
        r < n,
{
    rand::Rng::gen_range(&mut rand::thread_rng(), 0..n)
}

/// `len` random digits and lower-case letters.
fn random_alnum(len: usize) -> (s: String)
    ensures
        s@.len() == len,
        lower_alnum(s@),
{
    let mut v: Vec<char> = Vec::new();
    let mut i: usize = 0;
    while i < len
        invariant
            i <= len,
            v@.len() == i,
            lower_alnum(v@),
        decreases len - i,
    {
        let idx = random_below(36);
        let c: char = if idx < 10 { (48u8 + idx) as char } else { (97u8 + idx - 10) as char };
        v.push(c);
        i += 1;
    }
    crate::text::string_of(v.as_slice())
}

/// Generate a random ICE username fragment: eight digits and lower-case letters.
pub fn generate_ice_ufrag() -> (s: String)
    ensures
        s@.len() == 8,
        lower_alnum(s@),
{
    random_alnum(8)
}

/// Generate a random ICE password: twenty-four digits and lower-case letters.
pub fn generate_ice_pwd() -> (s: String)
    ensures
        s@.len() == 24,
        lower_alnum(s@),
{
    random_alnum(24)
}

impl Default for IceConfig {
    fn default() -> (c: Self)
        ensures
            c.stun_servers@.len() == 1,
            c.stun_servers@[0].addr == (SocketAddr { ip: IpAddr::V4([74, 125, 250, 129]), port: 19302 }),
            c.local_ufrag@.len() == 8,
            lower_alnum(c.local_ufrag@),
            c.local_pwd@.len() == 24,
            lower_alnum(c.local_pwd@),
            c.gather_timeout_ms == 5000,
            c.check_timeout_ms == 3000,
    {
        IceConfig {
            stun_servers: vec![StunServer::google()],
            local_ufrag: generate_ice_ufrag(),
            local_pwd: generate_ice_pwd(),
            gather_timeout_ms: 5000,
            check_timeout_ms: 3000,
        }
    }
}

} // verus!
