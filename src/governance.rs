use vstd::prelude::*;

use crate::error::ContractError;
use crate::state::DaoState;

verus! {

/// A voter's choice.
#[derive(Clone, Copy, Debug, PartialEq, Eq, Structural)]
pub enum VoteOption {
    Yes,
    No,
    Abstain,
    Veto,
}

/// Where a proposal stands in its lifecycle.
#[derive(Clone, Copy, Debug, PartialEq, Eq, Structural)]
pub enum ProposalStatus {
    Active,
    Passed,
    Rejected,
    Executed,
    Expired,
}

/// One cast vote, weighted by the voter's balance when it was cast.
#[derive(Clone, Debug, PartialEq, Eq)]
pub struct VoteInfo {
    pub voter: String,
    pub vote: VoteOption,
    pub amount: u128,
}

/// A proposal with the votes cast on it, in the order they came.
#[derive(Clone, Debug, PartialEq, Eq)]
pub struct Proposal {
    pub id: u64,
    pub title: String,
    pub description: String,
    pub proposer: String,
    pub amount: u128,
    pub status: ProposalStatus,
    pub votes: Vec<VoteInfo>,
    pub created_at: u64,
    pub expires_at: u64,
}


/// The summed weight of the votes for `opt`.
pub open spec fn weight_of(votes: Seq<VoteInfo>, opt: VoteOption) -> int
    decreases votes.len(),
{
    if votes.len() == 0 {
        0
    } else {
        weight_of(votes.drop_last(), opt) + if votes.last().vote == opt {
            votes.last().amount as int
        } else {
            0
        }
    }
}

/// `Passed` when the `Yes` weight reaches the quorum and beats the `No`
/// weight; `Rejected` otherwise.
pub open spec fn tally_outcome(votes: Seq<VoteInfo>, quorum: int) -> ProposalStatus {
    let yes = weight_of(votes, VoteOption::Yes);
    let no = weight_of(votes, VoteOption::No);
    if yes >= quorum && yes > no {
        ProposalStatus::Passed
    } else {
        ProposalStatus::Rejected
    }
}

/// The index where a page starts: just past the last proposal whose id is
/// at most `start_after`; on ascending ids, the first with a greater id.
pub open spec fn page_start(s: Seq<Proposal>, start_after: Option<u64>) -> int
    decreases s.len(),
{
    match start_after {
        None => 0,
        Some(a) => if s.len() == 0 {
            0
        } else if s.last().id <= a {
            s.len() as int
        } else {
            page_start(s.drop_last(), start_after)
        },
    }
}

/// A page holds 30 proposals unless asked otherwise, and never more than 100.
pub open spec fn page_limit(limit: Option<u32>) -> int {
    match limit {
        None => 30,
        Some(l) => if l > 100 {
            100
        } else {
            l as int
        },
    }
}

/// The number of entries a page holds for the requested `limit`.
pub fn page_size(limit: Option<u32>) -> (r: usize)
    ensures
        r == page_limit(limit),
        r <= 100,
{
    match limit {
        None => 30,
        Some(l) => if l > 100 {
            100
        } else {
            l as usize
        },
    }
}

pub proof fn lemma_weight_prefix(v: Seq<VoteInfo>, n: int, opt: VoteOption)
    requires
        0 <= n <= v.len(),
    ensures
        0 <= weight_of(v.take(n), opt) <= weight_of(v, opt),
    decreases v.len(),
{
    if v.len() > 0 {
        if n == v.len() {
            assert(v.take(n) == v);
            lemma_weight_prefix(v.drop_last(), n - 1, opt);
            assert(v.drop_last().take(n - 1) == v.take(n).drop_last());
        } else {
            assert(v.drop_last().take(n) == v.take(n));
            lemma_weight_prefix(v.drop_last(), n, opt);
        }
    }
}

impl DaoState {
    pub open spec fn has_proposal(&self, id: u64) -> bool {
        exists|i: int| 0 <= i < self.proposals@.len() && #[trigger] self.proposals@[i].id == id
    }

    /// The index of the proposal `id`; ids are unique in a well-formed state.
    pub open spec fn proposal_index(&self, id: u64) -> int {
        choose|i: int| 0 <= i < self.proposals@.len() && #[trigger] self.proposals@[i].id == id
    }

    /// `new` differs from `self` in the proposals and the next id at most.
    pub open spec fn same_but_proposals(&self, new: &DaoState) -> bool {
        &&& new.token == self.token
        &&& new.ledger == self.ledger
        &&& new.governance == self.governance
        &&& new.staking == self.staking
        &&& new.paused == self.paused
        &&& new.blacklist == self.blacklist
    }

    /// `new` has the proposal at index `i` replaced by `p`, and nothing else
    /// changed.
    pub open spec fn proposal_replaced(&self, new: &DaoState, i: int, p: Proposal) -> bool {
        &&& self.same_but_proposals(new)
        &&& new.next_proposal_id == self.next_proposal_id
        &&& new.proposals@ == self.proposals@.update(i, p)
    }

    /// Why `proposer` may not create a proposal at time `now`, if it may not:
    /// no governance configured, then a balance below the threshold, then an
    /// expiry or an id that does not fit.
    pub open spec fn create_proposal_refusal(&self, proposer: Seq<char>, now: u64) -> Option<
        ContractError,
    > {
        match self.governance {
            None => Some(ContractError::NotFound),
            Some(c) => if self.ledger.balance_of(proposer) < c.proposal_threshold {
                Some(ContractError::InsufficientBalance)
            } else if now + c.voting_period > u64::MAX {
                Some(ContractError::Overflow)
            } else if self.next_proposal_id == u64::MAX {
                Some(ContractError::Overflow)
            } else {
                None
            },
        }
    }

    /// Why the proposal `id` may not be tallied at time `now`, if it may not.
    pub open spec fn tally_refusal(&self, id: u64, now: u64) -> Option<ContractError> {
        if self.governance is None || !self.has_proposal(id) {
            Some(ContractError::NotFound)
        } else {
            let p = self.proposals@[self.proposal_index(id)];
            if p.status != ProposalStatus::Active || now < p.expires_at {
                Some(ContractError::InvalidInput)
            } else if weight_of(p.votes@, VoteOption::Yes) > u128::MAX || weight_of(
                p.votes@,
                VoteOption::No,
            ) > u128::MAX {
                Some(ContractError::Overflow)
            } else {
                None
            }
        }
    }

    /// The index of the proposal `id`, if there is one.
    fn proposal_position(&self, id: u64) -> (r: Option<usize>)
        requires
            self.wf(),
        ensures
            match r {
                Some(i) => {
                    &&& self.has_proposal(id)
                    &&& i == self.proposal_index(id)
                    &&& i < self.proposals@.len()
                    &&& self.proposals@[i as int].id == id
                },
                None => !self.has_proposal(id),
            },
    {
        let mut i: usize = 0;
        while i < self.proposals.len()
            invariant
                self.wf(),
                i <= self.proposals@.len(),
                forall|k: int| 0 <= k < i ==> #[trigger] self.proposals@[k].id != id,
            decreases self.proposals@.len() - i,
        {
            if self.proposals[i].id == id {
                proof {
                    assert(self.has_proposal(id));
                    let j = self.proposal_index(id);
                    assert(0 <= j < self.proposals@.len() && self.proposals@[j].id == id);
                    if j < i {
                        assert(self.proposals@[j].id < self.proposals@[i as int].id);
                    } else if j > i {
                        assert(self.proposals@[i as int].id < self.proposals@[j].id);
                    }
                }
                return Some(i);
            }
            i += 1;
        }
        None
    }

    /// Opens a proposal by `proposer`, who must hold at least the proposal
    /// threshold. It gets the next id of the counter, starts `Active` and
    /// expires one voting period after `now`. Returns its id.
    pub fn create_proposal(
        &mut self,
        proposer: &String,
        title: String,
        description: String,
        amount: u128,
        now: u64,
    ) -> (r: Result<u64, ContractError>)
        requires
            old(self).wf(),
        ensures
            final(self).wf(),
            match old(self).create_proposal_refusal(proposer@, now) {
                Some(e) => r == Err::<u64, ContractError>(e) && *final(self) == *old(self),
                None => r is Ok,
            },
            r matches Ok(id) ==> {
                let p = final(self).proposals@.last();
                &&& id == old(self).next_proposal_id
                &&& final(self).next_proposal_id == id + 1
                &&& old(self).same_but_proposals(final(self))
                &&& final(self).proposals@.drop_last() == old(self).proposals@
                &&& final(self).proposals@.len() == old(self).proposals@.len() + 1
                &&& p.id == id
                &&& p.title == title
                &&& p.description == description
                &&& p.proposer@ == proposer@
                &&& p.amount == amount
                &&& p.status == ProposalStatus::Active
                &&& p.votes@.len() == 0
                &&& p.created_at == now
                &&& old(self).governance matches Some(c) && p.expires_at == now + c.voting_period
            },
    {
        let (threshold, period) = match &self.governance {
            None => {
                return Err(ContractError::NotFound);
            },
            Some(c) => (c.proposal_threshold, c.voting_period),
        };
        let balance = self.ledger.balance(proposer);
        if balance < threshold {
            return Err(ContractError::InsufficientBalance);
        }
        if period > u64::MAX - now {
            return Err(ContractError::Overflow);
        }
        if self.next_proposal_id == u64::MAX {
            return Err(ContractError::Overflow);
        }
        let id = self.next_proposal_id;
        let proposal = Proposal {
            id: id,
            title: title,
            description: description,
            proposer: proposer.clone(),
            amount: amount,
            status: ProposalStatus::Active,
            votes: Vec::new(),
            created_at: now,
            expires_at: now + period,
        };
        self.proposals.push(proposal);
        self.next_proposal_id = id + 1;
        proof {
            assert(self.proposals@.drop_last() == old(self).proposals@);
        }
        Ok(id)
    }

    /// Records a vote of `voter` on the proposal `id`, weighted by the
    /// voter's balance now; refused with `NotFound` when there is no such
    /// proposal. Nothing stops a second vote of the same voter.
    pub fn vote(&mut self, voter: &String, id: u64, option: VoteOption) -> (r: Result<
        (),
        ContractError,
    >)
        requires
            old(self).wf(),
        ensures
            final(self).wf(),
            r is Err <==> !old(self).has_proposal(id),
            r is Err ==> r == Err::<(), ContractError>(ContractError::NotFound) && *final(self)
                == *old(self),
            r is Ok ==> {
                let i = old(self).proposal_index(id);
                let p = old(self).proposals@[i];
                let q = final(self).proposals@[i];
                let v = q.votes@.last();
                &&& old(self).proposal_replaced(final(self), i, Proposal { votes: q.votes, ..p })
                &&& q.votes@.drop_last() == p.votes@
                &&& q.votes@.len() == p.votes@.len() + 1
                &&& v.voter@ == voter@
                &&& v.vote == option
                &&& v.amount == old(self).ledger.balance_of(voter@)
            },
    {
        let i = match self.proposal_position(id) {
            None => {
                return Err(ContractError::NotFound);
            },
            Some(i) => i,
        };
        let weight = self.ledger.balance(voter);
        let ballot = VoteInfo { voter: voter.clone(), vote: option, amount: weight };
        self.proposals[i].votes.push(ballot);
        proof {
            assert(self.proposals@[i as int].votes@.drop_last() == old(self).proposals@[i as int].votes@);
            assert(self.proposals@ == old(self).proposals@.update(i as int, Proposal { votes: self.proposals@[i as int].votes, ..old(self).proposals@[i as int] }));
        }
        Ok(())
    }

    /// Closes the voting on the proposal `id` once it has expired at time
    /// `now`: sums the weights per option and sets the proposal `Passed` or
    /// `Rejected`, which it returns.
    pub fn tally(&mut self, id: u64, now: u64) -> (r: Result<ProposalStatus, ContractError>)
        requires
            old(self).wf(),
        ensures
            final(self).wf(),
            match old(self).tally_refusal(id, now) {
                Some(e) => r == Err::<ProposalStatus, ContractError>(e) && *final(self) == *old(self),
                None => r is Ok,
            },
            r matches Ok(status) ==> {
                let i = old(self).proposal_index(id);
                let p = old(self).proposals@[i];
                &&& old(self).governance matches Some(c) && status == tally_outcome(
                    p.votes@,
                    c.quorum as int,
                )
                &&& old(self).proposal_replaced(final(self), i, Proposal { status: status, ..p })
            },
    {
        let quorum = match &self.governance {
            None => {
                return Err(ContractError::NotFound);
            },
            Some(c) => c.quorum,
        };
        let i = match self.proposal_position(id) {
            None => {
                return Err(ContractError::NotFound);
            },
            Some(i) => i,
        };
        if self.proposals[i].status != ProposalStatus::Active || now < self.proposals[i].expires_at {
            return Err(ContractError::InvalidInput);
        }
        let votes = &self.proposals[i].votes;
        let mut yes: u128 = 0;
        let mut no: u128 = 0;
        let mut k: usize = 0;
        while k < votes.len()
            invariant
                k <= votes@.len(),
                *self == *old(self),
                old(self).wf(),
                old(self).has_proposal(id),
                i == old(self).proposal_index(id),
                i < old(self).proposals@.len(),
                old(self).governance matches Some(c) && c.quorum == quorum,
                votes@ == old(self).proposals@[i as int].votes@,
                old(self).proposals@[i as int].status == ProposalStatus::Active,
                now >= old(self).proposals@[i as int].expires_at,
                yes == weight_of(votes@.take(k as int), VoteOption::Yes),
                no == weight_of(votes@.take(k as int), VoteOption::No),
            decreases votes@.len() - k,
        {
            let ghost next = votes@.take(k as int + 1);
            assert(next.drop_last() == votes@.take(k as int));
            let w = votes[k].amount;
            if votes[k].vote == VoteOption::Yes {
                if w > u128::MAX - yes {
                    proof {
                        lemma_weight_prefix(votes@, k as int + 1, VoteOption::Yes);
                    }
                    return Err(ContractError::Overflow);
                }
                yes = yes + w;
            } else if votes[k].vote == VoteOption::No {
                if w > u128::MAX - no {
                    proof {
                        lemma_weight_prefix(votes@, k as int + 1, VoteOption::No);
                    }
                    return Err(ContractError::Overflow);
                }
                no = no + w;
            }
            k += 1;
        }
        proof {
            assert(votes@.take(votes@.len() as int) == votes@);
        }
        let status = if yes >= quorum && yes > no {
            ProposalStatus::Passed
        } else {
            ProposalStatus::Rejected
        };
        self.proposals[i].status = status;
        Ok(status)
    }

    /// The proposal `id`.
    pub fn proposal(&self, id: u64) -> (r: Result<&Proposal, ContractError>)
        requires
            self.wf(),
        ensures
            r is Err <==> !self.has_proposal(id),
            r is Err ==> r == Err::<&Proposal, ContractError>(ContractError::NotFound),
            r matches Ok(p) ==> *p == self.proposals@[self.proposal_index(id)],
    {
        match self.proposal_position(id) {
            None => Err(ContractError::NotFound),
            Some(i) => Ok(&self.proposals[i]),
        }
    }

    /// The votes cast on the proposal `id`, in the order they came.
    pub fn votes(&self, id: u64) -> (r: Result<&Vec<VoteInfo>, ContractError>)
        requires
            self.wf(),
        ensures
            r is Err <==> !self.has_proposal(id),
            r is Err ==> r == Err::<&Vec<VoteInfo>, ContractError>(ContractError::NotFound),
            r matches Ok(v) ==> v@ == self.proposals@[self.proposal_index(id)].votes@,
    {
        match self.proposal_position(id) {
            None => Err(ContractError::NotFound),
            Some(i) => Ok(&self.proposals[i].votes),
        }
    }

    /// The index where the page after `start_after` starts.
    fn page_start_index(&self, start_after: Option<u64>) -> (r: usize)
        ensures
            r == page_start(self.proposals@, start_after),
            r <= self.proposals@.len(),
    {
        let ghost s = self.proposals@;
        let a = match start_after {
            None => {
                return 0;
            },
            Some(a) => a,
        };
        let mut lo: usize = self.proposals.len();
        proof {
            assert(s.take(lo as int) == s);
        }
        while lo > 0 && self.proposals[lo - 1].id > a
            invariant
                lo <= s.len(),
                s == self.proposals@,
                start_after == Some(a),
                page_start(s.take(lo as int), start_after) == page_start(s, start_after),
            decreases lo,
        {
            assert(s.take(lo as int).drop_last() == s.take(lo as int - 1));
            lo -= 1;
        }
        proof {
            if lo > 0 {
                assert(s.take(lo as int).last() == s[lo - 1]);
            }
        }
        lo
    }

    /// A page of proposals in ascending order of id: those after
    /// `start_after`, at most `limit` of them (30 by default, 100 at most).
    pub fn query_proposals(&self, start_after: Option<u64>, limit: Option<u32>) -> (r: Vec<&Proposal>)
        requires
            self.wf(),
        ensures
            ({
                let s = self.proposals@;
                let lo = page_start(s, start_after);
                let n = if page_limit(limit) < s.len() - lo {
                    page_limit(limit)
                } else {
                    s.len() - lo
                };
                &&& r@.len() == n
                &&& forall|j: int| 0 <= j < n ==> *#[trigger] r@[j] == s[lo + j]
            }),
    {
        let ghost s = self.proposals@;
        let len = self.proposals.len();
        let lo = self.page_start_index(start_after);
        let lim = page_size(limit);
        let hi: usize = if lim < len - lo {
            lo + lim
        } else {
            len
        };
        let mut page: Vec<&Proposal> = Vec::new();
        let mut k: usize = lo;
        while k < hi
            invariant
                lo <= k <= hi <= len,
                len == s.len(),
                s == self.proposals@,
                page@.len() == k - lo,
                forall|j: int| 0 <= j < k - lo ==> *#[trigger] page@[j] == s[lo + j],
            decreases hi - k,
        {
            page.push(&self.proposals[k]);
            k += 1;
        }
        page
    }
}

} // verus!
