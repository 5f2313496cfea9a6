use crate::constants::GOVERNANCE_QUORUM;
use crate::errors::Error;
use crate::identity::Identity;
use vstd::prelude::*;

verus! {

/// Total number of voters that the quorum is taken of while none is set.
pub const DEFAULT_TOTAL_VOTERS: u32 = 100;

/// A proposal put to the vote.
#[derive(Debug)]
pub struct Proposal {
    pub id: u64,
    pub creator: Identity,
    /// Reference to what is proposed; never empty.
    pub payload_ref: Vec<u8>,
    /// First moment at which a vote is taken.
    pub start_time: u64,
    /// Last moment at which a vote is taken.
    pub end_time: u64,
    pub yes_votes: u32,
    pub no_votes: u32,
    /// Whether the proposal was finalized and carried.
    pub executed: bool,
}

/// A proposal as contracts speak of it.
pub struct ProposalView {
    pub id: u64,
    pub creator: Identity,
    pub payload_ref: Seq<u8>,
    pub start_time: u64,
    pub end_time: u64,
    pub yes_votes: u32,
    pub no_votes: u32,
    pub executed: bool,
}

impl View for Proposal {
    type V = ProposalView;

    open spec fn view(&self) -> ProposalView {
        ProposalView {
            id: self.id,
            creator: self.creator,
            payload_ref: self.payload_ref@,
            start_time: self.start_time,
            end_time: self.end_time,
            yes_votes: self.yes_votes,
            no_votes: self.no_votes,
            executed: self.executed,
        }
    }
}

/// What the governance contract announces of an accepted operation.
#[derive(Clone, Debug)]
pub enum GovernanceEvent {
    /// A proposal was created, with this payload.
    ProposalCreated { proposal_id: u64, creator: Identity, payload_ref: Vec<u8> },
    /// A vote was cast.
    VoteCast { proposal_id: u64, voter: Identity, support: bool },
    /// A proposal was finalized, and carried or not.
    ProposalExecuted { proposal_id: u64, executed: bool },
}

/// An event as contracts speak of it.
pub enum GovernanceEventView {
    ProposalCreated { proposal_id: u64, creator: Identity, payload_ref: Seq<u8> },
    VoteCast { proposal_id: u64, voter: Identity, support: bool },
    ProposalExecuted { proposal_id: u64, executed: bool },
}

impl View for GovernanceEvent {
    type V = GovernanceEventView;

    open spec fn view(&self) -> GovernanceEventView {
        match self {
            GovernanceEvent::ProposalCreated { proposal_id, creator, payload_ref } => {
                GovernanceEventView::ProposalCreated {
                    proposal_id: *proposal_id,
                    creator: *creator,
                    payload_ref: payload_ref@,
                }
            },
            GovernanceEvent::VoteCast { proposal_id, voter, support } => {
                GovernanceEventView::VoteCast {
                    proposal_id: *proposal_id,
                    voter: *voter,
                    support: *support,
                }
            },
            GovernanceEvent::ProposalExecuted { proposal_id, executed } => {
                GovernanceEventView::ProposalExecuted {
                    proposal_id: *proposal_id,
                    executed: *executed,
                }
            },
        }
    }
}

/// A copy of the bytes.
pub fn copy_bytes(bytes: &Vec<u8>) -> (copy: Vec<u8>)
    ensures
        copy@ == bytes@,
{
    let n: usize = bytes.len();
    let mut copy: Vec<u8> = Vec::new();
    let mut i: usize = 0;
    while i < n
        invariant
            n == bytes@.len(),
            i <= n,
            copy@ == bytes@.take(i as int),
        decreases n - i,
    {
        copy.push(bytes[i]);
        assert(bytes@.take(i as int).push(bytes@[i as int]) =~= bytes@.take(i + 1));
        i += 1;
    }
    assert(bytes@.take(n as int) =~= bytes@);
    copy
}

/// Whether the voter's vote on the proposal is on record.
pub open spec fn on_record(votes: Seq<(u64, Identity)>, proposal_id: u64, voter: Identity) -> bool {
    exists|i: int|
        0 <= i < votes.len() && (#[trigger] votes[i]).0 == proposal_id && votes[i].1.same(voter)
}

/// Votes needed for a quorum among `total_voters`.
pub open spec fn quorum_of(total_voters: u32) -> int {
    total_voters * GOVERNANCE_QUORUM / 10000
}

/// Why a proposal with this payload and voting window cannot be created at
/// `now`, if it cannot.
pub open spec fn creation_refusal(now: u64, payload_ref: Seq<u8>, start_time: u64, end_time: u64)
    -> Option<Error> {
    if end_time <= start_time || start_time < now || payload_ref.len() == 0 {
        Some(Error::InvalidInput)
    } else {
        None
    }
}

/// The proposal as it is created.
pub open spec fn created(
    id: u64,
    creator: Identity,
    payload_ref: Seq<u8>,
    start_time: u64,
    end_time: u64,
) -> ProposalView {
    ProposalView {
        id,
        creator,
        payload_ref,
        start_time,
        end_time,
        yes_votes: 0,
        no_votes: 0,
        executed: false,
    }
}

/// The proposal with one more vote, for or against.
pub open spec fn voted_on(proposal: ProposalView, support: bool) -> ProposalView {
    ProposalView {
        id: proposal.id,
        creator: proposal.creator,
        payload_ref: proposal.payload_ref,
        start_time: proposal.start_time,
        end_time: proposal.end_time,
        yes_votes: if support {
            (proposal.yes_votes + 1) as u32
        } else {
            proposal.yes_votes
        },
        no_votes: if support {
            proposal.no_votes
        } else {
            (proposal.no_votes + 1) as u32
        },
        executed: proposal.executed,
    }
}

/// The proposal once finalized: carried if more voted for it than against.
pub open spec fn finalized(proposal: ProposalView) -> ProposalView {
    ProposalView {
        id: proposal.id,
        creator: proposal.creator,
        payload_ref: proposal.payload_ref,
        start_time: proposal.start_time,
        end_time: proposal.end_time,
        yes_votes: proposal.yes_votes,
        no_votes: proposal.no_votes,
        executed: proposal.yes_votes > proposal.no_votes,
    }
}

/// The number of voters as it is set: this can be done once, and the number
/// must not be zero.
pub fn register_voters(current: Option<u32>, total_voters: u32) -> (res: Result<u32, Error>)
    ensures
        match res {
            Ok(n) => current is None && total_voters != 0 && n == total_voters,
            Err(e) => e == Error::InvalidInput && (current is Some || total_voters == 0),
        },
{
    if current.is_some() {
        return Err(Error::InvalidInput);
    }
    if total_voters == 0 {
        return Err(Error::InvalidInput);
    }
    Ok(total_voters)
}

/// Drafts the proposal with the number `id` at `now`.
///
/// The voting window must not be empty nor start before `now`, and the
/// payload must not be empty.
pub fn draft_proposal(
    id: u64,
    now: u64,
    creator: Identity,
    payload_ref: Vec<u8>,
    start_time: u64,
    end_time: u64,
) -> (res: Result<Proposal, Error>)
    ensures
        match res {
            Ok(proposal) => creation_refusal(now, payload_ref@, start_time, end_time) is None
                && proposal@ == created(id, creator, payload_ref@, start_time, end_time),
            Err(e) => creation_refusal(now, payload_ref@, start_time, end_time) == Some(e),
        },
{
    if end_time <= start_time {
        return Err(Error::InvalidInput);
    }
    if start_time < now {
        return Err(Error::InvalidInput);
    }
    if payload_ref.len() == 0 {
        return Err(Error::InvalidInput);
    }
    Ok(
        Proposal {
            id,
            creator,
            payload_ref,
            start_time,
            end_time,
            yes_votes: 0,
            no_votes: 0,
            executed: false,
        },
    )
}

/// Why a vote on the proposal cannot be taken at `now`, if it cannot: the
/// proposal must not be executed, `now` must lie in its voting window, the
/// voter must not have voted on it, and the count must not leave its range.
pub open spec fn ballot_refusal(
    proposal: ProposalView,
    already_voted: bool,
    now: u64,
    support: bool,
) -> Option<Error> {
    if proposal.executed {
        Some(Error::ProposalAlreadyExecuted)
    } else if now < proposal.start_time || now > proposal.end_time {
        Some(Error::InvalidInput)
    } else if already_voted {
        Some(Error::AlreadyVoted)
    } else if (if support {
        proposal.yes_votes
    } else {
        proposal.no_votes
    }) == u32::MAX {
        Some(Error::InvalidInput)
    } else {
        None
    }
}

/// Takes a vote on the proposal at `now`, for it or against, and returns the
/// proposal with the vote counted. `already_voted` says whether the voter's
/// vote on it is on record.
pub fn cast_vote(proposal: &Proposal, already_voted: bool, now: u64, support: bool) -> (res:
    Result<Proposal, Error>)
    ensures
        match res {
            Ok(counted) => ballot_refusal(proposal@, already_voted, now, support) is None
                && counted@ == voted_on(proposal@, support),
            Err(e) => ballot_refusal(proposal@, already_voted, now, support) == Some(e),
        },
{
    if proposal.executed {
        return Err(Error::ProposalAlreadyExecuted);
    }
    if now < proposal.start_time || now > proposal.end_time {
        return Err(Error::InvalidInput);
    }
    if already_voted {
        return Err(Error::AlreadyVoted);
    }
    let mut yes_votes: u32 = proposal.yes_votes;
    let mut no_votes: u32 = proposal.no_votes;
    if support {
        if yes_votes == u32::MAX {
            return Err(Error::InvalidInput);
        }
        yes_votes = yes_votes + 1;
    } else {
        if no_votes == u32::MAX {
            return Err(Error::InvalidInput);
        }
        no_votes = no_votes + 1;
    }
    Ok(
        Proposal {
            id: proposal.id,
            creator: proposal.creator,
            payload_ref: copy_bytes(&proposal.payload_ref),
            start_time: proposal.start_time,
            end_time: proposal.end_time,
            yes_votes,
            no_votes,
            executed: proposal.executed,
        },
    )
}

/// Votes needed for a quorum: a fifth of the voters, or of a hundred while
/// their number is not set.
pub open spec fn quorum_among(total_voters: Option<u32>) -> int {
    quorum_of(
        match total_voters {
            Some(n) => n,
            None => DEFAULT_TOTAL_VOTERS,
        },
    )
}

/// Why the proposal cannot be finalized at `now`, if it cannot: its voting
/// window must have passed, it must not be executed, and the votes cast must
/// make a quorum.
pub open spec fn closing_refusal(proposal: ProposalView, total_voters: Option<u32>, now: u64)
    -> Option<Error> {
    if now <= proposal.end_time {
        Some(Error::InvalidInput)
    } else if proposal.executed {
        Some(Error::ProposalAlreadyExecuted)
    } else if proposal.yes_votes + proposal.no_votes < quorum_among(total_voters) {
        Some(Error::QuorumNotReached)
    } else {
        None
    }
}

/// Finalizes the proposal at `now` and returns it as finalized: executed if
/// more voted for it than against.
pub fn close_vote(proposal: &Proposal, total_voters: Option<u32>, now: u64) -> (res: Result<
    Proposal,
    Error,
>)
    ensures
        match res {
            Ok(closed) => closing_refusal(proposal@, total_voters, now) is None && closed@
                == finalized(proposal@),
            Err(e) => closing_refusal(proposal@, total_voters, now) == Some(e),
        },
{
    if now <= proposal.end_time {
        return Err(Error::InvalidInput);
    }
    if proposal.executed {
        return Err(Error::ProposalAlreadyExecuted);
    }
    let total_votes: u64 = proposal.yes_votes as u64 + proposal.no_votes as u64;
    let voters: u32 = match total_voters {
        Some(n) => n,
        None => DEFAULT_TOTAL_VOTERS,
    };
    assert(voters * GOVERNANCE_QUORUM <= u64::MAX) by (nonlinear_arith)
        requires
            voters <= u32::MAX,
            GOVERNANCE_QUORUM == 2000,
    ;
    let min_votes_needed: u64 = (voters as u64 * GOVERNANCE_QUORUM as u64) / 10000;
    if total_votes < min_votes_needed {
        return Err(Error::QuorumNotReached);
    }
    Ok(
        Proposal {
            id: proposal.id,
            creator: proposal.creator,
            payload_ref: copy_bytes(&proposal.payload_ref),
            start_time: proposal.start_time,
            end_time: proposal.end_time,
            yes_votes: proposal.yes_votes,
            no_votes: proposal.no_votes,
            executed: proposal.yes_votes > proposal.no_votes,
        },
    )
}

/// The governance contract: the number of voters, the proposals by their
/// number, the votes on record, and the events announced so far.
pub struct GovernanceContract {
    total_voters: Option<u32>,
    proposals: Vec<Proposal>,
    votes: Vec<(u64, Identity)>,
    events: Vec<GovernanceEvent>,
}

impl GovernanceContract {
    /// The number of voters, once set.
    pub closed spec fn total_voters(&self) -> Option<u32> {
        self.total_voters
    }

    /// The proposals, each at the position of its number.
    pub closed spec fn proposals(&self) -> Seq<ProposalView> {
        self.proposals@.map_values(|p: Proposal| p@)
    }

    /// The votes on record: proposal and voter, oldest first.
    pub closed spec fn votes(&self) -> Seq<(u64, Identity)> {
        self.votes@
    }

    /// The events announced so far, oldest first.
    pub closed spec fn announced(&self) -> Seq<GovernanceEventView> {
        self.events@.map_values(|e: GovernanceEvent| e@)
    }

    /// Every proposal stands at the position of its number.
    pub open spec fn wf(&self) -> bool {
        forall|i: int|
            0 <= i < self.proposals().len() ==> (#[trigger] self.proposals()[i]).id == i
    }

    /// A contract without voters, proposals, votes or events.
    pub fn new() -> (contract: GovernanceContract)
        ensures
            contract.wf(),
            contract.total_voters() is None,
            contract.proposals() == Seq::<ProposalView>::empty(),
            contract.votes() == Seq::<(u64, Identity)>::empty(),
            contract.announced() == Seq::<GovernanceEventView>::empty(),
    {
        let contract = GovernanceContract {
            total_voters: None,
            proposals: Vec::new(),
            votes: Vec::new(),
            events: Vec::new(),
        };
        assert(contract.proposals() =~= Seq::<ProposalView>::empty());
        assert(contract.announced() =~= Seq::<GovernanceEventView>::empty());
        contract
    }

    /// Sets the number of voters. This can be done once, and the number must
    /// not be zero.
    pub fn initialize(&mut self, total_voters: u32) -> (res: Result<(), Error>)
        requires
            old(self).wf(),
        ensures
            final(self).wf(),
            final(self).proposals() == old(self).proposals(),
            final(self).votes() == old(self).votes(),
            final(self).announced() == old(self).announced(),
            match res {
                Ok(()) => old(self).total_voters() is None && total_voters != 0
                    && final(self).total_voters() == Some(total_voters),
                Err(e) => e == Error::InvalidInput && (old(self).total_voters() is Some
                    || total_voters == 0) && final(self).total_voters() == old(
                    self,
                ).total_voters(),
            },
    {
        match register_voters(self.total_voters, total_voters) {
            Ok(n) => {
                self.total_voters = Some(n);
                assert(self.proposals() == old(self).proposals());
                Ok(())
            },
            Err(e) => Err(e),
        }
    }

    /// The number of voters; zero while none is set.
    pub fn get_total_voters(&self) -> (n: u32)
        ensures
            n == match self.total_voters() {
                Some(n) => n,
                None => 0u32,
            },
    {
        match self.total_voters {
            Some(n) => n,
            None => 0,
        }
    }

    /// Whether the voter's vote on the proposal is on record.
    pub fn has_voted(&self, proposal_id: u64, voter: Identity) -> (voted: bool)
        ensures
            voted == on_record(self.votes(), proposal_id, voter),
    {
        let n: usize = self.votes.len();
        let mut i: usize = 0;
        while i < n
            invariant
                n == self.votes@.len(),
                i <= n,
                forall|j: int|
                    0 <= j < i ==> !((#[trigger] self.votes@[j]).0 == proposal_id
                        && self.votes@[j].1.same(voter)),
            decreases n - i,
        {
            if self.votes[i].0 == proposal_id && self.votes[i].1.equals(&voter) {
                return true;
            }
            i += 1;
        }
        false
    }

    /// The proposal with the number `proposal_id`.
    pub fn get_proposal(&self, proposal_id: u64) -> (res: Result<Proposal, Error>)
        ensures
            match res {
                Ok(proposal) => proposal_id < self.proposals().len() && proposal@
                    == self.proposals()[proposal_id as int],
                Err(e) => e == Error::NotFound && proposal_id >= self.proposals().len(),
            },
    {
        if proposal_id >= self.proposals.len() as u64 {
            return Err(Error::NotFound);
        }
        let p: &Proposal = &self.proposals[proposal_id as usize];
        Ok(
            Proposal {
                id: p.id,
                creator: p.creator,
                payload_ref: copy_bytes(&p.payload_ref),
                start_time: p.start_time,
                end_time: p.end_time,
                yes_votes: p.yes_votes,
                no_votes: p.no_votes,
                executed: p.executed,
            },
        )
    }

    /// Creates a proposal at `now` and returns its number: the count of the
    /// proposals created before it.
    ///
    /// The voting window must not be empty nor start before `now`, and the
    /// payload must not be empty. A refused request changes nothing.
    pub fn create_proposal(
        &mut self,
        now: u64,
        creator: Identity,
        payload_ref: Vec<u8>,
        start_time: u64,
        end_time: u64,
    ) -> (res: Result<u64, Error>)
        requires
            old(self).wf(),
        ensures
            final(self).wf(),
            final(self).total_voters() == old(self).total_voters(),
            final(self).votes() == old(self).votes(),
            match res {
                Ok(id) => {
                    &&& creation_refusal(now, payload_ref@, start_time, end_time) is None
                    &&& id == old(self).proposals().len()
                    &&& final(self).proposals() == old(self).proposals().push(
                        created(id, creator, payload_ref@, start_time, end_time),
                    )
                    &&& final(self).announced() == old(self).announced().push(
                        GovernanceEventView::ProposalCreated {
                            proposal_id: id,
                            creator,
                            payload_ref: payload_ref@,
                        },
                    )
                },
                Err(e) => {
                    &&& creation_refusal(now, payload_ref@, start_time, end_time) == Some(e)
                    &&& final(self).proposals() == old(self).proposals()
                    &&& final(self).announced() == old(self).announced()
                },
            },
    {
        let proposal_id: u64 = self.proposals.len() as u64;
        let ghost payload = payload_ref@;
        let announced_payload: Vec<u8> = copy_bytes(&payload_ref);
        let proposal: Proposal = match draft_proposal(
            proposal_id,
            now,
            creator,
            payload_ref,
            start_time,
            end_time,
        ) {
            Ok(proposal) => proposal,
            Err(e) => {
                return Err(e);
            },
        };
        self.proposals.push(proposal);
        self.events.push(
            GovernanceEvent::ProposalCreated {
                proposal_id,
                creator,
                payload_ref: announced_payload,
            },
        );
        assert(self.proposals() =~= old(self).proposals().push(
            created(proposal_id, creator, payload, start_time, end_time),
        ));
        assert(self.announced() =~= old(self).announced().push(
            GovernanceEventView::ProposalCreated { proposal_id, creator, payload_ref: payload },
        ));
        Ok(proposal_id)
    }

    /// Why `voter` cannot vote on the proposal at `now`, if it cannot: the
    /// proposal must exist, and the vote must be one that can be taken on it.
    pub open spec fn vote_refusal(&self, now: u64, proposal_id: u64, voter: Identity, support: bool)
        -> Option<Error> {
        if proposal_id >= self.proposals().len() {
            Some(Error::NotFound)
        } else {
            ballot_refusal(
                self.proposals()[proposal_id as int],
                on_record(self.votes(), proposal_id, voter),
                now,
                support,
            )
        }
    }

    /// Casts the vote of `voter` on the proposal at `now`, for it or against.
    /// A refused vote changes nothing.
    pub fn vote(&mut self, now: u64, proposal_id: u64, voter: Identity, support: bool) -> (res:
        Result<(), Error>)
        requires
            old(self).wf(),
        ensures
            final(self).wf(),
            final(self).total_voters() == old(self).total_voters(),
            match res {
                Ok(()) => {
                    &&& old(self).vote_refusal(now, proposal_id, voter, support) is None
                    &&& final(self).proposals() == old(self).proposals().update(
                        proposal_id as int,
                        voted_on(old(self).proposals()[proposal_id as int], support),
                    )
                    &&& final(self).votes() == old(self).votes().push((proposal_id, voter))
                    &&& final(self).announced() == old(self).announced().push(
                        GovernanceEventView::VoteCast { proposal_id, voter, support },
                    )
                },
                Err(e) => {
                    &&& old(self).vote_refusal(now, proposal_id, voter, support) == Some(e)
                    &&& final(self).proposals() == old(self).proposals()
                    &&& final(self).votes() == old(self).votes()
                    &&& final(self).announced() == old(self).announced()
                },
            },
    {
        if proposal_id >= self.proposals.len() as u64 {
            return Err(Error::NotFound);
        }
        let at: usize = proposal_id as usize;
        let p: &Proposal = &self.proposals[at];
        assert(p@ == self.proposals()[proposal_id as int]);
        let already_voted: bool = self.has_voted(proposal_id, voter);
        let updated: Proposal = match cast_vote(p, already_voted, now, support) {
            Ok(counted) => counted,
            Err(e) => {
                return Err(e);
            },
        };
        self.proposals.set(at, updated);
        self.votes.push((proposal_id, voter));
        self.events.push(GovernanceEvent::VoteCast { proposal_id, voter, support });
        assert(self.announced() =~= old(self).announced().push(
            GovernanceEventView::VoteCast { proposal_id, voter, support },
        ));
        assert(self.proposals() =~= old(self).proposals().update(
            proposal_id as int,
            voted_on(old(self).proposals()[proposal_id as int], support),
        ));
        Ok(())
    }

    /// Why the proposal cannot be finalized at `now`, if it cannot: it must
    /// exist, and be one that can be finalized.
    pub open spec fn finalize_refusal(&self, now: u64, proposal_id: u64) -> Option<Error> {
        if proposal_id >= self.proposals().len() {
            Some(Error::NotFound)
        } else {
            closing_refusal(self.proposals()[proposal_id as int], self.total_voters(), now)
        }
    }

    /// Finalizes the proposal at `now`: it is executed if more voted for it
    /// than against. A refused request changes nothing.
    pub fn finalize(&mut self, now: u64, proposal_id: u64) -> (res: Result<(), Error>)
        requires
            old(self).wf(),
        ensures
            final(self).wf(),
            final(self).total_voters() == old(self).total_voters(),
            final(self).votes() == old(self).votes(),
            match res {
                Ok(()) => {
                    let proposal = old(self).proposals()[proposal_id as int];
                    &&& old(self).finalize_refusal(now, proposal_id) is None
                    &&& final(self).proposals() == old(self).proposals().update(
                        proposal_id as int,
                        finalized(proposal),
                    )
                    &&& final(self).announced() == old(self).announced().push(
                        GovernanceEventView::ProposalExecuted {
                            proposal_id,
                            executed: proposal.yes_votes > proposal.no_votes,
                        },
                    )
                },
                Err(e) => {
                    &&& old(self).finalize_refusal(now, proposal_id) == Some(e)
                    &&& final(self).proposals() == old(self).proposals()
                    &&& final(self).announced() == old(self).announced()
                },
            },
    {
        if proposal_id >= self.proposals.len() as u64 {
            return Err(Error::NotFound);
        }
        let at: usize = proposal_id as usize;
        let p: &Proposal = &self.proposals[at];
        assert(p@ == self.proposals()[proposal_id as int]);
        let updated: Proposal = match close_vote(p, self.total_voters, now) {
            Ok(closed) => closed,
            Err(e) => {
                return Err(e);
            },
        };
        let executed: bool = updated.executed;
        self.proposals.set(at, updated);
        self.events.push(GovernanceEvent::ProposalExecuted { proposal_id, executed });
        assert(self.announced() =~= old(self).announced().push(
            GovernanceEventView::ProposalExecuted { proposal_id, executed },
        ));
        assert(self.proposals() =~= old(self).proposals().update(
            proposal_id as int,
            finalized(old(self).proposals()[proposal_id as int]),
        ));
        Ok(())
    }

    /// The events announced so far, oldest first.
    pub fn events(&self) -> (log: &Vec<GovernanceEvent>)
        ensures
            log@.map_values(|e: GovernanceEvent| e@) == self.announced(),
    {
        &self.events
    }
}

} // verus!
