//! The admin council: a set of admins that propose administrative actions and
//! approve them until a threshold of approvals executes them.
//!
//! Every proposal gets a fresh id, so proposing the same action again makes a
//! new proposal; an executed proposal can neither be approved nor executed
//! again, and no admin approves a proposal twice.

use vstd::prelude::*;

verus! {

/// An administrative action that the council decides on.
#[derive(Clone, Copy, Debug, PartialEq, Eq)]
pub enum AdminAction {
    /// Replace the contract code by the code with this hash.
    Upgrade([u8; 32]),
}

/// A proposed action.
#[derive(Clone, Copy, Debug, PartialEq, Eq)]
pub struct Proposal {
    pub id: u64,
    pub action: AdminAction,
    pub proposer: u64,
    /// The approvals reached the threshold: the action is decided, and it is
    /// up to the contract's host to carry it out.  It is decided once only.
    pub executed: bool,
}

/// The abstract state of the council.
pub struct CouncilView {
    /// The admins, in the order they were named; empty while no council is set up.
    pub admins: Seq<u64>,
    pub threshold: u32,
    /// Proposal `id` is the `id`-th one made.
    pub proposals: Seq<Proposal>,
    /// The (proposal id, admin) pairs of the approvals given.
    pub approvals: Seq<(u64, u64)>,
}

/// The number of approvals of proposal `id` in `approvals`.
pub open spec fn approval_count(approvals: Seq<(u64, u64)>, id: u64) -> nat
    decreases approvals.len(),
{
    if approvals.len() == 0 {
        0
    } else {
        approval_count(approvals.drop_last(), id) + if approvals.last().0 == id { 1nat } else { 0nat }
    }
}

/// No element of `s` occurs twice.
pub open spec fn all_distinct(s: Seq<u64>) -> bool {
    forall|i: int, j: int| 0 <= i < j < s.len() ==> s[i] != s[j]
}

impl CouncilView {
    /// A council has been set up.
    pub open spec fn active(self) -> bool {
        self.admins.len() > 0
    }

    /// Proposal `id` exists.
    pub open spec fn has_proposal(self, id: u64) -> bool {
        1 <= id <= self.proposals.len()
    }

    /// Proposal `id`.
    pub open spec fn proposal(self, id: u64) -> Proposal {
        self.proposals[id - 1]
    }

    /// `admin` approved proposal `id`.
    pub open spec fn approved(self, id: u64, admin: u64) -> bool {
        self.approvals.contains((id, admin))
    }

    /// A council of `admins` deciding by `threshold` approvals can be set up:
    /// at least two distinct admins, and a threshold between one and their number.
    pub open spec fn valid_config(admins: Seq<u64>, threshold: u32) -> bool {
        admins.len() >= 2 && all_distinct(admins) && 1 <= threshold <= admins.len()
    }

    /// The council that `admins` form, deciding by `threshold` approvals.
    pub open spec fn formed(admins: Seq<u64>, threshold: u32) -> CouncilView {
        CouncilView { admins, threshold, proposals: Seq::empty(), approvals: Seq::empty() }
    }

    /// What `caller` proposing `action` does: on success the new proposal's id
    /// and the council after; the proposer's approval counts at once.
    pub open spec fn propose_outcome(self, caller: u64, action: AdminAction) -> Result<(u64, CouncilView), CouncilError> {
        if !self.active() {
            Err(CouncilError::NotSetUp)
        } else if !self.admins.contains(caller) {
            Err(CouncilError::NotAnAdmin)
        } else if self.proposals.len() + 1 >= u64::MAX || self.approvals.len() + 1 >= u64::MAX {
            Err(CouncilError::LimitReached)
        } else {
            let id = (self.proposals.len() + 1) as u64;
            Ok((id, CouncilView {
                proposals: self.proposals.push(Proposal { id, action, proposer: caller, executed: 1 >= self.threshold }),
                approvals: self.approvals.push((id, caller)),
                ..self
            }))
        }
    }

    /// What `caller` approving proposal `id` does: the approval counts, and
    /// the proposal is executed once its approvals reach the threshold.
    pub open spec fn approve_outcome(self, caller: u64, id: u64) -> Result<CouncilView, CouncilError> {
        if !self.active() {
            Err(CouncilError::NotSetUp)
        } else if !self.admins.contains(caller) {
            Err(CouncilError::NotAnAdmin)
        } else if !self.has_proposal(id) {
            Err(CouncilError::ProposalNotFound)
        } else if self.proposal(id).executed {
            Err(CouncilError::AlreadyExecuted)
        } else if self.approved(id, caller) {
            Err(CouncilError::AlreadyApproved)
        } else if self.approvals.len() + 1 >= u64::MAX {
            Err(CouncilError::LimitReached)
        } else {
            let approvals = self.approvals.push((id, caller));
            Ok(CouncilView {
                proposals: self.proposals.update(id - 1, Proposal {
                    executed: approval_count(approvals, id) >= self.threshold,
                    ..self.proposal(id)
                }),
                approvals,
                ..self
            })
        }
    }
}

/// Why the council refused.
#[derive(Clone, Copy, Debug, PartialEq, Eq, Structural)]
pub enum CouncilError {
    /// No council has been set up.
    NotSetUp,
    /// A council is already set up.
    AlreadySetUp,
    /// Fewer than two admins, an admin named twice, or a threshold outside
    /// one to the number of admins.
    InvalidConfig,
    /// The caller is not one of the admins.
    NotAnAdmin,
    /// No proposal has that id.
    ProposalNotFound,
    /// The proposal was executed already.
    AlreadyExecuted,
    /// The caller approved the proposal already.
    AlreadyApproved,
    /// No further proposal or approval can be numbered.
    LimitReached,
}

/// The admin council of a contract.
pub struct AdminCouncil {
    admins: Vec<u64>,
    threshold: u32,
    proposals: Vec<Proposal>,
    approvals: Vec<(u64, u64)>,
}

impl View for AdminCouncil {
    type V = CouncilView;

    closed spec fn view(&self) -> CouncilView {
        CouncilView {
            admins: self.admins@,
            threshold: self.threshold,
            proposals: self.proposals@,
            approvals: self.approvals@,
        }
    }
}

fn contains_admin(v: &Vec<u64>, a: u64) -> (found: bool)
    ensures
        found == v@.contains(a),
{
    let mut i: usize = 0;
    while i < v.len()
        invariant
            i <= v@.len(),
            forall|j: int| 0 <= j < i ==> v@[j] != a,
        decreases v@.len() - i,
    {
        if v[i] == a {
            assert(v@[i as int] == a);
            return true;
        }
        i = i + 1;
    }
    false
}

fn distinct(v: &Vec<u64>) -> (d: bool)
    ensures
        d == all_distinct(v@),
{
    let mut i: usize = 0;
    while i < v.len()
        invariant
            i <= v@.len(),
            forall|a: int, b: int| 0 <= a < b < v@.len() && a < i ==> v@[a] != v@[b],
        decreases v@.len() - i,
    {
        let mut j: usize = i + 1;
        while j < v.len()
            invariant
                i < v@.len(),
                i + 1 <= j <= v@.len(),
                forall|a: int, b: int| 0 <= a < b < v@.len() && a < i ==> v@[a] != v@[b],
                forall|b: int| i < b < j ==> v@[i as int] != v@[b],
            decreases v@.len() - j,
        {
            if v[i] == v[j] {
                return false;
            }
            j = j + 1;
        }
        i = i + 1;
    }
    true
}

/// A copy of a vector of plain values.
pub(crate) fn copy_entries<T: Copy>(v: &Vec<T>) -> (copy: Vec<T>)
    ensures
        copy@ == v@,
{
    let mut copy: Vec<T> = Vec::new();
    let mut i: usize = 0;
    while i < v.len()
        invariant
            i <= v@.len(),
            copy@ == v@.take(i as int),
        decreases v@.len() - i,
    {
        copy.push(v[i]);
        proof {
            assert(copy@ =~= v@.take(i + 1));
        }
        i = i + 1;
    }
    proof {
        assert(v@.take(v@.len() as int) =~= v@);
    }
    copy
}

fn has_approval(approvals: &Vec<(u64, u64)>, id: u64, admin: u64) -> (found: bool)
    ensures
        found == approvals@.contains((id, admin)),
{
    let mut k: usize = 0;
    while k < approvals.len()
        invariant
            k <= approvals@.len(),
            forall|j: int| 0 <= j < k ==> approvals@[j] != (id, admin),
        decreases approvals@.len() - k,
    {
        let a = approvals[k];
        if a.0 == id && a.1 == admin {
            assert(approvals@[k as int] == (id, admin));
            return true;
        }
        k = k + 1;
    }
    false
}

fn count_approvals(approvals: &Vec<(u64, u64)>, id: u64) -> (count: u64)
    requires
        approvals@.len() < u64::MAX,
    ensures
        count == approval_count(approvals@, id),
{
    let mut count: u64 = 0;
    let mut i: usize = 0;
    while i < approvals.len()
        invariant
            i <= approvals@.len(),
            approvals@.len() < u64::MAX,
            count == approval_count(approvals@.take(i as int), id),
            count <= i,
        decreases approvals@.len() - i,
    {
        proof {
            assert(approvals@.take(i + 1).drop_last() =~= approvals@.take(i as int));
        }
        if approvals[i].0 == id {
            count = count + 1;
        }
        i = i + 1;
    }
    proof {
        assert(approvals@.take(approvals@.len() as int) =~= approvals@);
    }
    count
}

impl AdminCouncil {
    /// The representation invariant: proposal `id` sits at position `id - 1`,
    /// every approval names an existing proposal and a listed admin, and a
    /// council not set up holds nothing.
    pub closed spec fn wf(&self) -> bool {
        &&& forall|i: int| 0 <= i < self.proposals@.len() ==> #[trigger] self.proposals@[i].id == i + 1
        &&& self.proposals@.len() < u64::MAX
        &&& self.approvals@.len() < u64::MAX
        &&& forall|k: int| 0 <= k < self@.approvals.len() ==> self@.has_proposal(#[trigger] self@.approvals[k].0)
        &&& !self@.active() ==> self@.proposals.len() == 0 && self@.approvals.len() == 0
        &&& self@.active() ==> CouncilView::valid_config(self@.admins, self@.threshold)
    }

    /// A council not set up yet.
    pub fn new() -> (council: Self)
        ensures
            council.wf(),
            !council@.active(),
            council@.proposals.len() == 0,
            council@.approvals.len() == 0,
    {
        AdminCouncil { admins: Vec::new(), threshold: 0, proposals: Vec::new(), approvals: Vec::new() }
    }

    /// A copy of the council.
    pub fn duplicate(&self) -> (copy: Self)
        requires
            self.wf(),
        ensures
            copy.wf(),
            copy@ == self@,
    {
        AdminCouncil {
            admins: copy_entries(&self.admins),
            threshold: self.threshold,
            proposals: copy_entries(&self.proposals),
            approvals: copy_entries(&self.approvals),
        }
    }

    /// Whether a council has been set up.
    pub fn is_active(&self) -> (active: bool)
        ensures
            active == self@.active(),
    {
        self.admins.len() > 0
    }

    /// Sets up the council of `admins`, deciding by `threshold` approvals.
    pub fn set_up(&mut self, admins: &Vec<u64>, threshold: u32) -> (result: Result<(), CouncilError>)
        requires
            old(self).wf(),
        ensures
            final(self).wf(),
            old(self)@.active() ==> result == Err::<(), CouncilError>(CouncilError::AlreadySetUp) && final(self)@ == old(self)@,
            !old(self)@.active() && !CouncilView::valid_config(admins@, threshold)
                ==> result == Err::<(), CouncilError>(CouncilError::InvalidConfig) && final(self)@ == old(self)@,
            !old(self)@.active() && CouncilView::valid_config(admins@, threshold)
                ==> result is Ok && final(self)@ == CouncilView::formed(admins@, threshold),
    {
        if self.admins.len() > 0 {
            return Err(CouncilError::AlreadySetUp);
        }
        if admins.len() < 2 || !distinct(admins) || threshold == 0 || threshold as usize > admins.len() {
            return Err(CouncilError::InvalidConfig);
        }
        let mut copy: Vec<u64> = Vec::new();
        let mut i: usize = 0;
        while i < admins.len()
            invariant
                i <= admins@.len(),
                copy@ == admins@.take(i as int),
            decreases admins@.len() - i,
        {
            copy.push(admins[i]);
            proof {
                assert(copy@ =~= admins@.take(i + 1));
            }
            i = i + 1;
        }
        proof {
            assert(admins@.take(admins@.len() as int) =~= admins@);
        }
        proof {
            assert(self.proposals@ =~= Seq::<Proposal>::empty());
            assert(self.approvals@ =~= Seq::<(u64, u64)>::empty());
        }
        self.admins = copy;
        self.threshold = threshold;
        Ok(())
    }

    /// `caller` proposes `action`; returns the new proposal's id.
    pub fn propose(&mut self, caller: u64, action: AdminAction) -> (result: Result<u64, CouncilError>)
        requires
            old(self).wf(),
        ensures
            final(self).wf(),
            match old(self)@.propose_outcome(caller, action) {
                Ok((id, next)) => result == Ok::<u64, CouncilError>(id) && final(self)@ == next,
                Err(e) => result == Err::<u64, CouncilError>(e) && final(self)@ == old(self)@,
            },
    {
        if self.admins.len() == 0 {
            return Err(CouncilError::NotSetUp);
        }
        if !contains_admin(&self.admins, caller) {
            return Err(CouncilError::NotAnAdmin);
        }
        if self.proposals.len() as u64 >= u64::MAX - 1 || self.approvals.len() as u64 >= u64::MAX - 1 {
            return Err(CouncilError::LimitReached);
        }
        let id = self.proposals.len() as u64 + 1;
        self.proposals.push(Proposal { id, action, proposer: caller, executed: 1 >= self.threshold });
        self.approvals.push((id, caller));
        proof {
            assert forall|k: int| 0 <= k < self@.approvals.len() implies self@.has_proposal(#[trigger] self@.approvals[k].0) by {
                if k < old(self)@.approvals.len() {
                    assert(self@.approvals[k] == old(self)@.approvals[k]);
                }
            }
        }
        Ok(id)
    }

    /// `caller` approves proposal `id`.
    pub fn approve(&mut self, caller: u64, id: u64) -> (result: Result<(), CouncilError>)
        requires
            old(self).wf(),
        ensures
            final(self).wf(),
            match old(self)@.approve_outcome(caller, id) {
                Ok(next) => result is Ok && final(self)@ == next,
                Err(e) => result == Err::<(), CouncilError>(e) && final(self)@ == old(self)@,
            },
    {
        if self.admins.len() == 0 {
            return Err(CouncilError::NotSetUp);
        }
        if !contains_admin(&self.admins, caller) {
            return Err(CouncilError::NotAnAdmin);
        }
        if id == 0 || id > self.proposals.len() as u64 {
            return Err(CouncilError::ProposalNotFound);
        }
        let p = self.proposals[(id - 1) as usize];
        if p.executed {
            return Err(CouncilError::AlreadyExecuted);
        }
        if has_approval(&self.approvals, id, caller) {
            return Err(CouncilError::AlreadyApproved);
        }
        if self.approvals.len() as u64 >= u64::MAX - 1 {
            return Err(CouncilError::LimitReached);
        }
        self.approvals.push((id, caller));
        let count = count_approvals(&self.approvals, id);
        let executed = count >= self.threshold as u64;
        self.proposals.set((id - 1) as usize, Proposal { executed, ..p });
        proof {
            assert forall|k: int| 0 <= k < self@.approvals.len() implies self@.has_proposal(#[trigger] self@.approvals[k].0) by {
                if k < old(self)@.approvals.len() {
                    assert(self@.approvals[k] == old(self)@.approvals[k]);
                }
            }
        }
        Ok(())
    }

    /// Proposal `id`.
    pub fn get_proposal(&self, id: u64) -> (result: Option<Proposal>)
        requires
            self.wf(),
        ensures
            self@.has_proposal(id) ==> result == Some(self@.proposal(id)),
            !self@.has_proposal(id) ==> result is None,
    {
        if id == 0 || id > self.proposals.len() as u64 {
            return None;
        }
        Some(self.proposals[(id - 1) as usize])
    }
}

/// Replay protection: every proposal gets a fresh id, so proposing the same
/// action again makes a new proposal with the next id, and the proposals made
/// before are left as they were.
pub proof fn lemma_proposals_get_fresh_ids(v: CouncilView, caller: u64, action: AdminAction)
    requires
        v.propose_outcome(caller, action) is Ok,
    ensures
        ({
            let (id, next) = v.propose_outcome(caller, action).unwrap();
            &&& !v.has_proposal(id)
            &&& next.has_proposal(id)
            &&& next.proposal(id).action == action
            &&& next.proposal(id).proposer == caller
            &&& forall|k: u64| v.has_proposal(k) ==> #[trigger] next.proposal(k) == v.proposal(k)
            &&& next.propose_outcome(caller, action) matches Ok((id2, _)) ==> id2 == id + 1
        }),
{
}

/// An executed proposal is final: no admin can approve it, so its action is
/// never carried out twice; and no admin approves a proposal twice.
pub proof fn lemma_executed_proposals_cannot_be_replayed(v: CouncilView, caller: u64, id: u64)
    requires
        v.active(),
        v.admins.contains(caller),
        v.has_proposal(id),
    ensures
        v.proposal(id).executed ==> v.approve_outcome(caller, id) == Err::<CouncilView, CouncilError>(
            CouncilError::AlreadyExecuted,
        ),
        !v.proposal(id).executed && v.approved(id, caller) ==> v.approve_outcome(caller, id) == Err::<
            CouncilView,
            CouncilError,
        >(CouncilError::AlreadyApproved),
{
}

/// With a threshold of one, a proposal is executed as soon as it is made.
pub proof fn lemma_threshold_one_executes_at_once(v: CouncilView, caller: u64, action: AdminAction)
    requires
        v.threshold == 1,
        v.propose_outcome(caller, action) is Ok,
    ensures
        ({
            let (id, next) = v.propose_outcome(caller, action).unwrap();
            next.proposal(id).executed
        }),
{
}

} // verus!
