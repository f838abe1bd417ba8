//! The project registry: the catalog of projects and the platform's totals.
//!
//! The registry and the pools do not call each other. Whoever relays a pool's
//! total into a project does so through `update_project_funding`.

use vstd::prelude::*;
use crate::access::{has_proof, holds_proof, Fault};

verus! {

/// Where a project stands. Any status may follow any other.
#[derive(Clone, Copy, Debug, PartialEq, Eq, Structural)]
pub enum ProjectStatus {
    Draft,
    Active,
    Funded,
    Completed,
    Defaulted,
}

/// The platform's totals. `active_projects` and `total_investors` are kept at
/// whatever `initialize` set: no operation of the registry counts them.
#[derive(Clone, Copy, Debug, PartialEq, Eq, Structural)]
pub struct PlatformStats {
    pub total_projects: u64,
    pub total_funded: i128,
    pub active_projects: u64,
    pub total_investors: u64,
}

/// One project of the catalog.
#[derive(Debug, PartialEq, Eq)]
pub struct Project {
    pub id: u64,
    pub creator: String,
    pub title: String,
    pub description: String,
    pub funding_goal: i128,
    /// In basis points: 500 is 5%.
    pub interest_rate: u32,
    /// In seconds.
    pub loan_term: u64,
    pub github_url: String,
    pub live_url: String,
    pub scf_status: String,
    /// The identity of the project's lending pool.
    pub pool_address: String,
    pub status: ProjectStatus,
    pub created_at: u64,
    pub total_raised: i128,
}

impl Clone for Project {
    fn clone(&self) -> (copy: Self)
        ensures
            copy == *self,
    {
        Project {
            id: self.id,
            creator: self.creator.clone(),
            title: self.title.clone(),
            description: self.description.clone(),
            funding_goal: self.funding_goal,
            interest_rate: self.interest_rate,
            loan_term: self.loan_term,
            github_url: self.github_url.clone(),
            live_url: self.live_url.clone(),
            scf_status: self.scf_status.clone(),
            pool_address: self.pool_address.clone(),
            status: self.status,
            created_at: self.created_at,
            total_raised: self.total_raised,
        }
    }
}

/// No two projects of `projects` have the same id.
pub open spec fn ids_differ(projects: Seq<Project>) -> bool {
    forall|i: int, j: int|
        0 <= i < j < projects.len() ==> (#[trigger] projects[i]).id != (#[trigger] projects[j]).id
}

/// Whether `projects` holds a project with this id.
pub open spec fn has_entry(projects: Seq<Project>, id: u64) -> bool {
    exists|i: int| 0 <= i < projects.len() && (#[trigger] projects[i]).id == id
}

/// Where in `projects` the project with this id stands, if `has_entry`.
pub open spec fn entry_slot(projects: Seq<Project>, id: u64) -> int {
    choose|i: int| 0 <= i < projects.len() && (#[trigger] projects[i]).id == id
}

/// The projects with the ids 1 to `upto`, in that order, without the ids that
/// `projects` does not hold.
pub open spec fn listing(projects: Seq<Project>, upto: nat) -> Seq<Project>
    decreases upto,
{
    if upto == 0 {
        Seq::empty()
    } else {
        let before = listing(projects, (upto - 1) as nat);
        if has_entry(projects, upto as u64) {
            before.push(projects[entry_slot(projects, upto as u64)])
        } else {
            before
        }
    }
}

/// `projects` with `record` in the place of the project of the same id, or
/// behind the others where there is none.
pub open spec fn with_entry(projects: Seq<Project>, record: Project) -> Seq<Project> {
    if has_entry(projects, record.id) {
        projects.update(entry_slot(projects, record.id), record)
    } else {
        projects.push(record)
    }
}

/// The registry's whole state. `admin` is `None` until the registry is
/// initialized.
pub struct LaunchpadFactory {
    pub admin: Option<String>,
    /// The id that was given out last.
    pub project_count: u64,
    pub stats: PlatformStats,
    pub projects: Vec<Project>,
}

impl LaunchpadFactory {
    /// Every id stands for at most one project, and the platform has counted
    /// as many projects as ids were given out.
    pub open spec fn wf(&self) -> bool {
        ids_differ(self.projects@) && self.stats.total_projects == self.project_count
    }

    pub open spec fn has_project(&self, id: u64) -> bool {
        has_entry(self.projects@, id)
    }

    /// The project with this id, if `has_project`.
    pub open spec fn project(&self, id: u64) -> Project {
        self.projects@[entry_slot(self.projects@, id)]
    }

    /// A registry that was never initialized and holds no project.
    pub fn new() -> (registry: Self)
        ensures
            registry.wf(),
            registry.admin.is_none(),
            registry.project_count == 0,
            registry.projects@.len() == 0,
            registry.stats == (PlatformStats {
                total_projects: 0,
                total_funded: 0,
                active_projects: 0,
                total_investors: 0,
            }),
    {
        LaunchpadFactory {
            admin: None,
            project_count: 0,
            stats: PlatformStats {
                total_projects: 0,
                total_funded: 0,
                active_projects: 0,
                total_investors: 0,
            },
            projects: Vec::new(),
        }
    }

    fn find(&self, id: u64) -> (slot: Option<usize>)
        requires
            self.wf(),
        ensures
            slot.is_some() == self.has_project(id),
            slot.is_some() ==> slot.unwrap() == entry_slot(self.projects@, id) && slot.unwrap()
                < self.projects@.len(),
    {
        let mut i: usize = 0;
        while i < self.projects.len()
            invariant
                self.wf(),
                i <= self.projects@.len(),
                forall|k: int| 0 <= k < i ==> (#[trigger] self.projects@[k]).id != id,
            decreases self.projects@.len() - i,
        {
            if self.projects[i].id == id {
                proof {
                    let chosen = entry_slot(self.projects@, id);
                    assert(self.projects@[i as int].id == id);
                    assert(self.projects@[chosen].id == id);
                }
                return Some(i);
            }
            i += 1;
        }
        None
    }

    /// Names the admin, with the admin's own proof of intent, and sets the id
    /// counter and the totals to zero. A second call does the same again: it
    /// may name another admin, and the catalog stays as it is.
    pub fn initialize(&mut self, signers: &Vec<String>, admin: String) -> (outcome: Result<(), Fault>)
        requires
            old(self).wf(),
        ensures
            final(self).wf(),
            !holds_proof(signers@, admin) ==> outcome == Err::<(), Fault>(Fault::Unauthorized)
                && *final(self) == *old(self),
            holds_proof(signers@, admin) ==> {
                &&& outcome == Ok::<(), Fault>(())
                &&& final(self).admin == Some(admin)
                &&& final(self).project_count == 0
                &&& final(self).stats == (PlatformStats {
                    total_projects: 0,
                    total_funded: 0,
                    active_projects: 0,
                    total_investors: 0,
                })
                &&& final(self).projects == old(self).projects
            },
    {
        if !has_proof(signers, &admin) {
            return Err(Fault::Unauthorized);
        }
        self.admin = Some(admin);
        self.project_count = 0;
        self.stats = PlatformStats {
            total_projects: 0,
            total_funded: 0,
            active_projects: 0,
            total_investors: 0,
        };
        Ok(())
    }

    /// What `create_project` answers: the new id, one more than the id that
    /// was given out last.
    pub open spec fn create_outcome(&self, signers: Seq<String>, creator: String) -> Result<u64, Fault> {
        if !holds_proof(signers, creator) {
            Err(Fault::Unauthorized)
        } else if self.project_count == u64::MAX {
            Err(Fault::Overflow)
        } else if self.admin.is_none() {
            Err(Fault::NotInitialized)
        } else {
            Ok((self.project_count + 1) as u64)
        }
    }

    /// How the creation of `record` changes the registry: `self` is the
    /// registry before it, `after` the registry after it.
    pub open spec fn created(&self, after: &Self, record: Project) -> bool {
        &&& after.admin == self.admin
        &&& after.project_count == record.id
        &&& after.stats == (PlatformStats {
            total_projects: (self.stats.total_projects + 1) as u64,
            ..self.stats
        })
        &&& after.projects@ == with_entry(self.projects@, record)
    }

    /// Enters a new project, with the creator's proof of intent. The project
    /// starts as a draft created at `now`, with nothing raised.
    pub fn create_project(
        &mut self,
        signers: &Vec<String>,
        creator: String,
        title: String,
        description: String,
        funding_goal: i128,
        interest_rate: u32,
        loan_term: u64,
        github_url: String,
        live_url: String,
        scf_status: String,
        pool_address: String,
        now: u64,
    ) -> (outcome: Result<u64, Fault>)
        requires
            old(self).wf(),
        ensures
            final(self).wf(),
            outcome == old(self).create_outcome(signers@, creator),
            outcome.is_err() ==> *final(self) == *old(self),
            outcome.is_ok() ==> old(self).created(
                final(self),
                (Project {
                    id: outcome.unwrap(),
                    creator,
                    title,
                    description,
                    funding_goal,
                    interest_rate,
                    loan_term,
                    github_url,
                    live_url,
                    scf_status,
                    pool_address,
                    status: ProjectStatus::Draft,
                    created_at: now,
                    total_raised: 0,
                }),
            ),
    {
        if !has_proof(signers, &creator) {
            return Err(Fault::Unauthorized);
        }
        if self.project_count == u64::MAX {
            return Err(Fault::Overflow);
        }
        if self.admin.is_none() {
            return Err(Fault::NotInitialized);
        }
        let id: u64 = self.project_count + 1;
        let record = Project {
            id,
            creator,
            title,
            description,
            funding_goal,
            interest_rate,
            loan_term,
            github_url,
            live_url,
            scf_status,
            pool_address,
            status: ProjectStatus::Draft,
            created_at: now,
            total_raised: 0,
        };
        match self.find(id) {
            Some(slot) => {
                self.projects.set(slot, record);
            },
            None => {
                self.projects.push(record);
            },
        }
        self.project_count = id;
        self.stats = PlatformStats {
            total_projects: self.stats.total_projects + 1,
            total_funded: self.stats.total_funded,
            active_projects: self.stats.active_projects,
            total_investors: self.stats.total_investors,
        };
        Ok(id)
    }

    /// What `get_project` answers: the project with this id, if the catalog
    /// holds one.
    pub open spec fn project_outcome(&self, project_id: u64) -> Result<Option<Project>, Fault> {
        if self.admin.is_none() {
            Err(Fault::NotInitialized)
        } else if self.has_project(project_id) {
            Ok(Some(self.project(project_id)))
        } else {
            Ok(None)
        }
    }

    /// The project with this id in an initialized registry.
    pub fn get_project(&self, project_id: u64) -> (outcome: Result<Option<Project>, Fault>)
        requires
            self.wf(),
        ensures
            outcome == self.project_outcome(project_id),
    {
        if self.admin.is_none() {
            return Err(Fault::NotInitialized);
        }
        match self.find(project_id) {
            None => Ok(None),
            Some(slot) => Ok(Some(self.projects[slot].clone())),
        }
    }

    /// The projects with the ids from 1 to the id given out last, in ascending
    /// order of id. An id that the catalog does not hold is passed over.
    pub fn get_all_projects(&self) -> (outcome: Result<Vec<Project>, Fault>)
        requires
            self.wf(),
        ensures
            self.admin.is_none() ==> outcome == Err::<Vec<Project>, Fault>(Fault::NotInitialized),
            self.admin.is_some() ==> outcome.is_ok() && outcome.unwrap()@ == listing(
                self.projects@,
                self.project_count as nat,
            ),
    {
        if self.admin.is_none() {
            return Err(Fault::NotInitialized);
        }
        let mut listed: Vec<Project> = Vec::new();
        let mut id: u64 = 0;
        while id < self.project_count
            invariant
                self.wf(),
                id <= self.project_count,
                listed@ == listing(self.projects@, id as nat),
            decreases self.project_count - id,
        {
            id = id + 1;
            match self.find(id) {
                Some(slot) => {
                    listed.push(self.projects[slot].clone());
                },
                None => {},
            }
        }
        Ok(listed)
    }

    /// What `update_project_status` answers. The proof of intent has to be the
    /// admin's; the creator's does not count.
    pub open spec fn status_outcome(&self, signers: Seq<String>) -> Result<(), Fault> {
        if self.admin.is_none() {
            Err(Fault::NotInitialized)
        } else if !holds_proof(signers, self.admin.unwrap()) {
            Err(Fault::Unauthorized)
        } else {
            Ok(())
        }
    }

    /// Gives the project a new status, whatever its status was. Nothing
    /// happens where the catalog holds no project with this id.
    pub fn update_project_status(
        &mut self,
        signers: &Vec<String>,
        project_id: u64,
        status: ProjectStatus,
    ) -> (outcome: Result<(), Fault>)
        requires
            old(self).wf(),
        ensures
            final(self).wf(),
            outcome == old(self).status_outcome(signers@),
            outcome.is_err() || !old(self).has_project(project_id) ==> *final(self) == *old(self),
            outcome.is_ok() && old(self).has_project(project_id) ==> {
                &&& final(self).admin == old(self).admin
                &&& final(self).project_count == old(self).project_count
                &&& final(self).stats == old(self).stats
                &&& final(self).projects@ == old(self).projects@.update(
                    entry_slot(old(self).projects@, project_id),
                    (Project { status, ..old(self).project(project_id) }),
                )
            },
    {
        match &self.admin {
            None => {
                return Err(Fault::NotInitialized);
            },
            Some(admin) => {
                if !has_proof(signers, admin) {
                    return Err(Fault::Unauthorized);
                }
            },
        }
        match self.find(project_id) {
            None => {},
            Some(slot) => {
                let mut record = self.projects[slot].clone();
                record.status = status;
                self.projects.set(slot, record);
            },
        }
        Ok(())
    }

    /// What `update_project_funding` answers. In an initialized registry only
    /// a sum that leaves its range makes it fail, and only for a project that
    /// the catalog holds.
    pub open spec fn funding_outcome(&self, project_id: u64, amount: i128) -> Result<(), Fault> {
        if self.admin.is_none() {
            Err(Fault::NotInitialized)
        } else if !self.has_project(project_id) {
            Ok(())
        } else if self.project(project_id).total_raised + amount > i128::MAX || self.project(
            project_id,
        ).total_raised + amount < i128::MIN {
            Err(Fault::Overflow)
        } else if self.stats.total_funded + amount > i128::MAX || self.stats.total_funded + amount
            < i128::MIN {
            Err(Fault::Overflow)
        } else {
            Ok(())
        }
    }

    /// Adds `amount`, which may be negative, to what the project has raised
    /// and to the platform's funded total. Anyone may call this: no proof of
    /// intent is asked for. Nothing happens where the catalog holds no project
    /// with this id.
    pub fn update_project_funding(&mut self, project_id: u64, amount: i128) -> (outcome: Result<
        (),
        Fault,
    >)
        requires
            old(self).wf(),
        ensures
            final(self).wf(),
            outcome == old(self).funding_outcome(project_id, amount),
            outcome.is_err() || !old(self).has_project(project_id) ==> *final(self) == *old(self),
            outcome.is_ok() && old(self).has_project(project_id) ==> {
                &&& final(self).admin == old(self).admin
                &&& final(self).project_count == old(self).project_count
                &&& final(self).stats == (PlatformStats {
                    total_funded: (old(self).stats.total_funded + amount) as i128,
                    ..old(self).stats
                })
                &&& final(self).projects@ == old(self).projects@.update(
                    entry_slot(old(self).projects@, project_id),
                    (Project {
                        total_raised: (old(self).project(project_id).total_raised + amount) as i128,
                        ..old(self).project(project_id)
                    }),
                )
            },
    {
        if self.admin.is_none() {
            return Err(Fault::NotInitialized);
        }
        match self.find(project_id) {
            None => Ok(()),
            Some(slot) => {
                let mut record = self.projects[slot].clone();
                match record.total_raised.checked_add(amount) {
                    None => {
                        return Err(Fault::Overflow);
                    },
                    Some(raised) => {
                        record.total_raised = raised;
                    },
                }
                match self.stats.total_funded.checked_add(amount) {
                    None => Err(Fault::Overflow),
                    Some(funded) => {
                        self.projects.set(slot, record);
                        self.stats = PlatformStats {
                            total_projects: self.stats.total_projects,
                            total_funded: funded,
                            active_projects: self.stats.active_projects,
                            total_investors: self.stats.total_investors,
                        };
                        Ok(())
                    },
                }
            },
        }
    }

    /// The platform's totals as they stand.
    pub fn get_platform_stats(&self) -> (outcome: Result<PlatformStats, Fault>)
        ensures
            self.admin.is_none() ==> outcome == Err::<PlatformStats, Fault>(Fault::NotInitialized),
            self.admin.is_some() ==> outcome == Ok::<PlatformStats, Fault>(self.stats),
    {
        if self.admin.is_none() {
            Err(Fault::NotInitialized)
        } else {
            Ok(self.stats)
        }
    }
}

impl LaunchpadFactory {
    /// The catalog of a registry that was initialized once and has only
    /// created projects since: the ids 1 to `project_count`, each at its place.
    pub open spec fn in_sequence(&self) -> bool {
        &&& self.projects@.len() == self.project_count
        &&& forall|i: int|
            0 <= i < self.projects@.len() ==> (#[trigger] self.projects@[i]).id == i + 1
    }

    /// The next id is owed. In an initialized registry that has not given out
    /// the last id there is, a creation with the creator's proof of intent
    /// succeeds, and returns one more than the id given out last.
    pub proof fn next_id_is_owed(&self, signers: Seq<String>, creator: String)
        requires
            self.admin.is_some(),
            self.project_count < u64::MAX,
            holds_proof(signers, creator),
        ensures
            self.create_outcome(signers, creator) == Ok::<u64, Fault>(
                (self.project_count + 1) as u64,
            ),
    {
    }

    /// Ids are given out in sequence. A creation in a registry whose catalog
    /// is in sequence returns the next id, `project_count + 1`, and leaves the
    /// catalog in sequence, one project longer, with the new project last.
    /// `after` is the registry as `create_project` leaves it.
    pub proof fn creation_continues_the_sequence(&self, after: &Self, record: Project)
        requires
            self.in_sequence(),
            record.id == self.project_count + 1,
            self.created(after, record),
        ensures
            after.in_sequence(),
            after.project_count == self.project_count + 1,
            after.projects@ == self.projects@.push(record),
    {
        assert(!has_entry(self.projects@, record.id));
    }

    /// A registry whose catalog is in sequence lists every project: as many
    /// records as ids were given out, in ascending order of id.
    pub proof fn listing_is_complete(&self)
        requires
            self.in_sequence(),
        ensures
            listing(self.projects@, self.project_count as nat) == self.projects@,
            listing(self.projects@, self.project_count as nat).len() == self.project_count,
            forall|i: int|
                0 <= i < self.project_count ==> (#[trigger] listing(
                    self.projects@,
                    self.project_count as nat,
                )[i]).id == i + 1,
    {
        Self::listing_follows_the_catalog(self.projects@, self.project_count as nat);
        assert(self.projects@.take(self.project_count as int) =~= self.projects@);
    }

    proof fn listing_follows_the_catalog(projects: Seq<Project>, upto: nat)
        requires
            upto <= projects.len() <= u64::MAX,
            forall|i: int| 0 <= i < projects.len() ==> (#[trigger] projects[i]).id == i + 1,
        ensures
            listing(projects, upto) == projects.take(upto as int),
        decreases upto,
    {
        if upto == 0 {
            assert(listing(projects, upto) =~= projects.take(upto as int));
        } else {
            Self::listing_follows_the_catalog(projects, (upto - 1) as nat);
            assert(projects[upto - 1].id == upto as u64);
            assert(has_entry(projects, upto as u64));
            let slot = entry_slot(projects, upto as u64);
            assert(projects[slot].id == upto as u64);
            assert(slot == upto - 1);
            assert(listing(projects, upto) =~= projects.take(upto as int));
        }
    }
}

/// Whether `states` and `records` tell of creations in a row: the registry
/// `states[k]` became `states[k + 1]` by a creation that entered `records[k]`
/// under the next id.
pub open spec fn creations_in_a_row(states: Seq<LaunchpadFactory>, records: Seq<Project>) -> bool {
    &&& states.len() == records.len() + 1
    &&& forall|k: int|
        0 <= k < records.len() ==> (#[trigger] records[k]).id == states[k].project_count + 1
            && states[k].created(&states[k + 1], records[k])
}

/// Ids follow the order of the calls. After any number of creations in a
/// freshly initialized registry, the creation number `k` (from 0) returned
/// the id `k + 1`, and the catalog holds the created records in that order,
/// so that the listing returns all of them by ascending id.
pub proof fn ids_follow_the_calls(states: Seq<LaunchpadFactory>, records: Seq<Project>)
    requires
        creations_in_a_row(states, records),
        states[0].project_count == 0,
        states[0].projects@.len() == 0,
    ensures
        forall|k: int| 0 <= k < records.len() ==> (#[trigger] records[k]).id == k + 1,
        states.last().project_count == records.len(),
        states.last().projects@ == records,
        listing(states.last().projects@, states.last().project_count as nat) == records,
{
    creations_so_far(states, records, records.len());
    assert forall|k: int| 0 <= k < records.len() implies (#[trigger] records[k]).id == k + 1 by {
        creations_so_far(states, records, k as nat);
    }
    assert(records.take(records.len() as int) =~= records);
    states.last().listing_is_complete();
}

proof fn creations_so_far(states: Seq<LaunchpadFactory>, records: Seq<Project>, n: nat)
    requires
        creations_in_a_row(states, records),
        states[0].project_count == 0,
        states[0].projects@.len() == 0,
        n <= records.len(),
    ensures
        states[n as int].in_sequence(),
        states[n as int].project_count == n,
        states[n as int].projects@ == records.take(n as int),
    decreases n,
{
    if n == 0 {
        assert(states[0].projects@ =~= records.take(0));
    } else {
        creations_so_far(states, records, (n - 1) as nat);
        let k = n - 1;
        assert(records[k].id == states[k].project_count + 1);
        states[k].creation_continues_the_sequence(&states[k + 1], records[k]);
        assert(states[n as int].projects@ =~= records.take(n as int));
    }
}

} // verus!
