//! Project records, the decision taken when a project is registered, and
//! the ledger that keeps two runs of one project from overlapping.

use vstd::prelude::*;

verus! {

/// A registered project. `id` is a UUID as a 128-bit number; the two
/// times are microseconds since the Unix epoch.
#[derive(Clone, Debug, PartialEq, Eq)]
pub struct Project {
    pub id: u128,
    pub name: String,
    pub path: String,
    pub created_at: i64,
    pub updated_at: i64,
}

pub struct ProjectModel {
    pub id: u128,
    pub name: Seq<char>,
    pub path: Seq<char>,
    pub created_at: i64,
    pub updated_at: i64,
}

impl DeepView for Project {
    type V = ProjectModel;

    open spec fn deep_view(&self) -> ProjectModel {
        ProjectModel {
            id: self.id,
            name: self.name@,
            path: self.path@,
            created_at: self.created_at,
            updated_at: self.updated_at,
        }
    }
}

/// Whether a 128-bit number is a UUID of version 4 in the standard
/// variant: the version field holds 4 and the variant field starts `10`.
pub open spec fn is_random_id(id: u128) -> bool {
    id & 0x0000_0000_0000_f000_c000_0000_0000_0000 == 0x0000_0000_0000_4000_8000_0000_0000_0000
}

/// `uuid::Uuid::new_v4`, as a number: a fresh random UUID. Of its value
/// only the version and variant fields are known, which the crate sets
/// on every id it draws.
#[verifier::external_body]
fn fresh_id() -> (id: u128)
    ensures
        is_random_id(id),
{
    uuid::Uuid::new_v4().as_u128()
}

/// What to do to the store when a project is registered.
#[derive(Clone, Debug, PartialEq, Eq)]
pub enum UpsertPlan {
    /// The project is known: set its `updated_at` to now.
    Touch { id: u128 },
    /// The project is new: insert it under this id.
    Insert { id: u128, name: String, path: String },
}

pub enum UpsertPlanModel {
    Touch { id: u128 },
    Insert { id: u128, name: Seq<char>, path: Seq<char> },
}

impl DeepView for UpsertPlan {
    type V = UpsertPlanModel;

    open spec fn deep_view(&self) -> UpsertPlanModel {
        match self {
            UpsertPlan::Touch { id } => UpsertPlanModel::Touch { id: *id },
            UpsertPlan::Insert { id, name, path } => UpsertPlanModel::Insert {
                id: *id,
                name: name@,
                path: path@,
            },
        }
    }
}

/// The plan for a project that the store was asked for and that is
/// `existing` there, under the id `fresh` where it has to be inserted.
pub open spec fn upsert_plan_of(
    existing: Option<ProjectModel>,
    name: Seq<char>,
    path: Seq<char>,
    fresh: u128,
) -> UpsertPlanModel {
    match existing {
        Some(p) => UpsertPlanModel::Touch { id: p.id },
        None => UpsertPlanModel::Insert { id: fresh, name, path },
    }
}

/// Decides what to do with the answer of the store: a known project is
/// touched, a new one is inserted under the id `fresh`.
pub fn plan_upsert_with(existing: &Option<Project>, name: &str, path: &str, fresh: u128) -> (plan:
    UpsertPlan)
    ensures
        plan.deep_view() == upsert_plan_of(existing.deep_view(), name@, path@, fresh),
{
    match existing {
        Some(p) => UpsertPlan::Touch { id: p.id },
        None => UpsertPlan::Insert { id: fresh, name: name.to_owned(), path: path.to_owned() },
    }
}

/// Decides what to do with the answer of the store. A new project gets a
/// fresh random id.
pub fn plan_upsert(existing: &Option<Project>, name: &str, path: &str) -> (plan: UpsertPlan)
    ensures
        match existing.deep_view() {
            Some(p) => plan.deep_view() == (UpsertPlanModel::Touch { id: p.id }),
            None => plan.deep_view() matches UpsertPlanModel::Insert { id, name: n, path: p }
                && is_random_id(id) && n == name@ && p == path@,
        },
{
    match existing {
        Some(_) => plan_upsert_with(existing, name, path, 0),
        None => plan_upsert_with(existing, name, path, fresh_id()),
    }
}

/// The projects that have a run in flight.
pub struct RunLedger {
    active: Vec<u128>,
}

impl RunLedger {
    /// Whether a run of project `id` is in flight.
    pub closed spec fn running(&self, id: u128) -> bool {
        self.active@.contains(id)
    }

    /// A ledger with no run in flight.
    pub fn new() -> (ledger: RunLedger)
        ensures
            forall|id: u128| !ledger.running(id),
    {
        RunLedger { active: Vec::new() }
    }

    /// Whether a run of project `id` is in flight.
    pub fn is_running(&self, id: u128) -> (b: bool)
        ensures
            b == self.running(id),
    {
        let mut k: usize = 0;
        while k < self.active.len()
            invariant
                k <= self.active.len(),
                forall|j: int| 0 <= j < k ==> self.active@[j] != id,
            decreases self.active.len() - k,
        {
            if self.active[k] == id {
                return true;
            }
            k += 1;
        }
        false
    }

    /// Starts a run of project `id` unless one is in flight. Returns
    /// whether it started.
    pub fn try_begin(&mut self, id: u128) -> (started: bool)
        ensures
            started == !old(self).running(id),
            final(self).running(id),
            forall|other: u128| other != id ==> final(self).running(other) == old(self).running(other),
    {
        if self.is_running(id) {
            return false;
        }
        let ghost before = self.active@;
        self.active.push(id);
        assert(self.active@[before.len() as int] == id);
        assert forall|other: u128| other != id implies self.active@.contains(other)
            == before.contains(other) by {
            if before.contains(other) {
                let j = choose|j: int| 0 <= j < before.len() && before[j] == other;
                assert(self.active@[j] == other);
            }
        }
        true
    }

    /// Ends the run of project `id`, if there is one.
    pub fn finish(&mut self, id: u128)
        ensures
            !final(self).running(id),
            forall|other: u128| other != id ==> final(self).running(other) == old(self).running(other),
    {
        let mut kept: Vec<u128> = Vec::new();
        let mut k: usize = 0;
        while k < self.active.len()
            invariant
                k <= self.active.len(),
                !kept@.contains(id),
                forall|other: u128|
                    other != id ==> kept@.contains(other) == self.active@.take(k as int).contains(
                        other,
                    ),
            decreases self.active.len() - k,
        {
            let x: u128 = self.active[k];
            let ghost before = kept@;
            let ghost seen = self.active@.take(k as int);
            assert(self.active@.take(k + 1) =~= seen.push(x));
            if x != id {
                kept.push(x);
                assert(kept@[before.len() as int] == x);
                assert forall|other: u128| other != id implies kept@.contains(other)
                    == seen.push(x).contains(other) by {
                    if before.contains(other) {
                        let j = choose|j: int| 0 <= j < before.len() && before[j] == other;
                        assert(kept@[j] == other);
                    }
                    if seen.contains(other) {
                        let j = choose|j: int| 0 <= j < seen.len() && seen[j] == other;
                        assert(seen.push(x)[j] == other);
                    }
                    assert(seen.push(x)[seen.len() as int] == x);
                }
            } else {
                assert forall|other: u128| other != id implies kept@.contains(other)
                    == seen.push(x).contains(other) by {
                    if seen.contains(other) {
                        let j = choose|j: int| 0 <= j < seen.len() && seen[j] == other;
                        assert(seen.push(x)[j] == other);
                    }
                }
            }
            k += 1;
        }
        assert(self.active@.take(self.active.len() as int) =~= self.active@);
        self.active = kept;
    }
}

} // verus!
