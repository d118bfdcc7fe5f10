//! The deployment table and its reconciliation against the engine's live
//! container inventory.
//!
//! The table is rebuilt from plain values describing what the engine
//! reported: the container listing, a binding plan computed here, and the
//! per-binding inspect responses.  Fetching those values is I/O and happens
//! outside the library.

use vstd::prelude::*;
use vstd::string::StringExecFns;
use crate::config::Config;
use crate::engine::{InspectContainer, RunningContainer};
use crate::errors::Error;
use crate::strutil::{concat_str, is_prefix_of, str_eq};

verus! {

/// Whether a deployment's backing container is running.
#[derive(Clone, Copy, Debug, PartialEq, Eq, Structural)]
pub enum State {
    Running,
    Stopped,
}

impl Default for State {
    fn default() -> (r: Self)
        ensures
            r == State::Stopped,
    {
        State::Stopped
    }
}

/// The wire name of a state.
pub open spec fn state_str(s: State) -> Seq<char> {
    if s is Running {
        "running"@
    } else {
        "stopped"@
    }
}

impl State {
    /// The state's wire name.
    pub fn to_string(&self) -> (r: String)
        ensures
            r@ == state_str(*self),
    {
        match self {
            State::Running => String::from_str("running"),
            State::Stopped => String::from_str("stopped"),
        }
    }
}

/// One tracked deployment.  An empty `id` means no backing container
/// exists; such a deployment is `Stopped` with an empty `image`.
#[derive(Debug, Clone)]
pub struct Deployment {
    pub id: String,
    pub name: String,
    pub state: State,
    pub image: String,
    pub health: String,
}

/// The authoritative in-memory table of deployments, one entry per
/// configured deployment, in configuration order.
pub struct Manager {
    pub deployments: Vec<Deployment>,
}

/// The fully-qualified engine-level container name of a deployment.
pub open spec fn fq_of(prefix: Seq<char>, name: Seq<char>) -> Seq<char> {
    prefix + name
}

/// The container carries `target` among its engine-reported names.
pub open spec fn has_name(c: RunningContainer, target: Seq<char>) -> bool {
    exists|k: int| 0 <= k < c.names@.len() && c.names@[k]@ == target
}

/// The container carries at least one name with the configured prefix.
pub open spec fn is_prefixed(c: RunningContainer, prefix: Seq<char>) -> bool {
    exists|k: int| 0 <= k < c.names@.len() && is_prefix_of(prefix, c.names@[k]@)
}

/// The first container index at or after `j` that is not yet consumed and
/// carries `target` as a name.
pub open spec fn next_match(
    containers: Seq<RunningContainer>,
    used: Seq<bool>,
    target: Seq<char>,
    j: int,
) -> Option<int>
    decreases containers.len() - j,
{
    if j < 0 || j >= containers.len() {
        None
    } else if !used[j] && has_name(containers[j], target) {
        Some(j)
    } else {
        next_match(containers, used, target, j + 1)
    }
}

/// The binding plan for the first `i` desired deployments, together with
/// which containers it consumed: each deployment, in order, binds the first
/// unconsumed container that carries its fully-qualified name.
pub open spec fn plan_and_used(
    desired: Seq<crate::config::Deployment>,
    prefix: Seq<char>,
    containers: Seq<RunningContainer>,
    i: int,
) -> (Seq<Option<int>>, Seq<bool>)
    decreases i,
{
    if i <= 0 {
        (Seq::empty(), Seq::new(containers.len(), |k: int| false))
    } else {
        let prev = plan_and_used(desired, prefix, containers, i - 1);
        match next_match(containers, prev.1, fq_of(prefix, desired[i - 1].name@), 0) {
            Some(j) => (prev.0.push(Some(j)), prev.1.update(j, true)),
            None => (prev.0.push(None), prev.1),
        }
    }
}

/// The binding plan for a whole desired-deployment list.
pub open spec fn plan_spec(
    desired: Seq<crate::config::Deployment>,
    prefix: Seq<char>,
    containers: Seq<RunningContainer>,
) -> Seq<Option<int>> {
    plan_and_used(desired, prefix, containers, desired.len() as int).0
}

/// The health string an inspect response reports: the health section's
/// status, or `"unknown"` when the container has no health check.
pub open spec fn health_of(ins: InspectContainer) -> Seq<char> {
    match ins.state.health {
        Some(h) => h.status@,
        None => "unknown"@,
    }
}

/// The record a deployment slot must hold after a rebuild: populated from
/// its bound container and that container's inspect response, or the empty
/// shape when nothing is bound.
pub open spec fn is_record_for(
    d: Deployment,
    name: Seq<char>,
    containers: Seq<RunningContainer>,
    slot: Option<int>,
    ins: Option<InspectContainer>,
) -> bool {
    &&& d.name@ == name
    &&& match slot {
        Some(j) => {
            &&& d.id@ == containers[j].id@
            &&& d.image@ == containers[j].image@
            &&& d.state == (if containers[j].state@ == "running"@ {
                State::Running
            } else {
                State::Stopped
            })
            &&& ins is Some
            &&& d.health@ == health_of(ins->0)
        },
        None => {
            &&& d.id@ == Seq::<char>::empty()
            &&& d.image@ == Seq::<char>::empty()
            &&& d.state == State::Stopped
            &&& d.health@ == "unknown"@
        },
    }
}

/// The whole table a rebuild must produce, slot by slot.
pub open spec fn built_table(
    t: Seq<Deployment>,
    desired: Seq<crate::config::Deployment>,
    containers: Seq<RunningContainer>,
    plan: Seq<Option<int>>,
    inspections: Seq<Option<InspectContainer>>,
) -> bool {
    &&& t.len() == desired.len()
    &&& forall|i: int|
        0 <= i < t.len() ==> is_record_for(
            t[i],
            desired[i].name@,
            containers,
            plan[i],
            inspections[i],
        )
}

/// The name of each table entry, in order.
pub open spec fn names_of(t: Seq<Deployment>) -> Seq<Seq<char>> {
    t.map_values(|d: Deployment| d.name@)
}

/// The name of each configured deployment, in order.
pub open spec fn config_names(desired: Seq<crate::config::Deployment>) -> Seq<Seq<char>> {
    desired.map_values(|d: crate::config::Deployment| d.name@)
}

/// An executable plan entry, as a mathematical one.
pub open spec fn opt_index(o: Option<usize>) -> Option<int> {
    match o {
        Some(j) => Some(j as int),
        None => None,
    }
}

/// An executable plan, as a mathematical one.
pub open spec fn plan_view(p: Seq<Option<usize>>) -> Seq<Option<int>> {
    p.map_values(|o: Option<usize>| opt_index(o))
}

/// Whether the container carries `target` among its names.
fn container_has_name(c: &RunningContainer, target: &str) -> (r: bool)
    ensures
        r == has_name(*c, target@),
{
    let mut k: usize = 0;
    while k < c.names.len()
        invariant
            k <= c.names@.len(),
            forall|t: int| 0 <= t < k ==> c.names@[t]@ != target@,
        decreases c.names@.len() - k,
    {
        if str_eq(c.names[k].as_str(), target) {
            return true;
        }
        k = k + 1;
    }
    false
}

/// The first unconsumed container carrying `target` as a name, if any.
fn find_match(containers: &Vec<RunningContainer>, used: &Vec<bool>, target: &str) -> (r: Option<
    usize,
>)
    requires
        used@.len() == containers@.len(),
    ensures
        opt_index(r) == next_match(containers@, used@, target@, 0),
        r is Some ==> r->0 < containers@.len(),
{
    let mut j: usize = 0;
    while j < containers.len()
        invariant
            used@.len() == containers@.len(),
            j <= containers@.len(),
            next_match(containers@, used@, target@, 0) == next_match(
                containers@,
                used@,
                target@,
                j as int,
            ),
        decreases containers@.len() - j,
    {
        if !used[j] && container_has_name(&containers[j], target) {
            return Some(j);
        }
        j = j + 1;
    }
    None
}

impl Manager {
    /// Computes the binding plan: for each configured deployment, in order,
    /// the index of the engine container bound to it, binding each container
    /// at most once and always to the first deployment whose fully-qualified
    /// name it carries.
    pub fn plan_matches(config: &Config, containers: &Vec<RunningContainer>) -> (r: Vec<
        Option<usize>,
    >)
        ensures
            r@.len() == config.deployments@.len(),
            plan_view(r@) == plan_spec(config.deployments@, config.container_prefix@, containers@),
            forall|i: int|
                0 <= i < r@.len() ==> (r@[i] is Some ==> r@[i]->0 < containers@.len()),
    {
        let ghost desired = config.deployments@;
        let ghost prefix = config.container_prefix@;
        let n = config.deployments.len();
        let mut used: Vec<bool> = Vec::new();
        let mut f: usize = 0;
        while f < containers.len()
            invariant
                f <= containers@.len(),
                used@ =~= Seq::new(f as nat, |k: int| false),
            decreases containers@.len() - f,
        {
            used.push(false);
            f = f + 1;
        }
        let mut plan: Vec<Option<usize>> = Vec::new();
        let mut i: usize = 0;
        proof {
            assert(plan_view(plan@) =~= plan_and_used(desired, prefix, containers@, 0).0);
            assert(used@ =~= plan_and_used(desired, prefix, containers@, 0).1);
        }
        while i < n
            invariant
                n == desired.len(),
                desired == config.deployments@,
                prefix == config.container_prefix@,
                i <= n,
                plan@.len() == i,
                used@.len() == containers@.len(),
                plan_view(plan@) == plan_and_used(desired, prefix, containers@, i as int).0,
                used@ == plan_and_used(desired, prefix, containers@, i as int).1,
                forall|t: int|
                    0 <= t < plan@.len() ==> (plan@[t] is Some ==> plan@[t]->0
                        < containers@.len()),
            decreases n - i,
        {
            let target = concat_str(
                config.container_prefix.as_str(),
                config.deployments[i].name.as_str(),
            );
            proof {
                assert(target@ == fq_of(prefix, desired[i as int].name@));
            }
            let m = find_match(containers, &used, target.as_str());
            let ghost old_plan = plan@;
            let ghost old_used = used@;
            match m {
                Some(j) => {
                    let _ = used.remove(j);
                    used.insert(j, true);
                    proof {
                        assert(used@ =~= old_used.update(j as int, true));
                    }
                    plan.push(Some(j));
                },
                None => {
                    plan.push(None);
                },
            }
            proof {
                assert(plan_view(plan@) =~= plan_view(old_plan).push(opt_index(m)));
                assert(plan_view(plan@) == plan_and_used(desired, prefix, containers@, i + 1).0);
                assert(used@ == plan_and_used(desired, prefix, containers@, i + 1).1);
            }
            i = i + 1;
        }
        plan
    }

    /// Rebuilds the deployment table from what the engine reported: the
    /// container listing, the binding plan over it, and one inspect response
    /// per bound container.  Every slot without a binding becomes the empty
    /// shape: no id, no image, `Stopped`, health `"unknown"`.
    pub fn new(
        config: &Config,
        containers: &Vec<RunningContainer>,
        plan: &Vec<Option<usize>>,
        inspections: &Vec<Option<InspectContainer>>,
    ) -> (m: Manager)
        requires
            plan@.len() == config.deployments@.len(),
            inspections@.len() == plan@.len(),
            forall|i: int|
                0 <= i < plan@.len() ==> (plan@[i] is Some ==> plan@[i]->0 < containers@.len()),
            forall|i: int| 0 <= i < plan@.len() ==> (inspections@[i] is Some <==> plan@[i] is Some),
        ensures
            built_table(
                m.deployments@,
                config.deployments@,
                containers@,
                plan_view(plan@),
                inspections@,
            ),
    {
        let n = config.deployments.len();
        let mut table: Vec<Deployment> = Vec::new();
        let mut i: usize = 0;
        while i < n
            invariant
                n == config.deployments@.len(),
                plan@.len() == n,
                inspections@.len() == n,
                forall|t: int|
                    0 <= t < n ==> (plan@[t] is Some ==> plan@[t]->0 < containers@.len()),
                forall|t: int| 0 <= t < n ==> (inspections@[t] is Some <==> plan@[t] is Some),
                i <= n,
                table@.len() == i,
                forall|t: int|
                    0 <= t < i ==> is_record_for(
                        table@[t],
                        config.deployments@[t].name@,
                        containers@,
                        plan_view(plan@)[t],
                        inspections@[t],
                    ),
            decreases n - i,
        {
            let name = config.deployments[i].name.clone();
            let d = match &plan[i] {
                Some(j) => {
                    let c = &containers[*j];
                    let health = match &inspections[i] {
                        Some(ins) => match &ins.state.health {
                            Some(h) => h.status.clone(),
                            None => String::from_str("unknown"),
                        },
                        None => String::from_str("unknown"),
                    };
                    Deployment {
                        id: c.id.clone(),
                        name,
                        state: if str_eq(c.state.as_str(), "running") {
                            State::Running
                        } else {
                            State::Stopped
                        },
                        image: c.image.clone(),
                        health,
                    }
                },
                None => Deployment {
                    id: String::new(),
                    name,
                    state: State::Stopped,
                    image: String::new(),
                    health: String::from_str("unknown"),
                },
            };
            table.push(d);
            i = i + 1;
        }
        Manager { deployments: table }
    }

    /// The index of the first table entry with the given name.
    pub fn find_deployment(&self, name: &str) -> (r: Option<usize>)
        ensures
            opt_index(r) == find_index(self.deployments@, name@, 0),
            r is Some ==> r->0 < self.deployments@.len(),
    {
        let mut j: usize = 0;
        while j < self.deployments.len()
            invariant
                j <= self.deployments@.len(),
                find_index(self.deployments@, name@, 0) == find_index(
                    self.deployments@,
                    name@,
                    j as int,
                ),
            decreases self.deployments@.len() - j,
        {
            if str_eq(self.deployments[j].name.as_str(), name) {
                return Some(j);
            }
            j = j + 1;
        }
        None
    }

    /// The health-refresh pass.  Each entry with a backing container was
    /// inspected and its outcome is handed in; entries without one carry no
    /// outcome and stay as they are.  An answered inspect updates the
    /// entry's health alone; a not-found answer means the container vanished
    /// out-of-band and clears the entry back to no id, no image, `Stopped`,
    /// its health left as it was.  Any other failure is a transport or
    /// protocol failure: the whole pass aborts with it and the table keeps
    /// its last known-good value.
    pub fn update_deployments(&mut self, outcomes: &Vec<Option<Result<InspectContainer, Error>>>)
        -> (r: Result<(), Error>)
        requires
            outcomes@.len() == old(self).deployments@.len(),
        ensures
            match first_fatal(outcomes@, 0) {
                Some(f) => r is Err && r->Err_0 == outcomes@[f]->0->Err_0
                    && final(self).deployments@ == old(self).deployments@,
                None => r is Ok && health_refreshed(
                    old(self).deployments@,
                    outcomes@,
                    final(self).deployments@,
                ),
            },
    {
        let n = self.deployments.len();
        // A fatal inspect failure aborts before anything is touched.
        let mut i: usize = 0;
        while i < n
            invariant
                n == old(self).deployments@.len(),
                outcomes@.len() == n,
                self.deployments@ == old(self).deployments@,
                i <= n,
                first_fatal(outcomes@, 0) == first_fatal(outcomes@, i as int),
            decreases n - i,
        {
            match &outcomes[i] {
                Some(Err(e)) => match e {
                    Error::NotFound => {},
                    _ => {
                        return Err(*e);
                    },
                },
                _ => {},
            }
            i = i + 1;
        }
        let mut table: Vec<Deployment> = Vec::new();
        let mut i: usize = 0;
        while i < n
            invariant
                n == old(self).deployments@.len(),
                outcomes@.len() == n,
                self.deployments@ == old(self).deployments@,
                i <= n,
                table@.len() == i,
                forall|t: int|
                    0 <= t < i ==> entry_refreshed(
                        old(self).deployments@[t],
                        outcomes@[t],
                        table@[t],
                    ),
            decreases n - i,
        {
            let b = &self.deployments[i];
            let d = match &outcomes[i] {
                Some(Ok(ins)) => Deployment {
                    id: b.id.clone(),
                    name: b.name.clone(),
                    state: b.state,
                    image: b.image.clone(),
                    health: match &ins.state.health {
                        Some(h) => h.status.clone(),
                        None => String::from_str("unknown"),
                    },
                },
                Some(Err(_)) => Deployment {
                    id: String::new(),
                    name: b.name.clone(),
                    state: State::Stopped,
                    image: String::new(),
                    health: b.health.clone(),
                },
                None => Deployment {
                    id: b.id.clone(),
                    name: b.name.clone(),
                    state: b.state,
                    image: b.image.clone(),
                    health: b.health.clone(),
                },
            };
            table.push(d);
            i = i + 1;
        }
        self.deployments = table;
        Ok(())
    }

    /// The prefixed containers the plan left unconsumed: orphans, reported
    /// as a diagnostic and never acted upon.
    pub fn orphans(config: &Config, containers: &Vec<RunningContainer>, plan: &Vec<
        Option<usize>,
    >) -> (r: Vec<usize>)
        ensures
            forall|t: int|
                0 <= t < r@.len() ==> r@[t] < containers@.len() && is_orphan(
                    containers@,
                    config.container_prefix@,
                    plan_view(plan@),
                    r@[t] as int,
                ),
            forall|k: int|
                0 <= k < containers@.len() && is_orphan(
                    containers@,
                    config.container_prefix@,
                    plan_view(plan@),
                    k,
                ) ==> r@.contains(k as usize),
            forall|a: int, b: int| 0 <= a < b < r@.len() ==> r@[a] < r@[b],
    {
        let mut r: Vec<usize> = Vec::new();
        let mut j: usize = 0;
        while j < containers.len()
            invariant
                j <= containers@.len(),
                forall|t: int|
                    0 <= t < r@.len() ==> r@[t] < j && is_orphan(
                        containers@,
                        config.container_prefix@,
                        plan_view(plan@),
                        r@[t] as int,
                    ),
                forall|a: int, b: int| 0 <= a < b < r@.len() ==> r@[a] < r@[b],
                forall|k: int|
                    0 <= k < j && is_orphan(
                        containers@,
                        config.container_prefix@,
                        plan_view(plan@),
                        k,
                    ) ==> r@.contains(k as usize),
            decreases containers@.len() - j,
        {
            let prefixed = container_is_prefixed(&containers[j], config.container_prefix.as_str());
            let bound = plan_binds(plan, j);
            let ghost old_r = r@;
            if prefixed && !bound {
                r.push(j);
                proof {
                    assert(r@[r@.len() - 1] == j);
                }
            }
            proof {
                assert forall|k: int|
                    0 <= k < j + 1 && is_orphan(
                        containers@,
                        config.container_prefix@,
                        plan_view(plan@),
                        k,
                    ) implies r@.contains(k as usize) by {
                    if k < j {
                        let t = choose|t: int| 0 <= t < old_r.len() && old_r[t] == k as usize;
                        assert(r@[t] == k as usize);
                    } else {
                        assert(r@[r@.len() - 1] == k as usize);
                    }
                }
            }
            j = j + 1;
        }
        r
    }
}

/// The index of the first table entry at or after `j` with the given name.
pub open spec fn find_index(t: Seq<Deployment>, name: Seq<char>, j: int) -> Option<int>
    decreases t.len() - j,
{
    if j < 0 || j >= t.len() {
        None
    } else if t[j].name@ == name {
        Some(j)
    } else {
        find_index(t, name, j + 1)
    }
}

/// An inspect outcome the health-refresh pass cannot absorb: a failure
/// other than not-found, which must abort the whole pass.
pub open spec fn is_fatal(o: Option<Result<InspectContainer, Error>>) -> bool {
    match o {
        Some(res) => res is Err && !(res->Err_0 is NotFound),
        None => false,
    }
}

/// The first fatal inspect outcome at or after `j`, if any.
pub open spec fn first_fatal(
    outcomes: Seq<Option<Result<InspectContainer, Error>>>,
    j: int,
) -> Option<int>
    decreases outcomes.len() - j,
{
    if j < 0 || j >= outcomes.len() {
        None
    } else if is_fatal(outcomes[j]) {
        Some(j)
    } else {
        first_fatal(outcomes, j + 1)
    }
}

/// How one entry changes under the health-refresh pass: no outcome (no
/// backing container, nothing inspected) leaves it untouched; an answered
/// inspect updates the health alone; a not-found answer clears the entry,
/// its health keeping its last value until the authoritative rebuild.
pub open spec fn entry_refreshed(
    b: Deployment,
    outcome: Option<Result<InspectContainer, Error>>,
    a: Deployment,
) -> bool {
    &&& a.name@ == b.name@
    &&& match outcome {
        Some(res) => match res {
            Ok(ins) => {
                &&& a.id@ == b.id@
                &&& a.image@ == b.image@
                &&& a.state == b.state
                &&& a.health@ == health_of(ins)
            },
            Err(_) => {
                &&& a.id@ == Seq::<char>::empty()
                &&& a.image@ == Seq::<char>::empty()
                &&& a.state == State::Stopped
                &&& a.health@ == b.health@
            },
        },
        None => a == b,
    }
}

/// How the whole table changes under the health-refresh pass.
pub open spec fn health_refreshed(
    before: Seq<Deployment>,
    outcomes: Seq<Option<Result<InspectContainer, Error>>>,
    after: Seq<Deployment>,
) -> bool {
    &&& after.len() == before.len()
    &&& forall|i: int| 0 <= i < before.len() ==> entry_refreshed(before[i], outcomes[i], after[i])
}

/// Container `j` carries the configured prefix but the plan bound it to no
/// deployment.
pub open spec fn is_orphan(
    containers: Seq<RunningContainer>,
    prefix: Seq<char>,
    plan: Seq<Option<int>>,
    j: int,
) -> bool {
    &&& is_prefixed(containers[j], prefix)
    &&& forall|k: int| 0 <= k < plan.len() ==> plan[k] != Some(j)
}

/// Characterizes `find_index`: it returns the first entry with the given
/// name, and `None` exactly when no entry carries it.
pub proof fn lemma_find_index(t: Seq<Deployment>, name: Seq<char>, j: int)
    requires
        0 <= j <= t.len(),
    ensures
        match find_index(t, name, j) {
            Some(v) => j <= v < t.len() && t[v].name@ == name && (forall|k: int|
                j <= k < v ==> t[k].name@ != name),
            None => forall|k: int| j <= k < t.len() ==> t[k].name@ != name,
        },
    decreases t.len() - j,
{
    if j < t.len() && t[j].name@ != name {
        lemma_find_index(t, name, j + 1);
    }
}

/// A rebuilt table has one entry per desired deployment, in order, under
/// the same names — whatever the engine's container inventory was.
pub proof fn lemma_build_preserves_shape(
    t: Seq<Deployment>,
    desired: Seq<crate::config::Deployment>,
    containers: Seq<RunningContainer>,
    plan: Seq<Option<int>>,
    inspections: Seq<Option<InspectContainer>>,
)
    requires
        built_table(t, desired, containers, plan, inspections),
    ensures
        t.len() == desired.len(),
        names_of(t) == config_names(desired),
{
    assert(names_of(t) =~= config_names(desired));
}

/// Both halves of a refresh keep the table's length and name sequence: the
/// health pass rewrites entries in place, and the authoritative rebuild
/// produces one entry per desired deployment under the same names.  When the
/// engine pass fails outright, the pass aborts with the table untouched
/// (`update_deployments` says so of itself, and the rebuild replaces the
/// table only once every call has answered), so the names survive in every
/// case.
pub proof fn lemma_refresh_preserves_names(
    before: Seq<Deployment>,
    outcomes: Seq<Option<Result<InspectContainer, Error>>>,
    refreshed: Seq<Deployment>,
    desired: Seq<crate::config::Deployment>,
    containers: Seq<RunningContainer>,
    plan: Seq<Option<int>>,
    inspections: Seq<Option<InspectContainer>>,
    rebuilt: Seq<Deployment>,
)
    requires
        names_of(before) == config_names(desired),
        health_refreshed(before, outcomes, refreshed),
        built_table(rebuilt, desired, containers, plan, inspections),
    ensures
        names_of(refreshed) == names_of(before),
        names_of(rebuilt) == names_of(before),
{
    assert(names_of(refreshed) =~= names_of(before));
    assert(names_of(rebuilt) =~= config_names(desired));
}

/// No unconsumed container carries the target name, so there is no match.
proof fn lemma_next_match_none(
    containers: Seq<RunningContainer>,
    used: Seq<bool>,
    target: Seq<char>,
    j: int,
)
    requires
        forall|k: int| 0 <= k < containers.len() ==> !has_name(#[trigger] containers[k], target),
    ensures
        next_match(containers, used, target, j) is None,
    decreases containers.len() - j,
{
    if 0 <= j < containers.len() {
        lemma_next_match_none(containers, used, target, j + 1);
    }
}

/// What a match means: it is in range, unconsumed, carries the target name,
/// and no unconsumed earlier container at or after `j` does.
proof fn lemma_next_match_some(
    containers: Seq<RunningContainer>,
    used: Seq<bool>,
    target: Seq<char>,
    j: int,
)
    requires
        0 <= j,
    ensures
        match next_match(containers, used, target, j) {
            Some(v) => j <= v < containers.len() && !used[v] && has_name(containers[v], target)
                && (forall|w: int|
                j <= w < v ==> used[w] || !has_name(#[trigger] containers[w], target)),
            None => forall|w: int|
                j <= w < containers.len() ==> used[w] || !has_name(#[trigger] containers[w], target),
        },
    decreases containers.len() - j,
{
    if j < containers.len() && !(!used[j] && has_name(containers[j], target)) {
        lemma_next_match_some(containers, used, target, j + 1);
    }
}

/// The plan for the first `i` deployments has length `i`, consumed exactly
/// the containers it bound, never bound one container twice, and bound each
/// deployment only to a container carrying its fully-qualified name.
proof fn lemma_plan_and_used(
    desired: Seq<crate::config::Deployment>,
    prefix: Seq<char>,
    containers: Seq<RunningContainer>,
    i: int,
)
    requires
        0 <= i <= desired.len(),
    ensures
        plan_and_used(desired, prefix, containers, i).0.len() == i,
        plan_and_used(desired, prefix, containers, i).1.len() == containers.len(),
        forall|j: int|
            0 <= j < containers.len() ==> (plan_and_used(desired, prefix, containers, i).1[j]
                <==> exists|k: int|
                0 <= k < i && plan_and_used(desired, prefix, containers, i).0[k] == Some(j)),
        forall|k: int|
            0 <= k < i ==> match #[trigger] plan_and_used(desired, prefix, containers, i).0[k] {
                Some(v) => 0 <= v < containers.len() && has_name(
                    containers[v],
                    fq_of(prefix, desired[k].name@),
                ),
                None => true,
            },
    decreases i,
{
    if i > 0 {
        lemma_plan_and_used(desired, prefix, containers, i - 1);
        let prev = plan_and_used(desired, prefix, containers, i - 1);
        let target = fq_of(prefix, desired[i - 1].name@);
        lemma_next_match_some(containers, prev.1, target, 0);
        let cur = plan_and_used(desired, prefix, containers, i);
        match next_match(containers, prev.1, target, 0) {
            Some(j) => {
                assert forall|w: int|
                    0 <= w < containers.len() implies (cur.1[w] <==> exists|k: int|
                    0 <= k < i && cur.0[k] == Some(w)) by {
                    if w == j {
                        assert(cur.0[i - 1] == Some(j));
                    } else {
                        if prev.1[w] {
                            let k = choose|k: int| 0 <= k < i - 1 && prev.0[k] == Some(w);
                            assert(cur.0[k] == Some(w));
                        }
                        if exists|k: int| 0 <= k < i && cur.0[k] == Some(w) {
                            let k = choose|k: int| 0 <= k < i && cur.0[k] == Some(w);
                            assert(k < i - 1 && prev.0[k] == Some(w));
                        }
                    }
                }
            },
            None => {
                assert forall|w: int|
                    0 <= w < containers.len() implies (cur.1[w] <==> exists|k: int|
                    0 <= k < i && cur.0[k] == Some(w)) by {
                    if prev.1[w] {
                        let k = choose|k: int| 0 <= k < i - 1 && prev.0[k] == Some(w);
                        assert(cur.0[k] == Some(w));
                    }
                    if exists|k: int| 0 <= k < i && cur.0[k] == Some(w) {
                        let k = choose|k: int| 0 <= k < i && cur.0[k] == Some(w);
                        assert(k < i - 1 && prev.0[k] == Some(w));
                    }
                }
            },
        }
    }
}

/// A deployment whose fully-qualified name no engine container carries is
/// bound to nothing by the plan.
pub proof fn lemma_unmatched_is_unbound(
    desired: Seq<crate::config::Deployment>,
    prefix: Seq<char>,
    containers: Seq<RunningContainer>,
    i: int,
)
    requires
        0 <= i < desired.len(),
        forall|k: int|
            0 <= k < containers.len() ==> !has_name(
                #[trigger] containers[k],
                fq_of(prefix, desired[i].name@),
            ),
    ensures
        plan_spec(desired, prefix, containers).len() == desired.len(),
        plan_spec(desired, prefix, containers)[i] is None,
{
    lemma_plan_and_used(desired, prefix, containers, desired.len() as int);
    lemma_plan_prefix_stable(desired, prefix, containers, i, desired.len() as int);
    let prev = plan_and_used(desired, prefix, containers, i);
    lemma_plan_and_used(desired, prefix, containers, i);
    lemma_next_match_none(containers, prev.1, fq_of(prefix, desired[i].name@), 0);
}

/// Later planning steps never rewrite an earlier slot.
proof fn lemma_plan_prefix_stable(
    desired: Seq<crate::config::Deployment>,
    prefix: Seq<char>,
    containers: Seq<RunningContainer>,
    i: int,
    m: int,
)
    requires
        0 <= i < m <= desired.len(),
    ensures
        plan_and_used(desired, prefix, containers, m).0[i] == plan_and_used(
            desired,
            prefix,
            containers,
            i + 1,
        ).0[i],
    decreases m,
{
    lemma_plan_and_used(desired, prefix, containers, m);
    if m > i + 1 {
        lemma_plan_and_used(desired, prefix, containers, m - 1);
        lemma_plan_prefix_stable(desired, prefix, containers, i, m - 1);
    }
}

/// A deployment with no bound container gets the empty record from a
/// rebuild: no id, no image, `Stopped`, health `"unknown"`.
pub proof fn lemma_unmatched_deployment_empty(
    t: Seq<Deployment>,
    desired: Seq<crate::config::Deployment>,
    prefix: Seq<char>,
    containers: Seq<RunningContainer>,
    inspections: Seq<Option<InspectContainer>>,
    i: int,
)
    requires
        built_table(t, desired, containers, plan_spec(desired, prefix, containers), inspections),
        0 <= i < desired.len(),
        forall|k: int|
            0 <= k < containers.len() ==> !has_name(
                #[trigger] containers[k],
                fq_of(prefix, desired[i].name@),
            ),
    ensures
        t[i].id@ == Seq::<char>::empty(),
        t[i].image@ == Seq::<char>::empty(),
        t[i].state == State::Stopped,
        t[i].health@ == "unknown"@,
{
    lemma_unmatched_is_unbound(desired, prefix, containers, i);
}

/// The plan never binds one container to two deployments: a container
/// consumed by an earlier slot is out of reach for every later one.
pub proof fn lemma_plan_injective(
    desired: Seq<crate::config::Deployment>,
    prefix: Seq<char>,
    containers: Seq<RunningContainer>,
    k1: int,
    k2: int,
)
    requires
        0 <= k1 < k2 < desired.len(),
        plan_spec(desired, prefix, containers)[k2] is Some,
    ensures
        plan_spec(desired, prefix, containers)[k1] != plan_spec(desired, prefix, containers)[k2],
{
    let n = desired.len() as int;
    let plan = plan_spec(desired, prefix, containers);
    lemma_plan_and_used(desired, prefix, containers, n);
    lemma_plan_prefix_stable(desired, prefix, containers, k1, n);
    lemma_plan_prefix_stable(desired, prefix, containers, k2, n);
    let prev = plan_and_used(desired, prefix, containers, k2);
    lemma_plan_and_used(desired, prefix, containers, k2);
    let target = fq_of(prefix, desired[k2].name@);
    lemma_next_match_some(containers, prev.1, target, 0);
    let j = plan[k2]->0;
    assert(!prev.1[j]);
    if plan[k1] == Some(j) {
        lemma_plan_prefix_stable(desired, prefix, containers, k1, k2);
        assert(prev.0[k1] == Some(j));
        assert(prev.1[j]);
    }
}

/// Two containers colliding on the same fully-qualified deployment name:
/// only the earlier of the two can be bound, and the later one is bound to
/// no deployment at all — it is an orphan.
pub proof fn lemma_duplicate_name_orphaned(
    desired: Seq<crate::config::Deployment>,
    prefix: Seq<char>,
    containers: Seq<RunningContainer>,
    i: int,
    j1: int,
    j2: int,
)
    requires
        0 <= i < desired.len(),
        0 <= j1 < j2 < containers.len(),
        has_name(containers[j1], fq_of(prefix, desired[i].name@)),
        has_name(containers[j2], fq_of(prefix, desired[i].name@)),
        forall|k: int|
            0 <= k < desired.len() && k != i ==> !has_name(
                containers[j1],
                fq_of(prefix, #[trigger] desired[k].name@),
            ),
        forall|k: int|
            0 <= k < desired.len() && k != i ==> !has_name(
                containers[j2],
                fq_of(prefix, #[trigger] desired[k].name@),
            ),
    ensures
        plan_spec(desired, prefix, containers)[i] is Some,
        plan_spec(desired, prefix, containers)[i]->0 <= j1,
        has_name(
            containers[plan_spec(desired, prefix, containers)[i]->0],
            fq_of(prefix, desired[i].name@),
        ),
        forall|k: int|
            0 <= k < desired.len() ==> #[trigger] plan_spec(desired, prefix, containers)[k] != Some(
                j2,
            ),
        is_orphan(containers, prefix, plan_spec(desired, prefix, containers), j2),
{
    let n = desired.len() as int;
    let plan = plan_spec(desired, prefix, containers);
    let target = fq_of(prefix, desired[i].name@);
    lemma_plan_and_used(desired, prefix, containers, n);
    // No earlier slot binds j1 or j2: each bound container carries that
    // slot's name, which j1 and j2 do not.
    assert forall|k: int| 0 <= k < n && k != i implies #[trigger] plan[k] != Some(j1) && plan[k]
        != Some(j2) by {
        lemma_plan_prefix_stable(desired, prefix, containers, k, n);
        lemma_plan_and_used(desired, prefix, containers, n);
    }
    // At slot i, j1 is unconsumed and matches, so the slot binds a container
    // no later than j1.
    lemma_plan_prefix_stable(desired, prefix, containers, i, n);
    let prev = plan_and_used(desired, prefix, containers, i);
    lemma_plan_and_used(desired, prefix, containers, i);
    assert(!prev.1[j1]) by {
        if prev.1[j1] {
            let k = choose|k: int| 0 <= k < i && prev.0[k] == Some(j1);
            lemma_plan_prefix_stable(desired, prefix, containers, k, i);
            lemma_plan_prefix_stable(desired, prefix, containers, k, n);
            assert(plan[k] == Some(j1));
        }
    }
    lemma_next_match_some(containers, prev.1, target, 0);
    assert(plan[i] is Some && plan[i]->0 <= j1);
    // j2 matches the name of no other deployment, and slot i binds an
    // earlier container, so nothing binds j2.
    assert(is_prefixed(containers[j2], prefix)) by {
        let k = choose|k: int| 0 <= k < containers[j2].names@.len() && containers[j2].names@[k]@
            == target;
        assert(target.subrange(0, prefix.len() as int) =~= prefix);
    }
}

/// Whether the container carries at least one prefixed name.
fn container_is_prefixed(c: &RunningContainer, prefix: &str) -> (r: bool)
    ensures
        r == is_prefixed(*c, prefix@),
{
    let mut k: usize = 0;
    while k < c.names.len()
        invariant
            k <= c.names@.len(),
            forall|t: int| 0 <= t < k ==> !is_prefix_of(prefix@, c.names@[t]@),
        decreases c.names@.len() - k,
    {
        if crate::strutil::has_prefix(c.names[k].as_str(), prefix) {
            return true;
        }
        k = k + 1;
    }
    false
}

/// Whether the plan binds container `j` to some deployment.
fn plan_binds(plan: &Vec<Option<usize>>, j: usize) -> (r: bool)
    ensures
        r == !(forall|k: int| 0 <= k < plan_view(plan@).len() ==> plan_view(plan@)[k] != Some(
            j as int,
        )),
{
    let mut k: usize = 0;
    while k < plan.len()
        invariant
            k <= plan@.len(),
            forall|t: int| 0 <= t < k ==> plan_view(plan@)[t] != Some(j as int),
        decreases plan@.len() - k,
    {
        match &plan[k] {
            Some(b) => {
                if *b == j {
                    proof {
                        assert(plan_view(plan@)[k as int] == Some(j as int));
                    }
                    return true;
                }
            },
            None => {},
        }
        k = k + 1;
    }
    false
}

} // verus!
