//! Lifecycle sequencing: the per-step decisions of stop, remove and
//! start-or-replace, and what they promise about the table and about the
//! engine's inventory.
//!
//! Each step that talks to the engine is split around the call: the library
//! decides what to ask, the caller performs the request, and the library
//! interprets the outcome and records the new state.

use vstd::prelude::*;
use vstd::string::StringExecFns;
use crate::api::LoadResult;
use crate::config::Config;
use crate::engine::RunningContainer;
use crate::errors::Error;
use crate::manager::{find_index, has_name, Deployment, Manager, State};
use crate::strutil::{concat3_str, concat_str, drop_leading, str_eq, strip_leading};

verus! {

/// Whether a lifecycle step's failure aborts the enclosing operation or is
/// tolerated as best-effort cleanup.
#[derive(Clone, Copy, Debug, PartialEq, Eq, Structural)]
pub enum FailurePolicy {
    Strict,
    BestEffort,
}

/// The table with entry `idx` marked stopped and everything else unchanged.
pub open spec fn stop_table(t: Seq<Deployment>, idx: int) -> Seq<Deployment> {
    t.update(
        idx,
        Deployment {
            id: t[idx].id,
            name: t[idx].name,
            state: State::Stopped,
            image: t[idx].image,
            health: t[idx].health,
        },
    )
}

/// How the table changes when entry `idx` is reset to its empty shape:
/// the name survives, the backing container and image are cleared, and the
/// health falls back to `"unknown"` — there is no container left to ask.
pub open spec fn remove_applied(before: Seq<Deployment>, idx: int, after: Seq<Deployment>) -> bool {
    &&& after.len() == before.len()
    &&& (forall|k: int| 0 <= k < before.len() && k != idx ==> after[k] == before[k])
    &&& after[idx].name@ == before[idx].name@
    &&& after[idx].id@ == Seq::<char>::empty()
    &&& after[idx].image@ == Seq::<char>::empty()
    &&& after[idx].health@ == "unknown"@
    &&& after[idx].state == State::Stopped
}

/// Records the outcome of a stop attempt on entry `idx`.  Once the attempt
/// is made the entry is marked stopped, whatever came of it — the stop is
/// best-effort intent either way; the failure itself is propagated only
/// under the strict policy.
pub fn stop(
    manager: &mut Manager,
    idx: usize,
    engine_result: &Result<(), Error>,
    policy: FailurePolicy,
) -> (r: Result<(), Error>)
    requires
        idx < old(manager).deployments@.len(),
    ensures
        final(manager).deployments@ == stop_table(old(manager).deployments@, idx as int),
        r is Err <==> (engine_result is Err && policy is Strict),
        r is Err ==> r->Err_0 == engine_result->Err_0,
{
    let d = manager.deployments.remove(idx);
    let nd = Deployment {
        id: d.id,
        name: d.name,
        state: State::Stopped,
        image: d.image,
        health: d.health,
    };
    manager.deployments.insert(idx, nd);
    proof {
        assert(manager.deployments@ =~= stop_table(old(manager).deployments@, idx as int));
    }
    match (engine_result, policy) {
        (Err(e), FailurePolicy::Strict) => Err(*e),
        _ => Ok(()),
    }
}

/// Records the outcome of a remove attempt on entry `idx`.  A failure is
/// propagated only under the strict policy; once the attempt is tolerated or
/// succeeded, the entry is reset to its empty shape, keeping the name.
pub fn remove(
    manager: &mut Manager,
    idx: usize,
    engine_result: &Result<(), Error>,
    policy: FailurePolicy,
) -> (r: Result<(), Error>)
    requires
        idx < old(manager).deployments@.len(),
    ensures
        r is Ok <==> (engine_result is Ok || policy is BestEffort),
        r is Ok ==> remove_applied(old(manager).deployments@, idx as int, final(manager).deployments@),
        r is Err ==> final(manager).deployments@ == old(manager).deployments@ && r->Err_0
            == engine_result->Err_0,
{
    match (engine_result, policy) {
        (Err(e), FailurePolicy::Strict) => Err(*e),
        _ => {
            let d = manager.deployments.remove(idx);
            let nd = Deployment {
                id: String::new(),
                name: d.name,
                state: State::Stopped,
                image: String::new(),
                health: String::from_str("unknown"),
            };
            manager.deployments.insert(idx, nd);
            proof {
                assert(forall|k: int|
                    0 <= k < old(manager).deployments@.len() && k != idx
                        ==> manager.deployments@[k] == old(manager).deployments@[k]);
            }
            Ok(())
        },
    }
}

/// Stopping an entry that is already stopped changes nothing: marking the
/// same slot stopped twice leaves exactly what one marking leaves.  Together
/// with `stop`'s contract — best-effort stops always report success — the
/// step is idempotent in lenient mode.
pub proof fn lemma_stop_idempotent(t: Seq<Deployment>, idx: int)
    requires
        0 <= idx < t.len(),
    ensures
        stop_table(stop_table(t, idx), idx) == stop_table(t, idx),
{
    assert(stop_table(stop_table(t, idx), idx) =~= stop_table(t, idx));
}

/// The index of the first configured deployment at or after `j` with the
/// given name.
pub open spec fn cfg_find_index(
    desired: Seq<crate::config::Deployment>,
    name: Seq<char>,
    j: int,
) -> Option<int>
    decreases desired.len() - j,
{
    if j < 0 || j >= desired.len() {
        None
    } else if desired[j].name@ == name {
        Some(j)
    } else {
        cfg_find_index(desired, name, j + 1)
    }
}

/// Everything a launch needs: the fully-qualified container name, the image
/// reference to run, and the configured verbatim argument list.
#[derive(Debug)]
pub struct LaunchPlan {
    pub container_name: String,
    pub image: String,
    pub args: Vec<String>,
}

/// Computes the launch invocation for a configured deployment: the
/// fully-qualified name without the prefix's leading slashes, the image
/// reference `<fully-qualified name>:latest`, and the configured arguments
/// verbatim.  A name absent from the configuration is refused before
/// anything is run.
pub fn launch_plan(config: &Config, name: &str) -> (r: Result<LaunchPlan, Error>)
    ensures
        match cfg_find_index(config.deployments@, name@, 0) {
            Some(i) => r is Ok && {
                let p = r->Ok_0;
                &&& p.container_name@ == drop_leading(config.container_prefix@, '/') + name@
                &&& p.image@ == drop_leading(config.container_prefix@, '/') + name@ + ":latest"@
                &&& match config.deployments@[i].args {
                    Some(a) => p.args@.len() == a@.len() && (forall|k: int|
                        0 <= k < a@.len() ==> #[trigger] p.args@[k]@ == a@[k]@),
                    None => p.args@.len() == 0,
                }
            },
            None => r is Err && r->Err_0 == Error::Config,
        },
{
    let n = config.deployments.len();
    let mut i: usize = 0;
    while i < n
        invariant
            n == config.deployments@.len(),
            i <= n,
            cfg_find_index(config.deployments@, name@, 0) == cfg_find_index(
                config.deployments@,
                name@,
                i as int,
            ),
        decreases n - i,
    {
        if str_eq(config.deployments[i].name.as_str(), name) {
            let base = strip_leading(config.container_prefix.as_str(), '/');
            let container_name = concat_str(base.as_str(), name);
            let image = concat3_str(base.as_str(), name, ":latest");
            let mut args: Vec<String> = Vec::new();
            match &config.deployments[i].args {
                Some(a) => {
                    let m = a.len();
                    let mut k: usize = 0;
                    while k < m
                        invariant
                            m == a@.len(),
                            k <= m,
                            args@.len() == k,
                            forall|t: int| 0 <= t < k ==> #[trigger] args@[t]@ == a@[t]@,
                        decreases m - k,
                    {
                        args.push(a[k].clone());
                        k = k + 1;
                    }
                },
                None => {},
            }
            return Ok(LaunchPlan { container_name, image, args });
        }
        i = i + 1;
    }
    Err(Error::Config)
}

/// Checks the rebuilt table after a launch: the named deployment must have
/// come up running, and the response reports its state and health.  A
/// launch whose container did not end up running is a verification failure.
pub fn verify_started(manager: &Manager, name: &str) -> (r: Result<LoadResult, Error>)
    ensures
        match find_index(manager.deployments@, name@, 0) {
            Some(i) => if manager.deployments@[i].state is Running {
                r is Ok && r->Ok_0.outcome@ == "success"@ && r->Ok_0.state@ == "running"@
                    && r->Ok_0.health@ == manager.deployments@[i].health@
            } else {
                r is Err && r->Err_0 == Error::Verification
            },
            None => r is Err && r->Err_0 == Error::NotFound,
        },
{
    match manager.find_deployment(name) {
        Some(i) => {
            let d = &manager.deployments[i];
            match d.state {
                State::Running => Ok(
                    LoadResult {
                        outcome: String::from_str("success"),
                        state: d.state.to_string(),
                        health: d.health.clone(),
                    },
                ),
                State::Stopped => Err(Error::Verification),
            }
        },
        None => Err(Error::NotFound),
    }
}

/// Characterizes `cfg_find_index`: it returns the first configured
/// deployment with the given name, and `None` exactly when none carries it.
pub proof fn lemma_cfg_find_index(desired: Seq<crate::config::Deployment>, name: Seq<char>, j: int)
    requires
        0 <= j <= desired.len(),
    ensures
        match cfg_find_index(desired, name, j) {
            Some(v) => j <= v < desired.len() && desired[v].name@ == name && (forall|k: int|
                j <= k < v ==> desired[k].name@ != name),
            None => forall|k: int| j <= k < desired.len() ==> desired[k].name@ != name,
        },
    decreases desired.len() - j,
{
    if j < desired.len() && desired[j].name@ != name {
        lemma_cfg_find_index(desired, name, j + 1);
    }
}

/// A name the configuration carries is always found in a table whose names
/// follow the configuration — so the verification lookup that ends a
/// start-or-replace of a configured deployment never comes up empty.
pub proof fn lemma_configured_name_found(
    t: Seq<Deployment>,
    desired: Seq<crate::config::Deployment>,
    name: Seq<char>,
)
    requires
        crate::manager::names_of(t) == crate::manager::config_names(desired),
        cfg_find_index(desired, name, 0) is Some,
    ensures
        find_index(t, name, 0) is Some,
{
    lemma_cfg_find_index(desired, name, 0);
    let i = cfg_find_index(desired, name, 0)->0;
    assert(crate::manager::names_of(t).len() == t.len());
    assert(crate::manager::config_names(desired).len() == desired.len());
    assert(t.len() == desired.len());
    assert(crate::manager::names_of(t)[i] == crate::manager::config_names(desired)[i]);
    assert(t[i].name@ == name);
    crate::manager::lemma_find_index(t, name, 0);
    if find_index(t, name, 0) is None {
        assert(t[i].name@ != name);
    }
}

/// How many containers in the inventory carry the given name.
pub open spec fn count_named(containers: Seq<RunningContainer>, target: Seq<char>) -> nat
    decreases containers.len(),
{
    if containers.len() == 0 {
        0
    } else {
        count_named(containers.drop_last(), target) + (if has_name(containers.last(), target) {
            1nat
        } else {
            0nat
        })
    }
}

/// The inventory with every container of the given id removed — the
/// engine's documented effect of a container-remove request.
pub open spec fn without_id(containers: Seq<RunningContainer>, id: Seq<char>) -> Seq<
    RunningContainer,
>
    decreases containers.len(),
{
    if containers.len() == 0 {
        Seq::empty()
    } else {
        let rest = without_id(containers.drop_last(), id);
        if containers.last().id@ == id {
            rest
        } else {
            rest.push(containers.last())
        }
    }
}

/// Once every container carrying the name is removed by id, none is left.
proof fn lemma_without_id_unnamed(
    containers: Seq<RunningContainer>,
    target: Seq<char>,
    id: Seq<char>,
)
    requires
        forall|j: int|
            0 <= j < containers.len() && has_name(#[trigger] containers[j], target)
                ==> containers[j].id@ == id,
    ensures
        count_named(without_id(containers, id), target) == 0,
    decreases containers.len(),
{
    if containers.len() > 0 {
        lemma_without_id_unnamed(containers.drop_last(), target, id);
        if containers.last().id@ != id {
            assert(!has_name(containers.last(), target)) by {
                assert(containers[containers.len() - 1].id@ != id);
            }
            let rest = without_id(containers.drop_last(), id);
            assert(rest.push(containers.last()).drop_last() =~= rest);
        }
    }
}

/// Start-or-replace leaves exactly one container carrying the deployment's
/// fully-qualified name.  The premises are the daemon's invariant — every
/// container carrying the name is the bound one, known by id — and the
/// engine's documented step effects: the teardown removes the containers
/// with the bound id, and the launch adds one fresh container carrying the
/// name.  Under them, the old container is gone before the new one exists,
/// so the name is never held twice.
pub proof fn lemma_start_or_replace_single_container(
    before: Seq<RunningContainer>,
    fresh: RunningContainer,
    target: Seq<char>,
    prior_id: Seq<char>,
)
    requires
        forall|j: int|
            0 <= j < before.len() && has_name(#[trigger] before[j], target) ==> before[j].id@
                == prior_id,
        has_name(fresh, target),
    ensures
        count_named(without_id(before, prior_id).push(fresh), target) == 1,
{
    lemma_without_id_unnamed(before, target, prior_id);
    let x = without_id(before, prior_id);
    assert(x.push(fresh).drop_last() =~= x);
    assert(x.push(fresh).last() == fresh);
}

} // verus!
