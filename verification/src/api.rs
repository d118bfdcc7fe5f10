//! The records the daemon's network interface exchanges, and the
//! computations that fill them from the deployment table.
//!
//! The transport, routing and JSON framing live outside the library; the
//! content of every response body is decided here.

use vstd::prelude::*;
use crate::errors::Error;
use crate::manager::{find_index, state_str, Deployment, Manager};

verus! {

/// One deployment as reported to API callers.
#[derive(Debug)]
pub struct Deployments {
    pub name: String,
    pub state: String,
    pub image: String,
    pub health: String,
}

/// The record reported after a load-and-start or pull-and-start operation.
#[derive(Debug)]
pub struct LoadResult {
    pub outcome: String,
    pub state: String,
    pub health: String,
}

/// The body of a pull request: where to pull the image from.
#[derive(Debug)]
pub struct PullData {
    pub path: String,
}

/// `s` reports deployment `d`.
pub open spec fn summary_of(d: Deployment, s: Deployments) -> bool {
    &&& s.name@ == d.name@
    &&& s.state@ == state_str(d.state)
    &&& s.image@ == d.image@
    &&& s.health@ == d.health@
}

impl Deployments {
    /// The API record reporting one table entry.
    pub fn from_deployment(d: &Deployment) -> (r: Deployments)
        ensures
            summary_of(*d, r),
    {
        Deployments {
            name: d.name.clone(),
            state: d.state.to_string(),
            image: d.image.clone(),
            health: d.health.clone(),
        }
    }
}

/// The list-deployments response body: every table entry, in table order.
pub fn deployment_summaries(manager: &Manager) -> (r: Vec<Deployments>)
    ensures
        r@.len() == manager.deployments@.len(),
        forall|i: int| 0 <= i < r@.len() ==> summary_of(manager.deployments@[i], r@[i]),
{
    let n = manager.deployments.len();
    let mut r: Vec<Deployments> = Vec::new();
    let mut i: usize = 0;
    while i < n
        invariant
            n == manager.deployments@.len(),
            i <= n,
            r@.len() == i,
            forall|t: int| 0 <= t < i ==> summary_of(manager.deployments@[t], r@[t]),
        decreases n - i,
    {
        r.push(Deployments::from_deployment(&manager.deployments[i]));
        i = i + 1;
    }
    r
}

/// The get-one-deployment response body: the named entry's record, or
/// not-found when no entry carries the name.
pub fn deployment_summary(manager: &Manager, name: &str) -> (r: Result<Deployments, Error>)
    ensures
        match find_index(manager.deployments@, name@, 0) {
            Some(i) => r is Ok && summary_of(manager.deployments@[i], r->Ok_0),
            None => r is Err && r->Err_0 == Error::NotFound,
        },
{
    match manager.find_deployment(name) {
        Some(i) => Ok(Deployments::from_deployment(&manager.deployments[i])),
        None => Err(Error::NotFound),
    }
}

} // verus!
