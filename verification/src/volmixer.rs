//! Deciding which audio sessions belong to this application, and when the
//! session labelling has to follow a new default output device.
use vstd::prelude::*;
use vstd::string::*;
use std::collections::HashMap;

use crate::text::str_eq;

verus! {

broadcast use vstd::std_specs::hash::group_hash_axioms;

/// How many parent links the ownership walk follows at most, so that a
/// corrupt or cyclic snapshot of the process table cannot hang it.
pub const MAX_WALK: u32 = 32;

/// `pid` reaches `us` within `steps` steps of the walk: each step either
/// finds `us`, or moves to the parent of the current process, as long as the
/// snapshot knows that parent and it is neither 0 nor the process itself.
pub open spec fn reaches(pid: u32, us: u32, parents: Map<u32, u32>, steps: nat) -> bool
    decreases steps,
{
    if steps == 0 {
        false
    } else if pid == us {
        true
    } else if parents.contains_key(pid) && parents[pid] != 0 && parents[pid] != pid {
        reaches(parents[pid], us, parents, (steps - 1) as nat)
    } else {
        false
    }
}

/// Whether `pid` is this process (`us`) or one that it spawned, directly or
/// through children: the walk up the parent links of the snapshot `parents`
/// meets `us` within [`MAX_WALK`] steps.
pub fn is_ours(pid: u32, us: u32, parents: &HashMap<u32, u32>) -> (r: bool)
    ensures
        r == reaches(pid, us, parents@, MAX_WALK as nat),
{
    let mut cur = pid;
    let mut left: u32 = MAX_WALK;
    while left > 0
        invariant
            left <= MAX_WALK,
            reaches(pid, us, parents@, MAX_WALK as nat) == reaches(cur, us, parents@, left as nat),
        decreases left,
    {
        if cur == us {
            return true;
        }
        match parents.get(&cur) {
            Some(p) => {
                if *p != 0 && *p != cur {
                    cur = *p;
                } else {
                    return false;
                }
            },
            None => {
                return false;
            },
        }
        left = left - 1;
    }
    false
}

/// This process is always its own.
pub proof fn law_us_is_ours(us: u32, parents: Map<u32, u32>)
    ensures
        reaches(us, us, parents, MAX_WALK as nat),
{
}

/// A process is ours only if it is `us` or its parent is ours: ownership
/// passes down the process tree and nowhere else.
pub proof fn law_ours_through_parent(pid: u32, us: u32, parents: Map<u32, u32>, steps: nat)
    requires
        reaches(pid, us, parents, steps),
        pid != us,
    ensures
        parents.contains_key(pid),
        parents[pid] != 0,
        reaches(parents[pid], us, parents, steps),
{
    lemma_reaches_monotone(parents[pid], us, parents, (steps - 1) as nat, steps);
}

/// A walk that succeeds within some steps succeeds within more.
pub proof fn lemma_reaches_monotone(pid: u32, us: u32, parents: Map<u32, u32>, a: nat, b: nat)
    requires
        a <= b,
        reaches(pid, us, parents, a),
    ensures
        reaches(pid, us, parents, b),
    decreases a,
{
    if pid != us {
        lemma_reaches_monotone(parents[pid], us, parents, (a - 1) as nat, (b - 1) as nat);
    }
}

// ---------------------------------------------------------------------------
// Following the default device
// ---------------------------------------------------------------------------

/// The direction of an audio endpoint.
#[derive(Clone, Copy, PartialEq, Eq, Structural, Debug)]
pub enum DataFlow {
    Render,
    Capture,
    All,
}

/// The role for which an endpoint is the default.
#[derive(Clone, Copy, PartialEq, Eq, Structural, Debug)]
pub enum Role {
    Console,
    Multimedia,
    Communications,
}

/// A change of default device matters only for the console output device,
/// which is where the player's sessions live.
pub fn default_change_matters(flow: DataFlow, role: Role) -> (r: bool)
    ensures
        r == (flow == DataFlow::Render && role == Role::Console),
{
    flow == DataFlow::Render && role == Role::Console
}

/// What a labelling pass does, given the device it is subscribed to and the
/// current default device.
#[derive(Clone, Copy, PartialEq, Eq, Structural, Debug)]
pub enum SyncPlan {
    /// The subscription is on the current device: label its sessions again.
    Relabel,
    /// Subscribe to the current device and label its sessions, after
    /// dropping the subscription to the old device if there is one.
    Resubscribe { release_old: bool },
}

/// The plan of a labelling pass: `bound` is the id of the device that the
/// session notifications are subscribed to, if any, and `current` the id of
/// the default output device now.
pub fn plan_sync(bound: Option<&String>, current: &str) -> (plan: SyncPlan)
    ensures
        plan == match bound {
            Some(id) => if id@ == current@ {
                SyncPlan::Relabel
            } else {
                SyncPlan::Resubscribe { release_old: true }
            },
            None => SyncPlan::Resubscribe { release_old: false },
        },
{
    match bound {
        Some(id) => {
            if str_eq(id.as_str(), current) {
                SyncPlan::Relabel
            } else {
                SyncPlan::Resubscribe { release_old: true }
            }
        },
        None => SyncPlan::Resubscribe { release_old: false },
    }
}

/// The device that the session notifications are subscribed to after a
/// labelling pass run by `plan`: the same one after relabelling; after
/// resubscribing (the old subscription is gone by then), the current device
/// when its session manager was activated and the new subscription
/// registered, and none otherwise, so that the next pass tries again.
pub fn next_bound(
    plan: SyncPlan,
    bound: Option<String>,
    current: &str,
    activated: bool,
    registered: bool,
) -> (r: Option<String>)
    ensures
        plan is Relabel ==> r == bound,
        plan is Resubscribe ==> match r {
            Some(id) => activated && registered && id@ == current@,
            None => !(activated && registered),
        },
{
    match plan {
        SyncPlan::Relabel => bound,
        SyncPlan::Resubscribe { .. } => {
            if activated && registered {
                Some(String::from_str(current))
            } else {
                None
            }
        },
    }
}

} // verus!
