use std::collections::HashMap;

use ytmusic::volmixer::{default_change_matters, is_ours, next_bound, plan_sync, DataFlow, Role, SyncPlan};

#[test]
fn walks_process_tree() {
    // 100 -> 50 -> 10(us): a webview grandchild counts as ours.
    let parents = HashMap::from([(100, 50), (50, 10), (10, 4), (7, 4)]);
    assert!(is_ours(100, 10, &parents));
    assert!(is_ours(10, 10, &parents));
    // A sibling process under the same root is not ours.
    assert!(!is_ours(7, 10, &parents));
    // Unknown pid, and a cycle, both terminate instead of hanging.
    assert!(!is_ours(999, 10, &parents));
    assert!(!is_ours(1, 10, &HashMap::from([(1, 2), (2, 1)])));
}

#[test]
fn us_is_ours_even_without_a_snapshot() {
    assert!(is_ours(42, 42, &HashMap::new()));
}

#[test]
fn parent_zero_or_self_ends_the_walk() {
    assert!(!is_ours(5, 0, &HashMap::from([(5, 0)])));
    assert!(!is_ours(5, 9, &HashMap::from([(5, 5)])));
}

#[test]
fn walk_is_bounded_to_thirty_two_steps() {
    // A chain 1 -> 2 -> ... -> 40.
    let parents: HashMap<u32, u32> = (1..40).map(|i| (i, i + 1)).collect();
    // 31 parent links to reach 32: the 32nd check finds it.
    assert!(is_ours(1, 32, &parents));
    // 32 links to reach 33: beyond the walk.
    assert!(!is_ours(1, 33, &parents));
}

#[test]
fn only_console_output_changes_matter() {
    assert!(default_change_matters(DataFlow::Render, Role::Console));
    assert!(!default_change_matters(DataFlow::Render, Role::Multimedia));
    assert!(!default_change_matters(DataFlow::Capture, Role::Console));
    assert!(!default_change_matters(DataFlow::All, Role::Communications));
}

#[test]
fn sync_follows_the_default_device() {
    let bound = String::from("{dev-a}");
    assert_eq!(plan_sync(Some(&bound), "{dev-a}"), SyncPlan::Relabel);
    assert_eq!(
        plan_sync(Some(&bound), "{dev-b}"),
        SyncPlan::Resubscribe { release_old: true }
    );
    assert_eq!(plan_sync(None, "{dev-a}"), SyncPlan::Resubscribe { release_old: false });
    assert_eq!(plan_sync(None, ""), SyncPlan::Resubscribe { release_old: false });
}

#[test]
fn bound_device_after_a_pass() {
    let old = Some(String::from("{dev-a}"));
    assert_eq!(next_bound(SyncPlan::Relabel, old.clone(), "{dev-a}", false, false), old);
    let re = SyncPlan::Resubscribe { release_old: true };
    assert_eq!(next_bound(re, None, "{dev-b}", true, true), Some(String::from("{dev-b}")));
    assert_eq!(next_bound(re, None, "{dev-b}", true, false), None);
    assert_eq!(next_bound(re, None, "{dev-b}", false, false), None);
    let fresh = SyncPlan::Resubscribe { release_old: false };
    assert_eq!(next_bound(fresh, None, "", true, true), Some(String::new()));
}
