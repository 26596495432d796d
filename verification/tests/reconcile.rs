use std::collections::BTreeSet;

use aws_eks_iam_auth_controller::merge::{
    has_live_arn, prune_records, put_record, reconcile_lists, remove_arn,
};
use aws_eks_iam_auth_controller::model::{
    copy_groups, copy_strings, DocumentEntry, IAMIdentityMappingSpec, MapRole, MapUser,
};

fn groups(names: &[&str]) -> Option<Vec<String>> {
    Some(names.iter().map(|n| n.to_string()).collect())
}

fn mapping(arn: &str, username: &str, groups: Option<Vec<String>>) -> IAMIdentityMappingSpec {
    IAMIdentityMappingSpec::new(arn.to_string(), username.to_string(), groups)
}

fn role(arn: &str, username: &str, groups: Option<Vec<String>>) -> MapRole {
    MapRole::new(arn.to_string(), username.to_string(), groups)
}

fn user(arn: &str, username: &str, groups: Option<Vec<String>>) -> MapUser {
    MapUser::new(arn.to_string(), username.to_string(), groups)
}

type Key = (String, String, Option<Vec<String>>);

fn role_set(roles: &[MapRole]) -> BTreeSet<Key> {
    roles.iter().map(|r| (r.rolearn.clone(), r.username.clone(), r.groups.clone())).collect()
}

fn user_set(users: &[MapUser]) -> BTreeSet<Key> {
    users.iter().map(|u| (u.userarn.clone(), u.username.clone(), u.groups.clone())).collect()
}

#[test]
fn stale_role_is_pruned_and_live_user_is_written() {
    let roles = vec![role("arn:aws:iam::111:role/foo", "foo", groups(&["system:masters"]))];
    let users: Vec<MapUser> = Vec::new();
    let snapshot = vec![mapping("arn:aws:iam::111:user/bar", "bar", None)];
    let (roles, users) = reconcile_lists(roles, users, &snapshot);
    assert!(roles.is_empty());
    assert_eq!(users, vec![user("arn:aws:iam::111:user/bar", "bar", None)]);
}

#[test]
fn resources_with_one_arn_give_one_entry() {
    let snapshot = vec![
        mapping("arn:aws:iam::111:role/foo", "first", None),
        mapping("arn:aws:iam::111:user/bar", "bar", None),
        mapping("arn:aws:iam::111:role/foo", "second", groups(&["ops"])),
    ];
    let (roles, users) = reconcile_lists(Vec::new(), Vec::new(), &snapshot);
    assert_eq!(roles, vec![role("arn:aws:iam::111:role/foo", "second", groups(&["ops"]))]);
    assert_eq!(users, vec![user("arn:aws:iam::111:user/bar", "bar", None)]);
}

#[test]
fn reconciling_twice_changes_nothing() {
    let snapshot = vec![
        mapping("arn:aws:iam::111:role/a", "a", groups(&["system:masters"])),
        mapping("arn:aws:iam::111:user/b", "b", None),
        mapping("arn:aws:iam::111:role/c", "c", groups(&[])),
    ];
    let roles = vec![
        role("arn:aws:iam::111:role/c", "old-c", None),
        role("arn:aws:iam::111:role/gone", "gone", None),
    ];
    let users = vec![user("arn:aws:iam::111:user/b", "old-b", groups(&["x"]))];
    let (roles1, users1) = reconcile_lists(roles, users, &snapshot);
    let (roles2, users2) = reconcile_lists(roles1.clone(), users1.clone(), &snapshot);
    assert_eq!(role_set(&roles1), role_set(&roles2));
    assert_eq!(user_set(&users1), user_set(&users2));
    assert_eq!(roles1, roles2);
    assert_eq!(users1, users2);
}

#[test]
fn correct_document_is_left_as_it_is() {
    let snapshot = vec![
        mapping("arn:aws:iam::111:role/a", "a", groups(&["system:masters"])),
        mapping("arn:aws:iam::111:user/b", "b", None),
    ];
    let roles = vec![role("arn:aws:iam::111:role/a", "a", groups(&["system:masters"]))];
    let users = vec![user("arn:aws:iam::111:user/b", "b", None)];
    let (next_roles, next_users) = reconcile_lists(roles.clone(), users.clone(), &snapshot);
    assert_eq!(role_set(&next_roles), role_set(&roles));
    assert_eq!(user_set(&next_users), user_set(&users));
}

#[test]
fn entries_without_live_resource_are_absent() {
    let snapshot = vec![mapping("arn:aws:iam::111:role/keep", "keep", None)];
    let roles = vec![
        role("arn:aws:iam::111:role/stale", "stale", None),
        role("arn:aws:iam::111:role/keep", "keep", None),
    ];
    let users = vec![
        user("arn:aws:iam::111:user/stale", "stale", None),
        // The username of this entry is the ARN of a live resource; the entry
        // is keyed by its own ARN, which is not live.
        user("arn:aws:iam::111:user/other", "arn:aws:iam::111:role/keep", None),
    ];
    let (roles, users) = reconcile_lists(roles, users, &snapshot);
    assert!(roles.iter().all(|r| r.rolearn != "arn:aws:iam::111:role/stale"));
    assert_eq!(roles.len(), 1);
    assert!(users.is_empty());
}

#[test]
fn empty_snapshot_empties_both_lists() {
    let roles = vec![role("arn:aws:iam::111:role/a", "a", None)];
    let users = vec![user("arn:aws:iam::111:user/b", "b", None)];
    let (roles, users) = reconcile_lists(roles, users, &Vec::new());
    assert!(roles.is_empty());
    assert!(users.is_empty());
}

#[test]
fn live_resource_overrides_stale_entry() {
    let snapshot = vec![mapping("arn:aws:iam::111:role/x", "new-name", groups(&["new-group"]))];
    let roles = vec![
        role("arn:aws:iam::111:role/x", "old-name", groups(&["old-group"])),
        role("arn:aws:iam::111:role/x", "older-name", None),
    ];
    let (roles, users) = reconcile_lists(roles, Vec::new(), &snapshot);
    assert_eq!(roles, vec![role("arn:aws:iam::111:role/x", "new-name", groups(&["new-group"]))]);
    assert!(users.is_empty());
}

#[test]
fn live_user_overrides_stale_entry() {
    let snapshot = vec![mapping("arn:aws:iam::111:user/x", "new-name", None)];
    let users = vec![user("arn:aws:iam::111:user/x", "old-name", groups(&["old-group"]))];
    let (roles, users) = reconcile_lists(Vec::new(), users, &snapshot);
    assert!(roles.is_empty());
    assert_eq!(users, vec![user("arn:aws:iam::111:user/x", "new-name", None)]);
}

#[test]
fn each_arn_lands_in_one_list() {
    let snapshot = vec![
        mapping("arn:aws:iam::111:role/a", "a", None),
        mapping("arn:aws:iam::111:user/b", "b", None),
        mapping("arn:aws:sts::111:assumed-role/c", "c", None),
        mapping("x:role/d", "d", None),
    ];
    let (roles, users) = reconcile_lists(Vec::new(), Vec::new(), &snapshot);
    let role_arns: Vec<&str> = roles.iter().map(|r| r.rolearn.as_str()).collect();
    let user_arns: Vec<&str> = users.iter().map(|u| u.userarn.as_str()).collect();
    assert_eq!(role_arns, vec!["arn:aws:iam::111:role/a", "x:role/d"]);
    assert_eq!(user_arns, vec!["arn:aws:iam::111:user/b", "arn:aws:sts::111:assumed-role/c"]);
    for arn in &role_arns {
        assert!(!user_arns.contains(arn));
    }
}

#[test]
fn misfiled_live_entry_is_carried_over() {
    // A role ARN that somebody filed under the users: its ARN is live, so
    // pruning keeps it, and upserting only ever rewrites the role list.
    let snapshot = vec![mapping("arn:aws:iam::111:role/a", "a", None)];
    let users = vec![user("arn:aws:iam::111:role/a", "by-hand", None)];
    let (roles, users) = reconcile_lists(Vec::new(), users, &snapshot);
    assert_eq!(roles, vec![role("arn:aws:iam::111:role/a", "a", None)]);
    assert_eq!(users, vec![user("arn:aws:iam::111:role/a", "by-hand", None)]);
}

#[test]
fn missing_document_is_two_empty_lists() {
    let snapshot = vec![
        mapping("arn:aws:iam::111:role/a", "a", groups(&["g1", "g2"])),
        mapping("arn:aws:iam::111:user/b", "b", None),
    ];
    let (roles, users) = reconcile_lists(Vec::new(), Vec::new(), &snapshot);
    assert_eq!(roles, vec![role("arn:aws:iam::111:role/a", "a", groups(&["g1", "g2"]))]);
    assert_eq!(users, vec![user("arn:aws:iam::111:user/b", "b", None)]);
}

#[test]
fn order_of_snapshot_does_not_change_the_entry_sets() {
    let a = mapping("arn:aws:iam::111:role/a", "a", None);
    let b = mapping("arn:aws:iam::111:user/b", "b", groups(&["dev"]));
    let c = mapping("arn:aws:iam::111:role/c", "c", None);
    let d = mapping("arn:aws:iam::111:user/d", "d", None);
    let roles = vec![role("arn:aws:iam::111:role/c", "old", None)];
    let users = vec![user("arn:aws:iam::111:user/zz", "zz", None)];
    let forward = vec![a.clone(), b.clone(), c.clone(), d.clone()];
    let backward = vec![d, c, b, a];
    let (roles1, users1) = reconcile_lists(roles.clone(), users.clone(), &forward);
    let (roles2, users2) = reconcile_lists(roles, users, &backward);
    assert_eq!(role_set(&roles1), role_set(&roles2));
    assert_eq!(user_set(&users1), user_set(&users2));
    assert_eq!(roles1.len(), 2);
    assert_eq!(users1.len(), 2);
}

#[test]
fn fresh_entries_follow_the_snapshot() {
    let snapshot = vec![
        mapping("arn:aws:iam::111:role/b", "b", None),
        mapping("arn:aws:iam::111:role/a", "a", None),
        mapping("arn:aws:iam::111:role/b", "b2", None),
    ];
    let roles = vec![role("arn:aws:iam::111:role/a", "old", None)];
    let (roles, _) = reconcile_lists(roles, Vec::new(), &snapshot);
    assert_eq!(
        roles,
        vec![
            role("arn:aws:iam::111:role/a", "a", None),
            role("arn:aws:iam::111:role/b", "b2", None),
        ]
    );
}

#[test]
fn liveness_is_exact_equality_of_arns() {
    let snapshot = vec![
        mapping("arn:aws:iam::111:role/a", "a", None),
        mapping("arn:aws:iam::111:user/b", "b", None),
    ];
    assert!(has_live_arn(&snapshot, &"arn:aws:iam::111:role/a".to_string()));
    assert!(has_live_arn(&snapshot, &"arn:aws:iam::111:user/b".to_string()));
    assert!(!has_live_arn(&snapshot, &"arn:aws:iam::111:role/A".to_string()));
    assert!(!has_live_arn(&snapshot, &"arn:aws:iam::111:role/".to_string()));
    assert!(!has_live_arn(&snapshot, &"a".to_string()));
    assert!(!has_live_arn(&Vec::new(), &"arn:aws:iam::111:role/a".to_string()));
}

#[test]
fn pruning_keeps_order() {
    let snapshot = vec![
        mapping("arn:aws:iam::111:role/c", "c", None),
        mapping("arn:aws:iam::111:role/a", "a", None),
    ];
    let roles = vec![
        role("arn:aws:iam::111:role/a", "1", None),
        role("arn:aws:iam::111:role/b", "2", None),
        role("arn:aws:iam::111:role/c", "3", None),
        role("arn:aws:iam::111:role/a", "4", None),
    ];
    let kept = prune_records(roles, &snapshot);
    assert_eq!(
        kept,
        vec![
            role("arn:aws:iam::111:role/a", "1", None),
            role("arn:aws:iam::111:role/c", "3", None),
            role("arn:aws:iam::111:role/a", "4", None),
        ]
    );
}

#[test]
fn removing_an_arn_removes_every_entry_under_it() {
    let users = vec![
        user("arn:aws:iam::111:user/a", "1", None),
        user("arn:aws:iam::111:user/b", "2", None),
        user("arn:aws:iam::111:user/a", "3", None),
    ];
    let kept = remove_arn(users.clone(), &"arn:aws:iam::111:user/a".to_string());
    assert_eq!(kept, vec![user("arn:aws:iam::111:user/b", "2", None)]);
    let all = remove_arn(users.clone(), &"arn:aws:iam::111:user/none".to_string());
    assert_eq!(all, users);
}

#[test]
fn putting_a_record_replaces_and_appends() {
    let users = vec![
        user("arn:aws:iam::111:user/a", "1", None),
        user("arn:aws:iam::111:user/b", "2", None),
    ];
    let next = put_record(users, &mapping("arn:aws:iam::111:user/a", "new", groups(&["g"])));
    assert_eq!(
        next,
        vec![
            user("arn:aws:iam::111:user/b", "2", None),
            user("arn:aws:iam::111:user/a", "new", groups(&["g"])),
        ]
    );
}

#[test]
fn fresh_record_states_the_mapping() {
    let m = mapping("arn:aws:iam::111:role/a", "a", groups(&["g1", "g2"]));
    let r = MapRole::describing(&m);
    assert_eq!(r, role("arn:aws:iam::111:role/a", "a", groups(&["g1", "g2"])));
    assert_eq!(r.principal_arn(), "arn:aws:iam::111:role/a");
    let u = MapUser::describing(&mapping("arn:aws:iam::111:user/b", "b", None));
    assert_eq!(u, user("arn:aws:iam::111:user/b", "b", None));
    assert_eq!(u.principal_arn(), "arn:aws:iam::111:user/b");
}

#[test]
fn groups_are_copied_as_they_are() {
    assert_eq!(copy_groups(&None), None);
    assert_eq!(copy_groups(&groups(&[])), groups(&[]));
    assert_eq!(copy_groups(&groups(&["a", "", "b"])), groups(&["a", "", "b"]));
    assert_eq!(
        copy_strings(&vec!["x".to_string(), "y".to_string()]),
        vec!["x".to_string(), "y".to_string()]
    );
}
