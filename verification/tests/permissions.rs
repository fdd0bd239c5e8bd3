use chat_gate::roles::{resolve, Role};
use chat_gate::store::PermissionStore;
use chat_gate::workflow::{request_access, GrantOutcome};

fn store_with(admin: i64, allowed: Vec<i64>) -> PermissionStore {
    PermissionStore::new(1, admin, allowed)
}

#[test]
fn resolve_admin_iff_admin_identity() {
    let s = store_with(7, vec![1, 2]);
    assert_eq!(resolve(7, &s), Role::Admin);
    assert_eq!(resolve(1, &s), Role::Allowed);
    assert_eq!(resolve(2, &s), Role::Allowed);
    assert_eq!(resolve(3, &s), Role::NotAllowed);
}

#[test]
fn resolve_admin_wins_over_allow_list() {
    // Even when the admin identity is on the allow-list, admin is authoritative.
    let s = store_with(7, vec![7, 1]);
    assert_eq!(resolve(7, &s), Role::Admin);
}

#[test]
fn resolve_on_default_store_denies_non_sentinel() {
    let s = PermissionStore::default();
    assert_eq!(s.version, 0);
    assert_eq!(s.admin_user, 0);
    assert!(s.allowed_users.is_empty());
    assert_eq!(resolve(5, &s), Role::NotAllowed);
    assert_eq!(resolve(0, &s), Role::Admin);
}

#[test]
fn grant_adds_new_target() {
    let mut s = store_with(7, vec![1]);
    let r = s.grant(7, 42, true);
    assert!(matches!(r, GrantOutcome::Granted { newly_added: true }));
    assert!(s.is_allowed(42));
    assert!(s.is_allowed(1));
    assert_eq!(s.admin_user, 7);
    assert_eq!(s.version, 1);
}

#[test]
fn grant_is_idempotent() {
    let mut once = store_with(7, vec![1]);
    once.grant(7, 42, true);
    let mut twice = store_with(7, vec![1]);
    twice.grant(7, 42, true);
    let r = twice.grant(7, 42, true);
    assert!(matches!(r, GrantOutcome::Granted { newly_added: false }));
    assert_eq!(once.allowed_users, twice.allowed_users);
    assert_eq!(once.admin_user, twice.admin_user);
    assert_eq!(once.version, twice.version);
}

#[test]
fn grant_by_non_admin_never_mutates() {
    let mut s = store_with(7, vec![1]);
    let r = s.grant(1, 42, true);
    assert!(matches!(r, GrantOutcome::Denied));
    assert_eq!(s.version, 1);
    assert_eq!(s.admin_user, 7);
    assert_eq!(s.allowed_users, vec![1]);
    let r = s.grant(3, 42, true);
    assert!(matches!(r, GrantOutcome::Denied));
    assert_eq!(s.allowed_users, vec![1]);
}

#[test]
fn grant_unreachable_target_never_mutates() {
    let mut s = store_with(7, vec![1]);
    let r = s.grant(7, 42, false);
    assert!(matches!(r, GrantOutcome::TargetUnreachable));
    assert_eq!(s.allowed_users, vec![1]);
}

#[test]
fn serialized_grants_keep_both_targets() {
    // Two grants for distinct targets, applied through the single-writer
    // discipline one after the other: both must be durably present.
    let mut s = store_with(7, vec![]);
    let r1 = s.grant(7, 10, true);
    let r2 = s.grant(7, 20, true);
    assert!(matches!(r1, GrantOutcome::Granted { newly_added: true }));
    assert!(matches!(r2, GrantOutcome::Granted { newly_added: true }));
    assert!(s.is_allowed(10));
    assert!(s.is_allowed(20));
}

#[test]
fn request_access_routes_to_admin_and_mutates_nothing() {
    let s = store_with(7, vec![1]);
    let plan = request_access(&s, 99);
    assert_eq!(plan.notify, 7);
    assert_eq!(plan.requester, 99);
    assert_eq!(s.allowed_users, vec![1]);
}

#[test]
fn status_read_only_reports_role() {
    let mut s = store_with(7, vec![1]);
    assert_eq!(s.status(1, false), Role::Allowed);
    assert_eq!(s.status(5, false), Role::NotAllowed);
    assert_eq!(s.allowed_users, vec![1]);
}

#[test]
fn status_recording_appends_caller_unconditionally() {
    let mut s = store_with(7, vec![1]);
    assert_eq!(s.status(5, true), Role::NotAllowed);
    assert_eq!(s.allowed_users, vec![1, 5]);
    // The reported role is the one before the append: 5 is allowed only now.
    assert_eq!(s.status(5, true), Role::Allowed);
    assert_eq!(s.allowed_users, vec![1, 5, 5]);
}

#[test]
fn is_allowed_is_membership() {
    let s = store_with(7, vec![3, 4, 3]);
    assert!(s.is_allowed(3));
    assert!(s.is_allowed(4));
    assert!(!s.is_allowed(7));
    assert!(!s.is_allowed(5));
}
