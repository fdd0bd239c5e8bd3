use vstd::prelude::*;

use crate::store::PermissionStore;

verus! {

/// Authorization tier of a caller, derived fresh from the current store on
/// every request and never cached across requests.
#[derive(Clone, Copy, Debug, PartialEq, Eq, Structural)]
pub enum Role {
    Allowed,
    Admin,
    NotAllowed,
}

/// The role a store assigns to an identity: admin wins over allow-list
/// membership; anyone else on the allow-list is allowed; the rest are not.
pub open spec fn spec_resolve(identity: i64, store: PermissionStore) -> Role {
    if identity == store.admin_user {
        Role::Admin
    } else if store.allowed_users@.contains(identity) {
        Role::Allowed
    } else {
        Role::NotAllowed
    }
}

/// RoleResolver: pure, deterministic, total.  Starts from `NotAllowed`,
/// upgrades to `Allowed` on allow-list membership, and checks the admin
/// identity last so that check is authoritative.
pub fn resolve(identity: i64, store: &PermissionStore) -> (r: Role)
    ensures
        r == spec_resolve(identity, *store),
        (r == Role::Admin) <==> (identity == store.admin_user),
        (r == Role::Allowed) <==> (store.allowed_users@.contains(identity)
            && identity != store.admin_user),
        (r == Role::NotAllowed) <==> (!store.allowed_users@.contains(identity)
            && identity != store.admin_user),
{
    let mut role = Role::NotAllowed;
    if store.is_allowed(identity) {
        role = Role::Allowed;
    }
    if store.admin_user == identity {
        role = Role::Admin;
    }
    role
}

} // verus!
