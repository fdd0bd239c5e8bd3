use vstd::prelude::*;

use crate::roles::{spec_resolve, resolve, Role};
use crate::store::PermissionStore;

verus! {

/// Outcome of a grant attempt, telling the caller which notifications to
/// send once the store has been persisted.
pub enum GrantOutcome {
    /// The caller is not the admin: fixed denial reply, no mutation.
    Denied,
    /// The liveness check on the target failed: notify the admin of the
    /// error, no mutation.
    TargetUnreachable,
    /// The target is on the allow-list now.  `newly_added` is false when it
    /// already was (a no-op, not an error).
    Granted { newly_added: bool },
}

/// The allow-list after granting `target`: unchanged if already a member,
/// else extended by it.
pub open spec fn grant_allowed(allowed: Seq<i64>, target: i64) -> Seq<i64> {
    if allowed.contains(target) {
        allowed
    } else {
        allowed.push(target)
    }
}

/// Routing of a request-access notification.  There is no durable pending
/// record: the admin is told who asked, the requester gets an
/// acknowledgment, and the store is untouched (it is taken by shared
/// reference).  The admin must later invoke the grant action with the
/// requester's identity from that notification.
pub struct AccessRequest {
    /// Where the notification goes: the current admin identity.
    pub notify: i64,
    /// Whose access was requested and who is acknowledged: the caller.
    pub requester: i64,
}

/// RequestAccess: open to any caller, including already-allowed ones.
/// Purely a human-routed notification plan; no role gate, no mutation.
pub fn request_access(store: &PermissionStore, caller: i64) -> (r: AccessRequest)
    ensures
        r.notify == store.admin_user,
        r.requester == caller,
{
    AccessRequest { notify: store.admin_user, requester: caller }
}

impl PermissionStore {
    /// Grant: role-gated allow-list extension.
    ///
    /// Only an admin caller may proceed; anyone else gets `Denied` and the
    /// store is untouched.  `target_reachable` is the result of the
    /// transport's liveness check on the target, performed by the caller
    /// before this transition; when it failed, nothing is mutated either.
    /// On an authorized, reachable grant the target is added unless already
    /// present (idempotent), and nothing else of the record changes.  The
    /// caller must persist the updated store durably before sending either
    /// success notification.
    pub fn grant(&mut self, caller: i64, target: i64, target_reachable: bool) -> (r: GrantOutcome)
        ensures
            spec_resolve(caller, *old(self)) != Role::Admin ==> (
                final(self).same_record(*old(self)) && (r is Denied)
            ),
            spec_resolve(caller, *old(self)) == Role::Admin && !target_reachable ==> (
                final(self).same_record(*old(self)) && (r is TargetUnreachable)
            ),
            spec_resolve(caller, *old(self)) == Role::Admin && target_reachable ==> (
                final(self).version == old(self).version
                && final(self).admin_user == old(self).admin_user
                && final(self).allowed_users@ == grant_allowed(old(self).allowed_users@, target)
                && r == (GrantOutcome::Granted {
                    newly_added: !old(self).allowed_users@.contains(target),
                })
            ),
            final(self).allowed_users@.contains(target) <==> (
                old(self).allowed_users@.contains(target)
                || (spec_resolve(caller, *old(self)) == Role::Admin && target_reachable)
            ),
    {
        let role = resolve(caller, self);
        if !matches!(role, Role::Admin) {
            return GrantOutcome::Denied;
        }
        if !target_reachable {
            return GrantOutcome::TargetUnreachable;
        }
        let newly_added = !self.is_allowed(target);
        if newly_added {
            self.allowed_users.push(target);
            assert(self.allowed_users@[self.allowed_users@.len() - 1] == target);
        }
        GrantOutcome::Granted { newly_added }
    }

    /// Status: reports the caller's current role.  Appending the caller to
    /// the allow-list as a side effect of the check — for every caller,
    /// whatever their role — is almost certainly not what a read-only query
    /// should do, so that mutation is explicit and configurable rather than
    /// silent: with `record_caller` false the check is strictly read-only;
    /// with it true the caller is appended unconditionally, duplicates
    /// included.
    pub fn status(&mut self, caller: i64, record_caller: bool) -> (r: Role)
        ensures
            r == spec_resolve(caller, *old(self)),
            !record_caller ==> final(self).same_record(*old(self)),
            record_caller ==> (
                final(self).version == old(self).version
                && final(self).admin_user == old(self).admin_user
                && final(self).allowed_users@ == old(self).allowed_users@.push(caller)
            ),
    {
        let role = resolve(caller, self);
        if record_caller {
            self.allowed_users.push(caller);
        }
        role
    }
}

/// Grant is idempotent: granting the same target to an allow-list twice
/// leaves it identical to granting it once.
pub proof fn lemma_grant_idempotent(allowed: Seq<i64>, target: i64)
    ensures
        grant_allowed(grant_allowed(allowed, target), target) == grant_allowed(allowed, target),
{
    if !allowed.contains(target) {
        assert(allowed.push(target)[allowed.len() as int] == target);
    }
}

/// Serialized grants lose no update: when two grant transitions are applied
/// one after the other — the single-writer discipline every store mutation
/// must go through — both targets are members of the resulting allow-list,
/// whatever the starting list and whether or not the targets are distinct
/// or were already present.
pub proof fn lemma_serialized_grants_keep_both(allowed: Seq<i64>, x: i64, y: i64)
    ensures
        grant_allowed(grant_allowed(allowed, x), y).contains(x),
        grant_allowed(grant_allowed(allowed, x), y).contains(y),
{
    let once = grant_allowed(allowed, x);
    if !allowed.contains(x) {
        assert(allowed.push(x)[allowed.len() as int] == x);
    }
    assert(once.contains(x));
    if !once.contains(y) {
        assert(once.push(y)[once.len() as int] == y);
        let i = choose|i: int| 0 <= i < once.len() && once[i] == x;
        assert(once.push(y)[i] == x);
    }
}

} // verus!
