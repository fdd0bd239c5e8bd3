use vstd::prelude::*;

verus! {

/// Persistent permission record: one admin identity, fixed at deployment, and
/// the allow-list of identities granted access.  Identities are the integer
/// chat identifiers of the transport.  Insertion order of the allow-list is
/// irrelevant; membership is the only query besides adding.
pub struct PermissionStore {
    /// Version tag of the persisted record.
    pub version: u8,
    /// The single admin identity.  Never changed at runtime.
    pub admin_user: i64,
    /// Identities granted the `Allowed` role.  May hold duplicates; only
    /// membership matters.
    pub allowed_users: Vec<i64>,
}

impl PermissionStore {
    /// Two stores hold the same record exactly when every persisted field
    /// agrees.
    pub open spec fn same_record(self, other: PermissionStore) -> bool {
        &&& self.version == other.version
        &&& self.admin_user == other.admin_user
        &&& self.allowed_users@ == other.allowed_users@
    }

    pub fn new(version: u8, admin_user: i64, allowed_users: Vec<i64>) -> (s: PermissionStore)
        ensures
            s.version == version,
            s.admin_user == admin_user,
            s.allowed_users@ == allowed_users@,
    {
        PermissionStore { version, admin_user, allowed_users }
    }

    /// Membership test on the allow-list.
    pub fn is_allowed(&self, identity: i64) -> (r: bool)
        ensures
            r == self.allowed_users@.contains(identity),
    {
        let mut i: usize = 0;
        while i < self.allowed_users.len()
            invariant
                i <= self.allowed_users@.len(),
                forall|j: int| 0 <= j < i ==> self.allowed_users@[j] != identity,
            decreases self.allowed_users@.len() - i,
        {
            if self.allowed_users[i] == identity {
                assert(self.allowed_users@[i as int] == identity);
                return true;
            }
            i += 1;
        }
        false
    }
}

/// A never-configured deployment: version zero, no real admin (the sentinel
/// identity 0), empty allow-list.  Such a store denies every non-bootstrap
/// action to any caller other than the sentinel.
impl Default for PermissionStore {
    fn default() -> (s: PermissionStore)
        ensures
            s.version == 0,
            s.admin_user == 0,
            s.allowed_users@ == Seq::<i64>::empty(),
    {
        PermissionStore { version: 0, admin_user: 0, allowed_users: Vec::new() }
    }
}

} // verus!
