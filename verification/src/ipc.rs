//! Container permissions and their conversions between the internal set
//! representation, the flat flag representation handed across the foreign
//! interface, and the network's permission-set shape.

use vstd::prelude::*;

use crate::errors::IpcError;

verus! {

/// One permission an application can hold on a container.
#[derive(Clone, Copy, Debug, PartialEq, Eq, Structural)]
pub enum Permission {
    /// Read.
    Read,
    /// Insert.
    Insert,
    /// Update.
    Update,
    /// Delete.
    Delete,
    /// Modify permissions.
    ManagePermissions,
}

/// A set of container permissions, stored internally.
#[derive(Clone, Debug)]
pub struct ContainerPermissions {
    perms: Vec<Permission>,
}

impl View for ContainerPermissions {
    type V = Set<Permission>;

    closed spec fn view(&self) -> Set<Permission> {
        Set::new(|p: Permission| self.perms@.contains(p))
    }
}

impl ContainerPermissions {
    /// The empty set.
    pub fn new() -> (r: Self)
        ensures
            r@ == Set::<Permission>::empty(),
    {
        let r = ContainerPermissions { perms: Vec::new() };
        proof {
            assert(r@ =~= Set::<Permission>::empty());
        }
        r
    }

    /// Whether `p` is in the set.
    pub fn contains(&self, p: Permission) -> (r: bool)
        ensures
            r == self@.contains(p),
    {
        let n = self.perms.len();
        let mut i: usize = 0;
        while i < n
            invariant
                n == self.perms@.len(),
                i <= n,
                forall|j: int| 0 <= j < i ==> self.perms@[j] != p,
            decreases n - i,
        {
            if self.perms[i] == p {
                return true;
            }
            i += 1;
        }
        false
    }

    /// Adds `p` to the set.
    pub fn insert(&mut self, p: Permission)
        ensures
            final(self)@ == old(self)@.insert(p),
    {
        if !self.contains(p) {
            self.perms.push(p);
            proof {
                let s0 = old(self).perms@;
                let s1 = self.perms@;
                assert forall|q: Permission| s1.contains(q) implies s0.contains(q) || q == p by {
                    let i = choose|i: int| 0 <= i < s1.len() && s1[i] == q;
                    if i < s0.len() {
                        assert(s0[i] == q);
                    }
                };
                assert forall|q: Permission| s0.contains(q) || q == p implies s1.contains(q) by {
                    if s0.contains(q) {
                        let i = choose|i: int| 0 <= i < s0.len() && s0[i] == q;
                        assert(s1[i] == q);
                    } else {
                        assert(s1[s0.len() as int] == q);
                    }
                };
            }
        }
        proof {
            assert(self@ =~= old(self)@.insert(p));
        }
    }

    /// Whether the set is empty.
    pub fn is_empty(&self) -> (r: bool)
        ensures
            r == (self@ == Set::<Permission>::empty()),
    {
        let r = self.perms.len() == 0;
        proof {
            if self.perms@.len() == 0 {
                assert(self@ =~= Set::<Permission>::empty());
            } else {
                assert(self@.contains(self.perms@[0]));
            }
        }
        r
    }
}

/// Container permission flags in the flat shape handed across the foreign
/// interface.
#[derive(Clone, Copy, Debug, PartialEq, Eq, Structural)]
pub struct PermissionSet {
    /// Read allowed.
    pub read: bool,
    /// Insert allowed.
    pub insert: bool,
    /// Update allowed.
    pub update: bool,
    /// Delete allowed.
    pub delete: bool,
    /// Managing permissions allowed.
    pub manage_permissions: bool,
}

impl Default for PermissionSet {
    /// All flags cleared.
    fn default() -> (r: Self)
        ensures
            !r.read && !r.insert && !r.update && !r.delete && !r.manage_permissions,
    {
        PermissionSet {
            read: false,
            insert: false,
            update: false,
            delete: false,
            manage_permissions: false,
        }
    }
}

/// Transforms a set of container permissions into its flat flag
/// representation: each flag is set exactly when the permission is in the
/// set.
pub fn container_perms_into_repr_c(perms: &ContainerPermissions) -> (r: PermissionSet)
    ensures
        r.read == perms@.contains(Permission::Read),
        r.insert == perms@.contains(Permission::Insert),
        r.update == perms@.contains(Permission::Update),
        r.delete == perms@.contains(Permission::Delete),
        r.manage_permissions == perms@.contains(Permission::ManagePermissions),
{
    PermissionSet {
        read: perms.contains(Permission::Read),
        insert: perms.contains(Permission::Insert),
        update: perms.contains(Permission::Update),
        delete: perms.contains(Permission::Delete),
        manage_permissions: perms.contains(Permission::ManagePermissions),
    }
}

/// Transforms flat permission flags into a set of container permissions.
/// Flags with no permission set are rejected; otherwise the set holds
/// exactly the permissions whose flags are set.
pub fn container_perms_from_repr_c(perms: PermissionSet) -> (r: Result<
    ContainerPermissions,
    IpcError,
>)
    ensures
        (perms.read || perms.insert || perms.update || perms.delete || perms.manage_permissions)
            <==> r is Ok,
        r matches Ok(cp) ==> cp@.contains(Permission::Read) == perms.read && cp@.contains(
            Permission::Insert,
        ) == perms.insert && cp@.contains(Permission::Update) == perms.update && cp@.contains(
            Permission::Delete,
        ) == perms.delete && cp@.contains(Permission::ManagePermissions)
            == perms.manage_permissions,
        r is Err ==> r == Err::<ContainerPermissions, IpcError>(IpcError::NoPermissionsProvided),
{
    let mut output = ContainerPermissions::new();
    if perms.read {
        output.insert(Permission::Read);
    }
    if perms.insert {
        output.insert(Permission::Insert);
    }
    if perms.update {
        output.insert(Permission::Update);
    }
    if perms.delete {
        output.insert(Permission::Delete);
    }
    if perms.manage_permissions {
        output.insert(Permission::ManagePermissions);
    }
    proof {
        if perms.read {
            assert(output@.contains(Permission::Read));
        } else if perms.insert {
            assert(output@.contains(Permission::Insert));
        } else if perms.update {
            assert(output@.contains(Permission::Update));
        } else if perms.delete {
            assert(output@.contains(Permission::Delete));
        } else if perms.manage_permissions {
            assert(output@.contains(Permission::ManagePermissions));
        } else {
            assert(output@ =~= Set::<Permission>::empty());
        }
    }
    if output.is_empty() {
        Err(IpcError::NoPermissionsProvided)
    } else {
        Ok(output)
    }
}

/// One action on mutable data that a permission set can allow.
#[derive(Clone, Copy, Debug, PartialEq, Eq, Structural)]
pub enum MDataAction {
    /// Read the data.
    Read,
    /// Insert entries.
    Insert,
    /// Update entries.
    Update,
    /// Delete entries.
    Delete,
    /// Modify the permissions themselves.
    ManagePermissions,
}

/// The set of actions allowed on one piece of mutable data.
#[derive(Clone, Copy, Debug, PartialEq, Eq, Structural)]
pub struct MDataPermissionSet {
    read: bool,
    insert: bool,
    update: bool,
    delete: bool,
    manage_permissions: bool,
}

impl MDataPermissionSet {
    /// Whether `action` is allowed.
    pub closed spec fn allows(self, action: MDataAction) -> bool {
        match action {
            MDataAction::Read => self.read,
            MDataAction::Insert => self.insert,
            MDataAction::Update => self.update,
            MDataAction::Delete => self.delete,
            MDataAction::ManagePermissions => self.manage_permissions,
        }
    }

    /// The set allowing no action.
    pub fn new() -> (r: Self)
        ensures
            forall|a: MDataAction| !r.allows(a),
    {
        MDataPermissionSet {
            read: false,
            insert: false,
            update: false,
            delete: false,
            manage_permissions: false,
        }
    }

    /// The set with `action` additionally allowed.
    pub fn allow(self, action: MDataAction) -> (r: Self)
        ensures
            forall|a: MDataAction| r.allows(a) == (self.allows(a) || a == action),
    {
        let mut r = self;
        match action {
            MDataAction::Read => {
                r.read = true;
            },
            MDataAction::Insert => {
                r.insert = true;
            },
            MDataAction::Update => {
                r.update = true;
            },
            MDataAction::Delete => {
                r.delete = true;
            },
            MDataAction::ManagePermissions => {
                r.manage_permissions = true;
            },
        }
        r
    }

    /// Whether `action` is allowed.
    pub fn is_allowed(&self, action: MDataAction) -> (r: bool)
        ensures
            r == self.allows(action),
    {
        match action {
            MDataAction::Read => self.read,
            MDataAction::Insert => self.insert,
            MDataAction::Update => self.update,
            MDataAction::Delete => self.delete,
            MDataAction::ManagePermissions => self.manage_permissions,
        }
    }
}

/// Transforms a set of container permissions into the network's
/// permission-set shape: each action is allowed exactly when the matching
/// permission is in the set.
pub fn container_perms_into_permission_set(permissions: &ContainerPermissions) -> (r:
    MDataPermissionSet)
    ensures
        r.allows(MDataAction::Read) == permissions@.contains(Permission::Read),
        r.allows(MDataAction::Insert) == permissions@.contains(Permission::Insert),
        r.allows(MDataAction::Update) == permissions@.contains(Permission::Update),
        r.allows(MDataAction::Delete) == permissions@.contains(Permission::Delete),
        r.allows(MDataAction::ManagePermissions) == permissions@.contains(
            Permission::ManagePermissions,
        ),
{
    let mut ps = MDataPermissionSet::new();
    if permissions.contains(Permission::Read) {
        ps = ps.allow(MDataAction::Read);
    }
    if permissions.contains(Permission::Insert) {
        ps = ps.allow(MDataAction::Insert);
    }
    if permissions.contains(Permission::Update) {
        ps = ps.allow(MDataAction::Update);
    }
    if permissions.contains(Permission::Delete) {
        ps = ps.allow(MDataAction::Delete);
    }
    if permissions.contains(Permission::ManagePermissions) {
        ps = ps.allow(MDataAction::ManagePermissions);
    }
    ps
}

/// Converts the network's permission-set shape into flat permission
/// flags: each flag mirrors whether the action is allowed.
pub fn permission_set_into_repr_c(perms: MDataPermissionSet) -> (r: PermissionSet)
    ensures
        r.read == perms.allows(MDataAction::Read),
        r.insert == perms.allows(MDataAction::Insert),
        r.update == perms.allows(MDataAction::Update),
        r.delete == perms.allows(MDataAction::Delete),
        r.manage_permissions == perms.allows(MDataAction::ManagePermissions),
{
    PermissionSet {
        read: perms.is_allowed(MDataAction::Read),
        insert: perms.is_allowed(MDataAction::Insert),
        update: perms.is_allowed(MDataAction::Update),
        delete: perms.is_allowed(MDataAction::Delete),
        manage_permissions: perms.is_allowed(MDataAction::ManagePermissions),
    }
}

/// Converts flat permission flags into the network's permission-set
/// shape. Flags carrying only the read permission are rejected; otherwise
/// each action is allowed exactly when its flag is set.
pub fn permission_set_clone_from_repr_c(perms: PermissionSet) -> (r: Result<
    MDataPermissionSet,
    IpcError,
>)
    ensures
        (perms.read && !perms.insert && !perms.update && !perms.delete && !perms.manage_permissions)
            <==> r is Err,
        r matches Ok(pm) ==> pm.allows(MDataAction::Read) == perms.read && pm.allows(
            MDataAction::Insert,
        ) == perms.insert && pm.allows(MDataAction::Update) == perms.update && pm.allows(
            MDataAction::Delete,
        ) == perms.delete && pm.allows(MDataAction::ManagePermissions) == perms.manage_permissions,
        r is Err ==> r == Err::<MDataPermissionSet, IpcError>(IpcError::ReadOnlyPermissions),
{
    if perms.read && !perms.insert && !perms.update && !perms.delete && !perms.manage_permissions {
        return Err(IpcError::ReadOnlyPermissions);
    }
    let mut pm = MDataPermissionSet::new();
    if perms.read {
        pm = pm.allow(MDataAction::Read);
    }
    if perms.insert {
        pm = pm.allow(MDataAction::Insert);
    }
    if perms.update {
        pm = pm.allow(MDataAction::Update);
    }
    if perms.delete {
        pm = pm.allow(MDataAction::Delete);
    }
    if perms.manage_permissions {
        pm = pm.allow(MDataAction::ManagePermissions);
    }
    Ok(pm)
}

/// An application's identity as presented while asking for permissions.
#[derive(Clone, Debug, PartialEq)]
pub struct AppExchangeInfo {
    /// The application identifier; unique per application.
    pub id: String,
    /// Scope, reserved by the frontend.
    pub scope: Option<String>,
    /// The application's friendly name.
    pub name: String,
    /// The application's provider or vendor.
    pub vendor: String,
}

} // verus!
