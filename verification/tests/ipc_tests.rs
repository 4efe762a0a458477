//! Tests of the container permission conversions.

use safe_core::errors::IpcError;
use safe_core::ipc::{
    container_perms_from_repr_c, container_perms_into_permission_set, container_perms_into_repr_c,
    AppExchangeInfo, ContainerPermissions, MDataAction, PermissionSet, Permission,
    permission_set_clone_from_repr_c, permission_set_into_repr_c,
};

// Test cloning a permission set for the following two cases:
// 1. If only the `read` perm is set - return an error.
// 2. The `read` perm should be ignored in all other cases.
#[test]
fn permissions_set_conversion() {
    // It should return an error in case if we have set only the `read` perm
    let ps = PermissionSet {
        read: true,
        insert: false,
        update: false,
        delete: false,
        manage_permissions: false,
    };

    let res = permission_set_clone_from_repr_c(ps);
    assert!(res.is_err());

    // It should ignore `read` perms in all other cases
    let ps = PermissionSet {
        read: true,
        insert: false,
        update: true,
        delete: true,
        manage_permissions: false,
    };

    let res = permission_set_clone_from_repr_c(ps).unwrap();
    assert!(res.is_allowed(MDataAction::Update));
    assert!(res.is_allowed(MDataAction::Delete));
    assert!(!res.is_allowed(MDataAction::Insert));
    assert!(!res.is_allowed(MDataAction::ManagePermissions));
}

// Flags round-trip through the internal permission set.
#[test]
fn container_permission_flags_round_trip() {
    let ps = PermissionSet {
        read: false,
        insert: true,
        update: false,
        delete: true,
        manage_permissions: true,
    };
    let cp = container_perms_from_repr_c(ps).unwrap();
    assert!(!cp.contains(Permission::Read));
    assert!(cp.contains(Permission::Insert));
    assert!(!cp.contains(Permission::Update));
    assert!(cp.contains(Permission::Delete));
    assert!(cp.contains(Permission::ManagePermissions));

    let back = container_perms_into_repr_c(&cp);
    assert_eq!(back, ps);
}

// A flag set with nothing set cannot become container permissions.
#[test]
fn empty_permission_flags_are_rejected() {
    let empty = PermissionSet::default();
    let err = container_perms_from_repr_c(empty).unwrap_err();
    assert_eq!(err, IpcError::NoPermissionsProvided);
}

// A read-only flag set cannot become a network permission set.
#[test]
fn read_only_permission_flags_are_rejected() {
    let ps = PermissionSet {
        read: true,
        insert: false,
        update: false,
        delete: false,
        manage_permissions: false,
    };
    let err = permission_set_clone_from_repr_c(ps).unwrap_err();
    assert_eq!(err, IpcError::ReadOnlyPermissions);
}

// Container permissions map onto the network's permission-set shape and
// back.
#[test]
fn container_perms_to_permission_set() {
    let mut cp = ContainerPermissions::new();
    cp.insert(Permission::Read);
    cp.insert(Permission::Insert);

    let ps = container_perms_into_permission_set(&cp);
    assert!(ps.is_allowed(MDataAction::Read));
    assert!(ps.is_allowed(MDataAction::Insert));
    assert!(!ps.is_allowed(MDataAction::Update));
    assert!(!ps.is_allowed(MDataAction::Delete));
    assert!(!ps.is_allowed(MDataAction::ManagePermissions));

    let flags = permission_set_into_repr_c(ps);
    assert!(flags.read);
    assert!(flags.insert);
    assert!(!flags.update);
}

// Inserting twice keeps one entry; the set stays a set.
#[test]
fn container_permissions_are_a_set() {
    let mut cp = ContainerPermissions::new();
    assert!(cp.is_empty());
    cp.insert(Permission::Update);
    cp.insert(Permission::Update);
    assert!(!cp.is_empty());
    let flags = container_perms_into_repr_c(&cp);
    assert_eq!(
        flags,
        PermissionSet {
            read: false,
            insert: false,
            update: true,
            delete: false,
            manage_permissions: false,
        }
    );
}

// The exchange info carries its fields as given.
#[test]
fn app_exchange_info_fields() {
    let info = AppExchangeInfo {
        id: String::from("myid"),
        scope: Some(String::from("hi")),
        name: String::from("bubi"),
        vendor: String::from("hey girl"),
    };
    assert_eq!(info.id, "myid");
    assert_eq!(info.scope.as_deref(), Some("hi"));
    assert_eq!(info.name, "bubi");
    assert_eq!(info.vendor, "hey girl");
}
