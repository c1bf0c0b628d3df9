use mailkeep::users::{
    check_create_user, check_delete_target, check_delete_user, check_update_user, escape_for_template, parse_capabilities,
    password_change, password_hint, require_admin, role_sort_key_caps, row_actions, sort_user_rows, user_store_error_message,
    validate_user_form, ActorRights, AdminError, Capability, CapabilitySet, RoleChoice, UserAdminRow, UserFormError,
};

fn caps(v: &[&str]) -> Vec<String> {
    v.iter().map(|s| s.to_string()).collect()
}

fn row(username: &str, c: &[&str]) -> UserAdminRow {
    UserAdminRow {
        token: format!("U_{username}"),
        username: username.into(),
        full_name: username.to_uppercase(),
        email: format!("{username}@example.com"),
        capabilities: caps(c),
    }
}

const ADMIN: ActorRights = ActorRights { admin: true, super_admin: false };
const SUPER: ActorRights = ActorRights { admin: false, super_admin: true };
const PLAIN: ActorRights = ActorRights { admin: false, super_admin: false };

#[test]
fn roles_label_and_sort() {
    assert_eq!(row("a", &["SuperAdmin", "Admin"]).role_label(), "Super Admin");
    assert_eq!(row("a", &["Admin"]).role_label(), "Admin");
    assert_eq!(row("a", &[]).role_label(), "User");
    assert_eq!(row("a", &["SuperAdmin"]).role_sort_key(), 0);
    assert_eq!(row("a", &["Admin"]).role_sort_key(), 1);
    assert_eq!(row("a", &["Other"]).role_sort_key(), 2);
    assert_eq!(role_sort_key_caps(&CapabilitySet { admin: true, super_admin: false }), 1);
}

#[test]
fn role_choice_round_trips() {
    for r in [RoleChoice::SuperAdmin, RoleChoice::Admin, RoleChoice::User] {
        assert_eq!(RoleChoice::from_caps(&r.capabilities()), r);
    }
    assert_eq!(RoleChoice::from_select_value("Admin"), RoleChoice::Admin);
    assert_eq!(RoleChoice::from_select_value("bogus"), RoleChoice::User);
}

#[test]
fn capabilities_parse_or_name_the_unknown() {
    assert_eq!(parse_capabilities(&caps(&["Admin"])), Ok(CapabilitySet { admin: true, super_admin: false }));
    let e = parse_capabilities(&caps(&["Admin", "Root", "Other"])).unwrap_err();
    assert_eq!(e, AdminError::UnknownCapability("Root".into()));
    assert_eq!(e.message(), "Unknown capability: Root");
    let set = parse_capabilities(&caps(&["SuperAdmin", "Admin"])).unwrap();
    assert!(set.contains(Capability::SuperAdmin) && set.contains(Capability::Admin));
    assert_eq!(set.names(), vec!["SuperAdmin".to_string(), "Admin".to_string()]);
}

#[test]
fn only_admins_administer() {
    assert_eq!(require_admin(&PLAIN), Err(AdminError::InsufficientPermissions));
    assert_eq!(require_admin(&ADMIN), Ok(()));
    assert_eq!(AdminError::InsufficientPermissions.message(), "Insufficient permissions");
    let rights = ActorRights::from_permissions(&caps(&["Admin"]));
    assert_eq!(rights, ADMIN);
}

#[test]
fn create_rules() {
    assert_eq!(check_create_user(&PLAIN, &caps(&[])), Err(AdminError::InsufficientPermissions));
    assert_eq!(check_create_user(&SUPER, &caps(&["SuperAdmin"])), Err(AdminError::CannotAssignSuperAdmin));
    assert_eq!(check_create_user(&ADMIN, &caps(&["Admin"])), Err(AdminError::OnlySuperAdminCreatesAdmin));
    assert_eq!(check_create_user(&SUPER, &caps(&["Admin"])), Ok(CapabilitySet { admin: true, super_admin: false }));
    assert_eq!(check_create_user(&ADMIN, &caps(&[])), Ok(CapabilitySet::new()));
    assert_eq!(AdminError::OnlySuperAdminCreatesAdmin.message(), "Only Super Admin can create Admin users");
}

#[test]
fn update_rules() {
    let sa = CapabilitySet { admin: false, super_admin: true };
    let user = CapabilitySet::new();
    assert_eq!(check_update_user(&ADMIN, &sa, &caps(&["SuperAdmin"]), "X"), Err(AdminError::OnlySuperAdminEditsSuperAdmin));
    assert_eq!(check_update_user(&SUPER, &user, &caps(&["SuperAdmin"]), "X"), Err(AdminError::CannotAssignSuperAdmin));
    assert_eq!(check_update_user(&SUPER, &sa, &caps(&[]), "X"), Err(AdminError::CannotRemoveSuperAdmin));
    assert_eq!(check_update_user(&ADMIN, &user, &caps(&["Admin"]), "X"), Err(AdminError::OnlySuperAdminAssignsAdmin));
    assert_eq!(check_update_user(&ADMIN, &user, &caps(&[]), "   "), Err(AdminError::FullNameRequired));
    assert_eq!(
        check_update_user(&ADMIN, &user, &caps(&[]), "  Ann Lee "),
        Ok((CapabilitySet::new(), "Ann Lee".to_string()))
    );
}

#[test]
fn password_changes_force_a_new_password_for_others() {
    assert_eq!(password_change(&Some("pw".into()), false), (Some("pw".to_string()), true));
    assert_eq!(password_change(&Some("pw".into()), true), (Some("pw".to_string()), false));
    assert_eq!(password_change(&Some(String::new()), false), (None, false));
    assert_eq!(password_change(&None, false), (None, false));
}

#[test]
fn delete_rules() {
    assert_eq!(check_delete_user(&PLAIN, "U_1", "U_2"), Err(AdminError::InsufficientPermissions));
    assert_eq!(check_delete_user(&ADMIN, "U_1", "U_1"), Err(AdminError::CannotDeleteSelf));
    assert_eq!(check_delete_user(&ADMIN, "U_1", "U_2"), Ok(()));
    assert_eq!(check_delete_target(&CapabilitySet { admin: false, super_admin: true }), Err(AdminError::CannotDeleteSuperAdmin));
    assert_eq!(check_delete_target(&CapabilitySet::new()), Ok(()));
}

#[test]
fn duplicate_store_errors_read_as_taken() {
    assert_eq!(user_store_error_message("UNIQUE constraint failed: users.username"), "UNIQUE constraint failed: users.username");
    assert_eq!(user_store_error_message("Constraint violated"), "Username or email address is already in use");
    assert_eq!(user_store_error_message("duplicate key"), "Username or email address is already in use");
    assert_eq!(user_store_error_message("timeout"), "timeout");
}

#[test]
fn rows_list_by_role_then_username() {
    let sorted = sort_user_rows(vec![row("zed", &[]), row("bob", &["Admin"]), row("amy", &[]), row("root", &["SuperAdmin"])]);
    let names: Vec<&str> = sorted.iter().map(|r| r.username.as_str()).collect();
    assert_eq!(names, vec!["root", "bob", "amy", "zed"]);
}

#[test]
fn table_actions() {
    let sa = row("root", &["SuperAdmin"]);
    let a = row("amy", &[]);
    assert_eq!(row_actions(&sa, "U_amy", false).can_edit, false);
    assert_eq!(row_actions(&sa, "U_amy", true).can_edit, true);
    assert_eq!(row_actions(&sa, "U_amy", true).can_delete, false);
    assert_eq!(row_actions(&a, "U_amy", true).can_delete, false);
    assert_eq!(row_actions(&a, "U_root", false).can_delete, true);
}

#[test]
fn dialog_checks_in_order() {
    assert_eq!(validate_user_form(false, " ", "", "", "", RoleChoice::User).unwrap_err(), UserFormError::UsernameRequired);
    assert_eq!(validate_user_form(true, " ", "", "", "", RoleChoice::User).unwrap_err(), UserFormError::FullNameRequired);
    assert_eq!(validate_user_form(false, "u", "N", " ", "", RoleChoice::User).unwrap_err(), UserFormError::EmailRequired);
    assert_eq!(validate_user_form(false, "u", "N", "e", "", RoleChoice::User).unwrap_err(), UserFormError::PasswordRequired);
    assert_eq!(UserFormError::PasswordRequired.message(), "Password is required for new users.");
    let ok = validate_user_form(false, " u ", " N ", " e@x ", "pw", RoleChoice::Admin).unwrap();
    assert_eq!((ok.username.as_str(), ok.full_name.as_str(), ok.email.as_str()), ("u", "N", "e@x"));
    assert_eq!(ok.password.as_deref(), Some("pw"));
    assert_eq!(ok.capabilities, vec!["Admin".to_string()]);
    let edit = validate_user_form(true, "", "N", "e", "", RoleChoice::User).unwrap();
    assert_eq!(edit.password, None);
    assert!(edit.capabilities.is_empty());
    assert_eq!(password_hint(true, true), Some("Leave blank to keep your current password."));
    assert_eq!(password_hint(false, true), None);
}

#[test]
fn clipboard_escape() {
    assert_eq!(escape_for_template("a`b$c"), "a\\`b\\$c");
    assert_eq!(escape_for_template("plain"), "plain");
}

#[test]
fn admin_rows_carry_capability_names() {
    let r = mailkeep::users::admin_row("U_1".into(), "amy".into(), "Amy".into(), "amy@x".into(), &CapabilitySet { admin: true, super_admin: true });
    assert_eq!(r.role_label(), "Super Admin");
    assert_eq!(r.role_sort_key(), 0);
    assert!(r.capabilities.contains(&"Admin".to_string()));
}
