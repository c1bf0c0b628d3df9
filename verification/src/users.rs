//! User administration: roles and their display, capability parsing, and the
//! rules that decide who may create, edit or delete which users.

use vstd::prelude::*;
use vstd::multiset::Multiset;

use crate::text::{chars_of, contains_string, push_char, push_str, str_contains, str_eq, strings_view, trim, trim_str, contains_seq};

verus! {

// ---------------------------------------------------------------------------
// Capabilities and roles
// ---------------------------------------------------------------------------

/// A capability a user account can hold.
#[derive(Clone, Copy, Debug, PartialEq, Eq, Hash)]
pub enum Capability {
    Admin,
    SuperAdmin,
}

pub open spec fn capability_name(c: Capability) -> Seq<char> {
    match c {
        Capability::Admin => "Admin"@,
        Capability::SuperAdmin => "SuperAdmin"@,
    }
}

impl Capability {
    /// The wire name of the capability.
    pub fn as_str(&self) -> (r: &'static str)
        ensures
            r@ == capability_name(*self),
    {
        match self {
            Capability::Admin => "Admin",
            Capability::SuperAdmin => "SuperAdmin",
        }
    }
}

/// The set of capabilities of one user.
#[derive(Clone, Copy, Debug, PartialEq, Eq)]
pub struct CapabilitySet {
    pub admin: bool,
    pub super_admin: bool,
}

impl CapabilitySet {
    pub open spec fn has(self, c: Capability) -> bool {
        match c {
            Capability::Admin => self.admin,
            Capability::SuperAdmin => self.super_admin,
        }
    }

    /// The empty set.
    pub fn new() -> (r: CapabilitySet)
        ensures
            !r.admin,
            !r.super_admin,
    {
        CapabilitySet { admin: false, super_admin: false }
    }

    pub fn contains(&self, c: Capability) -> (r: bool)
        ensures
            r == self.has(c),
    {
        match c {
            Capability::Admin => self.admin,
            Capability::SuperAdmin => self.super_admin,
        }
    }

    pub fn insert(&mut self, c: Capability)
        ensures
            final(self).admin == (old(self).admin || c == Capability::Admin),
            final(self).super_admin == (old(self).super_admin || c == Capability::SuperAdmin),
    {
        match c {
            Capability::Admin => self.admin = true,
            Capability::SuperAdmin => self.super_admin = true,
        }
    }

    /// The wire names of the capabilities in the set, the higher one first.
    pub fn names(&self) -> (r: Vec<String>)
        ensures
            r@.len() == (if self.super_admin { 1int } else { 0 }) + (if self.admin { 1int } else { 0 }),
            forall|c: Capability| #[trigger] self.has(c) <==> strings_view(r@).contains(capability_name(c)),
    {
        let mut r: Vec<String> = Vec::new();
        if self.super_admin {
            r.push(String::from_str("SuperAdmin"));
        }
        if self.admin {
            r.push(String::from_str("Admin"));
        }
        proof {
            reveal_strlit("SuperAdmin");
            reveal_strlit("Admin");
            assert forall|c: Capability| #[trigger] self.has(c) <==> strings_view(r@).contains(
                capability_name(c),
            ) by {
                if self.has(c) {
                    if c == Capability::SuperAdmin {
                        assert(strings_view(r@)[0] == capability_name(c));
                    } else if self.super_admin {
                        assert(strings_view(r@)[1] == capability_name(c));
                    } else {
                        assert(strings_view(r@)[0] == capability_name(c));
                    }
                }
                if strings_view(r@).contains(capability_name(c)) {
                    let k = choose|k: int|
                        0 <= k < strings_view(r@).len() && strings_view(r@)[k] == capability_name(c);
                    assert(strings_view(r@)[k] == r@[k]@);
                }
            }
        }
        r
    }
}

/// The capability names the acting user's session carries.
#[derive(Clone, Copy, Debug, PartialEq, Eq)]
pub struct ActorRights {
    pub admin: bool,
    pub super_admin: bool,
}

impl ActorRights {
    /// Rights from the permission names of a session.
    pub fn from_permissions(perms: &Vec<String>) -> (r: ActorRights)
        ensures
            r.admin == strings_view(perms@).contains("Admin"@),
            r.super_admin == strings_view(perms@).contains("SuperAdmin"@),
    {
        ActorRights {
            admin: contains_string(perms, "Admin"),
            super_admin: contains_string(perms, "SuperAdmin"),
        }
    }

    /// May use the user administration at all.
    pub open spec fn may_administer(self) -> bool {
        self.admin || self.super_admin
    }
}

/// The role shown for a list of capability names: the highest one held.
pub open spec fn role_sort_key_spec(caps: Seq<Seq<char>>) -> u8 {
    if caps.contains("SuperAdmin"@) {
        0
    } else if caps.contains("Admin"@) {
        1
    } else {
        2
    }
}

pub open spec fn role_label_spec(caps: Seq<Seq<char>>) -> Seq<char> {
    if caps.contains("SuperAdmin"@) {
        "Super Admin"@
    } else if caps.contains("Admin"@) {
        "Admin"@
    } else {
        "User"@
    }
}

/// One row of the user administration table.
#[derive(Clone, Debug, PartialEq)]
pub struct UserAdminRow {
    pub token: String,
    pub username: String,
    pub full_name: String,
    pub email: String,
    pub capabilities: Vec<String>,
}

impl UserAdminRow {
    pub open spec fn caps_view(&self) -> Seq<Seq<char>> {
        strings_view(self.capabilities@)
    }

    /// "Super Admin", "Admin" or "User".
    pub fn role_label(&self) -> (r: &'static str)
        ensures
            r@ == role_label_spec(self.caps_view()),
    {
        if contains_string(&self.capabilities, "SuperAdmin") {
            "Super Admin"
        } else if contains_string(&self.capabilities, "Admin") {
            "Admin"
        } else {
            "User"
        }
    }

    /// 0 for a Super Admin, 1 for an Admin, 2 for anyone else.
    pub fn role_sort_key(&self) -> (r: u8)
        ensures
            r == role_sort_key_spec(self.caps_view()),
    {
        if contains_string(&self.capabilities, "SuperAdmin") {
            0
        } else if contains_string(&self.capabilities, "Admin") {
            1
        } else {
            2
        }
    }
}

/// The table row of a stored user with the capabilities `caps`.
pub fn admin_row(token: String, username: String, full_name: String, email: String, caps: &CapabilitySet) -> (r:
    UserAdminRow)
    ensures
        r.token == token && r.username == username && r.full_name == full_name && r.email == email,
        forall|c: Capability| #[trigger] caps.has(c) <==> r.caps_view().contains(capability_name(c)),
        role_sort_key_spec(r.caps_view()) == role_sort_key_caps_spec(*caps),
{
    let capabilities = caps.names();
    let r = UserAdminRow { token, username, full_name, email, capabilities };
    proof {
        assert(caps.has(Capability::SuperAdmin) <==> r.caps_view().contains(capability_name(Capability::SuperAdmin)));
        assert(caps.has(Capability::Admin) <==> r.caps_view().contains(capability_name(Capability::Admin)));
    }
    r
}

pub open spec fn role_sort_key_caps_spec(caps: CapabilitySet) -> u8 {
    if caps.super_admin {
        0
    } else if caps.admin {
        1
    } else {
        2
    }
}

/// The role order of a capability set: Super Admin, Admin, User.
pub fn role_sort_key_caps(caps: &CapabilitySet) -> (r: u8)
    ensures
        r == role_sort_key_caps_spec(*caps),
{
    if caps.contains(Capability::SuperAdmin) {
        0
    } else if caps.contains(Capability::Admin) {
        1
    } else {
        2
    }
}

/// The role picked in the user dialog.
#[derive(Clone, Copy, Debug, PartialEq, Eq)]
pub enum RoleChoice {
    SuperAdmin,
    Admin,
    User,
}

pub open spec fn role_from_caps_spec(caps: Seq<Seq<char>>) -> RoleChoice {
    if caps.contains("SuperAdmin"@) {
        RoleChoice::SuperAdmin
    } else if caps.contains("Admin"@) {
        RoleChoice::Admin
    } else {
        RoleChoice::User
    }
}

pub open spec fn role_from_select_spec(value: Seq<char>) -> RoleChoice {
    if value == "SuperAdmin"@ {
        RoleChoice::SuperAdmin
    } else if value == "Admin"@ {
        RoleChoice::Admin
    } else {
        RoleChoice::User
    }
}

/// The capability names a role is saved with.
pub open spec fn role_capabilities_spec(role: RoleChoice) -> Seq<Seq<char>> {
    match role {
        RoleChoice::SuperAdmin => seq!["SuperAdmin"@],
        RoleChoice::Admin => seq!["Admin"@],
        RoleChoice::User => seq![],
    }
}

impl RoleChoice {
    /// The role shown for a list of capability names.
    pub fn from_caps(caps: &Vec<String>) -> (r: RoleChoice)
        ensures
            r == role_from_caps_spec(strings_view(caps@)),
    {
        if contains_string(caps, "SuperAdmin") {
            RoleChoice::SuperAdmin
        } else if contains_string(caps, "Admin") {
            RoleChoice::Admin
        } else {
            RoleChoice::User
        }
    }

    /// The role of a value of the role selector; anything unknown is "User".
    pub fn from_select_value(value: &str) -> (r: RoleChoice)
        ensures
            r == role_from_select_spec(value@),
    {
        if crate::text::str_eq(value, "SuperAdmin") {
            RoleChoice::SuperAdmin
        } else if crate::text::str_eq(value, "Admin") {
            RoleChoice::Admin
        } else {
            RoleChoice::User
        }
    }

    /// The capability names the role is saved with.
    pub fn capabilities(&self) -> (r: Vec<String>)
        ensures
            strings_view(r@) == role_capabilities_spec(*self),
    {
        let mut r: Vec<String> = Vec::new();
        match self {
            RoleChoice::SuperAdmin => r.push(String::from_str("SuperAdmin")),
            RoleChoice::Admin => r.push(String::from_str("Admin")),
            RoleChoice::User => {},
        }
        assert(strings_view(r@) =~= role_capabilities_spec(*self));
        r
    }
}

/// Saving a role and reading the role back from the saved capability names
/// gives the same role.
pub proof fn lemma_role_round_trip(role: RoleChoice)
    ensures
        role_from_caps_spec(role_capabilities_spec(role)) == role,
{
    reveal_strlit("SuperAdmin");
    reveal_strlit("Admin");
    let caps = role_capabilities_spec(role);
    match role {
        RoleChoice::SuperAdmin => {
            assert(caps[0] == "SuperAdmin"@);
        },
        RoleChoice::Admin => {
            assert(caps[0] == "Admin"@);
            assert(!caps.contains("SuperAdmin"@));
        },
        RoleChoice::User => {},
    }
}

// ---------------------------------------------------------------------------
// Authorization rules
// ---------------------------------------------------------------------------

/// Why a user administration request was refused.
#[derive(Clone, Debug, PartialEq)]
pub enum AdminError {
    InsufficientPermissions,
    UnknownCapability(String),
    CannotAssignSuperAdmin,
    OnlySuperAdminCreatesAdmin,
    OnlySuperAdminEditsSuperAdmin,
    CannotRemoveSuperAdmin,
    OnlySuperAdminAssignsAdmin,
    FullNameRequired,
    CannotDeleteSelf,
    CannotDeleteSuperAdmin,
    InvalidUserToken,
    UserNotFound,
}

pub open spec fn admin_error_message(e: AdminError) -> Seq<char> {
    match e {
        AdminError::InsufficientPermissions => "Insufficient permissions"@,
        AdminError::UnknownCapability(name) => "Unknown capability: "@ + name@,
        AdminError::CannotAssignSuperAdmin => "Cannot assign Super Admin role"@,
        AdminError::OnlySuperAdminCreatesAdmin => "Only Super Admin can create Admin users"@,
        AdminError::OnlySuperAdminEditsSuperAdmin => "Only Super Admin can edit a Super Admin user"@,
        AdminError::CannotRemoveSuperAdmin => "Cannot remove Super Admin role"@,
        AdminError::OnlySuperAdminAssignsAdmin => "Only Super Admin can assign Admin role"@,
        AdminError::FullNameRequired => "Full name is required"@,
        AdminError::CannotDeleteSelf => "You cannot delete your own account"@,
        AdminError::CannotDeleteSuperAdmin => "Cannot delete the Super Admin user"@,
        AdminError::InvalidUserToken => "Invalid user token"@,
        AdminError::UserNotFound => "User not found"@,
    }
}

impl AdminError {
    /// The message shown to the user.
    pub fn message(&self) -> (r: String)
        ensures
            r@ == admin_error_message(*self),
    {
        match self {
            AdminError::InsufficientPermissions => String::from_str("Insufficient permissions"),
            AdminError::UnknownCapability(name) => {
                let mut r = String::from_str("Unknown capability: ");
                push_str(&mut r, name.as_str());
                r
            },
            AdminError::CannotAssignSuperAdmin => String::from_str("Cannot assign Super Admin role"),
            AdminError::OnlySuperAdminCreatesAdmin => String::from_str(
                "Only Super Admin can create Admin users",
            ),
            AdminError::OnlySuperAdminEditsSuperAdmin => String::from_str(
                "Only Super Admin can edit a Super Admin user",
            ),
            AdminError::CannotRemoveSuperAdmin => String::from_str("Cannot remove Super Admin role"),
            AdminError::OnlySuperAdminAssignsAdmin => String::from_str(
                "Only Super Admin can assign Admin role",
            ),
            AdminError::FullNameRequired => String::from_str("Full name is required"),
            AdminError::CannotDeleteSelf => String::from_str("You cannot delete your own account"),
            AdminError::CannotDeleteSuperAdmin => String::from_str("Cannot delete the Super Admin user"),
            AdminError::InvalidUserToken => String::from_str("Invalid user token"),
            AdminError::UserNotFound => String::from_str("User not found"),
        }
    }
}

/// Gate of every user administration request: the actor must be an Admin or
/// a Super Admin.
pub fn require_admin(actor: &ActorRights) -> (r: Result<(), AdminError>)
    ensures
        r == (if actor.may_administer() { Ok(()) } else { Err(AdminError::InsufficientPermissions) }),
{
    if !actor.super_admin && !actor.admin {
        return Err(AdminError::InsufficientPermissions);
    }
    Ok(())
}

pub open spec fn known_capability(name: Seq<char>) -> bool {
    name == "Admin"@ || name == "SuperAdmin"@
}

/// Position of the first name at or after `i` that is no capability.
pub open spec fn first_unknown(names: Seq<Seq<char>>, i: nat) -> Option<nat>
    decreases names.len() - i,
{
    if i >= names.len() {
        None
    } else if !known_capability(names[i as int]) {
        Some(i)
    } else {
        first_unknown(names, i + 1)
    }
}

/// The set named by a list of capability names.
pub open spec fn caps_of_names(names: Seq<Seq<char>>) -> CapabilitySet {
    CapabilitySet { admin: names.contains("Admin"@), super_admin: names.contains("SuperAdmin"@) }
}

/// The outcome of parsing `names`: the first unknown name is refused.
pub open spec fn parse_outcome(names: Seq<Seq<char>>, r: Result<CapabilitySet, AdminError>) -> bool {
    match first_unknown(names, 0) {
        Some(k) => r matches Err(AdminError::UnknownCapability(x)) && x@ == names[k as int],
        None => r == Ok::<CapabilitySet, AdminError>(caps_of_names(names)),
    }
}

proof fn lemma_push_contains(s: Seq<Seq<char>>, x: Seq<char>, y: Seq<char>)
    ensures
        s.push(x).contains(y) == (s.contains(y) || x == y),
{
    if s.contains(y) {
        let k = choose|k: int| 0 <= k < s.len() && s[k] == y;
        assert(s.push(x)[k] == y);
    }
    if x == y {
        assert(s.push(x)[s.len() as int] == y);
    }
    if s.push(x).contains(y) {
        let k = choose|k: int| 0 <= k < s.push(x).len() && s.push(x)[k] == y;
        if k < s.len() {
            assert(s[k] == y);
        }
    }
}

/// Parses capability names ("Admin", "SuperAdmin") into a set.
pub fn parse_capabilities(names: &Vec<String>) -> (r: Result<CapabilitySet, AdminError>)
    ensures
        parse_outcome(strings_view(names@), r),
{
    let ghost v = strings_view(names@);
    let mut caps = CapabilitySet::new();
    let mut i: usize = 0;
    while i < names.len()
        invariant
            v == strings_view(names@),
            i <= names.len(),
            first_unknown(v, 0) == first_unknown(v, i as nat),
            forall|j: int| 0 <= j < i ==> known_capability(#[trigger] v[j]),
            caps.admin == v.take(i as int).contains("Admin"@),
            caps.super_admin == v.take(i as int).contains("SuperAdmin"@),
        decreases names.len() - i,
    {
        assert(v[i as int] == names@[i as int]@);
        if str_eq(names[i].as_str(), "Admin") {
            caps.insert(Capability::Admin);
        } else if str_eq(names[i].as_str(), "SuperAdmin") {
            caps.insert(Capability::SuperAdmin);
        } else {
            return Err(AdminError::UnknownCapability(names[i].clone()));
        }
        proof {
            reveal_strlit("Admin");
            reveal_strlit("SuperAdmin");
            lemma_push_contains(v.take(i as int), v[i as int], "Admin"@);
            lemma_push_contains(v.take(i as int), v[i as int], "SuperAdmin"@);
            assert(v.take(i + 1) =~= v.take(i as int).push(v[i as int]));
        }
        i = i + 1;
    }
    assert(v.take(i as int) =~= v);
    Ok(caps)
}

/// What an actor may grant when creating a user with the parsed capabilities.
pub open spec fn create_rule(actor: ActorRights, caps: CapabilitySet) -> Result<CapabilitySet, AdminError> {
    if caps.super_admin {
        Err(AdminError::CannotAssignSuperAdmin)
    } else if caps.admin && !actor.super_admin {
        Err(AdminError::OnlySuperAdminCreatesAdmin)
    } else {
        Ok(caps)
    }
}

/// Decides a request to create a user with the capability names `requested`;
/// gives the capabilities to create the user with.
pub fn check_create_user(actor: &ActorRights, requested: &Vec<String>) -> (r: Result<CapabilitySet, AdminError>)
    ensures
        !actor.may_administer() ==> r == Err::<CapabilitySet, AdminError>(AdminError::InsufficientPermissions),
        actor.may_administer() && first_unknown(strings_view(requested@), 0) is Some ==> parse_outcome(
            strings_view(requested@),
            r,
        ),
        actor.may_administer() && first_unknown(strings_view(requested@), 0) is None ==> r == create_rule(
            *actor,
            caps_of_names(strings_view(requested@)),
        ),
{
    if let Err(e) = require_admin(actor) {
        return Err(e);
    }
    let caps = match parse_capabilities(requested) {
        Ok(c) => c,
        Err(e) => return Err(e),
    };
    if caps.contains(Capability::SuperAdmin) {
        return Err(AdminError::CannotAssignSuperAdmin);
    }
    if caps.contains(Capability::Admin) && !actor.super_admin {
        return Err(AdminError::OnlySuperAdminCreatesAdmin);
    }
    Ok(caps)
}

/// What an actor may change on a user who holds `target`, once the requested
/// names parsed to `caps`, with the trimmed full name `name`.
pub open spec fn update_rule(actor: ActorRights, target: CapabilitySet, caps: CapabilitySet, name: Seq<char>) -> Option<AdminError> {
    if caps.super_admin && !target.super_admin {
        Some(AdminError::CannotAssignSuperAdmin)
    } else if target.super_admin && !caps.super_admin {
        Some(AdminError::CannotRemoveSuperAdmin)
    } else if caps.admin && !actor.super_admin {
        Some(AdminError::OnlySuperAdminAssignsAdmin)
    } else if name.len() == 0 {
        Some(AdminError::FullNameRequired)
    } else {
        None
    }
}

/// Decides an edit of a user who holds `target` (the actor has passed
/// [`require_admin`] and the user was found); gives the new capabilities and
/// the trimmed full name.
pub fn check_update_user(
    actor: &ActorRights,
    target: &CapabilitySet,
    requested: &Vec<String>,
    full_name: &str,
) -> (r: Result<(CapabilitySet, String), AdminError>)
    ensures
        target.super_admin && !actor.super_admin ==> r == Err::<(CapabilitySet, String), AdminError>(
            AdminError::OnlySuperAdminEditsSuperAdmin,
        ),
        !(target.super_admin && !actor.super_admin) ==> match first_unknown(strings_view(requested@), 0) {
            Some(k) => r matches Err(AdminError::UnknownCapability(x)) && x@ == strings_view(requested@)[k as int],
            None => match update_rule(*actor, *target, caps_of_names(strings_view(requested@)), trim(full_name@)) {
                Some(e) => r == Err::<(CapabilitySet, String), AdminError>(e),
                None => r matches Ok((c, n)) && c == caps_of_names(strings_view(requested@)) && n@ == trim(
                    full_name@,
                ),
            },
        },
{
    if target.contains(Capability::SuperAdmin) && !actor.super_admin {
        return Err(AdminError::OnlySuperAdminEditsSuperAdmin);
    }
    let caps = match parse_capabilities(requested) {
        Ok(c) => c,
        Err(e) => return Err(e),
    };
    if caps.contains(Capability::SuperAdmin) && !target.contains(Capability::SuperAdmin) {
        return Err(AdminError::CannotAssignSuperAdmin);
    }
    if target.contains(Capability::SuperAdmin) && !caps.contains(Capability::SuperAdmin) {
        return Err(AdminError::CannotRemoveSuperAdmin);
    }
    if caps.contains(Capability::Admin) && !actor.super_admin {
        return Err(AdminError::OnlySuperAdminAssignsAdmin);
    }
    let name = trim_str(full_name);
    if name.as_str().unicode_len() == 0 {
        return Err(AdminError::FullNameRequired);
    }
    Ok((caps, name))
}

/// What an edit does with the password field: a non-empty new password is
/// set, and when an administrator sets it for someone else the user must
/// change it at the next login (`true`; `false` leaves that flag as it was).
pub fn password_change(password: &Option<String>, is_self: bool) -> (r: (Option<String>, bool))
    ensures
        match password {
            Some(p) if p@.len() > 0 => r.0 == Some(*p) && r.1 == !is_self,
            _ => r.0 is None && !r.1,
        },
{
    match password {
        Some(p) => {
            if p.as_str().unicode_len() > 0 {
                (Some(p.clone()), !is_self)
            } else {
                (None, false)
            }
        },
        None => (None, false),
    }
}

/// Decides a request to delete the user with token `token`, before it is
/// looked up.
pub fn check_delete_user(actor: &ActorRights, actor_token: &str, token: &str) -> (r: Result<(), AdminError>)
    ensures
        r == (if !actor.may_administer() {
            Err(AdminError::InsufficientPermissions)
        } else if actor_token@ == token@ {
            Err(AdminError::CannotDeleteSelf)
        } else {
            Ok(())
        }),
{
    if let Err(e) = require_admin(actor) {
        return Err(e);
    }
    if str_eq(actor_token, token) {
        return Err(AdminError::CannotDeleteSelf);
    }
    Ok(())
}

/// The Super Admin user is never deleted.
pub fn check_delete_target(target: &CapabilitySet) -> (r: Result<(), AdminError>)
    ensures
        r == (if target.super_admin { Err(AdminError::CannotDeleteSuperAdmin) } else { Ok(()) }),
{
    if target.contains(Capability::SuperAdmin) {
        return Err(AdminError::CannotDeleteSuperAdmin);
    }
    Ok(())
}

pub open spec fn is_duplicate_message(msg: Seq<char>) -> bool {
    contains_seq(msg, "Constraint"@) || contains_seq(msg, "unique"@) || contains_seq(msg, "duplicate"@)
}

/// The message for a failure of storing a new user: a violated uniqueness
/// constraint reads as a taken username or address, anything else as it is.
pub fn user_store_error_message(msg: &str) -> (r: String)
    ensures
        r@ == (if is_duplicate_message(msg@) {
            "Username or email address is already in use"@
        } else {
            msg@
        }),
{
    if str_contains(msg, "Constraint") || str_contains(msg, "unique") || str_contains(msg, "duplicate") {
        String::from_str("Username or email address is already in use")
    } else {
        String::from_str(msg)
    }
}

/// The Super Admin role can never be given by creating a user, and only a
/// Super Admin can create an Admin.
pub proof fn lemma_create_never_grants_super_admin(actor: ActorRights, caps: CapabilitySet)
    ensures
        create_rule(actor, caps) matches Ok(c) ==> !c.super_admin,
        create_rule(actor, caps) matches Ok(c) ==> (c.admin ==> actor.super_admin),
{
}

/// An accepted edit neither gives nor takes the Super Admin role, and only a
/// Super Admin can leave a user holding Admin.
pub proof fn lemma_update_keeps_super_admin(
    actor: ActorRights,
    target: CapabilitySet,
    caps: CapabilitySet,
    name: Seq<char>,
)
    requires
        !(target.super_admin && !actor.super_admin),
        update_rule(actor, target, caps, name) is None,
    ensures
        caps.super_admin == target.super_admin,
        caps.admin ==> actor.super_admin,
        name.len() > 0,
{
}

// ---------------------------------------------------------------------------
// Listing order
// ---------------------------------------------------------------------------

/// Lexicographic order of character sequences (the order of `str`'s `Ord`,
/// as UTF-8 preserves code point order).
pub open spec fn lex_le(a: Seq<char>, b: Seq<char>) -> bool
    decreases a.len(),
{
    if a.len() == 0 {
        true
    } else if b.len() == 0 {
        false
    } else if a[0] != b[0] {
        a[0] < b[0]
    } else {
        lex_le(a.drop_first(), b.drop_first())
    }
}

pub proof fn lemma_lex_le_total(a: Seq<char>, b: Seq<char>)
    ensures
        lex_le(a, b) || lex_le(b, a),
    decreases a.len(),
{
    if a.len() > 0 && b.len() > 0 && a[0] == b[0] {
        lemma_lex_le_total(a.drop_first(), b.drop_first());
    }
}

pub proof fn lemma_lex_le_trans(a: Seq<char>, b: Seq<char>, c: Seq<char>)
    requires
        lex_le(a, b),
        lex_le(b, c),
    ensures
        lex_le(a, c),
    decreases a.len(),
{
    if a.len() > 0 && b.len() > 0 && c.len() > 0 && a[0] == b[0] && b[0] == c[0] {
        lemma_lex_le_trans(a.drop_first(), b.drop_first(), c.drop_first());
    }
}

pub fn lex_le_chars(a: &Vec<char>, b: &Vec<char>) -> (r: bool)
    ensures
        r == lex_le(a@, b@),
{
    let mut i: usize = 0;
    assert(a@.skip(0) =~= a@ && b@.skip(0) =~= b@);
    loop
        invariant
            i <= a.len(),
            i <= b.len(),
            lex_le(a@, b@) == lex_le(a@.skip(i as int), b@.skip(i as int)),
        decreases a.len() - i,
    {
        if i == a.len() {
            return true;
        }
        if i == b.len() {
            return false;
        }
        if a[i] != b[i] {
            assert(a@.skip(i as int)[0] == a@[i as int] && b@.skip(i as int)[0] == b@[i as int]);
            return a[i] < b[i];
        }
        assert(a@.skip(i as int).drop_first() =~= a@.skip(i + 1));
        assert(b@.skip(i as int).drop_first() =~= b@.skip(i + 1));
        i = i + 1;
    }
}

/// The listing order of user rows: by role (Super Admin, Admin, User), then
/// by username.
pub open spec fn row_le(a: UserAdminRow, b: UserAdminRow) -> bool {
    let ka = role_sort_key_spec(a.caps_view());
    let kb = role_sort_key_spec(b.caps_view());
    ka < kb || (ka == kb && lex_le(a.username@, b.username@))
}

pub open spec fn rows_sorted(s: Seq<UserAdminRow>) -> bool {
    forall|i: int, j: int| 0 <= i < j < s.len() ==> #[trigger] row_le(s[i], s[j])
}

proof fn lemma_row_le_total(a: UserAdminRow, b: UserAdminRow)
    ensures
        row_le(a, b) || row_le(b, a),
{
    lemma_lex_le_total(a.username@, b.username@);
}

proof fn lemma_row_le_trans(a: UserAdminRow, b: UserAdminRow, c: UserAdminRow)
    requires
        row_le(a, b),
        row_le(b, c),
    ensures
        row_le(a, c),
{
    if lex_le(a.username@, b.username@) && lex_le(b.username@, c.username@) {
        lemma_lex_le_trans(a.username@, b.username@, c.username@);
    }
}

fn row_le_exec(a: &UserAdminRow, b: &UserAdminRow) -> (r: bool)
    ensures
        r == row_le(*a, *b),
{
    let ka = a.role_sort_key();
    let kb = b.role_sort_key();
    if ka != kb {
        return ka < kb;
    }
    let ua = chars_of(a.username.as_str());
    let ub = chars_of(b.username.as_str());
    lex_le_chars(&ua, &ub)
}

/// Inserting `x` after every row ordered before or with it, and before the
/// rest, keeps the rows sorted.
proof fn lemma_insert_sorted(s: Seq<UserAdminRow>, p: int, x: UserAdminRow)
    requires
        rows_sorted(s),
        0 <= p <= s.len(),
        forall|k: int| 0 <= k < p ==> #[trigger] row_le(s[k], x),
        p < s.len() ==> !row_le(s[p], x),
    ensures
        rows_sorted(s.insert(p, x)),
{
    let t = s.insert(p, x);
    if p < s.len() {
        lemma_row_le_total(s[p], x);
    }
    assert forall|i: int, j: int| 0 <= i < j < t.len() implies #[trigger] row_le(t[i], t[j]) by {
        if i < p && j < p {
            assert(row_le(s[i], s[j]));
        } else if i < p && j == p {
        } else if i < p {
            assert(row_le(s[i], s[j - 1]));
        } else if i == p {
            if j - 1 > p {
                assert(row_le(s[p], s[j - 1]));
                lemma_row_le_trans(x, s[p], s[j - 1]);
            }
        } else {
            assert(row_le(s[i - 1], s[j - 1]));
        }
    }
}

/// Puts user rows in listing order: by role, then by username.
pub fn sort_user_rows(rows: Vec<UserAdminRow>) -> (r: Vec<UserAdminRow>)
    ensures
        r@.to_multiset() == rows@.to_multiset(),
        rows_sorted(r@),
{
    broadcast use vstd::seq_lib::group_to_multiset_ensures;

    let ghost all = rows@;
    let mut rest = rows;
    let mut out: Vec<UserAdminRow> = Vec::new();
    assert(out@.to_multiset() =~= Multiset::empty());
    while rest.len() > 0
        invariant
            out@.to_multiset().add(rest@.to_multiset()) == all.to_multiset(),
            rows_sorted(out@),
        decreases rest.len(),
    {
        let ghost rest0 = rest@;
        let x = rest.remove(0);
        proof {
            vstd::seq_lib::to_multiset_remove(rest0, 0);
        }
        let mut p: usize = 0;
        while p < out.len() && row_le_exec(&out[p], &x)
            invariant
                p <= out.len(),
                forall|k: int| 0 <= k < p ==> #[trigger] row_le(out@[k], x),
            decreases out.len() - p,
        {
            p = p + 1;
        }
        let ghost out0 = out@;
        proof {
            lemma_insert_sorted(out0, p as int, x);
            vstd::seq_lib::to_multiset_insert(out0, p as int, x);
        }
        out.insert(p, x);
        proof {
            broadcast use vstd::multiset::group_multiset_axioms;
            assert(rest0.to_multiset().count(x) > 0) by {
                vstd::seq_lib::to_multiset_contains(rest0, x);
                assert(rest0.contains(x)) by {
                    assert(rest0[0] == x);
                }
            }
            assert(out@.to_multiset().add(rest@.to_multiset()) =~= all.to_multiset());
        }
    }
    assert(rest@.to_multiset() =~= Multiset::empty());
    assert(out@.to_multiset() =~= all.to_multiset());
    out
}

// ---------------------------------------------------------------------------
// The users table and the user dialog
// ---------------------------------------------------------------------------

/// What the users table offers for one row.
#[derive(Clone, Copy, Debug, PartialEq, Eq)]
pub struct RowActions {
    pub can_edit: bool,
    pub can_delete: bool,
}

/// A Super Admin row can be edited only by a Super Admin, and is never
/// offered for deletion; nor is the viewer's own row.
pub fn row_actions(row: &UserAdminRow, current_user_token: &str, is_super_admin: bool) -> (r: RowActions)
    ensures
        r.can_edit == (is_super_admin || role_sort_key_spec(row.caps_view()) != 0),
        r.can_delete == (role_sort_key_spec(row.caps_view()) != 0 && row.token@ != current_user_token@),
{
    let is_self = str_eq(row.token.as_str(), current_user_token);
    let is_super = row.role_sort_key() == 0;
    RowActions { can_edit: is_super_admin || !is_super, can_delete: !is_super && !is_self }
}

/// Why the user dialog refuses to submit.
#[derive(Clone, Copy, Debug, PartialEq, Eq)]
pub enum UserFormError {
    UsernameRequired,
    FullNameRequired,
    EmailRequired,
    PasswordRequired,
}

pub open spec fn user_form_error_message(e: UserFormError) -> Seq<char> {
    match e {
        UserFormError::UsernameRequired => "Username is required."@,
        UserFormError::FullNameRequired => "Full name is required."@,
        UserFormError::EmailRequired => "Email address is required."@,
        UserFormError::PasswordRequired => "Password is required for new users."@,
    }
}

impl UserFormError {
    pub fn message(&self) -> (r: &'static str)
        ensures
            r@ == user_form_error_message(*self),
    {
        match self {
            UserFormError::UsernameRequired => "Username is required.",
            UserFormError::FullNameRequired => "Full name is required.",
            UserFormError::EmailRequired => "Email address is required.",
            UserFormError::PasswordRequired => "Password is required for new users.",
        }
    }
}

/// The first check of the user dialog that fails, in the order they are made.
pub open spec fn user_form_error(
    is_edit: bool,
    username: Seq<char>,
    full_name: Seq<char>,
    email: Seq<char>,
    password: Seq<char>,
) -> Option<UserFormError> {
    if !is_edit && trim(username).len() == 0 {
        Some(UserFormError::UsernameRequired)
    } else if trim(full_name).len() == 0 {
        Some(UserFormError::FullNameRequired)
    } else if trim(email).len() == 0 {
        Some(UserFormError::EmailRequired)
    } else if !is_edit && password.len() == 0 {
        Some(UserFormError::PasswordRequired)
    } else {
        None
    }
}

/// What the user dialog sends: trimmed names and address, the password when
/// one was typed, and the capability names of the chosen role.
#[derive(Clone, Debug, PartialEq)]
pub struct UserSubmission {
    pub username: String,
    pub full_name: String,
    pub email: String,
    pub password: Option<String>,
    pub capabilities: Vec<String>,
}

/// Checks the user dialog (creating when `is_edit` is false) and builds what
/// it submits.
pub fn validate_user_form(
    is_edit: bool,
    username: &str,
    full_name: &str,
    email: &str,
    password: &str,
    role: RoleChoice,
) -> (r: Result<UserSubmission, UserFormError>)
    ensures
        match user_form_error(is_edit, username@, full_name@, email@, password@) {
            Some(e) => r == Err::<UserSubmission, UserFormError>(e),
            None => r matches Ok(sub) && sub.username@ == trim(username@) && sub.full_name@ == trim(
                full_name@,
            ) && sub.email@ == trim(email@) && strings_view(sub.capabilities@) == role_capabilities_spec(
                role,
            ) && match sub.password {
                Some(p) => p@ == password@ && password@.len() > 0,
                None => password@.len() == 0,
            },
        },
{
    let un = trim_str(username);
    let name = trim_str(full_name);
    let em = trim_str(email);
    if !is_edit && un.as_str().unicode_len() == 0 {
        return Err(UserFormError::UsernameRequired);
    }
    if name.as_str().unicode_len() == 0 {
        return Err(UserFormError::FullNameRequired);
    }
    if em.as_str().unicode_len() == 0 {
        return Err(UserFormError::EmailRequired);
    }
    let pw_len = password.unicode_len();
    if !is_edit && pw_len == 0 {
        return Err(UserFormError::PasswordRequired);
    }
    let pw = if pw_len == 0 { None } else { Some(String::from_str(password)) };
    Ok(UserSubmission { username: un, full_name: name, email: em, password: pw, capabilities: role.capabilities() })
}

/// The note under the password field when editing a user.
pub fn password_hint(is_edit: bool, is_self: bool) -> (r: Option<&'static str>)
    ensures
        !is_edit ==> r is None,
        is_edit && is_self ==> (r matches Some(h) && h@ == "Leave blank to keep your current password."@),
        is_edit && !is_self ==> (r matches Some(h) && h@
            == "Leave blank to keep current password. Setting a new password will require the user to change it on next login."@),
{
    if !is_edit {
        None
    } else if is_self {
        Some("Leave blank to keep your current password.")
    } else {
        Some(
            "Leave blank to keep current password. Setting a new password will require the user to change it on next login.",
        )
    }
}

/// A character as it stands in a JavaScript template literal.
pub open spec fn template_escape_char(c: char) -> Seq<char> {
    if c == '`' {
        seq!['\\', '`']
    } else if c == '$' {
        seq!['\\', '$']
    } else {
        seq![c]
    }
}

/// Text with backticks and dollar signs escaped for a JavaScript template
/// literal.
pub open spec fn template_escape(s: Seq<char>) -> Seq<char>
    decreases s.len(),
{
    if s.len() == 0 {
        Seq::empty()
    } else {
        template_escape(s.drop_last()) + template_escape_char(s.last())
    }
}

/// Escapes a password for the clipboard script (`\`` for a backtick, `\$`
/// for a dollar sign).
pub fn escape_for_template(s: &str) -> (r: String)
    ensures
        r@ == template_escape(s@),
{
    let v = chars_of(s);
    let mut r = String::new();
    let mut i: usize = 0;
    while i < v.len()
        invariant
            i <= v.len(),
            v@ == s@,
            r@ == template_escape(v@.take(i as int)),
        decreases v.len() - i,
    {
        let c = v[i];
        if c == '`' || c == '$' {
            push_char(&mut r, '\\');
        }
        push_char(&mut r, c);
        proof {
            assert(v@.take(i + 1).drop_last() =~= v@.take(i as int));
            assert(v@.take(i + 1).last() == c);
            assert(r@ =~= template_escape(v@.take(i as int)) + template_escape_char(c));
        }
        i = i + 1;
    }
    assert(v@.take(v.len() as int) =~= v@);
    r
}

} // verus!
