//! The records exchanged with the Azure Resource Manager and Microsoft Graph
//! privileged-access APIs, and the role model that the application shows.
//!
//! Points in time are held as whole seconds since the Unix epoch.
use vstd::prelude::*;

verus! {

// --- API response wrappers ---

/// An Azure Resource Manager list response.
#[derive(Debug)]
pub struct ApiListResponse<T> {
    pub value: Vec<T>,
}

// --- Role eligibility (what roles the user can activate) ---

#[derive(Debug)]
pub struct RoleEligibilityScheduleInstance {
    pub id: String,
    pub properties: EligibilityProperties,
}

#[derive(Debug)]
pub struct EligibilityProperties {
    pub role_definition_id: String,
    pub scope: String,
    pub principal_id: String,
    pub expanded_properties: Option<ExpandedProperties>,
}

// --- Role assignment (currently active roles) ---

#[derive(Debug)]
pub struct RoleAssignmentScheduleInstance {
    pub id: String,
    pub properties: AssignmentProperties,
}

#[derive(Debug)]
pub struct AssignmentProperties {
    pub role_definition_id: String,
    pub scope: String,
    pub principal_id: String,
    pub assignment_type: Option<String>,
    /// End of the assignment, in seconds since the Unix epoch.
    pub end_date_time: Option<i64>,
    pub expanded_properties: Option<ExpandedProperties>,
}

// --- Shared expanded properties ---

#[derive(Debug)]
pub struct ExpandedProperties {
    pub role_definition: Option<RoleDefinitionInfo>,
    pub scope: Option<ScopeInfo>,
    pub principal: Option<PrincipalInfo>,
}

#[derive(Debug)]
pub struct RoleDefinitionInfo {
    pub display_name: Option<String>,
}

// --- Role definition (full, for permissions) ---

#[derive(Debug)]
pub struct RoleDefinitionResponse {
    pub properties: RoleDefinitionProperties,
}

#[derive(Debug)]
pub struct RoleDefinitionProperties {
    pub permissions: Vec<RolePermission>,
}

#[derive(Debug)]
pub struct RolePermission {
    pub actions: Vec<String>,
    pub not_actions: Vec<String>,
}

#[derive(Debug)]
pub struct ScopeInfo {
    pub display_name: Option<String>,
}

#[derive(Debug)]
pub struct PrincipalInfo {
    pub display_name: Option<String>,
}

// --- Activation request body ---

#[derive(Debug)]
pub struct ActivationRequestBody {
    pub properties: ActivationProperties,
}

#[derive(Debug)]
pub struct ActivationProperties {
    pub role_definition_id: String,
    pub principal_id: String,
    pub request_type: String,
    pub linked_role_eligibility_schedule_id: Option<String>,
    pub justification: Option<String>,
    pub schedule_info: Option<ScheduleInfo>,
}

#[derive(Debug)]
pub struct ScheduleInfo {
    pub expiration: ExpirationInfo,
}

#[derive(Debug)]
pub struct ExpirationInfo {
    pub expiration_type: String,
    pub duration: String,
}

// --- Graph API models for PIM for Groups ---

/// A Microsoft Graph list response, with the link to the next page if any.
#[derive(Debug)]
pub struct GraphListResponse<T> {
    pub value: Vec<T>,
    pub next_link: Option<String>,
}

#[derive(Debug)]
pub struct GroupEligibilityScheduleInstance {
    pub id: String,
    pub group_id: String,
    pub principal_id: String,
    /// `member` or `owner`.
    pub access_id: String,
    pub member_type: Option<String>,
}

#[derive(Debug)]
pub struct GroupAssignmentScheduleInstance {
    pub id: String,
    pub group_id: String,
    pub principal_id: String,
    pub access_id: String,
    pub assignment_type: Option<String>,
    /// End of the assignment, in seconds since the Unix epoch.
    pub end_date_time: Option<i64>,
}

#[derive(Debug)]
pub struct GroupAssignmentRequest {
    pub access_id: String,
    pub principal_id: String,
    pub group_id: String,
    pub action: String,
    pub justification: Option<String>,
    pub schedule_info: Option<GroupScheduleInfo>,
}

#[derive(Debug)]
pub struct GroupScheduleInfo {
    pub expiration: GroupExpirationInfo,
}

#[derive(Debug)]
pub struct GroupExpirationInfo {
    pub expiration_type: String,
    pub duration: String,
}

// --- Graph group display name response ---

#[derive(Debug)]
pub struct GraphGroup {
    pub id: String,
    pub display_name: Option<String>,
}

// --- App-level enriched model ---

/// Which kind of privileged access a role grants.
#[derive(Debug, Clone, Copy, PartialEq, Eq, Structural)]
pub enum RoleType {
    Resource,
    GroupMember,
    GroupOwner,
}

impl RoleType {
    /// The role kind as shown in the list.
    pub fn label(&self) -> (r: &'static str)
        ensures
            r@ == (match *self {
                RoleType::Resource => "Resource"@,
                _ => "Group"@,
            }),
    {
        match self {
            RoleType::Resource => "Resource",
            RoleType::GroupMember => "Group",
            RoleType::GroupOwner => "Group",
        }
    }

    /// The kind of group access, empty for resource roles.
    pub fn access_label(&self) -> (r: &'static str)
        ensures
            r@ == access_label_text(*self),
    {
        match self {
            RoleType::Resource => "",
            RoleType::GroupMember => "Member",
            RoleType::GroupOwner => "Owner",
        }
    }
}

/// The text of `RoleType::access_label`.
pub open spec fn access_label_text(t: RoleType) -> Seq<char> {
    match t {
        RoleType::Resource => ""@,
        RoleType::GroupMember => "Member"@,
        RoleType::GroupOwner => "Owner"@,
    }
}

/// One role the signed-in user is eligible for, with its current state.
#[derive(Debug)]
pub struct PimRole {
    pub eligibility_id: String,
    pub role_definition_id: String,
    pub principal_id: String,
    pub scope: String,
    pub role_name: String,
    pub scope_display_name: String,
    pub role_type: RoleType,
    pub group_id: Option<String>,
    pub status: RoleStatus,
    pub selected: bool,
}

/// Where a role stands.
#[derive(Debug)]
pub enum RoleStatus {
    Eligible,
    /// Active, possibly until the given second since the Unix epoch.
    Active { expires_at: Option<i64> },
    Activating,
    Failed(String),
}

impl Clone for RoleStatus {
    fn clone(&self) -> (r: Self)
        ensures
            r == *self,
    {
        match self {
            RoleStatus::Eligible => RoleStatus::Eligible,
            RoleStatus::Active { expires_at } => RoleStatus::Active { expires_at: *expires_at },
            RoleStatus::Activating => RoleStatus::Activating,
            RoleStatus::Failed(m) => RoleStatus::Failed(m.clone()),
        }
    }
}

/// A copy of an optional text.
pub fn clone_opt_string(o: &Option<String>) -> (r: Option<String>)
    ensures
        r == *o,
{
    match o {
        Some(s) => Some(s.clone()),
        None => None,
    }
}

impl Clone for PimRole {
    fn clone(&self) -> (r: Self)
        ensures
            r == *self,
    {
        PimRole {
            eligibility_id: self.eligibility_id.clone(),
            role_definition_id: self.role_definition_id.clone(),
            principal_id: self.principal_id.clone(),
            scope: self.scope.clone(),
            role_name: self.role_name.clone(),
            scope_display_name: self.scope_display_name.clone(),
            role_type: self.role_type,
            group_id: clone_opt_string(&self.group_id),
            status: self.status.clone(),
            selected: self.selected,
        }
    }
}

/// The text of `RoleStatus::display`.
pub open spec fn status_text(s: RoleStatus) -> Seq<char> {
    match s {
        RoleStatus::Eligible => "Eligible"@,
        RoleStatus::Active { .. } => "Active"@,
        RoleStatus::Activating => "Activating"@,
        RoleStatus::Failed(_) => "Failed"@,
    }
}

impl RoleStatus {
    /// The status word shown for a role.
    pub fn display(&self) -> (r: &'static str)
        ensures
            r@ == status_text(*self),
    {
        match self {
            RoleStatus::Eligible => "Eligible",
            RoleStatus::Active { .. } => "Active",
            RoleStatus::Activating => "Activating",
            RoleStatus::Failed(_) => "Failed",
        }
    }

    pub fn is_active(&self) -> (r: bool)
        ensures
            r == (*self is Active),
    {
        match self {
            RoleStatus::Active { .. } => true,
            _ => false,
        }
    }

    pub fn is_eligible(&self) -> (r: bool)
        ensures
            r == (*self is Eligible),
    {
        match self {
            RoleStatus::Eligible => true,
            _ => false,
        }
    }
}

/// The result of listing roles: the roles found, the scopes that could not
/// be listed at all, and the scopes whose activation state could not be
/// read (an empty scope standing for all of them).
#[derive(Debug)]
pub struct RoleFetch {
    pub roles: Vec<PimRole>,
    pub missing_scopes: Vec<String>,
    pub stale_status_scopes: Vec<String>,
}

impl RoleFetch {
    /// A fetch in which every scope was read.
    pub fn complete(roles: Vec<PimRole>) -> (r: RoleFetch)
        ensures
            r.roles == roles,
            r.missing_scopes@.len() == 0,
            r.stale_status_scopes@.len() == 0,
    {
        RoleFetch { roles, missing_scopes: Vec::new(), stale_status_scopes: Vec::new() }
    }
}

} // verus!
