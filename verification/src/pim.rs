//! Azure resource roles: the requests made to Azure Resource Manager and
//! how their answers become the role list.
use vstd::prelude::*;
use crate::auth::SubscriptionInfo;
use crate::error::PimError;
use crate::models::{ActivationProperties, ActivationRequestBody, ExpirationInfo, PimRole,
    RoleDefinitionResponse, RolePermission,
    RoleAssignmentScheduleInstance, RoleEligibilityScheduleInstance, RoleStatus, RoleType,
    ScheduleInfo};
use crate::role_order::{roles_sorted, sort_roles, ties_of, SortKey};
use crate::text::{chars_of, contains_str, decimal, decimal_string, has_sub, join2, join3,
    lemma_split_on_nonempty, owned, split_chars, split_on, string_of, text_eq, views};

verus! {

pub const API_VERSION: &'static str = "2020-10-01";
pub const BASE_URL: &'static str = "https://management.azure.com";

// ---------------------------------------------------------------------------
// Scopes
// ---------------------------------------------------------------------------

/// The subscription id in a scope such as `/subscriptions/{id}/...`: the
/// piece after the first piece that reads `subscriptions`.
pub open spec fn sub_id_of(scope: Seq<char>) -> Option<Seq<char>> {
    let parts = split_on(scope, '/');
    match parts.index_of_first("subscriptions"@) {
        Some(i) => if i + 1 < parts.len() { Some(parts[i + 1]) } else { None },
        None => None,
    }
}

/// The last piece of a scope with at least three pieces, else the scope.
pub open spec fn scope_name_of(scope: Seq<char>) -> Seq<char> {
    let parts = split_on(scope, '/');
    if parts.len() >= 3 { parts.last() } else { scope }
}

/// Extracts the subscription id from a scope string like `/subscriptions/{id}/...`.
pub fn extract_sub_id(scope: &str) -> (r: Option<String>)
    ensures
        match r {
            Some(s) => sub_id_of(scope@) == Some(s@),
            None => sub_id_of(scope@) is None,
        },
{
    let cs = chars_of(scope);
    let parts = split_chars(&cs, '/');
    let ghost ps = split_on(scope@, '/');
    let word = chars_of("subscriptions");
    let mut i: usize = 0;
    proof {
        ps.index_of_first_ensures("subscriptions"@);
    }
    while i < parts.len()
        invariant
            i <= parts@.len(),
            views(parts@) == ps,
            ps == split_on(scope@, '/'),
            word@ == "subscriptions"@,
            forall|k: int| 0 <= k < i ==> ps[k] != "subscriptions"@,
        decreases parts@.len() - i,
    {
        assert(ps[i as int] == parts@[i as int]@);
        if text_eq_chars(&parts[i], &word) {
            proof {
                assert(ps[i as int] == "subscriptions"@);
                assert(ps.contains("subscriptions"@));
                ps.index_of_first_ensures("subscriptions"@);
                let idx = ps.index_of_first("subscriptions"@)->0;
                if idx < i {
                    assert(ps[idx] != "subscriptions"@);
                }
                assert(ps.index_of_first("subscriptions"@) == Some(i as int));
            }
            if i + 1 < parts.len() {
                assert(ps[i + 1] == parts@[i + 1]@);
                return Some(string_of(&parts[i + 1]));
            } else {
                return None;
            }
        }
        i = i + 1;
    }
    proof {
        ps.index_of_first_ensures("subscriptions"@);
        if ps.index_of_first("subscriptions"@) is Some {
            let j = ps.index_of_first("subscriptions"@)->0;
            assert(ps[j] == "subscriptions"@);
        }
    }
    None
}

fn text_eq_chars(a: &Vec<char>, b: &Vec<char>) -> (r: bool)
    ensures
        r == (a@ == b@),
{
    if a.len() != b.len() {
        return false;
    }
    let mut k: usize = 0;
    while k < a.len()
        invariant
            k <= a@.len(),
            a@.len() == b@.len(),
            forall|t: int| 0 <= t < k ==> a@[t] == b@[t],
        decreases a@.len() - k,
    {
        if a[k] != b[k] {
            return false;
        }
        k = k + 1;
    }
    proof {
        assert(a@ =~= b@);
    }
    true
}

/// The last piece of a scope path, or the whole scope when it has fewer
/// than three pieces.
pub fn extract_scope_name(scope: &str) -> (r: String)
    ensures
        r@ == scope_name_of(scope@),
{
    let cs = chars_of(scope);
    let parts = split_chars(&cs, '/');
    proof {
        lemma_split_on_nonempty(scope@, '/');
    }
    if parts.len() >= 3 {
        let last = parts.len() - 1;
        assert(split_on(scope@, '/').last() == parts@[last as int]@);
        string_of(&parts[last])
    } else {
        owned(scope)
    }
}

/// The scopes to query: one per subscription, `/subscriptions/{id}`.
pub open spec fn subscription_scope(id: Seq<char>) -> Seq<char> {
    "/subscriptions/"@ + id
}

/// The scopes of all subscriptions, or an error when there are none.
pub fn resource_scopes(subscriptions: &[SubscriptionInfo]) -> (r: Result<Vec<String>, PimError>)
    ensures
        subscriptions@.len() == 0 <==> r is Err,
        r matches Err(e) ==> e matches PimError::Other(m) && m@
            == "No subscriptions found. Run `az login` first."@,
        r matches Ok(v) ==> v@.len() == subscriptions@.len() && forall|i: int|
            0 <= i < v@.len() ==> #[trigger] v@[i]@ == subscription_scope(subscriptions@[i].id@),
{
    if subscriptions.len() == 0 {
        return Err(PimError::Other(owned("No subscriptions found. Run `az login` first.")));
    }
    let mut out: Vec<String> = Vec::new();
    let mut i: usize = 0;
    while i < subscriptions.len()
        invariant
            i <= subscriptions@.len(),
            out@.len() == i,
            forall|k: int| 0 <= k < i ==> #[trigger] out@[k]@ == subscription_scope(subscriptions@[k].id@),
        decreases subscriptions@.len() - i,
    {
        out.push(join2("/subscriptions/", subscriptions[i].id.as_str()));
        i = i + 1;
    }
    Ok(out)
}

// ---------------------------------------------------------------------------
// Requests
// ---------------------------------------------------------------------------

/// The `$filter` that limits a listing to one principal at the given scope.
pub fn principal_filter(principal_id: &str) -> (r: String)
    ensures
        r@ == "assignedTo('"@ + principal_id@ + "') and atScope()"@,
{
    join3("assignedTo('", principal_id, "') and atScope()")
}

/// Where the eligibility schedules of a scope are listed.
pub fn eligibility_schedules_url(scope: &str) -> (r: String)
    ensures
        r@ == BASE_URL@ + scope@ + "/providers/Microsoft.Authorization/roleEligibilitySchedules"@,
{
    join3(BASE_URL, scope, "/providers/Microsoft.Authorization/roleEligibilitySchedules")
}

/// Where the active assignment instances of a scope are listed.
pub fn assignment_instances_url(scope: &str) -> (r: String)
    ensures
        r@ == BASE_URL@ + scope@
            + "/providers/Microsoft.Authorization/roleAssignmentScheduleInstances"@,
{
    join3(BASE_URL, scope, "/providers/Microsoft.Authorization/roleAssignmentScheduleInstances")
}

/// Where an activation or deactivation request with the given id is put.
pub fn schedule_request_url(scope: &str, request_id: &str) -> (r: String)
    ensures
        r@ == BASE_URL@ + scope@
            + "/providers/Microsoft.Authorization/roleAssignmentScheduleRequests/"@
            + request_id@,
{
    let head = join3(BASE_URL, scope, "/providers/Microsoft.Authorization/roleAssignmentScheduleRequests/");
    join2(head.as_str(), request_id)
}

/// An ISO 8601 duration of whole hours, `PT{hours}H`.
pub open spec fn hours_duration(hours: u32) -> Seq<char> {
    "PT"@ + decimal(hours as nat) + "H"@
}

pub fn hours_duration_text(hours: u32) -> (r: String)
    ensures
        r@ == hours_duration(hours),
{
    let n = decimal_string(hours as u64);
    join3("PT", n.as_str(), "H")
}

/// The body that asks to activate a resource role for some hours.
pub fn activation_body(role: &PimRole, principal_id: &str, justification: &str, duration_hours: u32)
    -> (r: ActivationRequestBody)
    ensures
        r.properties.role_definition_id == role.role_definition_id,
        r.properties.principal_id@ == principal_id@,
        r.properties.request_type@ == "SelfActivate"@,
        r.properties.linked_role_eligibility_schedule_id == Some(role.eligibility_id),
        r.properties.justification matches Some(j) && j@ == justification@,
        r.properties.schedule_info matches Some(si) && si.expiration.expiration_type@
            == "AfterDuration"@ && si.expiration.duration@ == hours_duration(duration_hours),
{
    ActivationRequestBody {
        properties: ActivationProperties {
            role_definition_id: role.role_definition_id.clone(),
            principal_id: owned(principal_id),
            request_type: owned("SelfActivate"),
            linked_role_eligibility_schedule_id: Some(role.eligibility_id.clone()),
            justification: Some(owned(justification)),
            schedule_info: Some(ScheduleInfo {
                expiration: ExpirationInfo {
                    expiration_type: owned("AfterDuration"),
                    duration: hours_duration_text(duration_hours),
                },
            }),
        },
    }
}

/// The body that asks to deactivate a resource role.
pub fn deactivation_body(role: &PimRole, principal_id: &str) -> (r: ActivationRequestBody)
    ensures
        r.properties.role_definition_id == role.role_definition_id,
        r.properties.principal_id@ == principal_id@,
        r.properties.request_type@ == "SelfDeactivate"@,
        r.properties.linked_role_eligibility_schedule_id == Some(role.eligibility_id),
        r.properties.justification is None,
        r.properties.schedule_info is None,
{
    ActivationRequestBody {
        properties: ActivationProperties {
            role_definition_id: role.role_definition_id.clone(),
            principal_id: owned(principal_id),
            request_type: owned("SelfDeactivate"),
            linked_role_eligibility_schedule_id: Some(role.eligibility_id.clone()),
            justification: None,
            schedule_info: None,
        },
    }
}

/// The error for a refused activation, from the status and response body.
pub fn activation_failure(status: u16, body: String) -> (e: PimError)
    ensures
        has_sub(body@, "RoleAssignmentExists"@) ==> e is RoleAssignmentExists,
        !has_sub(body@, "RoleAssignmentExists"@) && has_sub(body@, "ActiveDurationTooShort"@)
            ==> (e matches PimError::Other(m) && m@ == "Role was activated too recently to modify"@),
        !has_sub(body@, "RoleAssignmentExists"@) && !has_sub(body@, "ActiveDurationTooShort"@)
            ==> e == (PimError::Api { status, message: body }),
{
    if contains_str(body.as_str(), "RoleAssignmentExists") {
        return PimError::RoleAssignmentExists;
    }
    if contains_str(body.as_str(), "ActiveDurationTooShort") {
        return PimError::Other(owned("Role was activated too recently to modify"));
    }
    PimError::Api { status, message: body }
}

/// The error for a refused deactivation, from the status and response body.
pub fn deactivation_failure(status: u16, body: String) -> (e: PimError)
    ensures
        has_sub(body@, "ActiveDurationTooShort"@) ==> (e matches PimError::Other(m) && m@
            == "Role was activated too recently to deactivate"@),
        !has_sub(body@, "ActiveDurationTooShort"@) ==> e == (PimError::Api { status, message: body }),
{
    if contains_str(body.as_str(), "ActiveDurationTooShort") {
        return PimError::Other(owned("Role was activated too recently to deactivate"));
    }
    PimError::Api { status, message: body }
}

/// Where a role definition (with its permissions) is read.
pub fn role_definition_url(role_definition_id: &str) -> (r: String)
    ensures
        r@ == BASE_URL@ + role_definition_id@,
{
    join2(BASE_URL, role_definition_id)
}

/// The allowed actions of a list of permissions, in order.
pub open spec fn actions_of(perms: Seq<RolePermission>) -> Seq<Seq<char>>
    decreases perms.len(),
{
    if perms.len() == 0 {
        Seq::empty()
    } else {
        actions_of(perms.drop_last()) + perms.last().actions@.map_values(|a: String| a@)
    }
}

/// The actions a role definition allows, from all its permissions, in order.
pub fn permission_actions(resp: RoleDefinitionResponse) -> (r: Vec<String>)
    ensures
        r@.map_values(|a: String| a@) == actions_of(resp.properties.permissions@),
{
    let perms = resp.properties.permissions;
    let mut out: Vec<String> = Vec::new();
    let mut i: usize = 0;
    proof {
        assert(perms@.take(0) =~= Seq::<RolePermission>::empty());
        assert(out@.map_values(|a: String| a@) =~= Seq::<Seq<char>>::empty());
    }
    while i < perms.len()
        invariant
            i <= perms@.len(),
            out@.map_values(|a: String| a@) == actions_of(perms@.take(i as int)),
        decreases perms@.len() - i,
    {
        proof {
            assert(perms@.take(i + 1).drop_last() =~= perms@.take(i as int));
            assert(perms@.take(i + 1).last() == perms@[i as int]);
        }
        let acts = &perms[i].actions;
        let mut k: usize = 0;
        let ghost start = out@;
        while k < acts.len()
            invariant
                k <= acts@.len(),
                out@.map_values(|a: String| a@) == start.map_values(|a: String| a@) + acts@.take(k as int).map_values(|a: String| a@),
            decreases acts@.len() - k,
        {
            let ghost before = out@;
            out.push(acts[k].clone());
            proof {
                assert(out@.map_values(|a: String| a@) =~= before.map_values(|a: String| a@).push(acts@[k as int]@));
                assert(acts@.take(k + 1).map_values(|a: String| a@) =~= acts@.take(k as int).map_values(|a: String| a@).push(acts@[k as int]@));
                assert(out@.map_values(|a: String| a@) =~= start.map_values(|a: String| a@) + acts@.take(k + 1).map_values(|a: String| a@));
            }
            k = k + 1;
        }
        proof {
            assert(acts@.take(acts@.len() as int) =~= acts@);
        }
        i = i + 1;
    }
    proof {
        assert(perms@.take(perms@.len() as int) =~= perms@);
    }
    out
}

// ---------------------------------------------------------------------------
// The role list
// ---------------------------------------------------------------------------

/// The role's display name from the expanded properties, if given.
pub open spec fn listed_role_name(e: RoleEligibilityScheduleInstance) -> Option<Seq<char>> {
    match e.properties.expanded_properties {
        Some(ep) => match ep.role_definition {
            Some(rd) => match rd.display_name {
                Some(n) => Some(n@),
                None => None,
            },
            None => None,
        },
        None => None,
    }
}

/// The scope's display name from the expanded properties, if given.
pub open spec fn listed_scope_name(e: RoleEligibilityScheduleInstance) -> Option<Seq<char>> {
    match e.properties.expanded_properties {
        Some(ep) => match ep.scope {
            Some(s) => match s.display_name {
                Some(n) => Some(n@),
                None => None,
            },
            None => None,
        },
        None => None,
    }
}

/// The name of the subscription with the given id; the last one listed
/// wins when an id repeats.
pub open spec fn subscription_name(subs: Seq<SubscriptionInfo>, id: Seq<char>) -> Option<Seq<char>>
    decreases subs.len(),
{
    if subs.len() == 0 {
        None
    } else if subs.last().id@ == id {
        Some(subs.last().name@)
    } else {
        subscription_name(subs.drop_last(), id)
    }
}

/// The name shown for a role: the role's display name, or `Unknown Role`.
pub open spec fn resource_role_name(e: RoleEligibilityScheduleInstance) -> Seq<char> {
    match listed_role_name(e) {
        Some(n) => n,
        None => "Unknown Role"@,
    }
}

/// The scope name shown for a role: the scope's display name, else the
/// name of the subscription in the scope, else the last piece of the scope.
pub open spec fn resource_scope_display(e: RoleEligibilityScheduleInstance, subs: Seq<SubscriptionInfo>) -> Seq<char> {
    match listed_scope_name(e) {
        Some(n) => n,
        None => match sub_id_of(e.properties.scope@) {
            Some(sid) => match subscription_name(subs, sid) {
                Some(n) => n,
                None => scope_name_of(e.properties.scope@),
            },
            None => scope_name_of(e.properties.scope@),
        },
    }
}

/// An assignment counts as an activation when its type is `Activated`.
pub open spec fn is_activation(a: RoleAssignmentScheduleInstance) -> bool {
    a.properties.assignment_type matches Some(t) && t@ == "Activated"@
}

/// The end of the last activation of the role definition at the scope, if
/// it was activated at all.
pub open spec fn last_activation(
    active: Seq<RoleAssignmentScheduleInstance>,
    role_definition_id: Seq<char>,
    scope: Seq<char>,
) -> Option<Option<i64>>
    decreases active.len(),
{
    if active.len() == 0 {
        None
    } else {
        let a = active.last();
        if is_activation(a) && a.properties.role_definition_id@ == role_definition_id
            && a.properties.scope@ == scope {
            Some(a.properties.end_date_time)
        } else {
            last_activation(active.drop_last(), role_definition_id, scope)
        }
    }
}

/// The status of a role given the activations.
pub open spec fn activation_status(found: Option<Option<i64>>) -> RoleStatus {
    match found {
        Some(exp) => RoleStatus::Active { expires_at: exp },
        None => RoleStatus::Eligible,
    }
}

/// `r` is the role shown for eligibility `e`.
pub open spec fn is_resource_role(
    r: PimRole,
    e: RoleEligibilityScheduleInstance,
    active: Seq<RoleAssignmentScheduleInstance>,
    subs: Seq<SubscriptionInfo>,
) -> bool {
    &&& r.eligibility_id@ == e.id@
    &&& r.role_definition_id@ == e.properties.role_definition_id@
    &&& r.principal_id@ == e.properties.principal_id@
    &&& r.scope@ == e.properties.scope@
    &&& r.role_name@ == resource_role_name(e)
    &&& r.scope_display_name@ == resource_scope_display(e, subs)
    &&& r.role_type == RoleType::Resource
    &&& r.group_id is None
    &&& r.status == activation_status(
        last_activation(active, e.properties.role_definition_id@, e.properties.scope@),
    )
    &&& !r.selected
}

fn lookup_subscription_name(subs: &[SubscriptionInfo], id: &str) -> (r: Option<String>)
    ensures
        match r {
            Some(n) => subscription_name(subs@, id@) == Some(n@),
            None => subscription_name(subs@, id@) is None,
        },
{
    let mut k: usize = subs.len();
    proof {
        assert(subs@.take(subs@.len() as int) =~= subs@);
    }
    while k > 0
        invariant
            k <= subs@.len(),
            subscription_name(subs@, id@) == subscription_name(subs@.take(k as int), id@),
        decreases k,
    {
        proof {
            assert(subs@.take(k as int).drop_last() =~= subs@.take(k - 1));
            assert(subs@.take(k as int).last() == subs@[k - 1]);
        }
        if text_eq(subs[k - 1].id.as_str(), id) {
            return Some(subs[k - 1].name.clone());
        }
        k = k - 1;
    }
    proof {
        assert(subs@.take(0) =~= Seq::<SubscriptionInfo>::empty());
        assert(subs@.take(subs@.len() as int) =~= subs@);
    }
    None
}

fn opt_text(o: &Option<String>) -> (r: Option<&String>)
    ensures
        r == match o { Some(s) => Some(s), None => None::<&String> },
{
    match o {
        Some(s) => Some(s),
        None => None,
    }
}

/// The eligible role as shown before activations are applied.
fn eligible_role(e: &RoleEligibilityScheduleInstance, subs: &[SubscriptionInfo]) -> (r: PimRole)
    ensures
        is_resource_role(r, *e, Seq::empty(), subs@),
{
    let mut role_name: Option<String> = None;
    let mut scope_display: Option<String> = None;
    if let Some(ep) = &e.properties.expanded_properties {
        if let Some(rd) = &ep.role_definition {
            if let Some(n) = &rd.display_name {
                role_name = Some(n.clone());
            }
        }
        if let Some(sc) = &ep.scope {
            if let Some(n) = &sc.display_name {
                scope_display = Some(n.clone());
            }
        }
    }
    let role_name = match role_name {
        Some(n) => n,
        None => owned("Unknown Role"),
    };
    let scope_display = match scope_display {
        Some(n) => n,
        None => {
            let scope = e.properties.scope.as_str();
            match extract_sub_id(scope) {
                Some(sid) => match lookup_subscription_name(subs, sid.as_str()) {
                    Some(n) => n,
                    None => extract_scope_name(scope),
                },
                None => extract_scope_name(scope),
            }
        },
    };
    PimRole {
        eligibility_id: e.id.clone(),
        role_definition_id: e.properties.role_definition_id.clone(),
        principal_id: e.properties.principal_id.clone(),
        scope: e.properties.scope.clone(),
        role_name,
        scope_display_name: scope_display,
        role_type: RoleType::Resource,
        group_id: None,
        status: RoleStatus::Eligible,
        selected: false,
    }
}

fn activation_of(a: &RoleAssignmentScheduleInstance) -> (r: bool)
    ensures
        r == is_activation(*a),
{
    match &a.properties.assignment_type {
        Some(t) => text_eq(t.as_str(), "Activated"),
        None => false,
    }
}

/// The roles shown for the eligibilities, in the order listed, with the
/// activations applied.
pub fn resource_roles_unsorted(
    eligible: &[RoleEligibilityScheduleInstance],
    active: &[RoleAssignmentScheduleInstance],
    subscriptions: &[SubscriptionInfo],
) -> (r: Vec<PimRole>)
    ensures
        r@.len() == eligible@.len(),
        forall|i: int| 0 <= i < r@.len() ==> is_resource_role(#[trigger] r@[i], eligible@[i], active@, subscriptions@),
{
    let mut roles: Vec<PimRole> = Vec::new();
    let mut i: usize = 0;
    while i < eligible.len()
        invariant
            i <= eligible@.len(),
            roles@.len() == i,
            forall|k: int| 0 <= k < i ==> is_resource_role(#[trigger] roles@[k], eligible@[k], Seq::empty(), subscriptions@),
        decreases eligible@.len() - i,
    {
        roles.push(eligible_role(&eligible[i], subscriptions));
        i = i + 1;
    }
    // Mark active roles.
    let mut a: usize = 0;
    proof {
        assert(active@.take(0) =~= Seq::<RoleAssignmentScheduleInstance>::empty());
    }
    while a < active.len()
        invariant
            a <= active@.len(),
            roles@.len() == eligible@.len(),
            forall|k: int| 0 <= k < roles@.len() ==> is_resource_role(#[trigger] roles@[k], eligible@[k], active@.take(a as int), subscriptions@),
        decreases active@.len() - a,
    {
        let assignment = &active[a];
        let is_act = activation_of(assignment);
        proof {
            assert(active@.take(a + 1).drop_last() =~= active@.take(a as int));
            assert(active@.take(a + 1).last() == active@[a as int]);
        }
        let mut k: usize = 0;
        while k < roles.len()
            invariant
                a < active@.len(),
                *assignment == active@[a as int],
                active@.take(a + 1).drop_last() == active@.take(a as int),
                active@.take(a + 1).last() == active@[a as int],
                is_act == is_activation(*assignment),
                k <= roles@.len(),
                roles@.len() == eligible@.len(),
                forall|t: int| 0 <= t < k ==> is_resource_role(#[trigger] roles@[t], eligible@[t], active@.take(a + 1), subscriptions@),
                forall|t: int| k <= t < roles@.len() ==> is_resource_role(#[trigger] roles@[t], eligible@[t], active@.take(a as int), subscriptions@),
            decreases roles@.len() - k,
        {
            if is_act && roles[k].role_definition_id == assignment.properties.role_definition_id
                && roles[k].scope == assignment.properties.scope {
                roles[k].status = RoleStatus::Active { expires_at: assignment.properties.end_date_time };
            }
            k = k + 1;
        }
        a = a + 1;
    }
    proof {
        assert(active@.take(active@.len() as int) =~= active@);
    }
    roles
}

/// The records of the scope queries that succeeded, in the order of the
/// queries; a failed query contributes nothing.
pub open spec fn ok_records<T, E>(results: Seq<Result<Vec<T>, E>>) -> Seq<T>
    decreases results.len(),
{
    if results.len() == 0 {
        Seq::empty()
    } else {
        let first = match results[0] {
            Ok(v) => v@,
            Err(_) => Seq::empty(),
        };
        first + ok_records(results.drop_first())
    }
}

/// Joins the answers of the per-scope queries: the records of those that
/// succeeded, in order; failed queries are left out.
pub fn gather_scope_results<T, E>(results: Vec<Result<Vec<T>, E>>) -> (r: Vec<T>)
    ensures
        r@ == ok_records(results@),
{
    let ghost all = results@;
    let mut rest = results;
    let mut out: Vec<T> = Vec::new();
    while rest.len() > 0
        invariant
            out@ + ok_records(rest@) == ok_records(all),
        decreases rest@.len(),
    {
        let ghost before = rest@;
        let first = rest.remove(0);
        proof {
            assert(rest@ =~= before.drop_first());
        }
        match first {
            Ok(mut v) => {
                let ghost o = out@;
                let ghost vs = v@;
                out.append(&mut v);
                proof {
                    assert(o + (vs + ok_records(rest@)) =~= (o + vs) + ok_records(rest@));
                }
            },
            Err(_) => {
                proof {
                    assert(Seq::<T>::empty() + ok_records(rest@) =~= ok_records(rest@));
                }
            },
        }
    }
    proof {
        assert(out@ + ok_records(rest@) =~= out@);
    }
    out
}

/// The resource role list: one role per eligibility, activations applied,
/// sorted by scope name, then role name, active roles first; roles with
/// equal keys stay in the order of the eligibilities.
pub fn build_resource_roles(
    eligible: &[RoleEligibilityScheduleInstance],
    active: &[RoleAssignmentScheduleInstance],
    subscriptions: &[SubscriptionInfo],
) -> (r: Vec<PimRole>)
    ensures
        roles_sorted(r@, false),
        exists|u: Seq<PimRole>|
            {
                &&& u.len() == eligible@.len()
                &&& forall|i: int| 0 <= i < u.len() ==> is_resource_role(#[trigger] u[i], eligible@[i], active@, subscriptions@)
                &&& r@.to_multiset() == #[trigger] u.to_multiset()
                &&& forall|k: SortKey| #[trigger] ties_of(r@, k, false) == ties_of(u, k, false)
            },
{
    let mut roles = resource_roles_unsorted(eligible, active, subscriptions);
    let ghost u = roles@;
    sort_roles(&mut roles, false);
    proof {
        assert(roles@.to_multiset() == u.to_multiset());
    }
    roles
}

} // verus!
