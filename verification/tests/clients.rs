use azure_pim_tui::auth::{decode_jwt_payload, enabled_subscriptions, identity_from_claims, ArmSubscription, JwtClaims, SubscriptionInfo};
use azure_pim_tui::error::PimError;
use azure_pim_tui::graph_credential::{
    device_code_failure, device_code_url, device_flow_deadline, device_poll_decision, device_token, poll_interval, refresh_failure,
    refreshed_token, token_step, token_step_now, token_url, CachedToken, PollDecision, TokenErrorResponse,
    TokenResponse, TokenStep,
};
use azure_pim_tui::group::{
    assemble_group_fetch, build_group_roles, group_access_url, group_activation_failure, group_activation_request,
    group_deactivation_request, group_name_filters, principal_eq_filter, record_group_names, unique_group_ids,
    PageRequest, PagedList,
};
use azure_pim_tui::models::{
    AssignmentProperties, EligibilityProperties, ExpandedProperties, GraphGroup, GraphListResponse,
    GroupAssignmentScheduleInstance, GroupEligibilityScheduleInstance, PimRole, RoleAssignmentScheduleInstance,
    RoleDefinitionInfo, RoleEligibilityScheduleInstance, RoleFetch, RoleStatus, RoleType, ScopeInfo,
};
use azure_pim_tui::pim::{
    activation_body, activation_failure, assignment_instances_url, build_resource_roles, deactivation_body,
    deactivation_failure, eligibility_schedules_url, extract_scope_name, extract_sub_id, hours_duration_text,
    principal_filter, resource_scopes, resource_roles_unsorted, schedule_request_url, gather_scope_results,
};
use azure_pim_tui::text_map::TextMap;

fn eligibility(id: &str, rd: &str, scope: &str, role_name: Option<&str>, scope_name: Option<&str>) -> RoleEligibilityScheduleInstance {
    RoleEligibilityScheduleInstance {
        id: id.to_string(),
        properties: EligibilityProperties {
            role_definition_id: rd.to_string(),
            scope: scope.to_string(),
            principal_id: "p".to_string(),
            expanded_properties: Some(ExpandedProperties {
                role_definition: Some(RoleDefinitionInfo { display_name: role_name.map(|s| s.to_string()) }),
                scope: Some(ScopeInfo { display_name: scope_name.map(|s| s.to_string()) }),
                principal: None,
            }),
        },
    }
}

fn assignment(rd: &str, scope: &str, kind: Option<&str>, end: Option<i64>) -> RoleAssignmentScheduleInstance {
    RoleAssignmentScheduleInstance {
        id: "a".to_string(),
        properties: AssignmentProperties {
            role_definition_id: rd.to_string(),
            scope: scope.to_string(),
            principal_id: "p".to_string(),
            assignment_type: kind.map(|s| s.to_string()),
            end_date_time: end,
            expanded_properties: None,
        },
    }
}

fn sub(id: &str, name: &str) -> SubscriptionInfo {
    SubscriptionInfo { id: id.to_string(), name: name.to_string() }
}

#[test]
fn scope_parsing() {
    assert_eq!(extract_sub_id("/subscriptions/abc/resourceGroups/rg"), Some("abc".to_string()));
    assert_eq!(extract_sub_id("/subscriptions/abc"), Some("abc".to_string()));
    assert_eq!(extract_sub_id("/subscriptions"), None);
    assert_eq!(extract_sub_id("/providers/x"), None);
    assert_eq!(extract_sub_id("/a/subscriptions/b/subscriptions/c"), Some("b".to_string()));
    assert_eq!(extract_scope_name("/subscriptions/abc/resourceGroups/rg"), "rg");
    assert_eq!(extract_scope_name("/subscriptions/abc"), "abc");
    assert_eq!(extract_scope_name("abc"), "abc");
    assert_eq!(extract_scope_name("/abc"), "/abc");
}

#[test]
fn scopes_from_subscriptions() {
    let scopes = resource_scopes(&[sub("s1", "One"), sub("s2", "Two")]).unwrap();
    assert_eq!(scopes, vec!["/subscriptions/s1".to_string(), "/subscriptions/s2".to_string()]);
    match resource_scopes(&[]) {
        Err(PimError::Other(m)) => assert_eq!(m, "No subscriptions found. Run `az login` first."),
        _ => panic!("error expected"),
    }
}

#[test]
fn request_addresses() {
    assert_eq!(principal_filter("p1"), "assignedTo('p1') and atScope()");
    assert_eq!(
        eligibility_schedules_url("/subscriptions/s"),
        "https://management.azure.com/subscriptions/s/providers/Microsoft.Authorization/roleEligibilitySchedules"
    );
    assert_eq!(
        assignment_instances_url("/subscriptions/s"),
        "https://management.azure.com/subscriptions/s/providers/Microsoft.Authorization/roleAssignmentScheduleInstances"
    );
    assert_eq!(
        schedule_request_url("/subscriptions/s", "id1"),
        "https://management.azure.com/subscriptions/s/providers/Microsoft.Authorization/roleAssignmentScheduleRequests/id1"
    );
    assert_eq!(hours_duration_text(8), "PT8H");
    assert_eq!(hours_duration_text(24), "PT24H");
    assert_eq!(principal_eq_filter("p1"), "principalId eq 'p1'");
    assert_eq!(
        group_access_url("eligibilityScheduleInstances"),
        "https://graph.microsoft.com/v1.0/identityGovernance/privilegedAccess/group/eligibilityScheduleInstances"
    );
    assert_eq!(token_url("t"), "https://login.microsoftonline.com/t/oauth2/v2.0/token");
    assert_eq!(device_code_url("t"), "https://login.microsoftonline.com/t/oauth2/v2.0/devicecode");
}

#[test]
fn resource_roles_are_named_marked_and_sorted() {
    let eligible = vec![
        eligibility("e1", "rd-r", "/subscriptions/s1", Some("Reader"), None),
        eligibility("e2", "rd-c", "/subscriptions/s1", Some("Contributor"), None),
        eligibility("e3", "rd-x", "/subscriptions/s2/resourceGroups/rg", None, Some("Alpha")),
        eligibility("e4", "rd-y", "/providers/Microsoft.Management/managementGroups/mg", None, None),
    ];
    let active = vec![
        assignment("rd-c", "/subscriptions/s1", Some("Activated"), Some(5000)),
        assignment("rd-r", "/subscriptions/s1", Some("Assigned"), None),
    ];
    let subs = vec![sub("s1", "Beta")];
    let roles = build_resource_roles(&eligible, &active, &subs);
    let names: Vec<(&str, &str)> = roles.iter().map(|r| (r.scope_display_name.as_str(), r.role_name.as_str())).collect();
    assert_eq!(names, vec![("Alpha", "Unknown Role"), ("Beta", "Contributor"), ("Beta", "Reader"), ("mg", "Unknown Role")]);
    match roles[1].status {
        RoleStatus::Active { expires_at } => assert_eq!(expires_at, Some(5000)),
        _ => panic!("active expected"),
    }
    assert!(roles[2].status.is_eligible());
    assert_eq!(roles[1].eligibility_id, "e2");
    assert_eq!(roles[1].role_type, RoleType::Resource);
    assert!(roles.iter().all(|r| !r.selected && r.group_id.is_none()));
}

#[test]
fn active_role_sorts_before_eligible_twin() {
    let eligible = vec![
        eligibility("e1", "rd-a", "/subscriptions/s1/x", Some("Reader"), Some("Same")),
        eligibility("e2", "rd-b", "/subscriptions/s1/y", Some("Reader"), Some("Same")),
    ];
    let active = vec![assignment("rd-b", "/subscriptions/s1/y", Some("Activated"), None)];
    let roles = build_resource_roles(&eligible, &active, &[]);
    assert_eq!(roles[0].eligibility_id, "e2");
    assert_eq!(roles[1].eligibility_id, "e1");
    let unsorted = resource_roles_unsorted(&eligible, &active, &[]);
    assert_eq!(unsorted[0].eligibility_id, "e1");
}

#[test]
fn later_subscription_name_wins() {
    let eligible = vec![eligibility("e1", "rd", "/subscriptions/s1", Some("R"), None)];
    let roles = build_resource_roles(&eligible, &[], &[sub("s1", "First"), sub("s1", "Second")]);
    assert_eq!(roles[0].scope_display_name, "Second");
}

fn sample_role() -> PimRole {
    PimRole {
        eligibility_id: "e1".to_string(),
        role_definition_id: "rd1".to_string(),
        principal_id: "p".to_string(),
        scope: "/subscriptions/s".to_string(),
        role_name: "Reader".to_string(),
        scope_display_name: "Sub".to_string(),
        role_type: RoleType::Resource,
        group_id: None,
        status: RoleStatus::Eligible,
        selected: false,
    }
}

#[test]
fn activation_bodies() {
    let role = sample_role();
    let body = activation_body(&role, "me", "testing", 4);
    assert_eq!(body.properties.role_definition_id, "rd1");
    assert_eq!(body.properties.principal_id, "me");
    assert_eq!(body.properties.request_type, "SelfActivate");
    assert_eq!(body.properties.linked_role_eligibility_schedule_id.as_deref(), Some("e1"));
    assert_eq!(body.properties.justification.as_deref(), Some("testing"));
    let si = body.properties.schedule_info.unwrap();
    assert_eq!(si.expiration.expiration_type, "AfterDuration");
    assert_eq!(si.expiration.duration, "PT4H");
    let off = deactivation_body(&role, "me");
    assert_eq!(off.properties.request_type, "SelfDeactivate");
    assert!(off.properties.justification.is_none());
    assert!(off.properties.schedule_info.is_none());
}

#[test]
fn activation_failures() {
    assert!(matches!(activation_failure(409, "code RoleAssignmentExists".to_string()), PimError::RoleAssignmentExists));
    match activation_failure(400, "ActiveDurationTooShort".to_string()) {
        PimError::Other(m) => assert_eq!(m, "Role was activated too recently to modify"),
        _ => panic!(),
    }
    match activation_failure(500, "boom".to_string()) {
        PimError::Api { status, message } => {
            assert_eq!(status, 500);
            assert_eq!(message, "boom");
        }
        _ => panic!(),
    }
    match deactivation_failure(400, "x ActiveDurationTooShort y".to_string()) {
        PimError::Other(m) => assert_eq!(m, "Role was activated too recently to deactivate"),
        _ => panic!(),
    }
    assert!(matches!(deactivation_failure(403, "no".to_string()), PimError::Api { status: 403, .. }));
    assert!(matches!(group_activation_failure(400, "has already been activated".to_string()), PimError::RoleAssignmentExists));
    assert!(matches!(group_activation_failure(400, "other".to_string()), PimError::Api { status: 400, .. }));
}

#[test]
fn error_messages() {
    assert_eq!(PimError::Auth("x".to_string()).message(), "Authentication failed: x");
    assert_eq!(PimError::Request("x".to_string()).message(), "API request failed: x");
    assert_eq!(PimError::Parse("x".to_string()).message(), "Failed to parse response: x");
    assert_eq!(PimError::RoleAssignmentExists.message(), "Role assignment already exists");
    assert_eq!(PimError::Api { status: 404, message: "gone".to_string() }.message(), "API error (404): gone");
    assert_eq!(PimError::Other("plain".to_string()).message(), "plain");
}

fn group_eligibility(id: &str, group: &str, access: &str) -> GroupEligibilityScheduleInstance {
    GroupEligibilityScheduleInstance {
        id: id.to_string(),
        group_id: group.to_string(),
        principal_id: "p".to_string(),
        access_id: access.to_string(),
        member_type: None,
    }
}

fn group_assignment(group: &str, access: &str, end: Option<i64>) -> GroupAssignmentScheduleInstance {
    GroupAssignmentScheduleInstance {
        id: "a".to_string(),
        group_id: group.to_string(),
        principal_id: "p".to_string(),
        access_id: access.to_string(),
        assignment_type: None,
        end_date_time: end,
    }
}

#[test]
fn group_roles_are_named_marked_and_sorted() {
    let eligible = vec![
        group_eligibility("e1", "g2", "member"),
        group_eligibility("e2", "g1", "owner"),
        group_eligibility("e3", "g1", "member"),
    ];
    let active = vec![group_assignment("g1", "owner", Some(77))];
    let mut names = TextMap::new();
    names.insert("g1".to_string(), "Admins".to_string());
    let roles = build_group_roles(&eligible, &active, &names);
    let shown: Vec<(&str, &str)> = roles.iter().map(|r| (r.role_name.as_str(), r.scope_display_name.as_str())).collect();
    assert_eq!(shown, vec![("Admins", "Member"), ("Admins", "Owner"), ("g2", "Member")]);
    assert!(roles[0].status.is_eligible());
    assert!(matches!(roles[1].status, RoleStatus::Active { expires_at: Some(77) }));
    assert_eq!(roles[1].scope, "Group: Admins");
    assert_eq!(roles[1].role_type, RoleType::GroupOwner);
    assert_eq!(roles[1].group_id.as_deref(), Some("g1"));
    assert_eq!(roles[1].role_definition_id, "");
}

#[test]
fn group_fetch_outcomes() {
    let names: TextMap<String> = TextMap::new();
    let fetch: RoleFetch = assemble_group_fetch(&[], None, &names);
    assert!(fetch.roles.is_empty());
    assert!(fetch.stale_status_scopes.is_empty());
    let eligible = vec![group_eligibility("e1", "g1", "member")];
    let stale = assemble_group_fetch(&eligible, None, &names);
    assert_eq!(stale.roles.len(), 1);
    assert_eq!(stale.stale_status_scopes, vec![String::new()]);
    let active = vec![group_assignment("g1", "member", None)];
    let fresh = assemble_group_fetch(&eligible, Some(&active), &names);
    assert!(fresh.stale_status_scopes.is_empty());
    assert!(fresh.roles[0].status.is_active());
}

#[test]
fn group_requests() {
    let mut role = sample_role();
    role.role_type = RoleType::GroupOwner;
    role.group_id = Some("g1".to_string());
    let req = group_activation_request(&role, "me", "why", 2);
    assert_eq!(req.access_id, "owner");
    assert_eq!(req.group_id, "g1");
    assert_eq!(req.action, "selfActivate");
    assert_eq!(req.justification.as_deref(), Some("why"));
    let si = req.schedule_info.unwrap();
    assert_eq!(si.expiration.expiration_type, "afterDuration");
    assert_eq!(si.expiration.duration, "PT2H");
    role.role_type = RoleType::GroupMember;
    role.group_id = None;
    let off = group_deactivation_request(&role, "me");
    assert_eq!(off.access_id, "member");
    assert_eq!(off.group_id, "");
    assert_eq!(off.action, "selfDeactivate");
    assert!(off.justification.is_none() && off.schedule_info.is_none());
}

#[test]
fn group_ids_and_name_filters() {
    let eligible = vec![
        group_eligibility("e1", "a", "member"),
        group_eligibility("e2", "b", "owner"),
        group_eligibility("e3", "a", "owner"),
    ];
    assert_eq!(unique_group_ids(&eligible), vec!["a".to_string(), "b".to_string()]);
    let ids: Vec<String> = (0..16).map(|i| format!("g{i}")).collect();
    let filters = group_name_filters(&ids);
    assert_eq!(filters.len(), 2);
    assert!(filters[0].starts_with("id in ('g0','g1',"));
    assert!(filters[0].ends_with("'g14')"));
    assert_eq!(filters[1], "id in ('g15')");
    assert!(group_name_filters(&[]).is_empty());
    let mut names = TextMap::new();
    record_group_names(&mut names, vec![
        GraphGroup { id: "a".to_string(), display_name: Some("Alpha".to_string()) },
        GraphGroup { id: "b".to_string(), display_name: None },
    ]);
    assert_eq!(names.get("a").unwrap(), "Alpha");
    assert!(names.get("b").is_none());
}

#[test]
fn paging_follows_links_and_stops() {
    let mut list: PagedList<u32> = PagedList::new();
    assert!(matches!(list.next_request(), Some(PageRequest::First)));
    list.on_page(GraphListResponse { value: vec![1, 2], next_link: Some("next".to_string()) });
    match list.next_request() {
        Some(PageRequest::Link(l)) => assert_eq!(l, "next"),
        _ => panic!("link expected"),
    }
    list.on_page(GraphListResponse { value: vec![3], next_link: None });
    assert!(list.next_request().is_none());
    assert_eq!(list.into_items(), vec![1, 2, 3]);
}

#[test]
fn paging_is_bounded() {
    let mut list: PagedList<u32> = PagedList::new();
    let mut pages = 0;
    while list.next_request().is_some() {
        list.on_page(GraphListResponse { value: vec![pages], next_link: Some("same".to_string()) });
        pages += 1;
    }
    assert_eq!(pages, 100);
    assert_eq!(list.items.len(), 100);
}

#[test]
fn paging_refusals() {
    let mut list: PagedList<u32> = PagedList::new();
    list.on_page(GraphListResponse { value: vec![7], next_link: Some("n".to_string()) });
    assert_eq!(list.on_refused(403, "no".to_string()).unwrap(), Vec::<u32>::new());
    for status in [400u16, 404] {
        let mut read: PagedList<u32> = PagedList::new();
        read.on_page(GraphListResponse { value: vec![1, 2], next_link: Some("n".to_string()) });
        assert!(read.on_refused(status, String::new()).unwrap().is_empty());
    }
    let other: PagedList<u32> = PagedList::new();
    match other.on_refused(429, "slow".to_string()) {
        Err(PimError::Api { status, message }) => {
            assert_eq!(status, 429);
            assert_eq!(message, "slow");
        }
        _ => panic!("error expected"),
    }
}

#[test]
fn jwt_payload_decoding() {
    let token = "header.eyJvaWQiOiJhYmMifQ.signature";
    assert_eq!(decode_jwt_payload(token).unwrap(), b"{\"oid\":\"abc\"}".to_vec());
    assert_eq!(decode_jwt_payload("h.-_-_.s").unwrap(), vec![0xfb, 0xff, 0xbf]);
    match decode_jwt_payload("only.two") {
        Err(PimError::Parse(m)) => assert_eq!(m, "Invalid JWT format"),
        _ => panic!(),
    }
    match decode_jwt_payload("a.b!c.d") {
        Err(PimError::Other(m)) => assert_eq!(m, "Failed to decode JWT payload"),
        _ => panic!(),
    }
}

#[test]
fn identity_from_token_claims() {
    let id = identity_from_claims(JwtClaims { oid: Some("o".to_string()), unique_name: Some("u".to_string()), upn: Some("p".to_string()), tid: None }).unwrap();
    assert_eq!(id.principal_id, "o");
    assert_eq!(id.user_display, "p");
    let id = identity_from_claims(JwtClaims { oid: Some("o".to_string()), unique_name: Some("u".to_string()), upn: None, tid: None }).unwrap();
    assert_eq!(id.user_display, "u");
    let id = identity_from_claims(JwtClaims { oid: Some("o".to_string()), unique_name: None, upn: None, tid: None }).unwrap();
    assert_eq!(id.user_display, "unknown");
    match identity_from_claims(JwtClaims { oid: None, unique_name: None, upn: None, tid: None }) {
        Err(PimError::Parse(m)) => assert_eq!(m, "No 'oid' claim in token"),
        _ => panic!(),
    }
}

#[test]
fn only_enabled_subscriptions() {
    let listed = vec![
        ArmSubscription { id: "1".to_string(), name: "A".to_string(), state: Some("Enabled".to_string()) },
        ArmSubscription { id: "2".to_string(), name: "B".to_string(), state: Some("Disabled".to_string()) },
        ArmSubscription { id: "3".to_string(), name: "C".to_string(), state: None },
    ];
    let subs = enabled_subscriptions(listed);
    assert_eq!(subs.len(), 1);
    assert_eq!(subs[0].id, "1");
    assert_eq!(subs[0].name, "A");
}

fn cached(expires_at: u64, refresh: Option<&str>) -> Option<CachedToken> {
    Some(CachedToken { access_token: "acc".to_string(), refresh_token: refresh.map(|s| s.to_string()), expires_at })
}

#[test]
fn graph_token_steps() {
    let now = 1_000_000;
    assert!(matches!(token_step(&cached(now + 301, None), now), TokenStep::Use(t) if t == "acc"));
    assert!(matches!(token_step(&cached(now + 300, Some("r")), now), TokenStep::Refresh(t) if t == "r"));
    assert!(matches!(token_step(&cached(now, None), now), TokenStep::DeviceCode));
    assert!(matches!(token_step(&None, now), TokenStep::DeviceCode));
    assert!(matches!(token_step_now(&cached(u64::MAX, None)), Some(TokenStep::Use(_))));
}

#[test]
fn graph_token_keeping() {
    let t = refreshed_token(TokenResponse { access_token: "a2".to_string(), refresh_token: None, expires_in: 3600 }, "r1", 100);
    assert_eq!(t.access_token, "a2");
    assert_eq!(t.refresh_token.as_deref(), Some("r1"));
    assert_eq!(t.expires_at, 3700);
    let t = refreshed_token(TokenResponse { access_token: "a3".to_string(), refresh_token: Some("r2".to_string()), expires_in: 10 }, "r1", 100);
    assert_eq!(t.refresh_token.as_deref(), Some("r2"));
    let d = device_token(TokenResponse { access_token: "a4".to_string(), refresh_token: None, expires_in: 5 }, 1);
    assert_eq!(d.expires_at, 6);
    assert!(d.refresh_token.is_none());
    assert_eq!(poll_interval(1), 5);
    assert_eq!(poll_interval(9), 9);
}

fn err(e: &str, d: Option<&str>) -> Option<TokenErrorResponse> {
    Some(TokenErrorResponse { error: e.to_string(), error_description: d.map(|s| s.to_string()) })
}

#[test]
fn device_poll_answers() {
    assert!(matches!(device_poll_decision(err("authorization_pending", None), ""), PollDecision::Wait));
    assert!(matches!(device_poll_decision(err("slow_down", None), ""), PollDecision::SlowDown));
    match device_poll_decision(err("expired_token", None), "") {
        PollDecision::Fail(PimError::Auth(m)) => assert_eq!(m, "Device code expired. Try again."),
        _ => panic!(),
    }
    match device_poll_decision(err("access_denied", Some("user said no")), "") {
        PollDecision::Fail(PimError::Auth(m)) => assert_eq!(m, "Device code flow failed: access_denied - user said no"),
        _ => panic!(),
    }
    match device_poll_decision(err("bad", None), "") {
        PollDecision::Fail(PimError::Auth(m)) => assert_eq!(m, "Device code flow failed: bad - "),
        _ => panic!(),
    }
    match device_poll_decision(None, "<html>") {
        PollDecision::Fail(PimError::Auth(m)) => assert_eq!(m, "Unexpected response: <html>"),
        _ => panic!(),
    }
    assert!(matches!(refresh_failure("x"), PimError::Auth(m) if m == "Token refresh failed: x"));
    assert!(matches!(device_code_failure("y"), PimError::Auth(m) if m == "Device code request failed: y"));
}

#[test]
fn equal_keys_keep_listing_order() {
    // Same scope name, role name and status: the eligibilities' order stays.
    let eligible = vec![
        eligibility("e1", "rd-a", "/subscriptions/s1/x", Some("Reader"), Some("Same")),
        eligibility("e0", "rd-z", "/subscriptions/s1/a", Some("Admin"), Some("Same")),
        eligibility("e2", "rd-b", "/subscriptions/s1/y", Some("Reader"), Some("Same")),
        eligibility("e3", "rd-c", "/subscriptions/s1/z", Some("Reader"), Some("Same")),
    ];
    let roles = build_resource_roles(&eligible, &[], &[]);
    let ids: Vec<&str> = roles.iter().map(|r| r.eligibility_id.as_str()).collect();
    assert_eq!(ids, vec!["e0", "e1", "e2", "e3"]);
    let reversed: Vec<_> = eligible.into_iter().rev().collect();
    let roles = build_resource_roles(&reversed, &[], &[]);
    let ids: Vec<&str> = roles.iter().map(|r| r.eligibility_id.as_str()).collect();
    assert_eq!(ids, vec!["e0", "e3", "e2", "e1"]);
}

#[test]
fn device_flow_times_out_after_expiry() {
    assert!(device_flow_deadline(0, 900).is_none());
    assert!(device_flow_deadline(900_000, 900).is_none());
    match device_flow_deadline(900_001, 900) {
        Some(PimError::Auth(m)) => assert_eq!(m, "Device code flow timed out"),
        _ => panic!("timeout expected"),
    }
    assert!(device_flow_deadline(1, 0).is_some());
}

#[test]
fn failed_scope_queries_are_left_out() {
    let results: Vec<Result<Vec<u32>, String>> =
        vec![Ok(vec![1, 2]), Err("403".to_string()), Ok(vec![]), Ok(vec![3]), Err("x".to_string())];
    assert_eq!(gather_scope_results(results), vec![1, 2, 3]);
    let none: Vec<Result<Vec<u32>, String>> = vec![Err("a".to_string())];
    assert!(gather_scope_results(none).is_empty());
}
