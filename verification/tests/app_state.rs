use azure_pim_tui::app::{ActiveModal, App, AuthData, BgEvent, ModalField, Pane, ViewFilter};
use azure_pim_tui::auth::SubscriptionInfo;
use azure_pim_tui::config::Config;
use azure_pim_tui::event::{handle_key, EventAction, KeyCode, KeyEvent};
use azure_pim_tui::event_modal::{handle_modal_key, ModalAction};
use azure_pim_tui::models::{PimRole, RoleStatus, RoleType};
use azure_pim_tui::session::{follow_up, refresh_due, FollowUp};
use azure_pim_tui::text_map::TextMap;

fn role(name: &str, scope: &str, status: RoleStatus) -> PimRole {
    PimRole {
        eligibility_id: format!("e-{name}"),
        role_definition_id: format!("rd-{name}"),
        principal_id: "p".to_string(),
        scope: format!("/subscriptions/{scope}"),
        role_name: name.to_string(),
        scope_display_name: scope.to_string(),
        role_type: RoleType::Resource,
        group_id: None,
        status,
        selected: false,
    }
}

fn key(c: char) -> KeyEvent {
    KeyEvent { code: KeyCode::Char(c), control: false }
}

fn code(k: KeyCode) -> KeyEvent {
    KeyEvent { code: k, control: false }
}

fn loaded_app() -> App {
    let mut app = App::new(Config::default());
    let roles = vec![
        role("Reader", "Dev", RoleStatus::Eligible),
        role("Contributor", "Dev", RoleStatus::Active { expires_at: Some(100) }),
        role("Owner", "Prod", RoleStatus::Eligible),
    ];
    app.handle_bg_event(BgEvent::RolesLoaded(Ok(roles)));
    app
}

#[test]
fn new_app_starts_authenticating() {
    let app = App::new(Config::default());
    assert_eq!(app.status_message, "Authenticating...");
    assert_eq!(app.group_status_message, "Press Tab to load groups");
    assert!(app.loading);
    assert_eq!(app.active_pane, Pane::Resources);
    assert_eq!(app.view_filter, ViewFilter::All);
    assert!(app.modal.is_closed());
    assert_eq!(app.config.default_duration_hours, 8);
    assert_eq!(app.config.default_justification, "Local development");
    assert_eq!(app.config.auto_refresh_secs, 60);
}

#[test]
fn labels_and_cycles() {
    assert_eq!(Pane::Resources.label(), "Resources");
    assert_eq!(Pane::Groups.label(), "Groups");
    assert_eq!(Pane::Resources.toggle(), Pane::Groups);
    assert_eq!(Pane::Resources.toggle().toggle(), Pane::Resources);
    assert_eq!(ViewFilter::All.cycle(), ViewFilter::Eligible);
    assert_eq!(ViewFilter::Eligible.cycle(), ViewFilter::Active);
    assert_eq!(ViewFilter::Active.cycle(), ViewFilter::All);
    assert_eq!(ViewFilter::All.label(), "All");
    assert_eq!(ViewFilter::Active.label(), "Active");
    assert_eq!(ViewFilter::Eligible.cycle().cycle().cycle(), ViewFilter::Eligible);
}

#[test]
fn roles_loaded_fills_the_list() {
    let app = loaded_app();
    assert_eq!(app.filtered_indices, vec![0, 1, 2]);
    assert_eq!(app.status_message, "Ready");
    assert!(!app.loading);
    assert!(app.last_refresh.is_some());
    assert_eq!(app.eligible_count(), 2);
    assert_eq!(app.active_count(), 1);
    assert_eq!(app.selected_role().unwrap().role_name, "Reader");
}

#[test]
fn view_filter_selects_roles_by_status() {
    let mut app = loaded_app();
    assert!(matches!(handle_key(&mut app, key('v')), EventAction::Continue));
    assert_eq!(app.view_filter, ViewFilter::Eligible);
    assert_eq!(app.filtered_indices, vec![0, 2]);
    handle_key(&mut app, key('v'));
    assert_eq!(app.filtered_indices, vec![1]);
    handle_key(&mut app, key('v'));
    assert_eq!(app.filtered_indices, vec![0, 1, 2]);
}

#[test]
fn search_ignores_case_and_matches_scope_names() {
    let mut app = loaded_app();
    handle_key(&mut app, key('/'));
    assert!(app.filtering);
    for c in "rEaD".chars() {
        handle_key(&mut app, key(c));
    }
    assert_eq!(app.filter_text, "rEaD");
    assert_eq!(app.filtered_indices, vec![0]);
    handle_key(&mut app, code(KeyCode::Backspace));
    handle_key(&mut app, code(KeyCode::Backspace));
    handle_key(&mut app, code(KeyCode::Backspace));
    handle_key(&mut app, code(KeyCode::Backspace));
    assert_eq!(app.filtered_indices, vec![0, 1, 2]);
    for c in "prod".chars() {
        handle_key(&mut app, key(c));
    }
    assert_eq!(app.filtered_indices, vec![2]);
    handle_key(&mut app, code(KeyCode::Enter));
    assert!(!app.filtering);
    assert_eq!(app.filter_text, "prod");
    handle_key(&mut app, key('/'));
    handle_key(&mut app, code(KeyCode::Esc));
    assert_eq!(app.filter_text, "");
    assert_eq!(app.filtered_indices, vec![0, 1, 2]);
}

#[test]
fn selection_wraps_around() {
    let mut app = loaded_app();
    handle_key(&mut app, key('k'));
    assert_eq!(app.selected, 2);
    handle_key(&mut app, key('j'));
    assert_eq!(app.selected, 0);
    handle_key(&mut app, code(KeyCode::Down));
    handle_key(&mut app, code(KeyCode::Down));
    handle_key(&mut app, code(KeyCode::Down));
    assert_eq!(app.selected, 0);
    handle_key(&mut app, key('G'));
    assert_eq!(app.selected, 2);
    handle_key(&mut app, key('g'));
    assert_eq!(app.selected, 0);
}

#[test]
fn selection_clamps_when_list_shrinks() {
    let mut app = loaded_app();
    handle_key(&mut app, key('G'));
    assert_eq!(app.selected, 2);
    handle_key(&mut app, key('v'));
    handle_key(&mut app, key('v'));
    assert_eq!(app.filtered_indices, vec![1]);
    assert_eq!(app.selected, 0);
}

#[test]
fn detail_scroll_with_control_keys() {
    let mut app = loaded_app();
    handle_key(&mut app, KeyEvent { code: KeyCode::Char('d'), control: true });
    handle_key(&mut app, KeyEvent { code: KeyCode::Char('d'), control: true });
    assert_eq!(app.detail_scroll, 10);
    handle_key(&mut app, KeyEvent { code: KeyCode::Char('u'), control: true });
    assert_eq!(app.detail_scroll, 5);
    handle_key(&mut app, KeyEvent { code: KeyCode::Char('u'), control: true });
    handle_key(&mut app, KeyEvent { code: KeyCode::Char('u'), control: true });
    assert_eq!(app.detail_scroll, 0);
    handle_key(&mut app, KeyEvent { code: KeyCode::Char('c'), control: true });
    assert!(app.should_quit);
}

#[test]
fn quit_refresh_help_and_pane_switch() {
    let mut app = loaded_app();
    assert!(matches!(handle_key(&mut app, key('r')), EventAction::Refresh));
    assert!(matches!(handle_key(&mut app, code(KeyCode::F(5))), EventAction::Refresh));
    handle_key(&mut app, key('?'));
    assert!(matches!(app.modal, ActiveModal::Help));
    assert_eq!(handle_modal_key(&mut app, key('x')).is_none(), true);
    assert!(app.modal.is_closed());
    assert!(matches!(handle_key(&mut app, code(KeyCode::Tab)), EventAction::PaneSwitch));
    assert_eq!(app.active_pane, Pane::Groups);
    assert!(app.needs_group_fetch());
    assert_eq!(app.filtered_indices.len(), 0);
    assert_eq!(app.active_status(), "Press Tab to load groups");
    handle_key(&mut app, key('q'));
    assert!(app.should_quit);
}

#[test]
fn activate_dialog_uses_defaults() {
    let mut app = loaded_app();
    handle_key(&mut app, key('a'));
    match &app.modal {
        ActiveModal::Activate { role_index, justification, duration, focused_field } => {
            assert_eq!(*role_index, 0);
            assert_eq!(justification, "Local development");
            assert_eq!(duration, "8");
            assert_eq!(*focused_field, ModalField::Justification);
        }
        _ => panic!("activation dialog expected"),
    }
    match handle_modal_key(&mut app, code(KeyCode::Enter)) {
        Some(ModalAction::Activate { indices, justification, duration_hours }) => {
            assert_eq!(indices, vec![0]);
            assert_eq!(justification, "Local development");
            assert_eq!(duration_hours, 8);
        }
        _ => panic!("activation expected"),
    }
    assert!(app.modal.is_closed());
}

#[test]
fn activate_dialog_editing() {
    let mut app = loaded_app();
    handle_key(&mut app, code(KeyCode::Enter));
    for _ in 0..11 {
        handle_modal_key(&mut app, code(KeyCode::Backspace));
    }
    for c in "ticket 42".chars() {
        handle_modal_key(&mut app, key(c));
    }
    handle_modal_key(&mut app, code(KeyCode::Tab));
    handle_modal_key(&mut app, code(KeyCode::Backspace));
    for c in "1x2".chars() {
        handle_modal_key(&mut app, key(c));
    }
    match &app.modal {
        ActiveModal::Activate { justification, duration, focused_field, .. } => {
            assert_eq!(justification, "Local ticket 42");
            assert_eq!(duration, "12");
            assert_eq!(*focused_field, ModalField::Duration);
        }
        _ => panic!("activation dialog expected"),
    }
    match handle_modal_key(&mut app, code(KeyCode::Enter)) {
        Some(ModalAction::Activate { duration_hours, .. }) => assert_eq!(duration_hours, 12),
        _ => panic!("activation expected"),
    }
}

#[test]
fn empty_duration_falls_back_to_default() {
    let mut app = loaded_app();
    handle_key(&mut app, key('a'));
    handle_modal_key(&mut app, code(KeyCode::BackTab));
    handle_modal_key(&mut app, code(KeyCode::Backspace));
    match handle_modal_key(&mut app, code(KeyCode::Enter)) {
        Some(ModalAction::Activate { duration_hours, .. }) => assert_eq!(duration_hours, 8),
        _ => panic!("activation expected"),
    }
}

#[test]
fn huge_duration_falls_back_to_default() {
    let mut app = loaded_app();
    handle_key(&mut app, key('a'));
    handle_modal_key(&mut app, code(KeyCode::Tab));
    for c in "99999999999".chars() {
        handle_modal_key(&mut app, key(c));
    }
    match handle_modal_key(&mut app, code(KeyCode::Enter)) {
        Some(ModalAction::Activate { duration_hours, .. }) => assert_eq!(duration_hours, 8),
        _ => panic!("activation expected"),
    }
}

#[test]
fn escape_cancels_dialog() {
    let mut app = loaded_app();
    handle_key(&mut app, key('a'));
    assert!(handle_modal_key(&mut app, code(KeyCode::Esc)).is_none());
    assert!(app.modal.is_closed());
}

#[test]
fn activate_only_eligible_and_deactivate_only_active() {
    let mut app = loaded_app();
    // Row 0 is eligible: 'd' does nothing.
    handle_key(&mut app, key('d'));
    assert!(app.modal.is_closed());
    handle_key(&mut app, key('j'));
    // Row 1 is active: 'a' does nothing, 'd' asks for confirmation.
    handle_key(&mut app, key('a'));
    assert!(app.modal.is_closed());
    handle_key(&mut app, key('d'));
    assert!(matches!(app.modal, ActiveModal::DeactivateConfirm { role_index: 1 }));
    assert!(handle_modal_key(&mut app, key('x')).is_none());
    assert!(matches!(app.modal, ActiveModal::DeactivateConfirm { role_index: 1 }));
    match handle_modal_key(&mut app, code(KeyCode::Enter)) {
        Some(ModalAction::Deactivate { index }) => assert_eq!(index, 1),
        _ => panic!("deactivation expected"),
    }
    handle_key(&mut app, key('d'));
    assert!(handle_modal_key(&mut app, key('n')).is_none());
    assert!(app.modal.is_closed());
}

#[test]
fn bulk_activation_takes_marked_eligible_roles() {
    let mut app = loaded_app();
    // Mark all three rows; space moves down each time.
    handle_key(&mut app, key(' '));
    handle_key(&mut app, key(' '));
    handle_key(&mut app, key(' '));
    assert_eq!(app.selected_indices(), vec![0, 1, 2]);
    handle_key(&mut app, key('A'));
    match &app.modal {
        ActiveModal::BulkActivate { indices, duration, .. } => {
            assert_eq!(indices, &vec![0, 2]);
            assert_eq!(duration, "8");
        }
        _ => panic!("bulk dialog expected"),
    }
    match handle_modal_key(&mut app, code(KeyCode::Enter)) {
        Some(ModalAction::Activate { indices, duration_hours, .. }) => {
            assert_eq!(indices, vec![0, 2]);
            assert_eq!(duration_hours, 8);
        }
        _ => panic!("activation expected"),
    }
}

#[test]
fn bulk_activation_needs_a_marked_eligible_role() {
    let mut app = loaded_app();
    handle_key(&mut app, key('A'));
    assert!(app.modal.is_closed());
}

#[test]
fn toggle_twice_restores_mark() {
    let mut app = loaded_app();
    assert!(app.toggle_selected());
    assert!(app.roles[0].selected);
    assert!(!app.toggle_selected());
    assert!(!app.roles[0].selected);
}

#[test]
fn activation_results_update_the_role() {
    let mut app = loaded_app();
    app.roles[0].selected = true;
    app.handle_bg_event(BgEvent::ActivationResult { index: 0, result: Ok(()) });
    assert!(matches!(app.roles[0].status, RoleStatus::Activating));
    assert!(!app.roles[0].selected);
    assert_eq!(app.status_message, "Activation requested - refreshing...");
    app.handle_bg_event(BgEvent::ActivationResult { index: 2, result: Err("denied".to_string()) });
    match &app.roles[2].status {
        RoleStatus::Failed(m) => assert_eq!(m, "denied"),
        _ => panic!("failure expected"),
    }
    assert_eq!(app.status_message, "Activation failed: denied");
    // Out-of-range indices leave the roles alone.
    app.handle_bg_event(BgEvent::ActivationResult { index: 9, result: Ok(()) });
    assert_eq!(app.roles.len(), 3);
}

#[test]
fn deactivation_results_update_the_role() {
    let mut app = loaded_app();
    app.handle_bg_event(BgEvent::DeactivationResult { index: 1, result: Ok(()) });
    assert!(app.roles[1].status.is_eligible());
    assert_eq!(app.status_message, "Deactivated - refreshing...");
    app.handle_bg_event(BgEvent::DeactivationResult { index: 1, result: Err("busy".to_string()) });
    assert_eq!(app.status_message, "Deactivation failed: busy");
}

#[test]
fn results_in_group_pane_go_to_group_status() {
    let mut app = loaded_app();
    app.switch_pane();
    let mut g = role("Team", "Member", RoleStatus::Eligible);
    g.role_type = RoleType::GroupMember;
    g.group_id = Some("gid".to_string());
    app.handle_bg_event(BgEvent::GroupRolesLoaded(Ok(vec![g])));
    assert!(app.groups_loaded);
    assert!(!app.groups_loading);
    assert_eq!(app.group_status_message, "Ready");
    assert_eq!(app.filtered_indices, vec![0]);
    app.handle_bg_event(BgEvent::ActivationResult { index: 0, result: Ok(()) });
    assert!(matches!(app.group_roles[0].status, RoleStatus::Activating));
    assert_eq!(app.group_status_message, "Activation requested - refreshing...");
    assert_eq!(app.status_message, "Ready");
    app.handle_bg_event(BgEvent::GroupRolesLoaded(Err("boom".to_string())));
    assert_eq!(app.group_status_message, "Failed: boom");
    app.handle_bg_event(BgEvent::GraphStatus("Enter code ABC".to_string()));
    assert_eq!(app.group_status_message, "Enter code ABC");
    assert!(!app.active_loading());
}

#[test]
fn auth_and_load_failures() {
    let mut app = App::new(Config::default());
    app.handle_bg_event(BgEvent::AuthReady(Err("no login".to_string())));
    assert!(!app.loading);
    assert_eq!(app.status_message, "Auth failed: no login");
    app.handle_bg_event(BgEvent::AuthReady(Ok(AuthData {
        principal_id: "p".to_string(),
        user_display: "me@example.com".to_string(),
        subscriptions: vec![SubscriptionInfo { id: "s".to_string(), name: "Sub".to_string() }],
    })));
    assert_eq!(app.user_display, "me@example.com");
    assert!(app.auth.is_some());
    assert_eq!(app.status_message, "Fetching roles...");
    app.handle_bg_event(BgEvent::RolesLoaded(Err("throttled".to_string())));
    assert_eq!(app.status_message, "Failed to load roles: throttled");
}

#[test]
fn permissions_are_merged() {
    let mut app = App::new(Config::default());
    let mut first = TextMap::new();
    first.insert("rd1".to_string(), vec!["a/read".to_string()]);
    app.handle_bg_event(BgEvent::RolePermissionsLoaded(Ok(first)));
    let mut second = TextMap::new();
    second.insert("rd1".to_string(), vec!["a/write".to_string()]);
    second.insert("rd2".to_string(), vec![]);
    app.handle_bg_event(BgEvent::RolePermissionsLoaded(Ok(second)));
    app.handle_bg_event(BgEvent::RolePermissionsLoaded(Err("x".to_string())));
    assert_eq!(app.role_permissions.len(), 2);
    assert_eq!(app.role_permissions.get("rd1").unwrap(), &vec!["a/write".to_string()]);
    assert!(app.role_permissions.contains_key("rd2"));
    assert!(!app.role_permissions.contains_key("rd3"));
}

#[test]
fn roles_loaded_in_group_pane_keep_rows() {
    let mut app = App::new(Config::default());
    app.switch_pane();
    app.handle_bg_event(BgEvent::RolesLoaded(Ok(vec![role("Reader", "Dev", RoleStatus::Eligible)])));
    assert_eq!(app.roles.len(), 1);
    assert_eq!(app.filtered_indices.len(), 0);
    app.switch_pane();
    assert_eq!(app.filtered_indices, vec![0]);
}

#[test]
fn status_display_and_role_type_labels() {
    assert_eq!(RoleStatus::Eligible.display(), "Eligible");
    assert_eq!(RoleStatus::Active { expires_at: None }.display(), "Active");
    assert_eq!(RoleStatus::Activating.display(), "Activating");
    assert_eq!(RoleStatus::Failed("x".to_string()).display(), "Failed");
    assert_eq!(RoleType::Resource.label(), "Resource");
    assert_eq!(RoleType::GroupOwner.label(), "Group");
    assert_eq!(RoleType::GroupMember.access_label(), "Member");
    assert_eq!(RoleType::GroupOwner.access_label(), "Owner");
    assert_eq!(RoleType::Resource.access_label(), "");
}

#[test]
fn roles_loaded_records_the_time_given() {
    let mut app = App::new(Config::default());
    app.handle_bg_event_at(BgEvent::RolesLoaded(Ok(vec![role("Reader", "Dev", RoleStatus::Eligible)])), 1234);
    assert_eq!(app.last_refresh, Some(1234));
    assert_eq!(app.status_message, "Ready");
    assert!(!app.loading);
}

#[test]
fn follow_ups_after_results() {
    let auth = AuthData { principal_id: "p".to_string(), user_display: "u".to_string(), subscriptions: vec![] };
    assert_eq!(follow_up(&BgEvent::AuthReady(Ok(auth))), FollowUp::FetchResources);
    assert_eq!(follow_up(&BgEvent::AuthReady(Err("x".to_string()))), FollowUp::Nothing);
    assert_eq!(follow_up(&BgEvent::RolesLoaded(Ok(vec![]))), FollowUp::FetchPermissions);
    assert_eq!(follow_up(&BgEvent::RolesLoaded(Err("x".to_string()))), FollowUp::Nothing);
    assert_eq!(follow_up(&BgEvent::GroupRolesLoaded(Ok(vec![]))), FollowUp::Nothing);
    assert_eq!(follow_up(&BgEvent::GraphStatus("m".to_string())), FollowUp::Nothing);
}

#[test]
fn auto_refresh_timing() {
    let mut app = App::new(Config::default());
    app.loading = false;
    assert!(!refresh_due(&app, 120, 60));
    app.auth = Some(AuthData { principal_id: "p".to_string(), user_display: "u".to_string(), subscriptions: vec![] });
    assert!(refresh_due(&app, 60, 60));
    assert!(!refresh_due(&app, 59, 60));
    app.loading = true;
    assert!(!refresh_due(&app, 120, 60));
}

#[test]
fn refresh_key_marks_groups_stale() {
    let mut app = App::new(Config::default());
    app.groups_loaded = true;
    assert_eq!(app.begin_refresh(), Pane::Resources);
    assert!(app.groups_loaded);
    app.active_pane = Pane::Groups;
    assert_eq!(app.begin_refresh(), Pane::Groups);
    assert!(!app.groups_loaded);
    assert!(!app.group_fetch_due());
    app.auth = Some(AuthData { principal_id: "p".to_string(), user_display: "u".to_string(), subscriptions: vec![] });
    assert!(app.group_fetch_due());
    app.groups_loading = true;
    assert!(!app.group_fetch_due());
}
