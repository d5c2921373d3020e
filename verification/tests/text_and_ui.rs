use azure_pim_tui::app::{App, AuthData, Pane, search_hit, is_role_visible, visible_role_indices, ViewFilter};
use azure_pim_tui::config::{default_auto_refresh_secs, default_duration_hours, default_justification, Config};
use azure_pim_tui::event_modal::ModalAction;
use azure_pim_tui::models::{PimRole, RoleStatus, RoleType};
use azure_pim_tui::session::{permission_ids_to_fetch, plan_modal_action, RoleJob, Via};
use azure_pim_tui::text::{
    chars_of, contains_str, decimal_string, join2, join3, lex_less, pad2_string, parse_u32, signed_decimal_string,
    split_chars, starts_with, string_of, text_eq,
};
use azure_pim_tui::text_map::TextMap;
use azure_pim_tui::ui::{
    activate_title, bulk_summary, centered_rect, counts_text, detail_status_line, expires_label, right_align,
    roles_title, status_color, Rect, StatusColor,
};

#[test]
fn decimal_numbers() {
    assert_eq!(decimal_string(0), "0");
    assert_eq!(decimal_string(120), "120");
    assert_eq!(decimal_string(u64::MAX), "18446744073709551615");
    assert_eq!(signed_decimal_string(-42), "-42");
    assert_eq!(signed_decimal_string(i64::MIN), "-9223372036854775808");
    assert_eq!(pad2_string(5), "05");
    assert_eq!(pad2_string(0), "00");
    assert_eq!(pad2_string(42), "42");
    assert_eq!(pad2_string(-5), "-5");
    assert_eq!(pad2_string(-15), "-15");
}

#[test]
fn parsing_hours_like_std() {
    for s in ["8", "+8", "", "+", "-1", "12a", "4294967295", "4294967296", "007", " 8", "٣"] {
        assert_eq!(parse_u32(s), s.parse::<u32>().ok(), "input {s:?}");
    }
    assert_eq!(parse_u32(&decimal_string(4_000_000_000)), Some(4_000_000_000));
}

#[test]
fn text_helpers() {
    assert!(starts_with("Failed: x", "Failed"));
    assert!(!starts_with("Fail", "Failed"));
    assert!(contains_str("abc RoleAssignmentExists", "RoleAssignmentExists"));
    assert!(contains_str("abc", ""));
    assert!(!contains_str("ab", "abc"));
    assert!(text_eq("x", "x"));
    assert!(!text_eq("x", "y"));
    assert_eq!(join2("a", "b"), "ab");
    assert_eq!(join3("a", "b", "c"), "abc");
    let parts: Vec<String> = split_chars(&chars_of("/a//b"), '/').iter().map(string_of).collect();
    assert_eq!(parts, vec!["", "a", "", "b"]);
    assert!(lex_less(&chars_of("Alpha"), &chars_of("Beta")));
    assert!(lex_less(&chars_of("Be"), &chars_of("Beta")));
    assert!(!lex_less(&chars_of("beta"), &chars_of("Beta")));
    assert!(!lex_less(&chars_of("Same"), &chars_of("Same")));
}

fn role(name: &str, scope: &str, status: RoleStatus) -> PimRole {
    PimRole {
        eligibility_id: "e".to_string(),
        role_definition_id: format!("rd-{name}"),
        principal_id: "p".to_string(),
        scope: "/s".to_string(),
        role_name: name.to_string(),
        scope_display_name: scope.to_string(),
        role_type: RoleType::Resource,
        group_id: None,
        status,
        selected: false,
    }
}

#[test]
fn search_lowercases_both_sides() {
    assert!(search_hit("reader", "dev", "read"));
    assert!(search_hit("owner", "production", "prod"));
    assert!(!search_hit("owner", "dev", "x"));
    let r = role("Key Vault ADMIN", "Ünïcode Scope", RoleStatus::Eligible);
    assert!(is_role_visible(&r, ViewFilter::All, "admin"));
    assert!(is_role_visible(&r, ViewFilter::All, "ÜNÏCODE"));
    assert!(!is_role_visible(&r, ViewFilter::Active, "admin"));
    assert!(is_role_visible(&r, ViewFilter::Eligible, ""));
    let roles = vec![r, role("Reader", "Dev", RoleStatus::Active { expires_at: None })];
    assert_eq!(visible_role_indices(&roles, ViewFilter::All, "DEV"), vec![1]);
}

#[test]
fn config_defaults() {
    assert_eq!(default_justification(), "Local development");
    assert_eq!(default_duration_hours(), 8);
    assert_eq!(default_auto_refresh_secs(), 60);
}

#[test]
fn centered_rectangles() {
    let r = centered_rect(60, 70, Rect { x: 0, y: 0, width: 100, height: 50 });
    assert_eq!(r, Rect { x: 20, y: 7, width: 60, height: 35 });
    let r = centered_rect(50, 40, Rect { x: 3, y: 2, width: 81, height: 24 });
    assert_eq!(r, Rect { x: 23, y: 9, width: 40, height: 9 });
}

#[test]
fn time_left_labels() {
    let active = |exp| RoleStatus::Active { expires_at: Some(exp) };
    assert_eq!(expires_label(&active(1000 + 2 * 3600 + 5 * 60 + 9), 1000), "2h 05m");
    assert_eq!(expires_label(&active(1000 + 59), 1000), "0h 00m");
    assert_eq!(expires_label(&active(1000), 1000), "Expired");
    assert_eq!(expires_label(&RoleStatus::Active { expires_at: None }, 1000), "");
    assert_eq!(expires_label(&RoleStatus::Eligible, 1000), "");
    assert_eq!(detail_status_line(&active(1000 + 3 * 3600 + 61), 1000), "Active (expires in 3h 01m)");
    assert_eq!(detail_status_line(&active(1000 - 3600 - 300), 1000), "Active (expires in -1h -5m)");
    assert_eq!(detail_status_line(&RoleStatus::Activating, 0), "Activating");
    assert_eq!(detail_status_line(&RoleStatus::Active { expires_at: None }, 0), "Active");
}

#[test]
fn status_line_colours() {
    assert_eq!(status_color(true, "Failed: x"), StatusColor::Yellow);
    assert_eq!(status_color(false, "Failed to load roles: x"), StatusColor::Red);
    assert_eq!(status_color(false, "Auth failed: x"), StatusColor::Red);
    assert_eq!(status_color(false, "Ready"), StatusColor::Green);
}

#[test]
fn titles_and_counts() {
    assert_eq!(roles_title(""), " Roles ");
    assert_eq!(roles_title("dev"), " Roles [/dev] ");
    assert_eq!(activate_title(false, 1), " Activate Role ");
    assert_eq!(activate_title(true, 3), " Activate 3 Roles ");
    assert_eq!(bulk_summary(3), "Activating 3 selected roles");
    assert_eq!(counts_text(2, 1), "2 eligible, 1 active");
    assert_eq!(right_align("g", 4), "   g");
    assert_eq!(right_align("toolong", 3), "toolong");
}

fn signed_in_app() -> App {
    let mut app = App::new(Config::default());
    app.auth = Some(AuthData { principal_id: "p".to_string(), user_display: "u".to_string(), subscriptions: vec![] });
    let mut g = role("Team", "Member", RoleStatus::Eligible);
    g.role_type = RoleType::GroupMember;
    app.roles = vec![role("Reader", "Dev", RoleStatus::Eligible), g];
    app
}

#[test]
fn confirmed_dialog_becomes_jobs() {
    let mut app = signed_in_app();
    let plan = plan_modal_action(&mut app, ModalAction::Activate {
        indices: vec![1, 0],
        justification: "why".to_string(),
        duration_hours: 3,
    })
    .unwrap();
    assert_eq!(plan.refresh, Pane::Resources);
    assert_eq!(plan.jobs.len(), 2);
    match &plan.jobs[0] {
        RoleJob::Activate { index, role, via, justification, duration_hours } => {
            assert_eq!(*index, 1);
            assert_eq!(role.role_name, "Team");
            assert_eq!(*via, Via::Group);
            assert_eq!(justification, "why");
            assert_eq!(*duration_hours, 3);
        }
        _ => panic!(),
    }
    assert!(matches!(&plan.jobs[1], RoleJob::Activate { index: 0, via: Via::Resource, .. }));
    let plan = plan_modal_action(&mut app, ModalAction::Deactivate { index: 0 }).unwrap();
    assert!(matches!(&plan.jobs[0], RoleJob::Deactivate { index: 0, via: Via::Resource, .. }));
}

#[test]
fn nothing_happens_before_sign_in() {
    let mut app = App::new(Config::default());
    app.roles = vec![role("Reader", "Dev", RoleStatus::Eligible)];
    assert!(plan_modal_action(&mut app, ModalAction::Deactivate { index: 0 }).is_none());
    assert!(!app.begin_group_fetch());
    assert!(!app.groups_loading);
}

#[test]
fn group_pane_actions_mark_groups_stale() {
    let mut app = signed_in_app();
    app.group_roles = vec![role("G", "Owner", RoleStatus::Eligible)];
    app.switch_pane();
    app.groups_loaded = true;
    let plan = plan_modal_action(&mut app, ModalAction::Deactivate { index: 0 }).unwrap();
    assert_eq!(plan.refresh, Pane::Groups);
    assert!(!app.groups_loaded);
    assert!(app.begin_group_fetch());
    assert!(app.groups_loading);
    assert_eq!(app.group_status_message, "Authenticating with Graph API...");
}

#[test]
fn permissions_to_fetch() {
    let mut roles = vec![
        role("A", "s", RoleStatus::Eligible),
        role("B", "s", RoleStatus::Eligible),
        role("A", "t", RoleStatus::Eligible),
        role("C", "s", RoleStatus::Eligible),
    ];
    roles[3].role_type = RoleType::GroupOwner;
    let mut empty = role("E", "s", RoleStatus::Eligible);
    empty.role_definition_id = String::new();
    roles.push(empty);
    let mut known = TextMap::new();
    known.insert("rd-B".to_string(), vec![]);
    assert_eq!(permission_ids_to_fetch(&roles, &known), vec!["rd-A".to_string()]);
}
