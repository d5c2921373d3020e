//! Properties that relate several operations of the library.
use vstd::prelude::*;
use crate::app::{App, Pane, ViewFilter, filter_cycled, pane_toggled, role_visible, visible_indices,
    lemma_visible_indices_bounded};
use crate::cached_credential::{CachedAccessToken, fresh_entry, still_fresh, token_request};
use crate::event::{activate_dialog, moved};
use crate::event_modal::{ModalActionView, edited, modal_action};
use crate::app::ModalField;
use crate::event::KeyCode;
use crate::models::{GroupAssignmentScheduleInstance, GroupEligibilityScheduleInstance, PimRole,
    RoleAssignmentScheduleInstance, RoleEligibilityScheduleInstance, RoleStatus, RoleType};
use crate::text::{all_digits, decimal, is_digit, lemma_decimal_digits, lemma_parse_decimal};
use crate::auth::SubscriptionInfo;
use crate::pim::{is_resource_role, last_activation};
use crate::group::{is_group_role, last_group_assignment};
use crate::event::{KeyEvent, EventAction, key_effect, list_key_effect, is_char};
use crate::event_modal::next_modal;
use crate::app::ModalView;

verus! {

/// Cycling the view filter three times comes back to where it started.
pub proof fn law_view_cycle_returns(f: ViewFilter)
    ensures
        filter_cycled(filter_cycled(filter_cycled(f))) == f,
{
}

/// Switching panes twice comes back to the same pane.
pub proof fn law_pane_toggle_returns(p: Pane)
    ensures
        pane_toggled(pane_toggled(p)) == p,
{
}

/// Moving the selection down one row and then up one row returns to the
/// same row, also across the wrap at either end.
pub proof fn law_down_then_up(o: App, n1: App, n2: App)
    requires
        o.wf(),
        moved(o, n1, 1),
        moved(n1, n2, -1),
    ensures
        n2.selected == o.selected,
{
    let len = o.filtered_indices@.len() as int;
    assert(len == o.filtered_indices.len());
    if len > 0 {
        let s = o.selected as int;
        let a = (s + 1) % len;
        assert(0 <= a < len);
        assert(n1.filtered_indices == o.filtered_indices);
        assert(n1.selected as int == a);
        if s + 1 < len {
            assert(a == s + 1) by {
                vstd::arithmetic::div_mod::lemma_small_mod((s + 1) as nat, len as nat);
            }
            assert((a - 1) % len == s) by {
                vstd::arithmetic::div_mod::lemma_small_mod(s as nat, len as nat);
            }
        } else {
            assert(s + 1 == len);
            assert(a == 0) by {
                vstd::arithmetic::div_mod::lemma_mod_self_0(len);
            }
            assert((-1int) % len == len - 1) by {
                vstd::arithmetic::div_mod::lemma_mod_multiples_vanish(-1, len - 1, len);
                vstd::arithmetic::div_mod::lemma_small_mod((len - 1) as nat, len as nat);
            }
        }
    }
}

/// The list shows a role exactly when it passes the view filter and the
/// search: every row is such a role, and every such role has a row.
pub proof fn law_rows_are_the_matching_roles(roles: Seq<PimRole>, f: ViewFilter, text: Seq<char>, i: int)
    requires
        0 <= i < roles.len(),
        roles.len() <= usize::MAX,
    ensures
        visible_indices(roles, f, text).contains(i as usize) <==> role_visible(roles[i], f, text),
    decreases roles.len(),
{
    let prev = visible_indices(roles.drop_last(), f, text);
    lemma_visible_indices_bounded(roles.drop_last(), f, text);
    if i < roles.len() - 1 {
        law_rows_are_the_matching_roles(roles.drop_last(), f, text, i);
        assert(roles.drop_last()[i] == roles[i]);
        if role_visible(roles.last(), f, text) {
            let v = prev.push((roles.len() - 1) as usize);
            assert(v[v.len() - 1] == (roles.len() - 1) as usize);
            if v.contains(i as usize) {
                let k = choose|k: int| 0 <= k < v.len() && v[k] == i as usize;
                if k < prev.len() {
                    assert(prev[k] == i as usize);
                }
            }
            if prev.contains(i as usize) {
                let k = choose|k: int| 0 <= k < prev.len() && prev[k] == i as usize;
                assert(v[k] == i as usize);
            }
        }
    } else {
        if role_visible(roles.last(), f, text) {
            let v = prev.push((roles.len() - 1) as usize);
            assert(v[v.len() - 1] == i as usize);
        } else {
            if prev.contains(i as usize) {
                let k = choose|k: int| 0 <= k < prev.len() && prev[k] == i as usize;
                assert(prev[k] < roles.len() - 1);
            }
        }
    }
}

/// Confirming the activation dialog right after it opened activates the
/// role with the configured justification and duration.
pub proof fn law_activation_defaults(o: App, idx: usize)
    ensures
        modal_action(activate_dialog(o, idx), KeyCode::Enter, o.config.default_duration_hours)
            == Some(ModalActionView::Activate {
                indices: seq![idx],
                justification: o.config.default_justification@,
                duration_hours: o.config.default_duration_hours,
            }),
{
    lemma_parse_decimal(o.config.default_duration_hours);
}

/// The duration field only ever holds digits: no key puts anything else in
/// it.
pub proof fn law_duration_stays_digits(j: Seq<char>, d: Seq<char>, focused: ModalField, code: KeyCode)
    requires
        all_digits(d),
    ensures
        all_digits(edited(j, d, focused, code).1),
{
    let d2 = edited(j, d, focused, code).1;
    assert forall|i: int| 0 <= i < d2.len() implies is_digit(#[trigger] d2[i]) by {
        if i < d.len() {
            assert(is_digit(d[i]));
        }
    }
}

/// The duration a freshly opened dialog shows is made of digits.
pub proof fn law_default_duration_is_digits(hours: u32)
    ensures
        all_digits(decimal(hours as nat)),
{
    lemma_decimal_digits(hours as nat);
}

/// A token just cached for some scopes is handed out for them while it has
/// more than five minutes left.
pub proof fn law_cache_read_after_write(
    m: Map<Seq<Seq<char>>, CachedAccessToken>,
    key: Seq<Seq<char>>,
    token: CachedAccessToken,
    now: i64,
)
    requires
        still_fresh(token.expires_on, now),
    ensures
        fresh_entry(m.insert(key, token), key, now) == Some(token),
{
}

/// Caching a token for some scopes leaves what is cached for other scopes.
pub proof fn law_cache_scopes_independent(
    m: Map<Seq<Seq<char>>, CachedAccessToken>,
    key: Seq<Seq<char>>,
    other: Seq<Seq<char>>,
    token: CachedAccessToken,
    now: i64,
)
    requires
        key != other,
    ensures
        fresh_entry(m.insert(key, token), other, now) == fresh_entry(m, other, now),
{
}

/// A token with five minutes or less left is never handed out, so the
/// credential is asked again.
pub proof fn law_cache_refreshes_expiring(
    m: Map<Seq<Seq<char>>, CachedAccessToken>,
    key: Seq<Seq<char>>,
    token: CachedAccessToken,
    now: i64,
)
    requires
        !still_fresh(token.expires_on, now),
    ensures
        fresh_entry(m.insert(key, token), key, now) is None,
{
}

/// Once a request for a token succeeded, the next request for the same
/// scopes, while that token has more than five minutes left, hands out the
/// same token without asking the underlying credential and leaves the
/// cache as it is: however many requests follow, the credential is asked
/// at most once.
pub proof fn law_token_request_asks_once<E>(
    m: Map<Seq<Seq<char>>, CachedAccessToken>,
    key: Seq<Seq<char>>,
    now1: i64,
    answer1: Result<CachedAccessToken, E>,
    now2: i64,
    answer2: Result<CachedAccessToken, E>,
)
    requires
        token_request(m, key, now1, answer1).1 matches Ok(t) && still_fresh(t.expires_on, now2),
    ensures
        ({
            let first = token_request(m, key, now1, answer1);
            let second = token_request(first.0, key, now2, answer2);
            &&& !second.2
            &&& second.1 == first.1
            &&& second.0 == first.0
        }),
{
}

/// A request whose underlying credential fails leaves the cache as it was,
/// and a request served from the cache does not ask the credential.
pub proof fn law_token_request_keeps_cache_on_error<E>(
    m: Map<Seq<Seq<char>>, CachedAccessToken>,
    key: Seq<Seq<char>>,
    now: i64,
    e: E,
)
    ensures
        token_request(m, key, now, Err::<CachedAccessToken, E>(e)).0 == m,
        fresh_entry(m, key, now) is Some ==> !token_request(m, key, now, Err::<CachedAccessToken, E>(e)).2,
{
}

/// An assignment that activates role definition `rd` at scope `scope`.
spec fn activates(a: RoleAssignmentScheduleInstance, rd: Seq<char>, scope: Seq<char>) -> bool {
    &&& a.properties.assignment_type matches Some(t) && t@ == "Activated"@
    &&& a.properties.role_definition_id@ == rd
    &&& a.properties.scope@ == scope
}

proof fn lemma_last_activation(active: Seq<RoleAssignmentScheduleInstance>, rd: Seq<char>, scope: Seq<char>)
    ensures
        last_activation(active, rd, scope) is Some <==> exists|k: int| 0 <= k < active.len() && #[trigger] activates(active[k], rd, scope),
        last_activation(active, rd, scope) matches Some(end) ==> exists|k: int| {
            &&& 0 <= k < active.len()
            &&& #[trigger] activates(active[k], rd, scope)
            &&& active[k].properties.end_date_time == end
            &&& forall|j: int| k < j < active.len() ==> !activates(#[trigger] active[j], rd, scope)
        },
    decreases active.len(),
{
    if active.len() > 0 {
        let prev = active.drop_last();
        lemma_last_activation(prev, rd, scope);
        let n = active.len() - 1;
        if activates(active[n], rd, scope) {
            assert(activates(active[n], rd, scope));
        } else {
            assert forall|k: int| 0 <= k < prev.len() implies prev[k] == active[k] by {}
            if exists|k: int| 0 <= k < active.len() && #[trigger] activates(active[k], rd, scope) {
                let k = choose|k: int| 0 <= k < active.len() && #[trigger] activates(active[k], rd, scope);
                assert(k < n);
                assert(activates(prev[k], rd, scope));
            }
            if last_activation(prev, rd, scope) is Some {
                let k = choose|k: int| {
                    &&& 0 <= k < prev.len()
                    &&& #[trigger] activates(prev[k], rd, scope)
                    &&& prev[k].properties.end_date_time == last_activation(prev, rd, scope)->0
                    &&& forall|j: int| k < j < prev.len() ==> !activates(#[trigger] prev[j], rd, scope)
                };
                assert(activates(active[k], rd, scope));
                assert forall|j: int| k < j < active.len() implies !activates(#[trigger] active[j], rd, scope) by {
                    if j < n {
                        assert(active[j] == prev[j]);
                    }
                }
            }
        }
    }
}

/// A resource role is shown active exactly when an `Activated` assignment
/// names both its role definition and its scope; an activation of the
/// same role definition at another scope leaves it eligible. An active
/// role ends when the last such assignment ends.
pub proof fn law_resource_role_active_needs_same_definition_and_scope(
    r: PimRole,
    e: RoleEligibilityScheduleInstance,
    active: Seq<RoleAssignmentScheduleInstance>,
    subs: Seq<SubscriptionInfo>,
)
    requires
        is_resource_role(r, e, active, subs),
    ensures
        r.status is Active <==> exists|k: int| {
            &&& 0 <= k < active.len()
            &&& #[trigger] active[k].properties.assignment_type matches Some(t) && t@ == "Activated"@
            &&& active[k].properties.role_definition_id@ == e.properties.role_definition_id@
            &&& active[k].properties.scope@ == e.properties.scope@
        },
        !(r.status is Active) ==> r.status is Eligible,
        r.status matches RoleStatus::Active { expires_at } ==> exists|k: int| {
            &&& 0 <= k < active.len()
            &&& #[trigger] active[k].properties.assignment_type matches Some(t) && t@ == "Activated"@
            &&& active[k].properties.role_definition_id@ == e.properties.role_definition_id@
            &&& active[k].properties.scope@ == e.properties.scope@
            &&& active[k].properties.end_date_time == expires_at
        },
{
    let rd = e.properties.role_definition_id@;
    let sc = e.properties.scope@;
    lemma_last_activation(active, rd, sc);
    if r.status is Active {
        let k = choose|k: int| 0 <= k < active.len() && #[trigger] activates(active[k], rd, sc);
        assert(active[k].properties.assignment_type matches Some(t) && t@ == "Activated"@);
    }
    if exists|k: int| {
        &&& 0 <= k < active.len()
        &&& #[trigger] active[k].properties.assignment_type matches Some(t) && t@ == "Activated"@
        &&& active[k].properties.role_definition_id@ == rd
        &&& active[k].properties.scope@ == sc
    } {
        let k = choose|k: int| {
            &&& 0 <= k < active.len()
            &&& #[trigger] active[k].properties.assignment_type matches Some(t) && t@ == "Activated"@
            &&& active[k].properties.role_definition_id@ == rd
            &&& active[k].properties.scope@ == sc
        };
        assert(activates(active[k], rd, sc));
    }
}

/// An assignment that activates the group role of kind `t` in group `g`.
spec fn assigns(a: GroupAssignmentScheduleInstance, g: Seq<char>, t: RoleType) -> bool {
    &&& a.group_id@ == g
    &&& ((t == RoleType::GroupMember && a.access_id@ == "member"@) || (t == RoleType::GroupOwner && a.access_id@ == "owner"@))
}

proof fn lemma_last_group_assignment(active: Seq<GroupAssignmentScheduleInstance>, g: Seq<char>, t: RoleType)
    ensures
        last_group_assignment(active, g, t) is Some <==> exists|k: int| 0 <= k < active.len() && #[trigger] assigns(active[k], g, t),
        last_group_assignment(active, g, t) matches Some(end) ==> exists|k: int|
            0 <= k < active.len() && #[trigger] assigns(active[k], g, t) && active[k].end_date_time == end,
    decreases active.len(),
{
    if active.len() > 0 {
        let prev = active.drop_last();
        lemma_last_group_assignment(prev, g, t);
        let n = active.len() - 1;
        if !assigns(active[n], g, t) {
            if exists|k: int| 0 <= k < active.len() && #[trigger] assigns(active[k], g, t) {
                let k = choose|k: int| 0 <= k < active.len() && #[trigger] assigns(active[k], g, t);
                assert(k < n);
                assert(prev[k] == active[k]);
                assert(assigns(prev[k], g, t));
            }
            if last_group_assignment(prev, g, t) is Some {
                let k = choose|k: int|
                    0 <= k < prev.len() && #[trigger] assigns(prev[k], g, t)
                        && prev[k].end_date_time == last_group_assignment(prev, g, t)->0;
                assert(prev[k] == active[k]);
                assert(assigns(active[k], g, t));
            }
        } else {
            assert(assigns(active[n], g, t));
        }
    }
}

/// A group role is shown active exactly when an assignment names its group
/// and its access kind (member or owner); an assignment in another group
/// leaves it eligible. An active role ends when such an assignment ends.
pub proof fn law_group_role_active_needs_same_group_and_kind(
    r: PimRole,
    e: GroupEligibilityScheduleInstance,
    active: Seq<GroupAssignmentScheduleInstance>,
    names: Map<Seq<char>, Seq<char>>,
)
    requires
        is_group_role(r, e, active, names),
    ensures
        r.status is Active <==> exists|k: int| {
            &&& 0 <= k < active.len()
            &&& #[trigger] active[k].group_id@ == e.group_id@
            &&& (e.access_id@ == "owner"@ ==> active[k].access_id@ == "owner"@)
            &&& (e.access_id@ != "owner"@ ==> active[k].access_id@ == "member"@)
        },
        !(r.status is Active) ==> r.status is Eligible,
        r.status matches RoleStatus::Active { expires_at } ==> exists|k: int| {
            &&& 0 <= k < active.len()
            &&& #[trigger] active[k].group_id@ == e.group_id@
            &&& active[k].end_date_time == expires_at
        },
{
    let g = e.group_id@;
    let t = r.role_type;
    lemma_last_group_assignment(active, g, t);
    if r.status is Active {
        let k = choose|k: int| 0 <= k < active.len() && #[trigger] assigns(active[k], g, t);
        assert(active[k].group_id@ == g);
    }
    if exists|k: int| {
        &&& 0 <= k < active.len()
        &&& #[trigger] active[k].group_id@ == e.group_id@
        &&& (e.access_id@ == "owner"@ ==> active[k].access_id@ == "owner"@)
        &&& (e.access_id@ != "owner"@ ==> active[k].access_id@ == "member"@)
    } {
        let k = choose|k: int| {
            &&& 0 <= k < active.len()
            &&& #[trigger] active[k].group_id@ == e.group_id@
            &&& (e.access_id@ == "owner"@ ==> active[k].access_id@ == "owner"@)
            &&& (e.access_id@ != "owner"@ ==> active[k].access_id@ == "member"@)
        };
        assert(assigns(active[k], g, t));
    }
    if let RoleStatus::Active { expires_at } = r.status {
        let k = choose|k: int|
            0 <= k < active.len() && #[trigger] assigns(active[k], g, t) && active[k].end_date_time == expires_at;
        assert(active[k].group_id@ == e.group_id@);
    }
}

/// In a dialog only Enter carries anything out: every other key, Esc
/// above all, yields no action. Esc closes any dialog. Enter in an
/// activation dialog activates exactly the dialog's roles with the
/// justification it shows.
pub proof fn law_only_enter_confirms(m: ModalView, code: KeyCode, default_hours: u32)
    ensures
        code != KeyCode::Enter ==> modal_action(m, code, default_hours) is None,
        next_modal(m, KeyCode::Esc) is Closed,
        m matches ModalView::BulkActivate { indices, justification, .. } ==> (modal_action(m, KeyCode::Enter, default_hours)
            matches Some(ModalActionView::Activate { indices: i2, justification: j2, .. }) && i2 == indices && j2 == justification),
        m matches ModalView::Activate { role_index, justification, .. } ==> (modal_action(m, KeyCode::Enter, default_hours)
            matches Some(ModalActionView::Activate { indices: i2, justification: j2, .. }) && i2 == seq![role_index]
                && j2 == justification),
        m matches ModalView::DeactivateConfirm { role_index } ==> modal_action(m, KeyCode::Enter, default_hours)
            == Some(ModalActionView::Deactivate { index: role_index }),
{
}

/// On the role list, Up and `k` move the selection one row up, from the
/// top to the bottom; Down and `j` move it one row down, from the bottom to
/// the top. Nothing else changes but the detail scroll, which goes back to
/// the top.
pub proof fn law_up_and_down_move_one_row(o: App, n: App, key: KeyEvent, r: EventAction)
    requires
        o.wf(),
        !o.filtering,
        o.filtered_indices@.len() > 0,
        key.code == KeyCode::Up || key.code == KeyCode::Char('k') || key.code == KeyCode::Down
            || key.code == KeyCode::Char('j'),
        key_effect(o, n, key, r),
    ensures
        r == EventAction::Continue,
        (key.code == KeyCode::Up || key.code == KeyCode::Char('k')) ==> n.selected == (if o.selected == 0 {
            o.filtered_indices@.len() - 1
        } else {
            o.selected - 1
        }),
        (key.code == KeyCode::Down || key.code == KeyCode::Char('j')) ==> n.selected == (if o.selected + 1
            == o.filtered_indices@.len() {
            0
        } else {
            o.selected + 1
        }),
        n == (App { selected: n.selected, detail_scroll: 0, ..o }),
{
    let len = o.filtered_indices@.len() as int;
    let s = o.selected as int;
    assert(len == o.filtered_indices.len());
    assert(!is_char(key.code, 'c') && !is_char(key.code, 'd') && !is_char(key.code, 'u'));
    assert(list_key_effect(o, n, key.code, r));
    assert(!is_char(key.code, 'q'));
    if key.code == KeyCode::Up || key.code == KeyCode::Char('k') {
        assert(!is_char(key.code, 'j') && key.code != KeyCode::Down);
        assert(moved(o, n, -1));
        let target: int = if s == 0 { len - 1 } else { s - 1 };
        if s == 0 {
            assert((-1int) % len == len - 1) by {
                vstd::arithmetic::div_mod::lemma_mod_multiples_vanish(-1, len - 1, len);
                vstd::arithmetic::div_mod::lemma_small_mod((len - 1) as nat, len as nat);
            }
        } else {
            vstd::arithmetic::div_mod::lemma_small_mod((s - 1) as nat, len as nat);
        }
        assert((s + (-1)) % len == target);
        assert(0 <= target < len);
        assert(n.selected as int == target);
    } else {
        assert(moved(o, n, 1));
        let target: int = if s + 1 == len { 0 } else { s + 1 };
        if s + 1 == len {
            vstd::arithmetic::div_mod::lemma_mod_self_0(len);
        } else {
            vstd::arithmetic::div_mod::lemma_small_mod((s + 1) as nat, len as nat);
        }
        assert((s + 1) % len == target);
        assert(n.selected as int == target);
    }
}

} // verus!
