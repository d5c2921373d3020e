//! The decisions of the main loop: what to start after a background
//! result, when to reload on a timer or a key, which background work a
//! confirmed dialog starts, which role permissions still need fetching, and
//! what a group refresh does to the state.
use vstd::prelude::*;
use crate::app::{App, BgEvent, Pane};
use crate::event_modal::ModalAction;
use crate::models::{PimRole, RoleType};
use crate::text_map::TextMap;
use crate::text::owned;

verus! {

/// Which client carries out a role operation.
#[derive(Debug, Clone, Copy, PartialEq, Eq, Structural)]
pub enum Via {
    /// Azure Resource Manager.
    Resource,
    /// Microsoft Graph, privileged access for groups.
    Group,
}

pub open spec fn via_of(t: RoleType) -> Via {
    if t == RoleType::Resource { Via::Resource } else { Via::Group }
}

/// One activation or deactivation to run in the background; its result is
/// reported for `index`.
#[derive(Debug)]
pub enum RoleJob {
    Activate { index: usize, role: PimRole, via: Via, justification: String, duration_hours: u32 },
    Deactivate { index: usize, role: PimRole, via: Via },
}

/// The background work a confirmed dialog starts, and the pane to reload after it.
#[derive(Debug)]
pub struct ActionPlan {
    pub jobs: Vec<RoleJob>,
    pub refresh: Pane,
}

/// The indices a dialog action names.
pub open spec fn action_indices(action: ModalAction) -> Seq<usize> {
    match action {
        ModalAction::Activate { indices, .. } => indices@,
        ModalAction::Deactivate { index } => seq![index],
    }
}

/// `job` carries out `action` for the `k`-th index it names, on `roles`.
pub open spec fn job_for(job: RoleJob, action: ModalAction, k: int, roles: Seq<PimRole>) -> bool {
    let idx = action_indices(action)[k];
    match (job, action) {
        (RoleJob::Activate { index, role, via, justification, duration_hours },
         ModalAction::Activate { justification: j, duration_hours: h, .. }) => {
            &&& index == idx
            &&& role == roles[idx as int]
            &&& via == via_of(role.role_type)
            &&& justification@ == j@
            &&& duration_hours == h
        },
        (RoleJob::Deactivate { index, role, via }, ModalAction::Deactivate { .. }) => {
            &&& index == idx
            &&& role == roles[idx as int]
            &&& via == via_of(role.role_type)
        },
        _ => false,
    }
}

fn via_for(t: RoleType) -> (v: Via)
    ensures
        v == via_of(t),
{
    if t == RoleType::Resource { Via::Resource } else { Via::Group }
}

/// Turns a confirmed dialog into background jobs, one per role, in order,
/// and marks the group list stale when the groups pane is on view; nothing
/// happens before sign-in.
pub fn plan_modal_action(app: &mut App, action: ModalAction) -> (r: Option<ActionPlan>)
    requires
        forall|k: int| 0 <= k < action_indices(action).len() ==> #[trigger] action_indices(action)[k] < old(app).shown().len(),
    ensures
        old(app).auth is None ==> r is None && *final(app) == *old(app),
        old(app).auth is Some ==> (r matches Some(plan) && {
            &&& plan.refresh == old(app).active_pane
            &&& plan.jobs@.len() == action_indices(action).len()
            &&& forall|k: int| 0 <= k < plan.jobs@.len() ==> job_for(#[trigger] plan.jobs@[k], action, k, old(app).shown())
            &&& *final(app) == (App {
                groups_loaded: if old(app).active_pane == Pane::Groups { false } else { old(app).groups_loaded },
                ..*old(app)
            })
        }),
{
    if app.auth.is_none() {
        return None;
    }
    let pane = app.active_pane;
    let ghost shown = app.shown();
    let mut jobs: Vec<RoleJob> = Vec::new();
    let ghost act = action;
    match action {
        ModalAction::Activate { indices, justification, duration_hours } => {
            let roles = app.active_roles();
            proof {
                assert forall|t: int| 0 <= t < indices@.len() implies #[trigger] indices@[t] < shown.len() by {
                    assert(action_indices(act)[t] == indices@[t]);
                }
            }
            let mut k: usize = 0;
            while k < indices.len()
                invariant
                    k <= indices@.len(),
                    roles@ == shown,
                    act == (ModalAction::Activate { indices, justification, duration_hours }),
                    forall|t: int| 0 <= t < indices@.len() ==> #[trigger] indices@[t] < shown.len(),
                    jobs@.len() == k,
                    forall|t: int| 0 <= t < k ==> job_for(#[trigger] jobs@[t], act, t, shown),
                decreases indices@.len() - k,
            {
                let idx = indices[k];
                let role = roles[idx].clone();
                let via = via_for(role.role_type);
                jobs.push(RoleJob::Activate { index: idx, role, via, justification: justification.clone(), duration_hours });
                k = k + 1;
            }
        },
        ModalAction::Deactivate { index } => {
            proof {
                assert(action_indices(act)[0] == index);
            }
            let role = app.active_roles()[index].clone();
            let via = via_for(role.role_type);
            jobs.push(RoleJob::Deactivate { index, role, via });
        },
    }
    if pane == Pane::Groups {
        app.groups_loaded = false;
    }
    Some(ActionPlan { jobs, refresh: pane })
}

/// Work the main loop starts after a background result.
#[derive(Debug, Clone, Copy, PartialEq, Eq, Structural)]
pub enum FollowUp {
    /// Load the resource roles (after a successful sign-in).
    FetchResources,
    /// Load the permissions of the roles just loaded.
    FetchPermissions,
    Nothing,
}

pub open spec fn follow_up_of(event: BgEvent) -> FollowUp {
    match event {
        BgEvent::AuthReady(Ok(_)) => FollowUp::FetchResources,
        BgEvent::RolesLoaded(Ok(_)) => FollowUp::FetchPermissions,
        _ => FollowUp::Nothing,
    }
}

/// What to start after a background result: the resource roles after a
/// sign-in, their permissions after the roles loaded, else nothing.
pub fn follow_up(event: &BgEvent) -> (r: FollowUp)
    ensures
        r == follow_up_of(*event),
{
    match event {
        BgEvent::AuthReady(Ok(_)) => FollowUp::FetchResources,
        BgEvent::RolesLoaded(Ok(_)) => FollowUp::FetchPermissions,
        _ => FollowUp::Nothing,
    }
}

/// Whether the resource roles are due for an automatic reload: the
/// configured interval has passed since the last one, the user is signed
/// in, and no load is under way.
pub fn refresh_due(app: &App, elapsed_secs: u64, auto_refresh_secs: u64) -> (r: bool)
    ensures
        r == (elapsed_secs >= auto_refresh_secs && app.auth is Some && !app.loading),
{
    elapsed_secs >= auto_refresh_secs && app.auth.is_some() && !app.loading
}

impl App {
    /// Whether the group roles should be fetched now: the groups pane is
    /// on view for the first time and the user is signed in.
    pub fn group_fetch_due(&self) -> (r: bool)
        ensures
            r == (self.active_pane == Pane::Groups && !self.groups_loaded && !self.groups_loading
                && self.auth is Some),
    {
        self.needs_group_fetch() && self.auth.is_some()
    }

    /// Prepares the reload that the refresh key asks for: the group list is
    /// marked not loaded when the groups pane is on view. Returns the pane
    /// to reload.
    pub fn begin_refresh(&mut self) -> (r: Pane)
        ensures
            r == old(self).active_pane,
            *final(self) == (App {
                groups_loaded: if old(self).active_pane == Pane::Groups { false } else { old(self).groups_loaded },
                ..*old(self)
            }),
    {
        if self.active_pane == Pane::Groups {
            self.groups_loaded = false;
        }
        self.active_pane
    }

    /// Marks the group list as loading before a group fetch; without
    /// sign-in nothing changes and no fetch should start.
    pub fn begin_group_fetch(&mut self) -> (r: bool)
        ensures
            r == old(self).auth is Some,
            !r ==> *final(self) == *old(self),
            r ==> (final(self).group_status_message@ == "Authenticating with Graph API..."@ && *final(self) == (App {
                groups_loading: true,
                group_status_message: final(self).group_status_message,
                ..*old(self)
            })),
    {
        if self.auth.is_none() {
            return false;
        }
        self.groups_loading = true;
        self.group_status_message = owned("Authenticating with Graph API...");
        true
    }
}

/// The role definition ids whose permissions should be fetched: those of
/// resource roles, non-empty, not known yet, with repeats.
pub open spec fn permission_candidates(roles: Seq<PimRole>, known: Map<Seq<char>, Seq<Seq<char>>>) -> Seq<Seq<char>>
    decreases roles.len(),
{
    if roles.len() == 0 {
        Seq::empty()
    } else {
        let prev = permission_candidates(roles.drop_last(), known);
        let r = roles.last();
        if r.role_type == RoleType::Resource && r.role_definition_id@.len() > 0 && !known.dom().contains(r.role_definition_id@) {
            prev.push(r.role_definition_id@)
        } else {
            prev
        }
    }
}

/// The role definition ids whose permissions are still to be fetched, each once.
pub fn permission_ids_to_fetch(roles: &[PimRole], known: &TextMap<Vec<String>>) -> (r: Vec<String>)
    ensures
        crate::group::text_views(r@).no_duplicates(),
        crate::group::text_views(r@).to_set() == permission_candidates(roles@, known@).to_set(),
{
    let mut out: Vec<String> = Vec::new();
    let mut i: usize = 0;
    proof {
        assert(roles@.take(0) =~= Seq::<PimRole>::empty());
        assert(crate::group::text_views(out@).to_set() =~= Set::<Seq<char>>::empty());
        assert(permission_candidates(Seq::<PimRole>::empty(), known@).to_set() =~= Set::<Seq<char>>::empty());
    }
    while i < roles.len()
        invariant
            i <= roles@.len(),
            crate::group::text_views(out@).no_duplicates(),
            crate::group::text_views(out@).to_set() == permission_candidates(roles@.take(i as int), known@).to_set(),
        decreases roles@.len() - i,
    {
        let role = &roles[i];
        proof {
            assert(roles@.take(i + 1).drop_last() =~= roles@.take(i as int));
            assert(roles@.take(i + 1).last() == *role);
        }
        let wanted = role.role_type == RoleType::Resource && !role.role_definition_id.as_str().is_empty()
            && !known.contains_key(role.role_definition_id.as_str());
        if wanted {
            let id = &role.role_definition_id;
            let ghost prev = permission_candidates(roles@.take(i as int), known@);
            proof {
                prev.lemma_push_to_set_commute(id@);
            }
            let mut found = false;
            let mut j: usize = 0;
            while j < out.len()
                invariant
                    j <= out@.len(),
                    found ==> crate::group::text_views(out@).contains(id@),
                    !found ==> forall|t: int| 0 <= t < j ==> out@[t]@ != id@,
                decreases out@.len() - j,
            {
                if out[j] == *id {
                    found = true;
                    proof {
                        assert(crate::group::text_views(out@)[j as int] == id@);
                    }
                }
                j = j + 1;
            }
            let ghost before = out@;
            if !found {
                out.push(id.clone());
                proof {
                    let bm = crate::group::text_views(before);
                    assert(crate::group::text_views(out@) =~= bm.push(id@));
                    assert(!bm.contains(id@)) by {
                        if bm.contains(id@) {
                            let t = choose|t: int| 0 <= t < bm.len() && bm[t] == id@;
                            assert(before[t]@ != id@);
                        }
                    }
                    bm.lemma_push_to_set_commute(id@);
                }
            } else {
                proof {
                    assert(crate::group::text_views(out@).to_set().contains(id@));
                    assert(crate::group::text_views(out@).to_set().insert(id@) =~= crate::group::text_views(out@).to_set());
                }
            }
        }
        i = i + 1;
    }
    proof {
        assert(roles@.take(roles@.len() as int) =~= roles@);
    }
    out
}

} // verus!
