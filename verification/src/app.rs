//! The application state: the role lists of both panes, the filtered view,
//! the selection, the open dialog and the status lines, and how background
//! results change them.
use vstd::prelude::*;
use crate::auth::SubscriptionInfo;
use crate::clock::unix_seconds;
use crate::config::Config;
use crate::models::{PimRole, RoleStatus};
use crate::text::{has_sub, lowercase, to_lowercase, chars_of, contains_chars, join2, owned};
use crate::text_map::TextMap;

verus! {

/// What the sign-in produced, as far as the application logic reads it.
#[derive(Debug)]
pub struct AuthData {
    pub principal_id: String,
    pub user_display: String,
    pub subscriptions: Vec<SubscriptionInfo>,
}

/// A result delivered by a background task.
pub enum BgEvent {
    RolesLoaded(Result<Vec<PimRole>, String>),
    GroupRolesLoaded(Result<Vec<PimRole>, String>),
    ActivationResult { index: usize, result: Result<(), String> },
    DeactivationResult { index: usize, result: Result<(), String> },
    AuthReady(Result<AuthData, String>),
    RolePermissionsLoaded(Result<TextMap<Vec<String>>, String>),
    /// Status message from the Graph credential (device code flow).
    GraphStatus(String),
}

/// The two role lists.
#[derive(Debug, Clone, Copy, PartialEq, Eq, Structural)]
pub enum Pane {
    Resources,
    Groups,
}

impl Pane {
    pub fn label(&self) -> (r: &'static str)
        ensures
            r@ == (match *self {
                Pane::Resources => "Resources"@,
                Pane::Groups => "Groups"@,
            }),
    {
        match self {
            Pane::Resources => "Resources",
            Pane::Groups => "Groups",
        }
    }

    /// The other pane.
    pub fn toggle(&self) -> (r: Self)
        ensures
            r == pane_toggled(*self),
    {
        match self {
            Pane::Resources => Pane::Groups,
            Pane::Groups => Pane::Resources,
        }
    }
}

pub open spec fn pane_toggled(p: Pane) -> Pane {
    match p {
        Pane::Resources => Pane::Groups,
        Pane::Groups => Pane::Resources,
    }
}

/// Which roles the list shows.
#[derive(Debug, Clone, Copy, PartialEq, Eq, Structural)]
pub enum ViewFilter {
    All,
    Eligible,
    Active,
}

impl ViewFilter {
    pub fn label(&self) -> (r: &'static str)
        ensures
            r@ == (match *self {
                ViewFilter::All => "All"@,
                ViewFilter::Eligible => "Eligible"@,
                ViewFilter::Active => "Active"@,
            }),
    {
        match self {
            ViewFilter::All => "All",
            ViewFilter::Eligible => "Eligible",
            ViewFilter::Active => "Active",
        }
    }

    /// The next view: all, then eligible, then active, then all again.
    pub fn cycle(&self) -> (r: Self)
        ensures
            r == filter_cycled(*self),
    {
        match self {
            ViewFilter::All => ViewFilter::Eligible,
            ViewFilter::Eligible => ViewFilter::Active,
            ViewFilter::Active => ViewFilter::All,
        }
    }
}

pub open spec fn filter_cycled(f: ViewFilter) -> ViewFilter {
    match f {
        ViewFilter::All => ViewFilter::Eligible,
        ViewFilter::Eligible => ViewFilter::Active,
        ViewFilter::Active => ViewFilter::All,
    }
}

/// The dialog that is open, if any.
#[derive(Debug)]
pub enum ActiveModal {
    Closed,
    Activate { role_index: usize, justification: String, duration: String, focused_field: ModalField },
    BulkActivate {
        indices: Vec<usize>,
        justification: String,
        duration: String,
        focused_field: ModalField,
    },
    DeactivateConfirm { role_index: usize },
    Help,
}

/// The contents of a dialog, texts taken as character sequences.
pub enum ModalView {
    Closed,
    Activate { role_index: usize, justification: Seq<char>, duration: Seq<char>, focused_field: ModalField },
    BulkActivate {
        indices: Seq<usize>,
        justification: Seq<char>,
        duration: Seq<char>,
        focused_field: ModalField,
    },
    DeactivateConfirm { role_index: usize },
    Help,
}

impl View for ActiveModal {
    type V = ModalView;

    open spec fn view(&self) -> ModalView {
        match self {
            ActiveModal::Closed => ModalView::Closed,
            ActiveModal::Activate { role_index, justification, duration, focused_field } => {
                ModalView::Activate {
                    role_index: *role_index,
                    justification: justification@,
                    duration: duration@,
                    focused_field: *focused_field,
                }
            },
            ActiveModal::BulkActivate { indices, justification, duration, focused_field } => {
                ModalView::BulkActivate {
                    indices: indices@,
                    justification: justification@,
                    duration: duration@,
                    focused_field: *focused_field,
                }
            },
            ActiveModal::DeactivateConfirm { role_index } => ModalView::DeactivateConfirm {
                role_index: *role_index,
            },
            ActiveModal::Help => ModalView::Help,
        }
    }
}

impl ActiveModal {
    /// Whether no dialog is open.
    pub fn is_closed(&self) -> (r: bool)
        ensures
            r == (*self is Closed),
    {
        match self {
            ActiveModal::Closed => true,
            _ => false,
        }
    }
}

/// The input field that has the focus in the activation dialog.
#[derive(Debug, Clone, Copy, PartialEq, Eq, Structural)]
pub enum ModalField {
    Justification,
    Duration,
}

/// The whole state of the application.
pub struct App {
    // Resource roles
    pub roles: Vec<PimRole>,
    // Group roles
    pub group_roles: Vec<PimRole>,
    pub groups_loaded: bool,
    pub groups_loading: bool,
    pub group_status_message: String,
    // Shared UI state
    pub active_pane: Pane,
    pub filtered_indices: Vec<usize>,
    pub selected: usize,
    pub view_filter: ViewFilter,
    pub filter_text: String,
    pub filtering: bool,
    pub modal: ActiveModal,
    pub status_message: String,
    pub user_display: String,
    pub loading: bool,
    pub should_quit: bool,
    pub config: Config,
    pub auth: Option<AuthData>,
    /// When the resource roles were last loaded, in seconds since the Unix
    /// epoch; `None` before the first load or when the clock could not be read.
    pub last_refresh: Option<i64>,
    pub role_permissions: TextMap<Vec<String>>,
    pub detail_scroll: usize,
}

// ---------------------------------------------------------------------------
// What the list shows
// ---------------------------------------------------------------------------

/// A role passes the view filter.
pub open spec fn view_matches(s: RoleStatus, f: ViewFilter) -> bool {
    match f {
        ViewFilter::All => true,
        ViewFilter::Eligible => s is Eligible,
        ViewFilter::Active => s is Active,
    }
}

/// A role matches the search text: the text is empty, or its lower-case
/// form occurs in the lower-case role name or scope name.
pub open spec fn search_matches(role: PimRole, text: Seq<char>) -> bool {
    ||| text.len() == 0
    ||| has_sub(lowercase(role.role_name@), lowercase(text))
    ||| has_sub(lowercase(role.scope_display_name@), lowercase(text))
}

pub open spec fn role_visible(role: PimRole, f: ViewFilter, text: Seq<char>) -> bool {
    view_matches(role.status, f) && search_matches(role, text)
}

/// The positions of the roles that the list shows, in order.
pub open spec fn visible_indices(roles: Seq<PimRole>, f: ViewFilter, text: Seq<char>) -> Seq<usize>
    decreases roles.len(),
{
    if roles.len() == 0 {
        Seq::empty()
    } else {
        let prev = visible_indices(roles.drop_last(), f, text);
        if role_visible(roles.last(), f, text) {
            prev.push((roles.len() - 1) as usize)
        } else {
            prev
        }
    }
}

pub proof fn lemma_visible_indices_bounded(roles: Seq<PimRole>, f: ViewFilter, text: Seq<char>)
    ensures
        visible_indices(roles, f, text).len() <= roles.len(),
        forall|k: int|
            0 <= k < visible_indices(roles, f, text).len() ==> #[trigger] visible_indices(
                roles,
                f,
                text,
            )[k] < roles.len(),
    decreases roles.len(),
{
    if roles.len() > 0 {
        lemma_visible_indices_bounded(roles.drop_last(), f, text);
    }
}

/// Where the selection goes when the list length changes: it stays unless
/// it falls past the end, in which case it moves to the last row (or to 0
/// for an empty list).
pub open spec fn clamp_selection(sel: usize, len: int) -> usize {
    if sel >= len {
        if len == 0 { 0 } else { (len - 1) as usize }
    } else {
        sel
    }
}

/// The positions of the roles marked for a bulk operation.
pub open spec fn flagged_indices(roles: Seq<PimRole>) -> Seq<usize>
    decreases roles.len(),
{
    if roles.len() == 0 {
        Seq::empty()
    } else {
        let prev = flagged_indices(roles.drop_last());
        if roles.last().selected {
            prev.push((roles.len() - 1) as usize)
        } else {
            prev
        }
    }
}

pub open spec fn count_eligible(roles: Seq<PimRole>) -> nat
    decreases roles.len(),
{
    if roles.len() == 0 {
        0
    } else {
        count_eligible(roles.drop_last()) + if roles.last().status is Eligible { 1nat } else { 0 }
    }
}

pub open spec fn count_active(roles: Seq<PimRole>) -> nat
    decreases roles.len(),
{
    if roles.len() == 0 {
        0
    } else {
        count_active(roles.drop_last()) + if roles.last().status is Active { 1nat } else { 0 }
    }
}

/// The roles after the role at `index` (if there is one) got `status`,
/// losing its bulk mark when `clear_mark` holds.
pub open spec fn with_status(
    roles: Seq<PimRole>,
    index: usize,
    status: RoleStatus,
    clear_mark: bool,
) -> Seq<PimRole> {
    if index < roles.len() {
        roles.update(
            index as int,
            PimRole {
                status: status,
                selected: if clear_mark { false } else { roles[index as int].selected },
                ..roles[index as int]
            },
        )
    } else {
        roles
    }
}

/// Whether the lower-case search text occurs in the lower-case role name or
/// scope name.
pub fn search_hit(name_lower: &str, scope_lower: &str, needle_lower: &str) -> (r: bool)
    ensures
        r == (has_sub(name_lower@, needle_lower@) || has_sub(scope_lower@, needle_lower@)),
{
    let n = chars_of(needle_lower);
    let a = chars_of(name_lower);
    if contains_chars(&a, &n) {
        return true;
    }
    let b = chars_of(scope_lower);
    contains_chars(&b, &n)
}

/// Whether a role is shown under the view filter and the search text.
pub fn is_role_visible(role: &PimRole, filter: ViewFilter, text: &str) -> (r: bool)
    ensures
        r == role_visible(*role, filter, text@),
{
    let matches_filter = match filter {
        ViewFilter::All => true,
        ViewFilter::Eligible => role.status.is_eligible(),
        ViewFilter::Active => role.status.is_active(),
    };
    let matches_search = if text.is_empty() {
        true
    } else {
        let lower = to_lowercase(text);
        let name = to_lowercase(role.role_name.as_str());
        let scope = to_lowercase(role.scope_display_name.as_str());
        search_hit(name.as_str(), scope.as_str(), lower.as_str())
    };
    matches_filter && matches_search
}

/// The positions of the roles shown under the view filter and search text.
pub fn visible_role_indices(roles: &[PimRole], filter: ViewFilter, text: &str) -> (r: Vec<usize>)
    ensures
        r@ == visible_indices(roles@, filter, text@),
{
    let mut out: Vec<usize> = Vec::new();
    let mut i: usize = 0;
    proof {
        assert(roles@.take(0) =~= Seq::<PimRole>::empty());
    }
    while i < roles.len()
        invariant
            i <= roles@.len(),
            out@ == visible_indices(roles@.take(i as int), filter, text@),
        decreases roles@.len() - i,
    {
        proof {
            assert(roles@.take(i + 1).drop_last() =~= roles@.take(i as int));
            assert(roles@.take(i + 1).last() == roles@[i as int]);
        }
        if is_role_visible(&roles[i], filter, text) {
            out.push(i);
        }
        i = i + 1;
    }
    proof {
        assert(roles@.take(roles@.len() as int) =~= roles@);
    }
    out
}

fn set_status(roles: &mut Vec<PimRole>, index: usize, status: RoleStatus, clear_mark: bool)
    ensures
        final(roles)@ == with_status(old(roles)@, index, status, clear_mark),
{
    if index < roles.len() {
        roles[index].status = status;
        if clear_mark {
            roles[index].selected = false;
        }
        proof {
            assert(final(roles)@ =~= with_status(old(roles)@, index, status, clear_mark));
        }
    }
}

impl App {
    /// The roles of the pane on view.
    pub open spec fn shown(&self) -> Seq<PimRole> {
        match self.active_pane {
            Pane::Resources => self.roles@,
            Pane::Groups => self.group_roles@,
        }
    }

    /// The status line of the pane on view.
    pub open spec fn shown_status(&self) -> Seq<char> {
        match self.active_pane {
            Pane::Resources => self.status_message@,
            Pane::Groups => self.group_status_message@,
        }
    }

    /// The filtered rows point into the roles on view, and the selection
    /// points into the rows (or is 0 when there are none).
    pub open spec fn wf(&self) -> bool {
        &&& forall|k: int|
            0 <= k < self.filtered_indices@.len() ==> #[trigger] self.filtered_indices@[k]
                < self.shown().len()
        &&& if self.filtered_indices@.len() == 0 {
            self.selected == 0
        } else {
            self.selected < self.filtered_indices@.len()
        }
    }

    /// The rows are those the filters show, and the selection was clamped
    /// from `sel_before`.
    pub open spec fn refiltered_from(&self, sel_before: usize) -> bool {
        &&& self.filtered_indices@ == visible_indices(self.shown(), self.view_filter, self.filter_text@)
        &&& self.selected == clamp_selection(sel_before, self.filtered_indices@.len() as int)
    }

    /// A fresh application state with the given settings.
    pub fn new(config: Config) -> (app: Self)
        ensures
            app.wf(),
            app.roles@.len() == 0,
            app.group_roles@.len() == 0,
            !app.groups_loaded,
            !app.groups_loading,
            app.group_status_message@ == "Press Tab to load groups"@,
            app.active_pane == Pane::Resources,
            app.filtered_indices@.len() == 0,
            app.selected == 0,
            app.view_filter == ViewFilter::All,
            app.filter_text@.len() == 0,
            !app.filtering,
            app.modal is Closed,
            app.status_message@ == "Authenticating..."@,
            app.user_display@.len() == 0,
            app.loading,
            !app.should_quit,
            app.config == config,
            app.auth is None,
            app.last_refresh is None,
            app.role_permissions@ == Map::<Seq<char>, Seq<Seq<char>>>::empty(),
            app.detail_scroll == 0,
    {
        App {
            roles: Vec::new(),
            group_roles: Vec::new(),
            groups_loaded: false,
            groups_loading: false,
            group_status_message: owned("Press Tab to load groups"),
            active_pane: Pane::Resources,
            filtered_indices: Vec::new(),
            selected: 0,
            view_filter: ViewFilter::All,
            filter_text: String::new(),
            filtering: false,
            modal: ActiveModal::Closed,
            status_message: owned("Authenticating..."),
            user_display: String::new(),
            loading: true,
            should_quit: false,
            config,
            auth: None,
            last_refresh: None,
            role_permissions: TextMap::new(),
            detail_scroll: 0,
        }
    }

    /// Returns the role list for the active pane.
    pub fn active_roles(&self) -> (r: &[PimRole])
        ensures
            r@ == self.shown(),
    {
        match self.active_pane {
            Pane::Resources => self.roles.as_slice(),
            Pane::Groups => self.group_roles.as_slice(),
        }
    }

    /// Returns a mutable reference to the role list for the active pane.
    pub fn active_roles_mut(&mut self) -> (r: &mut Vec<PimRole>)
        ensures
            *r == match old(self).active_pane {
                Pane::Resources => old(self).roles,
                Pane::Groups => old(self).group_roles,
            },
            *final(self) == match old(self).active_pane {
                Pane::Resources => App { roles: *final(r), ..*old(self) },
                Pane::Groups => App { group_roles: *final(r), ..*old(self) },
            },
    {
        match self.active_pane {
            Pane::Resources => &mut self.roles,
            Pane::Groups => &mut self.group_roles,
        }
    }

    /// Returns the status message for the active pane.
    pub fn active_status(&self) -> (r: &str)
        ensures
            r@ == self.shown_status(),
    {
        match self.active_pane {
            Pane::Resources => self.status_message.as_str(),
            Pane::Groups => self.group_status_message.as_str(),
        }
    }

    /// Is the active pane loading?
    pub fn active_loading(&self) -> (r: bool)
        ensures
            r == (match self.active_pane {
                Pane::Resources => self.loading,
                Pane::Groups => self.groups_loading,
            }),
    {
        match self.active_pane {
            Pane::Resources => self.loading,
            Pane::Groups => self.groups_loading,
        }
    }

    /// Recomputes the rows from the roles on view, the view filter and the
    /// search text, and clamps the selection.
    pub fn update_filtered_indices(&mut self)
        ensures
            final(self).wf(),
            final(self).refiltered_from(old(self).selected),
            *final(self) == (App {
                filtered_indices: final(self).filtered_indices,
                selected: final(self).selected,
                ..*old(self)
            }),
    {
        let idx = visible_role_indices(self.active_roles(), self.view_filter, self.filter_text.as_str());
        proof {
            lemma_visible_indices_bounded(self.shown(), self.view_filter, self.filter_text@);
        }
        self.filtered_indices = idx;
        if self.selected >= self.filtered_indices.len() {
            self.selected = if self.filtered_indices.len() == 0 { 0 } else { self.filtered_indices.len() - 1 };
        }
    }

    /// Moves to the other pane with a cleared search and the first row selected.
    pub fn switch_pane(&mut self)
        ensures
            final(self).wf(),
            final(self).active_pane == pane_toggled(old(self).active_pane),
            final(self).filter_text@.len() == 0,
            final(self).detail_scroll == 0,
            final(self).refiltered_from(0),
            *final(self) == (App {
                active_pane: final(self).active_pane,
                filter_text: final(self).filter_text,
                detail_scroll: 0,
                filtered_indices: final(self).filtered_indices,
                selected: final(self).selected,
                ..*old(self)
            }),
    {
        self.active_pane = self.active_pane.toggle();
        self.selected = 0;
        self.detail_scroll = 0;
        self.filter_text = String::new();
        self.update_filtered_indices();
    }

    /// Returns true if groups need to be fetched (first visit).
    pub fn needs_group_fetch(&self) -> (r: bool)
        ensures
            r == (self.active_pane == Pane::Groups && !self.groups_loaded && !self.groups_loading),
    {
        self.active_pane == Pane::Groups && !self.groups_loaded && !self.groups_loading
    }

    /// The position, among the roles on view, of the selected row's role.
    pub fn selected_role_index(&self) -> (r: Option<usize>)
        ensures
            r == (if self.selected < self.filtered_indices@.len() {
                Some(self.filtered_indices@[self.selected as int])
            } else {
                None
            }),
    {
        if self.selected < self.filtered_indices.len() {
            Some(self.filtered_indices[self.selected])
        } else {
            None
        }
    }

    /// The selected row's role.
    pub fn selected_role(&self) -> (r: Option<&PimRole>)
        ensures
            r == (if self.selected < self.filtered_indices@.len()
                && self.filtered_indices@[self.selected as int] < self.shown().len() {
                Some(&self.shown()[self.filtered_indices@[self.selected as int] as int])
            } else {
                None
            }),
    {
        match self.selected_role_index() {
            Some(i) => {
                let roles = self.active_roles();
                if i < roles.len() {
                    Some(&roles[i])
                } else {
                    None
                }
            },
            None => None,
        }
    }

    /// Moves the selection by `delta` rows, wrapping around at both ends.
    pub fn move_selection(&mut self, delta: i32)
        requires
            old(self).wf(),
            old(self).filtered_indices@.len() <= i32::MAX,
            i32::MIN <= old(self).selected + delta <= i32::MAX,
        ensures
            final(self).wf(),
            old(self).filtered_indices@.len() == 0 ==> *final(self) == *old(self),
            old(self).filtered_indices@.len() > 0 ==> *final(self) == (App {
                selected: ((old(self).selected + delta) % (old(self).filtered_indices@.len() as int)) as usize,
                detail_scroll: 0,
                ..*old(self)
            }),
    {
        if self.filtered_indices.len() == 0 {
            return;
        }
        let len: u64 = self.filtered_indices.len() as u64;
        let sum: i64 = self.selected as i64 + delta as i64;
        let new: u64 = if sum >= 0 {
            (sum as u64) % len
        } else {
            let m: u64 = ((-sum) as u64) % len;
            if m == 0 { 0 } else { len - m }
        };
        proof {
            lemma_euclid(sum as int, len as int);
        }
        self.selected = new as usize;
        self.detail_scroll = 0;
    }

    pub fn select_first(&mut self)
        requires
            old(self).wf(),
        ensures
            final(self).wf(),
            *final(self) == (App { selected: 0, detail_scroll: 0, ..*old(self) }),
    {
        self.selected = 0;
        self.detail_scroll = 0;
    }

    pub fn select_last(&mut self)
        requires
            old(self).wf(),
        ensures
            final(self).wf(),
            *final(self) == (App {
                selected: if old(self).filtered_indices@.len() > 0 {
                    (old(self).filtered_indices@.len() - 1) as usize
                } else {
                    old(self).selected
                },
                detail_scroll: 0,
                ..*old(self)
            }),
    {
        if self.filtered_indices.len() > 0 {
            self.selected = self.filtered_indices.len() - 1;
        }
        self.detail_scroll = 0;
    }

    /// Toggles selection on the current role and returns `true` if the role is now selected.
    pub fn toggle_selected(&mut self) -> (r: bool)
        requires
            old(self).wf(),
        ensures
            final(self).wf(),
            ({
                let o = *old(self);
                if o.selected < o.filtered_indices@.len() {
                    let i = o.filtered_indices@[o.selected as int];
                    let flipped = PimRole { selected: !o.shown()[i as int].selected, ..o.shown()[i as int] };
                    &&& r == !o.shown()[i as int].selected
                    &&& final(self).shown() == o.shown().update(i as int, flipped)
                    &&& *final(self) == (App {
                        roles: final(self).roles,
                        group_roles: final(self).group_roles,
                        ..o
                    })
                    &&& match o.active_pane {
                        Pane::Resources => final(self).group_roles == o.group_roles,
                        Pane::Groups => final(self).roles == o.roles,
                    }
                } else {
                    &&& !r
                    &&& *final(self) == o
                }
            }),
    {
        if self.selected < self.filtered_indices.len() {
            let i = self.filtered_indices[self.selected];
            match self.active_pane {
                Pane::Resources => {
                    let new_val = !self.roles[i].selected;
                    self.roles[i].selected = new_val;
                    proof {
                        assert(self.roles@ =~= old(self).roles@.update(i as int, PimRole { selected: new_val, ..old(self).roles@[i as int] }));
                    }
                    return new_val;
                },
                Pane::Groups => {
                    let new_val = !self.group_roles[i].selected;
                    self.group_roles[i].selected = new_val;
                    proof {
                        assert(self.group_roles@ =~= old(self).group_roles@.update(i as int, PimRole { selected: new_val, ..old(self).group_roles@[i as int] }));
                    }
                    return new_val;
                },
            }
        }
        false
    }

    /// The positions of the roles on view that are marked for a bulk operation.
    pub fn selected_indices(&self) -> (r: Vec<usize>)
        ensures
            r@ == flagged_indices(self.shown()),
    {
        let roles = self.active_roles();
        let mut out: Vec<usize> = Vec::new();
        let mut i: usize = 0;
        proof {
            assert(roles@.take(0) =~= Seq::<PimRole>::empty());
        }
        while i < roles.len()
            invariant
                i <= roles@.len(),
                roles@ == self.shown(),
                out@ == flagged_indices(roles@.take(i as int)),
            decreases roles@.len() - i,
        {
            proof {
                assert(roles@.take(i + 1).drop_last() =~= roles@.take(i as int));
            }
            if roles[i].selected {
                out.push(i);
            }
            i = i + 1;
        }
        proof {
            assert(roles@.take(roles@.len() as int) =~= roles@);
        }
        out
    }

    /// How many roles on view are eligible (not active).
    pub fn eligible_count(&self) -> (r: usize)
        ensures
            r == count_eligible(self.shown()),
    {
        let roles = self.active_roles();
        let mut n: usize = 0;
        let mut i: usize = 0;
        proof {
            assert(roles@.take(0) =~= Seq::<PimRole>::empty());
        }
        while i < roles.len()
            invariant
                i <= roles@.len(),
                roles@ == self.shown(),
                n == count_eligible(roles@.take(i as int)),
                n <= i,
            decreases roles@.len() - i,
        {
            proof {
                assert(roles@.take(i + 1).drop_last() =~= roles@.take(i as int));
            }
            if roles[i].status.is_eligible() {
                n = n + 1;
            }
            i = i + 1;
        }
        proof {
            assert(roles@.take(roles@.len() as int) =~= roles@);
        }
        n
    }

    /// How many roles on view are active.
    pub fn active_count(&self) -> (r: usize)
        ensures
            r == count_active(self.shown()),
    {
        let roles = self.active_roles();
        let mut n: usize = 0;
        let mut i: usize = 0;
        proof {
            assert(roles@.take(0) =~= Seq::<PimRole>::empty());
        }
        while i < roles.len()
            invariant
                i <= roles@.len(),
                roles@ == self.shown(),
                n == count_active(roles@.take(i as int)),
                n <= i,
            decreases roles@.len() - i,
        {
            proof {
                assert(roles@.take(i + 1).drop_last() =~= roles@.take(i as int));
            }
            if roles[i].status.is_active() {
                n = n + 1;
            }
            i = i + 1;
        }
        proof {
            assert(roles@.take(roles@.len() as int) =~= roles@);
        }
        n
    }
}


/// The status line of the pane on view now reads `msg`; the other is kept.
pub open spec fn pane_message(o: App, n: App, msg: Seq<char>) -> bool {
    match o.active_pane {
        Pane::Resources => n.status_message@ == msg && n.group_status_message
            == o.group_status_message,
        Pane::Groups => n.group_status_message@ == msg && n.status_message == o.status_message,
    }
}

/// The roles on view are now `roles`; the other pane's are kept.
pub open spec fn shown_roles_become(o: App, n: App, roles: Seq<PimRole>) -> bool {
    match o.active_pane {
        Pane::Resources => n.roles@ == roles && n.group_roles == o.group_roles,
        Pane::Groups => n.group_roles@ == roles && n.roles == o.roles,
    }
}

/// The rows were recomputed after a change to the roles on view; nothing
/// else but the roles and both status lines changed.
pub open spec fn role_result_frame(o: App, n: App) -> bool {
    &&& n.refiltered_from(o.selected)
    &&& n == (App {
        roles: n.roles,
        group_roles: n.group_roles,
        status_message: n.status_message,
        group_status_message: n.group_status_message,
        filtered_indices: n.filtered_indices,
        selected: n.selected,
        ..o
    })
}

/// How a background result changes the application state, the clock
/// reading `now` (seconds since the Unix epoch; `None` when the clock could
/// not be read).
pub open spec fn bg_effect(o: App, n: App, event: BgEvent, now: Option<i64>) -> bool {
    match event {
        BgEvent::AuthReady(Ok(a)) => {
            &&& n.user_display == a.user_display
            &&& n.auth == Some(a)
            &&& n.status_message@ == "Fetching roles..."@
            &&& n == (App {
                user_display: n.user_display,
                auth: n.auth,
                status_message: n.status_message,
                ..o
            })
        },
        BgEvent::AuthReady(Err(e)) => {
            &&& n.status_message@ == "Auth failed: "@ + e@
            &&& n == (App { loading: false, status_message: n.status_message, ..o })
        },
        BgEvent::RolesLoaded(Ok(roles)) => {
            &&& n.roles == roles
            &&& n.last_refresh == now
            &&& n.status_message@ == "Ready"@
            &&& if o.active_pane == Pane::Resources {
                n.refiltered_from(o.selected)
            } else {
                n.filtered_indices == o.filtered_indices && n.selected == o.selected
            }
            &&& n == (App {
                roles: n.roles,
                filtered_indices: n.filtered_indices,
                selected: n.selected,
                loading: false,
                last_refresh: n.last_refresh,
                status_message: n.status_message,
                ..o
            })
        },
        BgEvent::RolesLoaded(Err(e)) => {
            &&& n.status_message@ == "Failed to load roles: "@ + e@
            &&& n == (App { loading: false, status_message: n.status_message, ..o })
        },
        BgEvent::GroupRolesLoaded(Ok(roles)) => {
            &&& n.group_roles == roles
            &&& n.group_status_message@ == "Ready"@
            &&& if o.active_pane == Pane::Groups {
                n.refiltered_from(o.selected)
            } else {
                n.filtered_indices == o.filtered_indices && n.selected == o.selected
            }
            &&& n == (App {
                group_roles: n.group_roles,
                groups_loaded: true,
                groups_loading: false,
                group_status_message: n.group_status_message,
                filtered_indices: n.filtered_indices,
                selected: n.selected,
                ..o
            })
        },
        BgEvent::GroupRolesLoaded(Err(e)) => {
            &&& n.group_status_message@ == "Failed: "@ + e@
            &&& n == (App {
                groups_loading: false,
                group_status_message: n.group_status_message,
                ..o
            })
        },
        BgEvent::ActivationResult { index, result: Ok(_) } => {
            &&& shown_roles_become(o, n, with_status(o.shown(), index, RoleStatus::Activating, true))
            &&& pane_message(o, n, "Activation requested - refreshing..."@)
            &&& role_result_frame(o, n)
        },
        BgEvent::ActivationResult { index, result: Err(e) } => {
            &&& shown_roles_become(o, n, with_status(o.shown(), index, RoleStatus::Failed(e), false))
            &&& pane_message(o, n, "Activation failed: "@ + e@)
            &&& role_result_frame(o, n)
        },
        BgEvent::DeactivationResult { index, result: Ok(_) } => {
            &&& shown_roles_become(o, n, with_status(o.shown(), index, RoleStatus::Eligible, true))
            &&& pane_message(o, n, "Deactivated - refreshing..."@)
            &&& role_result_frame(o, n)
        },
        BgEvent::DeactivationResult { index, result: Err(e) } => {
            &&& shown_roles_become(o, n, o.shown())
            &&& pane_message(o, n, "Deactivation failed: "@ + e@)
            &&& role_result_frame(o, n)
        },
        BgEvent::RolePermissionsLoaded(Ok(perms)) => {
            &&& n.role_permissions@ == o.role_permissions@.union_prefer_right(perms@)
            &&& n == (App { role_permissions: n.role_permissions, ..o })
        },
        BgEvent::RolePermissionsLoaded(Err(_)) => n == o,
        BgEvent::GraphStatus(msg) => n == (App { group_status_message: msg, ..o }),
    }
}

impl App {
    /// Sets the status line of the pane on view.
    fn set_pane_message(&mut self, msg: String)
        ensures
            pane_message(*old(self), *final(self), msg@),
            *final(self) == (App {
                status_message: final(self).status_message,
                group_status_message: final(self).group_status_message,
                ..*old(self)
            }),
    {
        match self.active_pane {
            Pane::Resources => {
                self.status_message = msg;
            },
            Pane::Groups => {
                self.group_status_message = msg;
            },
        }
    }

    /// Gives the role at `index` among those on view a new status.
    fn set_shown_status(&mut self, index: usize, status: RoleStatus, clear_mark: bool)
        ensures
            shown_roles_become(*old(self), *final(self), with_status(old(self).shown(), index, status, clear_mark)),
            *final(self) == (App {
                roles: final(self).roles,
                group_roles: final(self).group_roles,
                ..*old(self)
            }),
    {
        match self.active_pane {
            Pane::Resources => set_status(&mut self.roles, index, status, clear_mark),
            Pane::Groups => set_status(&mut self.group_roles, index, status, clear_mark),
        }
    }

    /// Applies a background result to the state at the current time; the
    /// time of a roles load is recorded as unknown when the system clock
    /// cannot be read.
    pub fn handle_bg_event(&mut self, event: BgEvent)
        requires
            old(self).wf(),
        ensures
            final(self).wf(),
            exists|now: Option<i64>| #[trigger] bg_effect(*old(self), *final(self), event, now),
    {
        let now = unix_seconds();
        self.apply_bg_event(event, now);
    }

    /// Applies a background result to the state, the clock reading `now`.
    pub fn handle_bg_event_at(&mut self, event: BgEvent, now: i64)
        requires
            old(self).wf(),
        ensures
            final(self).wf(),
            bg_effect(*old(self), *final(self), event, Some(now)),
    {
        self.apply_bg_event(event, Some(now));
    }

    fn apply_bg_event(&mut self, event: BgEvent, now: Option<i64>)
        requires
            old(self).wf(),
        ensures
            final(self).wf(),
            bg_effect(*old(self), *final(self), event, now),
    {
        match event {
            BgEvent::AuthReady(Ok(auth_data)) => {
                self.user_display = auth_data.user_display.clone();
                self.auth = Some(auth_data);
                self.status_message = owned("Fetching roles...");
            },
            BgEvent::AuthReady(Err(e)) => {
                self.loading = false;
                self.status_message = join2("Auth failed: ", e.as_str());
            },
            BgEvent::RolesLoaded(Ok(roles)) => {
                self.roles = roles;
                if self.active_pane == Pane::Resources {
                    self.update_filtered_indices();
                }
                self.loading = false;
                self.last_refresh = now;
                self.status_message = owned("Ready");
            },
            BgEvent::RolesLoaded(Err(e)) => {
                self.loading = false;
                self.status_message = join2("Failed to load roles: ", e.as_str());
            },
            BgEvent::GroupRolesLoaded(Ok(roles)) => {
                self.group_roles = roles;
                self.groups_loaded = true;
                self.groups_loading = false;
                self.group_status_message = owned("Ready");
                if self.active_pane == Pane::Groups {
                    self.update_filtered_indices();
                }
            },
            BgEvent::GroupRolesLoaded(Err(e)) => {
                self.groups_loading = false;
                self.group_status_message = join2("Failed: ", e.as_str());
            },
            BgEvent::ActivationResult { index, result } => {
                match result {
                    Ok(()) => {
                        self.set_shown_status(index, RoleStatus::Activating, true);
                        self.set_pane_message(owned("Activation requested - refreshing..."));
                    },
                    Err(e) => {
                        self.set_shown_status(index, RoleStatus::Failed(e.clone()), false);
                        self.set_pane_message(join2("Activation failed: ", e.as_str()));
                    },
                }
                self.update_filtered_indices();
            },
            BgEvent::DeactivationResult { index, result } => {
                match result {
                    Ok(()) => {
                        self.set_shown_status(index, RoleStatus::Eligible, true);
                        self.set_pane_message(owned("Deactivated - refreshing..."));
                    },
                    Err(e) => {
                        self.set_pane_message(join2("Deactivation failed: ", e.as_str()));
                    },
                }
                self.update_filtered_indices();
            },
            BgEvent::RolePermissionsLoaded(Ok(perms)) => {
                self.role_permissions.extend(perms);
            },
            BgEvent::RolePermissionsLoaded(Err(_)) => {},
            BgEvent::GraphStatus(msg) => {
                self.group_status_message = msg;
            },
        }
    }
}

/// Euclidean remainder computed without signed division.
proof fn lemma_euclid(s: int, len: int)
    requires
        len > 0,
    ensures
        s >= 0 ==> s % len == (s as nat) % (len as nat),
        s < 0 ==> s % len == (if (-s) % len == 0 { 0 } else { len - (-s) % len }),
        0 <= s % len < len,
{
    if s < 0 {
        let r = (-s) % len;
        let q = (-s) / len;
        assert(-s == q * len + r) by (nonlinear_arith)
            requires
                len > 0,
                r == (-s) % len,
                q == (-s) / len,
        ;
        if r == 0 {
            assert(s == (-q) * len) by (nonlinear_arith)
                requires
                    -s == q * len,
            ;
            vstd::arithmetic::div_mod::lemma_mod_multiples_basic(-q, len);
        } else {
            assert(s == (-q - 1) * len + (len - r)) by (nonlinear_arith)
                requires
                    -s == q * len + r,
            ;
            vstd::arithmetic::div_mod::lemma_mod_multiples_vanish(-q - 1, len - r, len);
            vstd::arithmetic::div_mod::lemma_small_mod((len - r) as nat, len as nat);
        }
    }
}

} // verus!
