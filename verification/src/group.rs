//! Privileged access for groups (Microsoft Graph): the requests made and
//! how their answers become the group role list.
use vstd::prelude::*;
use crate::error::PimError;
use crate::models::{GraphGroup, GraphListResponse, GroupAssignmentRequest,
    GroupAssignmentScheduleInstance, GroupEligibilityScheduleInstance, GroupExpirationInfo,
    GroupScheduleInfo, PimRole, RoleFetch, RoleStatus, RoleType, access_label_text};
use crate::pim::{hours_duration, hours_duration_text};
use crate::role_order::{roles_sorted, sort_roles, ties_of, SortKey};
use crate::text::{contains_str, has_sub, join2, join3, owned, text_eq};
use crate::text_map::TextMap;

verus! {

pub const GRAPH_BASE: &'static str = "https://graph.microsoft.com/v1.0";

/// At most this many pages are read from one listing.
pub const MAX_PAGES: usize = 100;

/// At most this many group ids go into one name lookup.
pub const NAME_BATCH: usize = 15;

// ---------------------------------------------------------------------------
// Requests
// ---------------------------------------------------------------------------

/// The `$filter` that limits a listing to one principal.
pub fn principal_eq_filter(principal_id: &str) -> (r: String)
    ensures
        r@ == "principalId eq '"@ + principal_id@ + "'"@,
{
    join3("principalId eq '", principal_id, "'")
}

/// Where a Graph privileged-access resource for groups lives.
pub fn group_access_url(resource: &str) -> (r: String)
    ensures
        r@ == GRAPH_BASE@ + "/identityGovernance/privilegedAccess/group/"@ + resource@,
{
    join3(GRAPH_BASE, "/identityGovernance/privilegedAccess/group/", resource)
}

/// The access kind a group role is requested with.
pub open spec fn access_id_of(t: RoleType) -> Seq<char> {
    match t {
        RoleType::GroupOwner => "owner"@,
        _ => "member"@,
    }
}

fn access_id_text(t: RoleType) -> (r: String)
    ensures
        r@ == access_id_of(t),
{
    match t {
        RoleType::GroupOwner => owned("owner"),
        _ => owned("member"),
    }
}

fn group_id_or_empty(role: &PimRole) -> (r: String)
    ensures
        r@ == (match role.group_id { Some(g) => g@, None => Seq::<char>::empty() }),
{
    match &role.group_id {
        Some(g) => g.clone(),
        None => String::new(),
    }
}

/// The request that activates a group membership or ownership for some hours.
pub fn group_activation_request(role: &PimRole, principal_id: &str, justification: &str, duration_hours: u32)
    -> (r: GroupAssignmentRequest)
    ensures
        r.access_id@ == access_id_of(role.role_type),
        r.principal_id@ == principal_id@,
        r.group_id@ == (match role.group_id { Some(g) => g@, None => Seq::<char>::empty() }),
        r.action@ == "selfActivate"@,
        r.justification matches Some(j) && j@ == justification@,
        r.schedule_info matches Some(si) && si.expiration.expiration_type@ == "afterDuration"@
            && si.expiration.duration@ == hours_duration(duration_hours),
{
    GroupAssignmentRequest {
        access_id: access_id_text(role.role_type),
        principal_id: owned(principal_id),
        group_id: group_id_or_empty(role),
        action: owned("selfActivate"),
        justification: Some(owned(justification)),
        schedule_info: Some(GroupScheduleInfo {
            expiration: GroupExpirationInfo {
                expiration_type: owned("afterDuration"),
                duration: hours_duration_text(duration_hours),
            },
        }),
    }
}

/// The request that gives up a group membership or ownership.
pub fn group_deactivation_request(role: &PimRole, principal_id: &str) -> (r: GroupAssignmentRequest)
    ensures
        r.access_id@ == access_id_of(role.role_type),
        r.principal_id@ == principal_id@,
        r.group_id@ == (match role.group_id { Some(g) => g@, None => Seq::<char>::empty() }),
        r.action@ == "selfDeactivate"@,
        r.justification is None,
        r.schedule_info is None,
{
    GroupAssignmentRequest {
        access_id: access_id_text(role.role_type),
        principal_id: owned(principal_id),
        group_id: group_id_or_empty(role),
        action: owned("selfDeactivate"),
        justification: None,
        schedule_info: None,
    }
}

/// The error for a refused group activation.
pub fn group_activation_failure(status: u16, body: String) -> (e: PimError)
    ensures
        has_sub(body@, "RoleAssignmentExists"@) || has_sub(body@, "has already been activated"@)
            ==> e is RoleAssignmentExists,
        !has_sub(body@, "RoleAssignmentExists"@) && !has_sub(body@, "has already been activated"@)
            ==> e == (PimError::Api { status, message: body }),
{
    if contains_str(body.as_str(), "RoleAssignmentExists") || contains_str(body.as_str(), "has already been activated") {
        return PimError::RoleAssignmentExists;
    }
    PimError::Api { status, message: body }
}

// ---------------------------------------------------------------------------
// Paged listings
// ---------------------------------------------------------------------------

/// The next request of a paged listing.
#[derive(Debug)]
pub enum PageRequest {
    /// The listing's own address, with the principal filter.
    First,
    /// A link the previous page gave.
    Link(String),
}

/// A paged Graph listing under way: the items so far, the link to follow,
/// how many pages were read, and whether the last page was seen.
pub struct PagedList<T> {
    pub items: Vec<T>,
    pub next: Option<String>,
    pub pages: usize,
    pub finished: bool,
}

impl<T> PagedList<T> {
    /// A listing before its first page.
    pub fn new() -> (p: Self)
        ensures
            p.items@.len() == 0,
            p.next is None,
            p.pages == 0,
            !p.finished,
    {
        PagedList { items: Vec::new(), next: None, pages: 0, finished: false }
    }

    /// The next request to make, or `None` when the listing is over: the
    /// last page was seen, or the page limit was reached (so that a server
    /// that keeps sending the same link cannot stall the refresh).
    pub fn next_request(&self) -> (r: Option<PageRequest>)
        ensures
            (self.finished || self.pages >= MAX_PAGES) ==> r is None,
            !(self.finished || self.pages >= MAX_PAGES) ==> match self.next {
                Some(l) => (r matches Some(PageRequest::Link(m)) && m == l),
                None => (r matches Some(PageRequest::First)),
            },
    {
        if self.finished || self.pages >= MAX_PAGES {
            return None;
        }
        match &self.next {
            Some(l) => Some(PageRequest::Link(l.clone())),
            None => Some(PageRequest::First),
        }
    }

    /// Takes in one page: its items are added, and its link, if any, is
    /// followed next; without a link the listing is over.
    pub fn on_page(&mut self, page: GraphListResponse<T>)
        requires
            old(self).pages < MAX_PAGES,
        ensures
            final(self).items@ == old(self).items@ + page.value@,
            final(self).pages == old(self).pages + 1,
            final(self).next == page.next_link,
            final(self).finished == (page.next_link is None),
    {
        let mut value = page.value;
        self.items.append(&mut value);
        self.finished = page.next_link.is_none();
        self.next = page.next_link;
        self.pages = self.pages + 1;
    }

    /// The outcome when a page is refused: 400, 403 and 404 mean the
    /// tenant does not offer this listing (or the user may not read it),
    /// which reads as an empty list; any other status is an error, so that
    /// a passing failure does not read as an empty list.
    pub fn on_refused(self, status: u16, message: String) -> (r: Result<Vec<T>, PimError>)
        ensures
            (status == 400 || status == 403 || status == 404) ==> (r matches Ok(v) && v@.len() == 0),
            !(status == 400 || status == 403 || status == 404) ==> (r matches Err(e) && e == (PimError::Api { status, message })),
    {
        if status == 400 || status == 403 || status == 404 {
            return Ok(Vec::new());
        }
        Err(PimError::Api { status, message })
    }

    /// The items read.
    pub fn into_items(self) -> (r: Vec<T>)
        ensures
            r == self.items,
    {
        self.items
    }
}

// ---------------------------------------------------------------------------
// Group names
// ---------------------------------------------------------------------------

/// The group ids of a list of eligibilities.
pub open spec fn group_ids_of(eligible: Seq<GroupEligibilityScheduleInstance>) -> Seq<Seq<char>> {
    eligible.map_values(|e: GroupEligibilityScheduleInstance| e.group_id@)
}

/// The views of a list of texts.
pub open spec fn text_views(v: Seq<String>) -> Seq<Seq<char>> {
    v.map_values(|s: String| s@)
}

/// The group ids of the eligibilities, each once, in order of first appearance.
pub fn unique_group_ids(eligible: &[GroupEligibilityScheduleInstance]) -> (r: Vec<String>)
    ensures
        text_views(r@).no_duplicates(),
        text_views(r@).to_set() == group_ids_of(eligible@).to_set(),
{
    let mut out: Vec<String> = Vec::new();
    let mut i: usize = 0;
    let ghost ids = group_ids_of(eligible@);
    proof {
        assert(text_views(out@).to_set() =~= ids.take(0).to_set());
    }
    while i < eligible.len()
        invariant
            i <= eligible@.len(),
            ids == group_ids_of(eligible@),
            text_views(out@).no_duplicates(),
            text_views(out@).to_set() == ids.take(i as int).to_set(),
        decreases eligible@.len() - i,
    {
        let id = &eligible[i].group_id;
        proof {
            assert(ids[i as int] == id@);
            assert(ids.take(i + 1) =~= ids.take(i as int).push(id@));
            ids.take(i as int).lemma_push_to_set_commute(id@);
        }
        let mut found = false;
        let mut j: usize = 0;
        while j < out.len()
            invariant
                j <= out@.len(),
                found ==> text_views(out@).contains(id@),
                !found ==> forall|t: int| 0 <= t < j ==> out@[t]@ != id@,
            decreases out@.len() - j,
        {
            if out[j] == *id {
                found = true;
                proof {
                    assert(text_views(out@)[j as int] == id@);
                }
            }
            j = j + 1;
        }
        let ghost before = out@;
        if !found {
            out.push(id.clone());
            proof {
                let bm = text_views(before);
                assert(text_views(out@) =~= bm.push(id@));
                assert(!bm.contains(id@)) by {
                    if bm.contains(id@) {
                        let t = choose|t: int| 0 <= t < bm.len() && bm[t] == id@;
                        assert(before[t]@ != id@);
                    }
                }
                bm.lemma_push_to_set_commute(id@);
            }
        } else {
            proof {
                assert(text_views(out@).to_set().contains(id@));
                assert(text_views(out@).to_set().insert(id@) =~= text_views(out@).to_set());
            }
        }
        i = i + 1;
    }
    proof {
        assert(ids.take(i as int) =~= ids);
    }
    out
}

/// `id1,id2,...` with each id quoted: `'a','b'`.
pub open spec fn quoted_list(ids: Seq<Seq<char>>) -> Seq<char>
    decreases ids.len(),
{
    if ids.len() == 0 {
        Seq::empty()
    } else if ids.len() == 1 {
        "'"@ + ids[0] + "'"@
    } else {
        quoted_list(ids.drop_last()) + ","@ + "'"@ + ids.last() + "'"@
    }
}

/// The `$filter` that looks up the names of some groups.
pub open spec fn names_filter(ids: Seq<Seq<char>>) -> Seq<char> {
    "id in ("@ + quoted_list(ids) + ")"@
}

/// The name lookups for a list of group ids: the ids in batches of
/// `NAME_BATCH`, in order, one filter per batch.
pub open spec fn name_filters(ids: Seq<Seq<char>>) -> Seq<Seq<char>>
    decreases ids.len(),
{
    if ids.len() == 0 {
        Seq::empty()
    } else if ids.len() <= NAME_BATCH {
        seq![names_filter(ids)]
    } else {
        seq![names_filter(ids.take(NAME_BATCH as int))] + name_filters(ids.skip(NAME_BATCH as int))
    }
}

fn names_filter_text(ids: &[String], lo: usize, hi: usize) -> (r: String)
    requires
        lo <= hi <= ids@.len(),
    ensures
        r@ == names_filter(ids@.subrange(lo as int, hi as int).map_values(|s: String| s@)),
{
    let mut body = String::new();
    let mut k: usize = lo;
    proof {
        assert(ids@.subrange(lo as int, lo as int).map_values(|s: String| s@) =~= Seq::<Seq<char>>::empty());
    }
    while k < hi
        invariant
            lo <= k <= hi,
            hi <= ids@.len(),
            body@ == quoted_list(ids@.subrange(lo as int, k as int).map_values(|s: String| s@)),
        decreases hi - k,
    {
        let ghost prev = ids@.subrange(lo as int, k as int).map_values(|s: String| s@);
        let ghost next = ids@.subrange(lo as int, k + 1).map_values(|s: String| s@);
        proof {
            assert(next.drop_last() =~= prev);
            assert(next.last() == ids@[k as int]@);
        }
        let quoted = join3("'", ids[k].as_str(), "'");
        if k == lo {
            body = quoted;
            proof {
                assert(next.len() == 1);
                assert(next[0] == ids@[k as int]@);
            }
        } else {
            let with_comma = join2(body.as_str(), ",");
            body = join2(with_comma.as_str(), quoted.as_str());
            proof {
                assert(body@ =~= quoted_list(prev) + ","@ + "'"@ + ids@[k as int]@ + "'"@);
            }
        }
        k = k + 1;
    }
    join3("id in (", body.as_str(), ")")
}

/// The name-lookup filters for the given group ids, at most `NAME_BATCH`
/// ids each.
pub fn group_name_filters(ids: &[String]) -> (r: Vec<String>)
    ensures
        r@.map_values(|s: String| s@) == name_filters(ids@.map_values(|s: String| s@)),
{
    let mut out: Vec<String> = Vec::new();
    let mut lo: usize = 0;
    let ghost all = ids@.map_values(|s: String| s@);
    proof {
        assert(all.skip(0) =~= all);
        assert(out@.map_values(|s: String| s@) + all =~= all);
    }
    while lo < ids.len()
        invariant
            lo <= ids@.len(),
            all == ids@.map_values(|s: String| s@),
            out@.map_values(|s: String| s@) + name_filters(all.skip(lo as int)) == name_filters(all),
        decreases ids@.len() - lo,
    {
        let hi = if ids.len() - lo > NAME_BATCH { lo + NAME_BATCH } else { ids.len() };
        let f = names_filter_text(ids, lo, hi);
        let ghost rest = all.skip(lo as int);
        proof {
            assert(ids@.subrange(lo as int, hi as int).map_values(|s: String| s@) =~= rest.take((hi - lo) as int));
            if rest.len() <= NAME_BATCH {
                assert(rest.take((hi - lo) as int) =~= rest);
                assert(all.skip(hi as int) =~= Seq::<Seq<char>>::empty());
            } else {
                assert(rest.skip(NAME_BATCH as int) =~= all.skip(hi as int));
            }
        }
        let ghost before = out@;
        out.push(f);
        proof {
            assert(out@.map_values(|s: String| s@) =~= before.map_values(|s: String| s@).push(f@));
            assert(out@.map_values(|s: String| s@) + name_filters(all.skip(hi as int)) =~= before.map_values(|s: String| s@) + name_filters(rest));
        }
        lo = hi;
    }
    proof {
        assert(all.skip(lo as int) =~= Seq::<Seq<char>>::empty());
        assert(out@.map_values(|s: String| s@) + Seq::<Seq<char>>::empty() =~= out@.map_values(|s: String| s@));
    }
    out
}

/// Records the display names of the groups that have one.
pub fn record_group_names(names: &mut TextMap<String>, groups: Vec<GraphGroup>)
    ensures
        final(names)@ == group_names_added(old(names)@, groups@),
{
    let mut rest = groups;
    let mut rev: Vec<GraphGroup> = Vec::new();
    let ghost all = rest@;
    let total = rest.len();
    assert(all.len() == total);
    while rest.len() > 0
        invariant
            all.len() <= usize::MAX,
            rest@.len() + rev@.len() == all.len(),
            forall|k: int| 0 <= k < rest@.len() ==> rest@[k] == all[k],
            forall|k: int| 0 <= k < rev@.len() ==> rev@[k] == all[all.len() - 1 - k],
        decreases rest@.len(),
    {
        let g = rest.pop().unwrap();
        rev.push(g);
    }
    let mut i: usize = 0;
    proof {
        assert(all.take(0) =~= Seq::<GraphGroup>::empty());
    }
    while rev.len() > 0
        invariant
            rev@.len() + i == all.len(),
            all.len() <= usize::MAX,
            forall|k: int| 0 <= k < rev@.len() ==> rev@[k] == all[all.len() - 1 - k],
            names@ == group_names_added(old(names)@, all.take(i as int)),
        decreases rev@.len(),
    {
        let g = rev.pop().unwrap();
        proof {
            assert(all[i as int] == g);
            assert(all.take(i + 1).drop_last() =~= all.take(i as int));
        }
        if let Some(name) = g.display_name {
            names.insert(g.id, name);
        }
        i = i + 1;
    }
    proof {
        assert(all.take(all.len() as int) =~= all);
    }
}

/// The names map after adding the named groups, in order.
pub open spec fn group_names_added(m: Map<Seq<char>, Seq<char>>, groups: Seq<GraphGroup>) -> Map<Seq<char>, Seq<char>>
    decreases groups.len(),
{
    if groups.len() == 0 {
        m
    } else {
        let prev = group_names_added(m, groups.drop_last());
        match groups.last().display_name {
            Some(n) => prev.insert(groups.last().id@, n@),
            None => prev,
        }
    }
}

// ---------------------------------------------------------------------------
// The group role list
// ---------------------------------------------------------------------------

/// The kind of group role an eligibility grants.
pub open spec fn group_role_type(access_id: Seq<char>) -> RoleType {
    if access_id == "owner"@ { RoleType::GroupOwner } else { RoleType::GroupMember }
}

/// The name shown for a group: its display name if known, else its id.
pub open spec fn group_name_of(names: Map<Seq<char>, Seq<char>>, id: Seq<char>) -> Seq<char> {
    if names.dom().contains(id) { names[id] } else { id }
}

/// An assignment activates a group role of the same group and access kind.
pub open spec fn assignment_matches(a: GroupAssignmentScheduleInstance, group_id: Seq<char>, t: RoleType) -> bool {
    &&& a.group_id@ == group_id
    &&& ((t == RoleType::GroupMember && a.access_id@ == "member"@) || (t == RoleType::GroupOwner && a.access_id@ == "owner"@))
}

/// The end of the last assignment of the group role, if it is active.
pub open spec fn last_group_assignment(active: Seq<GroupAssignmentScheduleInstance>, group_id: Seq<char>, t: RoleType) -> Option<Option<i64>>
    decreases active.len(),
{
    if active.len() == 0 {
        None
    } else if assignment_matches(active.last(), group_id, t) {
        Some(active.last().end_date_time)
    } else {
        last_group_assignment(active.drop_last(), group_id, t)
    }
}

/// `r` is the role shown for group eligibility `e`.
pub open spec fn is_group_role(
    r: PimRole,
    e: GroupEligibilityScheduleInstance,
    active: Seq<GroupAssignmentScheduleInstance>,
    names: Map<Seq<char>, Seq<char>>,
) -> bool {
    let name = group_name_of(names, e.group_id@);
    let t = group_role_type(e.access_id@);
    &&& r.eligibility_id@ == e.id@
    &&& r.role_definition_id@.len() == 0
    &&& r.principal_id@ == e.principal_id@
    &&& r.scope@ == "Group: "@ + name
    &&& r.role_name@ == name
    &&& r.scope_display_name@ == access_label_text(t)
    &&& r.role_type == t
    &&& r.group_id matches Some(g) && g@ == e.group_id@
    &&& r.status == match last_group_assignment(active, e.group_id@, t) {
        Some(exp) => RoleStatus::Active { expires_at: exp },
        None => RoleStatus::Eligible,
    }
    &&& !r.selected
}

fn group_role(e: &GroupEligibilityScheduleInstance, names: &TextMap<String>) -> (r: PimRole)
    ensures
        is_group_role(r, *e, Seq::empty(), names@),
{
    let group_name = match names.get(e.group_id.as_str()) {
        Some(n) => n.clone(),
        None => e.group_id.clone(),
    };
    let role_type = if text_eq(e.access_id.as_str(), "owner") { RoleType::GroupOwner } else { RoleType::GroupMember };
    PimRole {
        eligibility_id: e.id.clone(),
        role_definition_id: String::new(),
        principal_id: e.principal_id.clone(),
        scope: join2("Group: ", group_name.as_str()),
        role_name: group_name,
        scope_display_name: owned(role_type.access_label()),
        role_type,
        group_id: Some(e.group_id.clone()),
        status: RoleStatus::Eligible,
        selected: false,
    }
}

fn matches_assignment(role: &PimRole, a: &GroupAssignmentScheduleInstance) -> (r: bool)
    ensures
        r == (role.group_id matches Some(g) && assignment_matches(*a, g@, role.role_type)),
{
    match &role.group_id {
        Some(g) => {
            if *g != a.group_id {
                return false;
            }
            match role.role_type {
                RoleType::GroupMember => text_eq(a.access_id.as_str(), "member"),
                RoleType::GroupOwner => text_eq(a.access_id.as_str(), "owner"),
                RoleType::Resource => false,
            }
        },
        None => false,
    }
}

/// The group role list: one role per eligibility named after its group,
/// assignments applied, sorted by group name, then access kind, active
/// first; roles with equal keys stay in the order of the eligibilities.
pub fn build_group_roles(
    eligible: &[GroupEligibilityScheduleInstance],
    active: &[GroupAssignmentScheduleInstance],
    names: &TextMap<String>,
) -> (r: Vec<PimRole>)
    ensures
        roles_sorted(r@, true),
        exists|u: Seq<PimRole>|
            {
                &&& u.len() == eligible@.len()
                &&& forall|i: int| 0 <= i < u.len() ==> is_group_role(#[trigger] u[i], eligible@[i], active@, names@)
                &&& r@.to_multiset() == #[trigger] u.to_multiset()
                &&& forall|k: SortKey| #[trigger] ties_of(r@, k, true) == ties_of(u, k, true)
            },
{
    let mut roles: Vec<PimRole> = Vec::new();
    let mut i: usize = 0;
    while i < eligible.len()
        invariant
            i <= eligible@.len(),
            roles@.len() == i,
            forall|k: int| 0 <= k < i ==> is_group_role(#[trigger] roles@[k], eligible@[k], Seq::empty(), names@),
        decreases eligible@.len() - i,
    {
        roles.push(group_role(&eligible[i], names));
        i = i + 1;
    }
    let mut a: usize = 0;
    proof {
        assert(active@.take(0) =~= Seq::<GroupAssignmentScheduleInstance>::empty());
    }
    while a < active.len()
        invariant
            a <= active@.len(),
            roles@.len() == eligible@.len(),
            forall|k: int| 0 <= k < roles@.len() ==> is_group_role(#[trigger] roles@[k], eligible@[k], active@.take(a as int), names@),
        decreases active@.len() - a,
    {
        let assignment = &active[a];
        let mut k: usize = 0;
        while k < roles.len()
            invariant
                a < active@.len(),
                *assignment == active@[a as int],
                active@.take(a + 1).drop_last() == active@.take(a as int),
                active@.take(a + 1).last() == active@[a as int],
                k <= roles@.len(),
                roles@.len() == eligible@.len(),
                forall|t: int| 0 <= t < k ==> is_group_role(#[trigger] roles@[t], eligible@[t], active@.take(a + 1), names@),
                forall|t: int| k <= t < roles@.len() ==> is_group_role(#[trigger] roles@[t], eligible@[t], active@.take(a as int), names@),
            decreases roles@.len() - k,
        {
            if matches_assignment(&roles[k], assignment) {
                roles[k].status = RoleStatus::Active { expires_at: assignment.end_date_time };
            }
            k = k + 1;
        }
        a = a + 1;
    }
    proof {
        assert(active@.take(active@.len() as int) =~= active@);
    }
    let ghost u = roles@;
    sort_roles(&mut roles, true);
    proof {
        assert(roles@.to_multiset() == u.to_multiset());
    }
    roles
}

/// The outcome of a group listing: without eligibilities there are no
/// roles; otherwise the built roles, with every scope marked stale when the
/// assignments could not be read (`None`).
pub fn assemble_group_fetch(
    eligible: &[GroupEligibilityScheduleInstance],
    active: Option<&[GroupAssignmentScheduleInstance]>,
    names: &TextMap<String>,
) -> (r: RoleFetch)
    ensures
        eligible@.len() == 0 ==> r.roles@.len() == 0 && r.missing_scopes@.len() == 0
            && r.stale_status_scopes@.len() == 0,
        eligible@.len() > 0 ==> {
            &&& roles_sorted(r.roles@, true)
            &&& exists|u: Seq<PimRole>|
                {
                    &&& u.len() == eligible@.len()
                    &&& forall|i: int| 0 <= i < u.len() ==> is_group_role(#[trigger] u[i], eligible@[i],
                        match active { Some(a) => a@, None => Seq::empty() }, names@)
                    &&& r.roles@.to_multiset() == #[trigger] u.to_multiset()
                    &&& forall|k: SortKey| #[trigger] ties_of(r.roles@, k, true) == ties_of(u, k, true)
                }
            &&& r.missing_scopes@.len() == 0
            &&& match active {
                Some(_) => r.stale_status_scopes@.len() == 0,
                None => r.stale_status_scopes@.len() == 1 && r.stale_status_scopes@[0]@.len() == 0,
            }
        },
{
    if eligible.len() == 0 {
        return RoleFetch::complete(Vec::new());
    }
    let mut stale: Vec<String> = Vec::new();
    let none: Vec<GroupAssignmentScheduleInstance> = Vec::new();
    let roles = match active {
        Some(a) => build_group_roles(eligible, a, names),
        None => {
            stale.push(String::new());
            build_group_roles(eligible, none.as_slice(), names)
        },
    };
    RoleFetch { roles, missing_scopes: Vec::new(), stale_status_scopes: stale }
}

} // verus!
