//! What a key press does when no dialog is open.
use vstd::prelude::*;
use crate::app::{App, ActiveModal, ModalField, ModalView, flagged_indices, pane_toggled, filter_cycled};
use crate::models::PimRole;
use crate::text::{decimal, decimal_string, push_char, pop_char};

verus! {

/// A key, as far as the application tells keys apart.
#[derive(Debug, Clone, Copy, PartialEq, Eq, Structural)]
pub enum KeyCode {
    Char(char),
    Enter,
    Esc,
    Tab,
    BackTab,
    Backspace,
    Up,
    Down,
    F(u8),
    Other,
}

/// A key press: the key and whether Control was held.
#[derive(Debug, Clone, Copy, PartialEq, Eq, Structural)]
pub struct KeyEvent {
    pub code: KeyCode,
    pub control: bool,
}

/// What the caller has to do after a key press.
#[derive(Debug, Clone, Copy, PartialEq, Eq, Structural)]
pub enum EventAction {
    /// Nothing beyond the state change.
    Continue,
    /// Reload the roles of the pane on view.
    Refresh,
    /// The pane changed.
    PaneSwitch,
}

pub open spec fn is_char(k: KeyCode, c: char) -> bool {
    k == KeyCode::Char(c)
}

/// The activation dialog for the role at `idx`, filled with the defaults.
pub open spec fn activate_dialog(o: App, idx: usize) -> ModalView {
    ModalView::Activate {
        role_index: idx,
        justification: o.config.default_justification@,
        duration: decimal(o.config.default_duration_hours as nat),
        focused_field: ModalField::Justification,
    }
}

/// The indices among `idxs` whose roles are eligible, in order.
pub open spec fn eligible_among(roles: Seq<PimRole>, idxs: Seq<usize>) -> Seq<usize>
    decreases idxs.len(),
{
    if idxs.len() == 0 {
        Seq::empty()
    } else {
        let prev = eligible_among(roles, idxs.drop_last());
        let i = idxs.last();
        if i < roles.len() && roles[i as int].status is Eligible {
            prev.push(i)
        } else {
            prev
        }
    }
}

/// The selection after moving by `delta` rows (unchanged for an empty list).
pub open spec fn moved(o: App, n: App, delta: int) -> bool {
    if o.filtered_indices@.len() == 0 {
        n == o
    } else {
        n == (App {
            selected: ((o.selected + delta) % (o.filtered_indices@.len() as int)) as usize,
            detail_scroll: 0,
            ..o
        })
    }
}

/// A key typed into the search line.
pub open spec fn filter_key_effect(o: App, n: App, code: KeyCode) -> bool {
    match code {
        KeyCode::Esc => {
            &&& n.filter_text@.len() == 0
            &&& n.refiltered_from(o.selected)
            &&& n == (App {
                filtering: false,
                filter_text: n.filter_text,
                filtered_indices: n.filtered_indices,
                selected: n.selected,
                ..o
            })
        },
        KeyCode::Enter => n == (App { filtering: false, ..o }),
        KeyCode::Char(c) => {
            &&& n.filter_text@ == o.filter_text@.push(c)
            &&& n.refiltered_from(o.selected)
            &&& n == (App {
                filter_text: n.filter_text,
                filtered_indices: n.filtered_indices,
                selected: n.selected,
                ..o
            })
        },
        KeyCode::Backspace => {
            &&& n.filter_text@ == (if o.filter_text@.len() > 0 {
                o.filter_text@.drop_last()
            } else {
                o.filter_text@
            })
            &&& n.refiltered_from(o.selected)
            &&& n == (App {
                filter_text: n.filter_text,
                filtered_indices: n.filtered_indices,
                selected: n.selected,
                ..o
            })
        },
        _ => n == o,
    }
}

/// A key pressed on the role list (no dialog, no search line).
pub open spec fn list_key_effect(o: App, n: App, code: KeyCode, r: EventAction) -> bool {
    let len = o.filtered_indices@.len();
    let sel_role = o.shown()[o.filtered_indices@[o.selected as int] as int];
    if is_char(code, 'q') {
        r == EventAction::Continue && n == (App { should_quit: true, ..o })
    } else if is_char(code, 'j') || code == KeyCode::Down {
        r == EventAction::Continue && moved(o, n, 1)
    } else if is_char(code, 'k') || code == KeyCode::Up {
        r == EventAction::Continue && moved(o, n, -1)
    } else if is_char(code, 'g') {
        r == EventAction::Continue && n == (App { selected: 0, detail_scroll: 0, ..o })
    } else if is_char(code, 'G') {
        &&& r == EventAction::Continue
        &&& n == (App {
            selected: if len > 0 { (len - 1) as usize } else { o.selected },
            detail_scroll: 0,
            ..o
        })
    } else if is_char(code, 'a') || code == KeyCode::Enter {
        &&& r == EventAction::Continue
        &&& if o.selected < len && sel_role.status is Eligible {
            &&& n.modal@ == activate_dialog(o, o.filtered_indices@[o.selected as int])
            &&& n == (App { modal: n.modal, ..o })
        } else {
            n == o
        }
    } else if is_char(code, 'd') {
        &&& r == EventAction::Continue
        &&& if o.selected < len && sel_role.status is Active {
            &&& n.modal@ == (ModalView::DeactivateConfirm {
                role_index: o.filtered_indices@[o.selected as int],
            })
            &&& n == (App { modal: n.modal, ..o })
        } else {
            n == o
        }
    } else if is_char(code, ' ') {
        &&& r == EventAction::Continue
        &&& if len == 0 {
            n == o
        } else {
            let i = o.filtered_indices@[o.selected as int];
            &&& crate::app::shown_roles_become(
                o,
                n,
                o.shown().update(i as int, PimRole { selected: !o.shown()[i as int].selected, ..o.shown()[i as int] }),
            )
            &&& n == (App {
                roles: n.roles,
                group_roles: n.group_roles,
                selected: ((o.selected + 1) % (len as int)) as usize,
                detail_scroll: 0,
                ..o
            })
        }
    } else if is_char(code, 'A') {
        let picked = eligible_among(o.shown(), flagged_indices(o.shown()));
        &&& r == EventAction::Continue
        &&& if picked.len() > 0 {
            &&& n.modal@ == (ModalView::BulkActivate {
                indices: picked,
                justification: o.config.default_justification@,
                duration: decimal(o.config.default_duration_hours as nat),
                focused_field: ModalField::Justification,
            })
            &&& n == (App { modal: n.modal, ..o })
        } else {
            n == o
        }
    } else if is_char(code, 'r') || code == KeyCode::F(5) {
        r == EventAction::Refresh && n == o
    } else if is_char(code, '/') {
        &&& r == EventAction::Continue
        &&& n.filter_text@.len() == 0
        &&& n == (App { filtering: true, filter_text: n.filter_text, ..o })
    } else if code == KeyCode::Tab {
        &&& r == EventAction::PaneSwitch
        &&& n.active_pane == pane_toggled(o.active_pane)
        &&& n.filter_text@.len() == 0
        &&& n.refiltered_from(0)
        &&& n == (App {
            active_pane: n.active_pane,
            filter_text: n.filter_text,
            detail_scroll: 0,
            filtered_indices: n.filtered_indices,
            selected: n.selected,
            ..o
        })
    } else if is_char(code, 'v') {
        &&& r == EventAction::Continue
        &&& n.view_filter == filter_cycled(o.view_filter)
        &&& n.refiltered_from(o.selected)
        &&& n == (App {
            view_filter: n.view_filter,
            filtered_indices: n.filtered_indices,
            selected: n.selected,
            ..o
        })
    } else if is_char(code, '?') {
        &&& r == EventAction::Continue
        &&& n.modal@ == ModalView::Help
        &&& n == (App { modal: n.modal, ..o })
    } else {
        r == EventAction::Continue && n == o
    }
}

/// What a key press does when no dialog is open.
pub open spec fn key_effect(o: App, n: App, key: KeyEvent, r: EventAction) -> bool {
    if key.control && is_char(key.code, 'c') {
        r == EventAction::Continue && n == (App { should_quit: true, ..o })
    } else if key.control && is_char(key.code, 'd') {
        &&& r == EventAction::Continue
        &&& n == (App {
            detail_scroll: if o.detail_scroll + 5 > usize::MAX { usize::MAX } else { (o.detail_scroll + 5) as usize },
            ..o
        })
    } else if key.control && is_char(key.code, 'u') {
        &&& r == EventAction::Continue
        &&& n == (App {
            detail_scroll: if o.detail_scroll < 5 { 0 } else { (o.detail_scroll - 5) as usize },
            ..o
        })
    } else if o.filtering {
        r == EventAction::Continue && filter_key_effect(o, n, key.code)
    } else {
        list_key_effect(o, n, key.code, r)
    }
}

/// Handles a key press on the role list or the search line, and says
/// whether a refresh or a pane switch follows.
pub fn handle_key(app: &mut App, key: KeyEvent) -> (r: EventAction)
    requires
        old(app).wf(),
        old(app).filtered_indices@.len() <= i32::MAX,
    ensures
        final(app).wf(),
        key_effect(*old(app), *final(app), key, r),
{
    // Global keys
    if key.control && key.code == KeyCode::Char('c') {
        app.should_quit = true;
        return EventAction::Continue;
    }
    // Detail panel scroll
    if key.control {
        if key.code == KeyCode::Char('d') {
            app.detail_scroll = app.detail_scroll.saturating_add(5);
            return EventAction::Continue;
        }
        if key.code == KeyCode::Char('u') {
            app.detail_scroll = app.detail_scroll.saturating_sub(5);
            return EventAction::Continue;
        }
    }
    // Filter mode input
    if app.filtering {
        return handle_filter_key(app, key);
    }
    let code = key.code;
    if code == KeyCode::Char('q') {
        app.should_quit = true;
        EventAction::Continue
    } else if code == KeyCode::Char('j') || code == KeyCode::Down {
        app.move_selection(1);
        EventAction::Continue
    } else if code == KeyCode::Char('k') || code == KeyCode::Up {
        app.move_selection(-1);
        EventAction::Continue
    } else if code == KeyCode::Char('g') {
        app.select_first();
        EventAction::Continue
    } else if code == KeyCode::Char('G') {
        app.select_last();
        EventAction::Continue
    } else if code == KeyCode::Char('a') || code == KeyCode::Enter {
        if let Some(idx) = app.selected_role_index() {
            let eligible = app.active_roles()[idx].status.is_eligible();
            if eligible {
                app.modal = ActiveModal::Activate {
                    role_index: idx,
                    justification: app.config.default_justification.clone(),
                    duration: decimal_string(app.config.default_duration_hours as u64),
                    focused_field: ModalField::Justification,
                };
            }
        }
        EventAction::Continue
    } else if code == KeyCode::Char('d') {
        if let Some(idx) = app.selected_role_index() {
            let active = app.active_roles()[idx].status.is_active();
            if active {
                app.modal = ActiveModal::DeactivateConfirm { role_index: idx };
            }
        }
        EventAction::Continue
    } else if code == KeyCode::Char(' ') {
        app.toggle_selected();
        app.move_selection(1);
        EventAction::Continue
    } else if code == KeyCode::Char('A') {
        let selected = app.selected_indices();
        let eligible = keep_eligible(app.active_roles(), &selected);
        if eligible.len() > 0 {
            app.modal = ActiveModal::BulkActivate {
                indices: eligible,
                justification: app.config.default_justification.clone(),
                duration: decimal_string(app.config.default_duration_hours as u64),
                focused_field: ModalField::Justification,
            };
        }
        EventAction::Continue
    } else if code == KeyCode::Char('r') || code == KeyCode::F(5) {
        EventAction::Refresh
    } else if code == KeyCode::Char('/') {
        app.filtering = true;
        app.filter_text = String::new();
        EventAction::Continue
    } else if code == KeyCode::Tab {
        app.switch_pane();
        EventAction::PaneSwitch
    } else if code == KeyCode::Char('v') {
        app.view_filter = app.view_filter.cycle();
        app.update_filtered_indices();
        EventAction::Continue
    } else if code == KeyCode::Char('?') {
        app.modal = ActiveModal::Help;
        EventAction::Continue
    } else {
        EventAction::Continue
    }
}

/// The indices among `idxs` whose roles are eligible.
fn keep_eligible(roles: &[PimRole], idxs: &Vec<usize>) -> (r: Vec<usize>)
    ensures
        r@ == eligible_among(roles@, idxs@),
{
    let mut out: Vec<usize> = Vec::new();
    let mut k: usize = 0;
    proof {
        assert(idxs@.take(0) =~= Seq::<usize>::empty());
    }
    while k < idxs.len()
        invariant
            k <= idxs@.len(),
            out@ == eligible_among(roles@, idxs@.take(k as int)),
        decreases idxs@.len() - k,
    {
        proof {
            assert(idxs@.take(k + 1).drop_last() =~= idxs@.take(k as int));
        }
        let i = idxs[k];
        if i < roles.len() && roles[i].status.is_eligible() {
            out.push(i);
        }
        k = k + 1;
    }
    proof {
        assert(idxs@.take(idxs@.len() as int) =~= idxs@);
    }
    out
}

/// Handles a key typed into the search line.
fn handle_filter_key(app: &mut App, key: KeyEvent) -> (r: EventAction)
    requires
        old(app).wf(),
    ensures
        final(app).wf(),
        r == EventAction::Continue,
        filter_key_effect(*old(app), *final(app), key.code),
{
    match key.code {
        KeyCode::Esc => {
            app.filtering = false;
            app.filter_text = String::new();
            app.update_filtered_indices();
            EventAction::Continue
        },
        KeyCode::Enter => {
            app.filtering = false;
            EventAction::Continue
        },
        KeyCode::Char(c) => {
            push_char(&mut app.filter_text, c);
            app.update_filtered_indices();
            EventAction::Continue
        },
        KeyCode::Backspace => {
            pop_char(&mut app.filter_text);
            app.update_filtered_indices();
            EventAction::Continue
        },
        _ => EventAction::Continue,
    }
}

} // verus!
