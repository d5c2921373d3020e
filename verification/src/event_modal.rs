//! What a key press does while a dialog is open.
use vstd::prelude::*;
use crate::app::{App, ActiveModal, ModalField, ModalView};
use crate::event::{KeyCode, KeyEvent, is_char};
use crate::text::{is_digit, parse_u32, parse_u32_spec, push_char, pop_char};

verus! {

/// What the caller has to carry out after a dialog was confirmed.
#[derive(Debug)]
pub enum ModalAction {
    Activate { indices: Vec<usize>, justification: String, duration_hours: u32 },
    Deactivate { index: usize },
}

/// A confirmed dialog, texts taken as character sequences.
pub enum ModalActionView {
    Activate { indices: Seq<usize>, justification: Seq<char>, duration_hours: u32 },
    Deactivate { index: usize },
}

impl View for ModalAction {
    type V = ModalActionView;

    open spec fn view(&self) -> ModalActionView {
        match self {
            ModalAction::Activate { indices, justification, duration_hours } => {
                ModalActionView::Activate {
                    indices: indices@,
                    justification: justification@,
                    duration_hours: *duration_hours,
                }
            },
            ModalAction::Deactivate { index } => ModalActionView::Deactivate { index: *index },
        }
    }
}

pub open spec fn other_field(f: ModalField) -> ModalField {
    match f {
        ModalField::Justification => ModalField::Duration,
        ModalField::Duration => ModalField::Justification,
    }
}

/// The hours entered, or the configured default when the text is not a
/// number that fits.
pub open spec fn hours_entered(duration: Seq<char>, default_hours: u32) -> u32 {
    match parse_u32_spec(duration) {
        Some(h) => h,
        None => default_hours,
    }
}

/// The text fields after a key press in the activation dialog.
pub open spec fn edited(
    justification: Seq<char>,
    duration: Seq<char>,
    focused: ModalField,
    code: KeyCode,
) -> (Seq<char>, Seq<char>) {
    match code {
        KeyCode::Char(c) => match focused {
            ModalField::Justification => (justification.push(c), duration),
            ModalField::Duration => (justification, if is_digit(c) { duration.push(c) } else { duration }),
        },
        KeyCode::Backspace => match focused {
            ModalField::Justification => (
                if justification.len() > 0 { justification.drop_last() } else { justification },
                duration,
            ),
            ModalField::Duration => (
                justification,
                if duration.len() > 0 { duration.drop_last() } else { duration },
            ),
        },
        _ => (justification, duration),
    }
}

/// The dialog after a key press.
pub open spec fn next_modal(m: ModalView, code: KeyCode) -> ModalView {
    match m {
        ModalView::Activate { role_index, justification, duration, focused_field } => match code {
            KeyCode::Esc | KeyCode::Enter => ModalView::Closed,
            KeyCode::Tab | KeyCode::BackTab => ModalView::Activate {
                role_index,
                justification,
                duration,
                focused_field: other_field(focused_field),
            },
            _ => {
                let (j, d) = edited(justification, duration, focused_field, code);
                ModalView::Activate { role_index, justification: j, duration: d, focused_field }
            },
        },
        ModalView::BulkActivate { indices, justification, duration, focused_field } => match code {
            KeyCode::Esc | KeyCode::Enter => ModalView::Closed,
            KeyCode::Tab | KeyCode::BackTab => ModalView::BulkActivate {
                indices,
                justification,
                duration,
                focused_field: other_field(focused_field),
            },
            _ => {
                let (j, d) = edited(justification, duration, focused_field, code);
                ModalView::BulkActivate { indices, justification: j, duration: d, focused_field }
            },
        },
        ModalView::DeactivateConfirm { role_index } => {
            if code == KeyCode::Enter || code == KeyCode::Esc || is_char(code, 'n') || is_char(
                code,
                'q',
            ) {
                ModalView::Closed
            } else {
                m
            }
        },
        ModalView::Help => ModalView::Closed,
        ModalView::Closed => ModalView::Closed,
    }
}

/// What a key press in a dialog asks the caller to carry out.
pub open spec fn modal_action(m: ModalView, code: KeyCode, default_hours: u32) -> Option<ModalActionView> {
    match m {
        ModalView::Activate { role_index, justification, duration, .. } => {
            if code == KeyCode::Enter {
                Some(ModalActionView::Activate {
                    indices: seq![role_index],
                    justification,
                    duration_hours: hours_entered(duration, default_hours),
                })
            } else {
                None
            }
        },
        ModalView::BulkActivate { indices, justification, duration, .. } => {
            if code == KeyCode::Enter {
                Some(ModalActionView::Activate {
                    indices,
                    justification,
                    duration_hours: hours_entered(duration, default_hours),
                })
            } else {
                None
            }
        },
        ModalView::DeactivateConfirm { role_index } => {
            if code == KeyCode::Enter {
                Some(ModalActionView::Deactivate { index: role_index })
            } else {
                None
            }
        },
        _ => None,
    }
}

pub open spec fn action_view(a: Option<ModalAction>) -> Option<ModalActionView> {
    match a {
        Some(x) => Some(x@),
        None => None,
    }
}

fn edit_fields(justification: &mut String, duration: &mut String, focused: ModalField, code: KeyCode)
    ensures
        (final(justification)@, final(duration)@) == edited(old(justification)@, old(duration)@, focused, code),
{
    match code {
        KeyCode::Char(c) => match focused {
            ModalField::Justification => push_char(justification, c),
            ModalField::Duration => {
                if '0' <= c && c <= '9' {
                    push_char(duration, c);
                }
            },
        },
        KeyCode::Backspace => match focused {
            ModalField::Justification => {
                pop_char(justification);
            },
            ModalField::Duration => {
                pop_char(duration);
            },
        },
        _ => {},
    }
}

/// Handles a key press while a dialog is open; a confirmed dialog closes
/// and yields the action to carry out.
pub fn handle_modal_key(app: &mut App, key: KeyEvent) -> (r: Option<ModalAction>)
    ensures
        final(app).modal@ == next_modal(old(app).modal@, key.code),
        *final(app) == (App { modal: final(app).modal, ..*old(app) }),
        action_view(r) == modal_action(old(app).modal@, key.code, old(app).config.default_duration_hours),
{
    let mut modal = ActiveModal::Closed;
    std::mem::swap(&mut modal, &mut app.modal);
    match modal {
        ActiveModal::Activate { role_index, mut justification, mut duration, focused_field } => {
            match key.code {
                KeyCode::Esc => None,
                KeyCode::Tab | KeyCode::BackTab => {
                    let f = match focused_field {
                        ModalField::Justification => ModalField::Duration,
                        ModalField::Duration => ModalField::Justification,
                    };
                    app.modal = ActiveModal::Activate { role_index, justification, duration, focused_field: f };
                    None
                },
                KeyCode::Enter => {
                    let dur_hours: u32 = match parse_u32(duration.as_str()) {
                        Some(h) => h,
                        None => app.config.default_duration_hours,
                    };
                    let mut indices: Vec<usize> = Vec::new();
                    indices.push(role_index);
                    proof {
                        assert(indices@ =~= seq![role_index]);
                    }
                    Some(ModalAction::Activate { indices, justification, duration_hours: dur_hours })
                },
                _ => {
                    edit_fields(&mut justification, &mut duration, focused_field, key.code);
                    app.modal = ActiveModal::Activate { role_index, justification, duration, focused_field };
                    None
                },
            }
        },
        ActiveModal::BulkActivate { indices, mut justification, mut duration, focused_field } => {
            match key.code {
                KeyCode::Esc => None,
                KeyCode::Tab | KeyCode::BackTab => {
                    let f = match focused_field {
                        ModalField::Justification => ModalField::Duration,
                        ModalField::Duration => ModalField::Justification,
                    };
                    app.modal = ActiveModal::BulkActivate { indices, justification, duration, focused_field: f };
                    None
                },
                KeyCode::Enter => {
                    let dur_hours: u32 = match parse_u32(duration.as_str()) {
                        Some(h) => h,
                        None => app.config.default_duration_hours,
                    };
                    Some(ModalAction::Activate { indices, justification, duration_hours: dur_hours })
                },
                _ => {
                    edit_fields(&mut justification, &mut duration, focused_field, key.code);
                    app.modal = ActiveModal::BulkActivate { indices, justification, duration, focused_field };
                    None
                },
            }
        },
        ActiveModal::DeactivateConfirm { role_index } => {
            if key.code == KeyCode::Enter {
                Some(ModalAction::Deactivate { index: role_index })
            } else if key.code == KeyCode::Esc || key.code == KeyCode::Char('n') || key.code == KeyCode::Char('q') {
                None
            } else {
                app.modal = ActiveModal::DeactivateConfirm { role_index };
                None
            }
        },
        ActiveModal::Help => None,
        ActiveModal::Closed => None,
    }
}

} // verus!
