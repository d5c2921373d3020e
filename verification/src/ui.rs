//! What the screen shows, as texts and rectangles: the layout of dialogs,
//! the time left on active roles, titles and status colours.
use vstd::prelude::*;
use crate::models::{RoleStatus, status_text};
use crate::text::{decimal, decimal_string, has_prefix, join2, join3, owned, pad2, pad2_string,
    signed_decimal, signed_decimal_string, starts_with};

verus! {

/// A rectangle of terminal cells.
#[derive(Debug, Clone, Copy, PartialEq, Eq, Structural)]
pub struct Rect {
    pub x: u16,
    pub y: u16,
    pub width: u16,
    pub height: u16,
}

/// The offset that centres `part` cells within `whole`.
pub open spec fn centre_offset(whole: int, percent: int) -> int {
    let part = whole * percent / 100;
    (if whole > part { whole - part } else { 0 }) / 2
}

/// A rectangle of the given percentages of `area`, centred in it.
pub fn centered_rect(percent_x: u16, percent_y: u16, area: Rect) -> (r: Rect)
    requires
        area.width * percent_x <= u16::MAX,
        area.height * percent_y <= u16::MAX,
        area.x + centre_offset(area.width as int, percent_x as int) <= u16::MAX,
        area.y + centre_offset(area.height as int, percent_y as int) <= u16::MAX,
    ensures
        r.width == area.width * percent_x / 100,
        r.height == area.height * percent_y / 100,
        r.x == area.x + centre_offset(area.width as int, percent_x as int),
        r.y == area.y + centre_offset(area.height as int, percent_y as int),
{
    let w = area.width * percent_x / 100;
    let h = area.height * percent_y / 100;
    let x = area.width.saturating_sub(w) / 2;
    let y = area.height.saturating_sub(h) / 2;
    Rect { x: area.x + x, y: area.y + y, width: w, height: h }
}

/// Integer division rounding toward zero, as Rust's `/` does.
pub open spec fn trunc_div(a: int, b: int) -> int {
    if a >= 0 { a / b } else { -((-a) / b) }
}

/// The remainder that goes with `trunc_div`, as Rust's `%` gives it.
pub open spec fn trunc_rem(a: int, b: int) -> int {
    a - b * trunc_div(a, b)
}

/// The time left as the role list shows it: whole hours and minutes, or
/// `Expired` when none is left.
pub open spec fn time_left_text(remaining: int) -> Seq<char> {
    if remaining > 0 {
        decimal((remaining / 3600) as nat) + "h "@ + pad2((remaining / 60) % 60) + "m"@
    } else {
        "Expired"@
    }
}

/// The status line of the detail panel: for an active role with an end,
/// the hours and minutes left (negative once it has passed).
pub open spec fn detail_status_text(status: RoleStatus, now: i64) -> Seq<char> {
    match status {
        RoleStatus::Active { expires_at: Some(exp) } => {
            let remaining = exp - now;
            "Active (expires in "@ + signed_decimal(trunc_div(remaining, 3600)) + "h "@
                + pad2(trunc_rem(trunc_div(remaining, 60), 60)) + "m)"@
        },
        _ => status_text(status),
    }
}

/// The "Expires" column of the role list.
pub open spec fn expires_text(status: RoleStatus, now: i64) -> Seq<char> {
    match status {
        RoleStatus::Active { expires_at: Some(exp) } => time_left_text(exp - now),
        _ => Seq::empty(),
    }
}

proof fn lemma_div_bounds(r: int)
    requires
        r > 0,
        r <= i64::MAX,
    ensures
        0 <= r / 3600 <= r,
        0 <= r / 60 <= r,
        0 <= (r / 60) % 60 < 60,
{
}

fn time_left(remaining: i64) -> (out: String)
    ensures
        out@ == time_left_text(remaining as int),
{
    if remaining > 0 {
        let hours = remaining / 3600;
        let mins = (remaining / 60) % 60;
        proof {
            lemma_div_bounds(remaining as int);
        }
        let h = decimal_string(hours as u64);
        let m = pad2_string(mins);
        let head = join3(h.as_str(), "h ", m.as_str());
        join2(head.as_str(), "m")
    } else {
        owned("Expired")
    }
}

/// The "Expires" column for a role with this status at time `now`.
pub fn expires_label(status: &RoleStatus, now: i64) -> (out: String)
    requires
        status matches RoleStatus::Active { expires_at: Some(exp) } ==> i64::MIN <= exp - now <= i64::MAX,
    ensures
        out@ == expires_text(*status, now),
{
    match status {
        RoleStatus::Active { expires_at: Some(exp) } => time_left(*exp - now),
        _ => String::new(),
    }
}

fn trunc_parts(remaining: i64) -> (r: (i64, i64))
    requires
        remaining > i64::MIN,
    ensures
        r.0 == trunc_div(remaining as int, 3600),
        r.1 == trunc_rem(trunc_div(remaining as int, 60), 60),
{
    let mag: i64 = if remaining < 0 { -remaining } else { remaining };
    let h_mag = mag / 3600;
    let m_total = mag / 60;
    let m_mag = m_total % 60;
    if remaining < 0 {
        proof {
            assert(trunc_div(remaining as int, 60) == -(m_total as int));
            assert(trunc_div(-(m_total as int), 60) == -((m_total as int) / 60));
        }
        (-h_mag, -m_mag)
    } else {
        (h_mag, m_mag)
    }
}

/// The status line of the detail panel for a role with this status at `now`.
pub fn detail_status_line(status: &RoleStatus, now: i64) -> (out: String)
    requires
        status matches RoleStatus::Active { expires_at: Some(exp) } ==> i64::MIN < exp - now <= i64::MAX,
    ensures
        out@ == detail_status_text(*status, now),
{
    match status {
        RoleStatus::Active { expires_at: Some(exp) } => {
            let (hours, mins) = trunc_parts(*exp - now);
            let h = signed_decimal_string(hours);
            let m = pad2_string(mins);
            let head = join3("Active (expires in ", h.as_str(), "h ");
            let tail = join3(head.as_str(), m.as_str(), "m)");
            tail
        },
        _ => owned(status.display()),
    }
}

/// The colour of the status line.
#[derive(Debug, Clone, Copy, PartialEq, Eq, Structural)]
pub enum StatusColor {
    Yellow,
    Red,
    Green,
}

/// Yellow while loading, red for a failure message, green otherwise.
pub fn status_color(is_loading: bool, message: &str) -> (r: StatusColor)
    ensures
        r == (if is_loading {
            StatusColor::Yellow
        } else if has_prefix(message@, "Failed"@) || has_prefix(message@, "Auth failed"@) {
            StatusColor::Red
        } else {
            StatusColor::Green
        }),
{
    if is_loading {
        StatusColor::Yellow
    } else if starts_with(message, "Failed") || starts_with(message, "Auth failed") {
        StatusColor::Red
    } else {
        StatusColor::Green
    }
}

/// The title of the role list, showing the search text if any.
pub fn roles_title(filter_text: &str) -> (r: String)
    ensures
        r@ == (if filter_text@.len() == 0 { " Roles "@ } else { " Roles [/"@ + filter_text@ + "] "@ }),
{
    if filter_text.is_empty() {
        owned(" Roles ")
    } else {
        join3(" Roles [/", filter_text, "] ")
    }
}

/// The title of the activation dialog.
pub fn activate_title(is_bulk: bool, count: usize) -> (r: String)
    ensures
        r@ == (if is_bulk { " Activate "@ + decimal(count as nat) + " Roles "@ } else { " Activate Role "@ }),
{
    if is_bulk {
        let n = decimal_string(count as u64);
        join3(" Activate ", n.as_str(), " Roles ")
    } else {
        owned(" Activate Role ")
    }
}

/// The line that says how many roles a bulk activation covers.
pub fn bulk_summary(count: usize) -> (r: String)
    ensures
        r@ == "Activating "@ + decimal(count as nat) + " selected roles"@,
{
    let n = decimal_string(count as u64);
    join3("Activating ", n.as_str(), " selected roles")
}

/// The counts shown in the status bar.
pub fn counts_text(eligible: usize, active: usize) -> (r: String)
    ensures
        r@ == decimal(eligible as nat) + " eligible, "@ + decimal(active as nat) + " active"@,
{
    let e = decimal_string(eligible as u64);
    let a = decimal_string(active as u64);
    let head = join3(e.as_str(), " eligible, ", a.as_str());
    join2(head.as_str(), " active")
}

/// A key name right-aligned in a column of `width` characters (`{:>width}`).
pub open spec fn right_aligned(s: Seq<char>, width: nat) -> Seq<char> {
    if s.len() >= width { s } else { Seq::new((width - s.len()) as nat, |i: int| ' ') + s }
}

pub fn right_align(s: &str, width: usize) -> (r: String)
    ensures
        r@ == right_aligned(s@, width as nat),
{
    let cs = crate::text::chars_of(s);
    if cs.len() >= width {
        return owned(s);
    }
    let pad = width - cs.len();
    let mut out: Vec<char> = Vec::new();
    let mut i: usize = 0;
    while i < pad
        invariant
            i <= pad,
            out@ == Seq::new(i as nat, |k: int| ' '),
        decreases pad - i,
    {
        out.push(' ');
        proof {
            assert(out@ =~= Seq::new((i + 1) as nat, |k: int| ' '));
        }
        i = i + 1;
    }
    let mut rest = cs;
    out.append(&mut rest);
    crate::text::string_of(&out)
}

} // verus!
