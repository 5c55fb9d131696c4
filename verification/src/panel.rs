//! The tables that the client prints.

use crate::cli::RowState;
use crate::config::has_control;
use crate::protocol::{
    status_models, summary_models, HostState, HostStatus, HostSummary, StatusModel,
};
use crate::text::{
    chars_of, decimal, decimal_text, is_control, joined, same_text, text_of, texts,
};
use vstd::prelude::*;

verus! {

/// The width of the hosts' column in the catalogue.
pub const HOST_ID_COLUMN: usize = 26;

/// The width of the hosts' column in a wake, with the number before it.
pub const OPERATION_HOST_COLUMN: usize = 30;

#[derive(Clone, Copy, Debug, PartialEq, Eq, Structural)]
pub enum Style {
    Title,
    Green,
    Cyan,
    Yellow,
    Red,
    Dim,
}

impl Style {
    /// What switches the style on.
    pub open spec fn code(self) -> Seq<char> {
        match self {
            Style::Title => "\x1b[1m\x1b[36m"@,
            Style::Green => "\x1b[32m"@,
            Style::Cyan => "\x1b[36m"@,
            Style::Yellow => "\x1b[33m"@,
            Style::Red => "\x1b[31m"@,
            Style::Dim => "\x1b[2m"@,
        }
    }

    fn as_str(self) -> (r: &'static str)
        ensures
            r@ == self.code(),
    {
        match self {
            Style::Title => "\x1b[1m\x1b[36m",
            Style::Green => "\x1b[32m",
            Style::Cyan => "\x1b[36m",
            Style::Yellow => "\x1b[33m",
            Style::Red => "\x1b[31m",
            Style::Dim => "\x1b[2m",
        }
    }
}

/// A text in a style, where colours are shown.
pub open spec fn styled(text: Seq<char>, style: Style, color: bool) -> Seq<char> {
    if color {
        style.code() + text + "\x1b[0m"@
    } else {
        text
    }
}

pub fn paint(text: &str, style: Style, color: bool) -> (r: String)
    ensures
        r@ == styled(text@, style, color),
{
    if !color {
        return text.to_owned();
    }
    let mut out: String = joined(style.as_str(), text);
    out.append("\x1b[0m");
    out
}

/// A text cut or filled with blanks to a width.
pub open spec fn fitted(text: Seq<char>, width: nat) -> Seq<char> {
    if text.len() > width {
        if width >= 3 {
            text.take(width - 3) + "..."@
        } else {
            text.take(width as int)
        }
    } else {
        text + Seq::new((width - text.len()) as nat, |i: int| ' ')
    }
}

/// A cell of a table.
#[verifier::loop_isolation(false)]
pub fn cell(value: &str, width: usize) -> (r: String)
    ensures
        r@ == fitted(value@, width as nat),
{
    let chars: Vec<char> = chars_of(value);
    if chars.len() > width {
        if width >= 3 {
            let mut out: String = text_of(&chars, 0, width - 3);
            assert(out@ =~= value@.take(width - 3));
            out.append("...");
            return out;
        }
        let out: String = text_of(&chars, 0, width);
        assert(out@ =~= value@.take(width as int));
        return out;
    }
    let mut out: String = value.to_owned();
    let mut n: usize = chars.len();
    while n < width
        invariant
            chars@.len() <= n <= width,
            out@ == value@ + Seq::new((n - value@.len()) as nat, |i: int| ' '),
        decreases width - n,
    {
        out.push(' ');
        n += 1;
        assert(out@ =~= value@ + Seq::new((n - value@.len()) as nat, |i: int| ' '));
    }
    assert(out@ =~= fitted(value@, width as nat));
    out
}

/// A number, with blanks before it up to a width of three.
pub open spec fn counted(n: nat) -> Seq<char> {
    let digits = decimal(n);
    if digits.len() < 3 {
        Seq::new((3 - digits.len()) as nat, |i: int| ' ') + digits
    } else {
        digits
    }
}

fn count(n: u64) -> (r: String)
    ensures
        r@ == counted(n as nat),
{
    let digits: String = decimal_text(n);
    let len: usize = digits.as_str().unicode_len();
    let mut out: String = String::new();
    let mut i: usize = len;
    assert(out@ =~= Seq::new(0, |i: int| ' '));
    while i < 3
        invariant
            len == digits@.len(),
            len <= i,
            i == len || i <= 3,
            out@ == Seq::new((i - len) as nat, |i: int| ' '),
        decreases 3 - i,
    {
        out.push(' ');
        i += 1;
        assert(out@ =~= Seq::new((i - len) as nat, |i: int| ' '));
    }
    out.append(&digits);
    assert(out@ =~= counted(n as nat));
    out
}

/// The word for the state of a host, and its style.
pub open spec fn state_word(state: HostState) -> (Seq<char>, Style) {
    match state {
        HostState::Online => ("ONLINE"@, Style::Green),
        HostState::Succeeded => ("ONLINE"@, Style::Green),
        HostState::Waking => ("WAKING"@, Style::Yellow),
        HostState::Offline => ("OFFLINE"@, Style::Red),
        HostState::Failed => ("FAILED"@, Style::Red),
        HostState::Unknown => ("UNKNOWN"@, Style::Dim),
    }
}

pub fn format_state(state: HostState, color: bool) -> (r: String)
    ensures
        r@ == styled(state_word(state).0, state_word(state).1, color),
{
    match state {
        HostState::Online => paint("ONLINE", Style::Green, color),
        HostState::Succeeded => paint("ONLINE", Style::Green, color),
        HostState::Waking => paint("WAKING", Style::Yellow, color),
        HostState::Offline => paint("OFFLINE", Style::Red, color),
        HostState::Failed => paint("FAILED", Style::Red, color),
        HostState::Unknown => paint("UNKNOWN", Style::Dim, color),
    }
}

impl RowState {
    pub open spec fn style(self) -> Style {
        match self {
            RowState::Online => Style::Green,
            RowState::Sent => Style::Cyan,
            RowState::Retrying => Style::Yellow,
            RowState::Rejected => Style::Red,
            RowState::Queued => Style::Dim,
        }
    }
}

pub fn format_operation_state(state: RowState, color: bool) -> (r: String)
    ensures
        r@ == styled(state.text(), state.style(), color),
{
    match state {
        RowState::Online => paint("ONLINE", Style::Green, color),
        RowState::Sent => paint("SENT", Style::Cyan, color),
        RowState::Retrying => paint("RETRYING", Style::Yellow, color),
        RowState::Rejected => paint("REJECTED", Style::Red, color),
        RowState::Queued => paint("QUEUED", Style::Dim, color),
    }
}

/// A row of a table: its number, a host and a state.
pub open spec fn row_text(number: nat, host: Seq<char>, width: nat, state: Seq<char>) -> Seq<char> {
    "  "@ + counted(number) + "  "@ + fitted(host, width) + "  "@ + state
}

fn write_row(number: u64, host: &str, width: usize, state: &str) -> (r: String)
    ensures
        r@ == row_text(number as nat, host@, width as nat, state@),
{
    let mut row: String = joined("  ", &count(number));
    row.append("  ");
    row.append(&cell(host, width));
    row.append("  ");
    row.append(state);
    row
}

/// The state that is known of a host, if one is.
pub open spec fn known_state(statuses: Seq<StatusModel>, host: Seq<char>) -> Option<HostState>
    decreases statuses.len(),
{
    if statuses.len() == 0 {
        None
    } else if statuses.last().host_id == host {
        Some(statuses.last().state)
    } else {
        known_state(statuses.drop_last(), host)
    }
}

#[verifier::loop_isolation(false)]
fn find_state(statuses: &Vec<HostStatus>, host: &str) -> (r: Option<HostState>)
    ensures
        r == known_state(status_models(statuses@), host@),
{
    let ghost all = status_models(statuses@);
    let mut i: usize = statuses.len();
    assert(all.take(i as int) =~= all);
    while i > 0
        invariant
            i <= statuses@.len(),
            known_state(all, host@) == known_state(all.take(i as int), host@),
        decreases i,
    {
        assert(all.take(i as int).last() == statuses@[i - 1]@);
        assert(all.take(i as int).drop_last() =~= all.take(i - 1));
        if same_text(&statuses[i - 1].host_id, host) {
            return Some(statuses[i - 1].state);
        }
        i -= 1;
    }
    None
}

/// What a row says of a host. Of a host of which nothing is known a live panel
/// says so dimly, since the state is still awaited; a table says it plainly.
pub open spec fn shown_state(state: Option<HostState>, live: bool, color: bool) -> Seq<char> {
    match state {
        Some(state) => styled(state_word(state).0, state_word(state).1, color),
        None => styled("UNKNOWN"@, Style::Dim, live && color),
    }
}

fn show_state(state: Option<HostState>, live: bool, color: bool) -> (r: String)
    ensures
        r@ == shown_state(state, live, color),
{
    match state {
        Some(state) => format_state(state, color),
        None => paint("UNKNOWN", Style::Dim, live && color),
    }
}

/// The row of a host in the catalogue.
pub open spec fn host_row_text(
    index: nat,
    host: Seq<char>,
    statuses: Seq<StatusModel>,
    live: bool,
    color: bool,
) -> Seq<char> {
    row_text(
        index + 1,
        host,
        HOST_ID_COLUMN as nat,
        shown_state(known_state(statuses, host), live, color),
    )
}

pub open spec fn host_rows_text(
    hosts: Seq<Seq<char>>,
    statuses: Seq<StatusModel>,
    live: bool,
    color: bool,
) -> Seq<Seq<char>> {
    Seq::new(hosts.len(), |i: int| host_row_text(i as nat, hosts[i], statuses, live, color))
}

/// The rows of the catalogue, in a live panel or in a table.
#[verifier::loop_isolation(false)]
pub fn host_table_rows(
    hosts: &Vec<HostSummary>,
    statuses: &Vec<HostStatus>,
    live: bool,
    color: bool,
) -> (r: Vec<String>)
    requires
        hosts@.len() < u64::MAX,
    ensures
        texts(r@) == host_rows_text(
            summary_models(hosts@),
            status_models(statuses@),
            live,
            color,
        ),
{
    let ghost known = status_models(statuses@);
    let mut out: Vec<String> = Vec::new();
    let mut i: usize = 0;
    while i < hosts.len()
        invariant
            i == out@.len() <= hosts@.len(),
            forall|k: int|
                0 <= k < i ==> (#[trigger] out@[k])@ == host_row_text(
                    k as nat,
                    hosts@[k].host_id@,
                    known,
                    live,
                    color,
                ),
        decreases hosts@.len() - i,
    {
        let state: String = show_state(find_state(statuses, &hosts[i].host_id), live, color);
        out.push(write_row(i as u64 + 1, &hosts[i].host_id, HOST_ID_COLUMN, &state));
        i += 1;
    }
    assert(texts(out@) =~= host_rows_text(summary_models(hosts@), known, live, color));
    out
}

/// The row of a target of a wake.
pub open spec fn wake_row_text(index: nat, host: Seq<char>, state: RowState, color: bool) -> Seq<
    char,
> {
    row_text(index + 1, host, 25, styled(state.text(), state.style(), color))
}

pub open spec fn wake_rows_text(
    targets: Seq<Seq<char>>,
    rows: Seq<RowState>,
    color: bool,
) -> Seq<Seq<char>> {
    Seq::new(targets.len(), |i: int| wake_row_text(i as nat, targets[i], rows[i], color))
}

/// The rows of a wake.
#[verifier::loop_isolation(false)]
pub fn wake_panel_rows(targets: &Vec<String>, rows: &Vec<RowState>, color: bool) -> (r: Vec<String>)
    requires
        rows@.len() == targets@.len(),
        targets@.len() < u64::MAX,
    ensures
        texts(r@) == wake_rows_text(texts(targets@), rows@, color),
{
    let mut out: Vec<String> = Vec::new();
    let mut i: usize = 0;
    while i < targets.len()
        invariant
            i == out@.len() <= targets@.len(),
            forall|k: int|
                0 <= k < i ==> (#[trigger] out@[k])@ == wake_row_text(
                    k as nat,
                    targets@[k]@,
                    rows@[k],
                    color,
                ),
        decreases targets@.len() - i,
    {
        let state: String = format_operation_state(rows[i], color);
        out.push(write_row(i as u64 + 1, &targets[i], OPERATION_HOST_COLUMN - 5, &state));
        i += 1;
    }
    assert(texts(out@) =~= wake_rows_text(texts(targets@), rows@, color));
    out
}

proof fn decimal_is_plain(n: nat)
    ensures
        !has_control(decimal(n)),
    decreases n,
{
    if n >= 10 {
        decimal_is_plain(n / 10);
    }
}

proof fn joined_is_plain(a: Seq<char>, b: Seq<char>)
    requires
        !has_control(a),
        !has_control(b),
    ensures
        !has_control(a + b),
{
    assert forall|i: int| 0 <= i < (a + b).len() implies !is_control(#[trigger] (a + b)[i]) by {
        if i < a.len() {
            assert((a + b)[i] == a[i]);
        } else {
            assert((a + b)[i] == b[i - a.len()]);
        }
    }
}

/// Where no colours are shown a row holds no control character, and so nothing
/// that would move the cursor of a terminal.
pub proof fn a_plain_row_holds_no_control_character(
    index: nat,
    host: Seq<char>,
    state: RowState,
    statuses: Seq<StatusModel>,
    live: bool,
)
    requires
        !has_control(host),
    ensures
        !has_control(wake_row_text(index, host, state, false)),
        !has_control(host_row_text(index, host, statuses, live, false)),
{
    reveal_strlit("QUEUED");
    reveal_strlit("SENT");
    reveal_strlit("REJECTED");
    reveal_strlit("ONLINE");
    reveal_strlit("RETRYING");
    reveal_strlit("WAKING");
    reveal_strlit("OFFLINE");
    reveal_strlit("FAILED");
    reveal_strlit("UNKNOWN");
    plain_row(index + 1, host, 25, state.text());
    plain_row(
        index + 1,
        host,
        HOST_ID_COLUMN as nat,
        shown_state(known_state(statuses, host), live, false),
    );
}

proof fn plain_row(number: nat, host: Seq<char>, width: nat, state: Seq<char>)
    requires
        !has_control(host),
        !has_control(state),
    ensures
        !has_control(row_text(number, host, width, state)),
{
    reveal_strlit("  ");
    reveal_strlit("...");
    decimal_is_plain(number);
    let blanks = Seq::new((3 - decimal(number).len()) as nat, |i: int| ' ');
    joined_is_plain(blanks, decimal(number));
    let head = "  "@ + counted(number);
    joined_is_plain("  "@, counted(number));
    joined_is_plain(head, "  "@);
    if host.len() > width {
        if width >= 3 {
            joined_is_plain(host.take(width - 3), "..."@);
        }
    } else {
        joined_is_plain(host, Seq::new((width - host.len()) as nat, |i: int| ' '));
    }
    joined_is_plain(head + "  "@, fitted(host, width));
    joined_is_plain(head + "  "@ + fitted(host, width), "  "@);
    joined_is_plain(head + "  "@ + fitted(host, width) + "  "@, state);
}

} // verus!
