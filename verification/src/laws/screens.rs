//! What is written to the terminal and to the log, and what a key does.

use crate::actions::{Action, Key, Page, Press};
use crate::cli::RowState;
use crate::client_view::Screen;
use crate::deployment::{
    a_quoted_text_stands_for_itself, deployment_of, literal_value, quoted, Platform,
};
use crate::desk::Modal;
use crate::logging::{lines_of, log_lines, printable_part, sanitized};
use crate::net::split;
use crate::panel::{
    counted, fitted, host_rows_text, known_state, shown_state, state_word, styled, wake_rows_text,
    Style,
};
use crate::private_file::{
    acl_fault, directory_fault, entries_fault, is_trusted_directory, private_fault, AclEntry,
    AclFacts, DirectoryFacts, FileFacts, Principal,
};
use crate::protocol::{HostState, StatusModel};
use crate::text::is_control;
use crate::transfer::{Next, Transfer};
use vstd::prelude::*;

verus! {

proof fn printable_part_is_filtered(text: Seq<char>)
    ensures
        printable_part(text) == text.filter(|c: char| !is_control(c)),
    decreases text.len(),
{
    reveal(Seq::filter);
    if text.len() > 0 {
        printable_part_is_filtered(text.drop_last());
    }
}

/// A line of the log is its text without control characters, cut behind 4096
/// characters.
pub proof fn a_log_line_is_its_text_without_controls(text: Seq<char>)
    ensures
        ({
            let plain = text.filter(|c: char| !is_control(c));
            &&& plain.len() <= 4096 ==> sanitized(text) == plain
            &&& plain.len() > 4096 ==> sanitized(text).len() == 4096 && sanitized(text)
                == plain.take(4096)
        }),
{
    printable_part_is_filtered(text);
}

/// Every line of a text, with its end or without, is a line of the log; an empty text
/// is one empty line.
pub proof fn each_line_is_logged(first: Seq<char>, rest: Seq<char>, i: int)
    requires
        !first.contains('\n'),
    ensures
        lines_of(first.push('\n') + rest) == seq![first] + lines_of(rest),
        first.len() > 0 ==> lines_of(first) == seq![first],
        first.len() == 0 ==> lines_of(first) == Seq::<Seq<char>>::empty(),
        log_lines(rest).len() == if lines_of(rest).len() == 0 {
            1
        } else {
            lines_of(rest).len()
        },
        0 <= i < lines_of(rest).len() ==> log_lines(rest)[i] == sanitized(lines_of(rest)[i]),
        lines_of(rest).len() == 0 ==> log_lines(rest)[0] == Seq::<char>::empty(),
{
    crate::laws::words::a_text_is_cut_at_its_separators(first, rest, '\n', 0);
    let whole = split(first.push('\n') + rest, '\n');
    let parts = split(rest, '\n');
    crate::net::split_is_never_empty(rest, '\n');
    assert(whole == seq![first] + parts);
    assert(whole.last() == parts.last());
    assert(whole.drop_last() =~= seq![first] + parts.drop_last());
    assert(split(first, '\n') == seq![first]);
    assert(seq![first].drop_last() =~= Seq::<Seq<char>>::empty());
}

/// A cell of a table is as wide as its column: a shorter text is filled up with blanks,
/// a longer one cut.
pub proof fn a_cell_is_as_wide_as_its_column(text: Seq<char>, width: nat, i: int)
    ensures
        fitted(text, width).len() == width,
        text.len() <= width && 0 <= i < text.len() ==> fitted(text, width)[i] == text[i],
        text.len() <= width && text.len() <= i < width ==> fitted(text, width)[i] == ' ',
        text.len() > width && 0 <= i < width - 3 ==> fitted(text, width)[i] == text[i],
        text.len() > width && width >= 3 && width - 3 <= i < width ==> fitted(text, width)[i] == '.',
        text.len() > width && width < 3 && 0 <= i < width ==> fitted(text, width)[i] == text[i],
{
    reveal_strlit("...");
}

/// A colour stands round the text only where colours are wanted.
pub proof fn a_colour_stands_round_its_text(text: Seq<char>, style: Style)
    ensures
        styled(text, style, false) == text,
        styled(text, style, true).len() == style.code().len() + text.len() + 4,
        styled(text, style, true).subrange(
            style.code().len() as int,
            (style.code().len() + text.len()) as int,
        ) == text,
        style.code().is_prefix_of(styled(text, style, true)),
        "\x1b[0m"@.is_suffix_of(styled(text, style, true)),
{
    reveal_strlit("\x1b[0m");
    let whole = styled(text, style, true);
    let n = style.code().len() as int;
    assert(whole.subrange(n, n + text.len()) =~= text);
    assert(whole.take(n) =~= style.code());
    assert(whole.skip(n + text.len()) =~= "\x1b[0m"@);
}

/// Every state has its word, and the colour that goes with it.
pub proof fn a_state_has_its_word(state: HostState)
    ensures
        state == HostState::Online || state == HostState::Succeeded ==> state_word(state) == (
            "ONLINE"@,
            Style::Green,
        ),
        state == HostState::Waking ==> state_word(state) == ("WAKING"@, Style::Yellow),
        state == HostState::Offline ==> state_word(state) == ("OFFLINE"@, Style::Red),
        state == HostState::Failed ==> state_word(state) == ("FAILED"@, Style::Red),
        state == HostState::Unknown ==> state_word(state) == ("UNKNOWN"@, Style::Dim),
{
}

/// Every row of a wake has the colour of its state.
pub proof fn a_row_has_its_colour(row: RowState)
    ensures
        row == RowState::Online ==> row.style() == Style::Green,
        row == RowState::Sent ==> row.style() == Style::Cyan,
        row == RowState::Retrying ==> row.style() == Style::Yellow,
        row == RowState::Rejected ==> row.style() == Style::Red,
        row == RowState::Queued ==> row.style() == Style::Dim,
{
}

/// The state that is known of a host is the last one that came for it.
pub proof fn the_last_state_is_known(statuses: Seq<StatusModel>, host: Seq<char>, k: int)
    ensures
        known_state(statuses, host) is None <==> forall|j: int|
            0 <= j < statuses.len() ==> (#[trigger] statuses[j]).host_id != host,
        0 <= k < statuses.len() && statuses[k].host_id == host && (forall|j: int|
            k < j < statuses.len() ==> (#[trigger] statuses[j]).host_id != host) ==> known_state(
            statuses,
            host,
        ) == Some(statuses[k].state),
    decreases statuses.len(),
{
    if statuses.len() > 0 {
        let front = statuses.drop_last();
        let n = statuses.len() - 1;
        the_last_state_is_known(front, host, k);
        assert(statuses[n] == statuses.last());
        if statuses.last().host_id != host {
            if known_state(front, host) is Some {
                let j = choose|j: int| 0 <= j < front.len() && (#[trigger] front[j]).host_id == host;
                assert(statuses[j].host_id == host);
            } else {
                assert forall|j: int| 0 <= j < statuses.len() implies (
                #[trigger] statuses[j]).host_id != host by {
                    if j < n {
                        assert(front[j].host_id != host);
                    }
                }
            }
            if 0 <= k < n && statuses[k].host_id == host && (forall|j: int|
                k < j < statuses.len() ==> (#[trigger] statuses[j]).host_id != host) {
                assert(front[k] == statuses[k]);
                assert forall|j: int| k < j < front.len() implies (#[trigger] front[j]).host_id
                    != host by {
                    assert(front[j] == statuses[j]);
                }
            }
        }
    }
}

/// A table has a row for every host, in their order, with its number, counted from
/// one, its identifier in a column of 26 characters, and its last known state.
pub proof fn a_table_has_a_row_for_every_host(
    hosts: Seq<Seq<char>>,
    statuses: Seq<StatusModel>,
    live: bool,
    color: bool,
    i: int,
)
    ensures
        host_rows_text(hosts, statuses, live, color).len() == hosts.len(),
        0 <= i < hosts.len() ==> {
            let row = host_rows_text(hosts, statuses, live, color)[i];
            let shown = shown_state(known_state(statuses, hosts[i]), live, color);
            let number = counted((i + 1) as nat);
            let digits: int = number.len() as int;
            &&& row.len() == 6 + number.len() + 26 + shown.len()
            &&& row.subrange(2, 2 + digits) == number
            &&& row.subrange(4 + digits, 30 + digits) == fitted(hosts[i], 26)
            &&& row.skip(32 + digits) == shown
        },
{
    reveal_strlit("  ");
    if 0 <= i < hosts.len() {
        let row = host_rows_text(hosts, statuses, live, color)[i];
        let shown = shown_state(known_state(statuses, hosts[i]), live, color);
        let number = counted((i + 1) as nat);
        let digits: int = number.len() as int;
        a_cell_is_as_wide_as_its_column(hosts[i], 26, 0);
        assert(row.subrange(2, 2 + digits) =~= number);
        assert(row.subrange(4 + digits, 30 + digits) =~= fitted(hosts[i], 26));
        assert(row.skip(32 + digits) =~= shown);
    }
}

/// The rows of a wake are those of its targets, in their order, each with its state.
pub proof fn a_wake_has_a_row_for_every_target(
    targets: Seq<Seq<char>>,
    rows: Seq<RowState>,
    color: bool,
    i: int,
)
    requires
        rows.len() == targets.len(),
    ensures
        wake_rows_text(targets, rows, color).len() == targets.len(),
        0 <= i < targets.len() ==> {
            let row = wake_rows_text(targets, rows, color)[i];
            let shown = styled(rows[i].text(), rows[i].style(), color);
            let number = counted((i + 1) as nat);
            let digits: int = number.len() as int;
            &&& row.subrange(2, 2 + digits) == number
            &&& row.subrange(4 + digits, 29 + digits) == fitted(targets[i], 25)
            &&& row.skip(31 + digits) == shown
        },
{
    reveal_strlit("  ");
    if 0 <= i < targets.len() {
        let row = wake_rows_text(targets, rows, color)[i];
        let shown = styled(rows[i].text(), rows[i].style(), color);
        let number = counted((i + 1) as nat);
        let digits: int = number.len() as int;
        a_cell_is_as_wide_as_its_column(targets[i], 25, 0);
        assert(row.subrange(2, 2 + digits) =~= number);
        assert(row.subrange(4 + digits, 29 + digits) =~= fitted(targets[i], 25));
        assert(row.skip(31 + digits) =~= shown);
    }
}

/// A host of which nothing is known shows as unknown, in colour only in a live table.
pub proof fn an_unknown_host_shows_as_unknown(state: HostState, live: bool, color: bool)
    ensures
        shown_state(None, live, color) == styled(
            state_word(HostState::Unknown).0,
            Style::Dim,
            live && color,
        ),
        shown_state(Some(state), live, color) == styled(
            state_word(state).0,
            state_word(state).1,
            color,
        ),
{
}

/// A number is written with at least three characters, blanks first.
pub proof fn a_number_fills_its_column(n: nat)
    ensures
        counted(n).len() >= 3,
        crate::text::decimal(n).is_suffix_of(counted(n)),
        forall|i: int|
            0 <= i < counted(n).len() - crate::text::decimal(n).len() ==> #[trigger] counted(n)[i]
                == ' ',
        crate::text::decimal(n).len() >= 3 ==> counted(n) == crate::text::decimal(n),
{
    let digits = crate::text::decimal(n);
    assert(counted(n).skip(counted(n).len() - digits.len()) =~= digits);
}

/// A file is private exactly if it is a regular file of its user or of the system, not
/// too long, with one name, that nobody else can reach.
pub proof fn a_file_is_private_exactly_if_nobody_else_reaches_it(
    facts: FileFacts,
    limit: u64,
    user: u32,
)
    ensures
        private_fault(facts, limit, user) is None <==> {
            &&& facts.is_file
            &&& facts.length <= limit
            &&& facts.links == 1
            &&& facts.mode & 0o077 == 0
            &&& facts.owner == user || facts.owner == 0
        },
{
    let mode = facts.mode;
    assert(mode & 0o077 == mode % 64) by (bit_vector);
}

/// A directory is trusted exactly if it is one, of its user or of the system, reached
/// through no link, that neither its group nor others can write to.
pub proof fn a_directory_is_trusted_exactly_if_nobody_else_writes(facts: DirectoryFacts, user: u32)
    ensures
        is_trusted_directory(facts, user) <==> {
            &&& facts.is_directory
            &&& !facts.is_symlink
            &&& facts.mode & 0o022 == 0
            &&& facts.owner == user || facts.owner == 0
        },
        directory_fault(facts) is None <==> facts.is_directory && !facts.is_symlink && facts.mode
            & 0o022 == 0,
{
    let mode = facts.mode;
    assert(mode & 0o022 == 0 <==> ((mode / 2) % 2 == 0 && (mode / 16) % 2 == 0)) by (bit_vector);
}

/// The entry at a place lets no stranger in.
spec fn is_harmless(entries: Seq<AclEntry>, i: int) -> bool {
    entries[i].fault() is None
}

#[verifier::spinoff_prover]
proof fn the_rest_are_harmless(entries: Seq<AclEntry>, k: int)
    requires
        0 <= k <= entries.len(),
    ensures
        entries_fault(entries, k) is None <==> forall|i: int|
            k <= i < entries.len() ==> #[trigger] is_harmless(entries, i),
    decreases entries.len() - k,
{
    if k < entries.len() {
        the_rest_are_harmless(entries, k + 1);
        if entries_fault(entries, k) is None {
            assert forall|i: int| k <= i < entries.len() implies #[trigger] is_harmless(
                entries,
                i,
            ) by {
                if i > k {
                    assert(entries_fault(entries, k + 1) is None);
                }
            }
        } else if is_harmless(entries, k) {
            assert(entries_fault(entries, k + 1) is Some);
            let i = choose|i: int| k + 1 <= i < entries.len() && !#[trigger] is_harmless(entries, i);
            assert(!is_harmless(entries, i));
        } else {
            assert(!is_harmless(entries, k));
        }
    }
}

/// The access list of a file is accepted exactly if the file has one name, its owner is
/// the user or the system, and every entry that counts is a whole one that allows
/// something to them alone.
pub proof fn an_access_list_is_accepted_exactly_if_private(facts: AclFacts)
    ensures
        acl_fault(facts) is None <==> {
            &&& facts.links == 1
            &&& facts.owner == Some(Principal::CurrentUser) || facts.owner == Some(
                Principal::System,
            )
            &&& facts.entries is Some
            &&& forall|i: int|
                0 <= i < facts.entries->0@.len() ==> {
                    let entry = #[trigger] facts.entries->0@[i];
                    entry.inherit_only || entry.kind == 1 || (entry.kind == 0 && entry.size >= 12
                        && entry.principal != Principal::Other)
                }
        },
{
    if facts.entries is Some {
        let entries = facts.entries->0@;
        the_rest_are_harmless(entries, 0);
        if forall|i: int| 0 <= i < entries.len() ==> #[trigger] is_harmless(entries, i) {
            assert forall|i: int| 0 <= i < entries.len() implies ({
                let entry = #[trigger] entries[i];
                entry.inherit_only || entry.kind == 1 || (entry.kind == 0 && entry.size >= 12
                    && entry.principal != Principal::Other)
            }) by {
                assert(is_harmless(entries, i));
            }
        } else {
            let i = choose|i: int| 0 <= i < entries.len() && !#[trigger] is_harmless(entries, i);
            assert(entries[i].fault() is Some);
        }
    }
}

/// Bytes are moved exactly while some are left and there is time; what is moved begins
/// where the last move ended.
pub proof fn bytes_are_moved_while_there_is_time(transfer: Transfer, now: u64)
    requires
        transfer.wf(),
    ensures
        transfer.due(now) == Next::Done <==> transfer.at == transfer.len,
        transfer.due(now) is Move <==> transfer.at < transfer.len && now < transfer.deadline,
        transfer.due(now) is Move ==> transfer.due(now) == Next::Move(transfer.at),
        transfer.due(now) == Next::TimedOut <==> transfer.at < transfer.len && now
            >= transfer.deadline,
{
}

/// A question takes every key: the question whether to stop the server is answered by
/// Enter or y, and taken back by Esc or n.
pub proof fn a_question_is_answered(page: Page, press: Press)
    ensures
        page.action(press) == Action::StopServer <==> page.modal == Some(Modal::StopServer)
            && press.plain && (press.key == Key::Enter || press.key == Key::Char('y')),
        page.action(press) == Action::Dismiss <==> page.modal == Some(Modal::StopServer)
            && press.plain && (press.key == Key::Esc || press.key == Key::Char('n')),
        page.modal is Some && page.modal != Some(Modal::StopServer) ==> page.action(press)
            == Action::Pass,
{
}

/// The server is started exactly by 4, on the pages of a server where no setting is
/// being edited, and by r, at home and among the credentials.
pub proof fn a_server_is_started_from_its_pages(page: Page, press: Press)
    ensures
        page.action(press) == Action::StartServer <==> page.modal is None && press.plain && ((
        press.key == Key::Char('4') && (page.screen == Screen::ServerHome || page.screen
            == Screen::Credentials || ((page.screen == Screen::ServerSettings || page.screen
            == Screen::SaveExit) && !page.editing))) || (press.key == Key::Char('r') && (
        page.screen == Screen::ServerHome || page.screen == Screen::Credentials))),
{
}

/// A digit leads to its page from every page of a server but the first, unless a
/// setting is being edited, and the settings are saved on the way out of them and on
/// the way to the last page.
pub proof fn a_digit_leads_to_its_page(page: Page, press: Press, to: Screen, saves: bool)
    ensures
        page.action(press) == (Action::Move { to, saves }) <==> {
            &&& page.modal is None
            &&& press.plain
            &&& !page.editing
            &&& page.screen == Screen::ServerSettings || page.screen == Screen::Credentials
                || page.screen == Screen::ServerRunning || page.screen == Screen::SaveExit
            &&& (press.key == Key::Char('1') && to == Screen::ServerHome) || (press.key == Key::Char(
                '2',
            ) && to == Screen::ServerSettings) || (press.key == Key::Char('3') && to
                == Screen::Credentials) || (press.key == Key::Char('4') && to
                == Screen::ServerRunning && page.screen == Screen::ServerRunning) || (press.key
                == Key::Char('5') && to == Screen::SaveExit)
            &&& saves == (to == Screen::SaveExit || page.screen == Screen::ServerSettings)
        },
{
}

/// The settings are saved by Ctrl-S on their pages, unless one is still being edited,
/// and by s or Enter on the last page.
pub proof fn settings_are_saved_on_their_pages(page: Page, press: Press)
    ensures
        page.action(press) == Action::Save <==> page.modal is None && !page.starts(press) && ((
        press.control && press.key == Key::Char('s') && (page.screen == Screen::ServerHome || (
        page.screen == Screen::ServerSettings && !page.editing))) || (press.plain && page.screen
            == Screen::SaveExit && (press.key == Key::Char('s') || press.key == Key::Enter))),
        page.action(press) == Action::AskConfirm <==> page.modal is None && !page.starts(press)
            && press.control && press.key == Key::Char('s') && page.screen == Screen::ServerSettings
            && page.editing,
{
}

/// A client connects by Enter, refreshes by r, wakes by Enter, and leaves by Esc or q,
/// each on its own page.
pub proof fn a_client_acts_on_its_pages(page: Page, press: Press)
    ensures
        page.action(press) == Action::Connect <==> page.modal is None && press.plain && press.key
            == Key::Enter && page.screen == Screen::ClientConnect,
        page.action(press) == Action::Refresh <==> page.modal is None && press.plain && press.key
            == Key::Char('r') && page.screen == Screen::ClientHosts,
        page.action(press) == Action::StartWake <==> page.modal is None && press.plain && press.key
            == Key::Enter && page.screen == Screen::ClientHosts,
        page.action(press) == Action::LeaveHosts <==> page.modal is None && press.plain && (
        press.key == Key::Esc || press.key == Key::Char('q')) && page.screen == Screen::ClientHosts,
        page.action(press) == Action::FinishWake <==> page.modal is None && press.plain && press.key
            == Key::Enter && page.screen == Screen::Wake,
        page.action(press) == Action::WaitForWake <==> page.modal is None && press.plain && (
        press.key == Key::Char('o') || press.key == Key::Char('t')) && page.screen == Screen::Wake,
        page.action(press) == Action::LeaveWake <==> page.modal is None && press.plain && (press.key
            == Key::Esc || press.key == Key::Char('q')) && page.screen == Screen::Wake,
{
}

/// A credential is issued from the last field of its form by Enter, and from every
/// field by Ctrl-S; it is edited from the list by e or Enter, where there is one.
pub proof fn a_credential_is_issued_from_its_form(page: Page, press: Press)
    ensures
        page.action(press) == Action::IssueCredential <==> page.modal is None && page.screen
            == Screen::CredentialIssue && ((press.control && press.key == Key::Char('s')) || (
        press.plain && press.key == Key::Enter && page.issue_field == 2)),
        page.action(press) == Action::EditCredential <==> page.modal is None && page.screen
            == Screen::Credentials && press.plain && page.has_clients && (press.key == Key::Char(
            'e',
        ) || press.key == Key::Enter),
{
}

/// The command that starts a server names the program and its settings; on Windows both
/// are quoted.
pub proof fn a_command_names_its_program_and_its_settings(
    executable: Seq<char>,
    config: Seq<char>,
)
    ensures
        deployment_of(Platform::Windows, executable, config)[1] == "& "@ + quoted(executable)
            + " --server --config "@ + quoted(config),
        literal_value(quoted(executable)) == Some(executable),
        literal_value(quoted(config)) == Some(config),
        deployment_of(Platform::Unix, executable, config)[1]
            == "./RemoteOpenPower --server --config "@ + config,
        deployment_of(Platform::Linux, executable, config)[1] == "sudo install -Dm0755 "@
            + executable + " /usr/local/bin/remote-open-power"@,
        deployment_of(Platform::Linux, executable, config)[3]
            == "sudo install -m0640 -o root -g remote-open-power "@ + config
            + " /etc/remote-open-power/remote-open-power.toml"@,
        deployment_of(Platform::Other, executable, config).len() == 1,
{
    a_quoted_text_stands_for_itself(executable);
    a_quoted_text_stands_for_itself(config);
}

} // verus!
