//! What a key does on a page of the program.

use crate::client_view::Screen;
use crate::desk::Modal;
use vstd::prelude::*;

verus! {

#[derive(Clone, Copy, Debug, PartialEq, Eq, Structural)]
pub enum Key {
    Enter,
    Esc,
    Char(char),
    Other,
}

/// A key, and whether it was pressed alone or with Control.
#[derive(Clone, Copy, Debug, PartialEq, Eq, Structural)]
pub struct Press {
    pub key: Key,
    pub plain: bool,
    pub control: bool,
}

/// What of the page decides what a key does.
#[derive(Clone, Copy, Debug, PartialEq, Eq, Structural)]
pub struct Page {
    pub screen: Screen,
    pub modal: Option<Modal>,
    /// A setting is being edited.
    pub editing: bool,
    /// The field of the credential form, of which the third is the last.
    pub issue_field: usize,
    pub has_clients: bool,
}

#[derive(Clone, Copy, Debug, PartialEq, Eq, Structural)]
pub enum Action {
    /// The page itself takes the key.
    Pass,
    Ignore,
    /// The question is taken back.
    Dismiss,
    StopServer,
    StartServer,
    Save,
    /// A setting was not confirmed yet.
    AskConfirm,
    IssueCredential,
    EditCredential,
    Connect,
    Refresh,
    StartWake,
    LeaveHosts,
    FinishWake,
    WaitForWake,
    LeaveWake,
    Move { to: Screen, saves: bool },
}

/// The page that a digit leads to.
pub open spec fn page_of(digit: char) -> Option<Screen> {
    if digit == '1' {
        Some(Screen::ServerHome)
    } else if digit == '2' {
        Some(Screen::ServerSettings)
    } else if digit == '3' {
        Some(Screen::Credentials)
    } else if digit == '4' {
        Some(Screen::ServerRunning)
    } else if digit == '5' {
        Some(Screen::SaveExit)
    } else {
        None
    }
}

impl Press {
    /// One of the characters was pressed alone.
    pub open spec fn is_plain(self, c: char) -> bool {
        self.plain && self.key == Key::Char(c)
    }

    pub open spec fn is_control(self, c: char) -> bool {
        self.control && self.key == Key::Char(c)
    }

    pub open spec fn is_enter(self) -> bool {
        self.plain && self.key == Key::Enter
    }

    pub open spec fn leaves(self) -> bool {
        self.plain && (self.key == Key::Esc || self.key == Key::Char('q'))
    }
}

impl Page {
    /// A page from which digits lead to the others.
    pub open spec fn is_navigable(self) -> bool {
        ||| self.screen == Screen::ServerSettings
        ||| self.screen == Screen::Credentials
        ||| self.screen == Screen::ServerRunning
        ||| self.screen == Screen::SaveExit
    }

    /// The key starts the server: the four does on every page of a server but the
    /// one that shows it, unless it is typed into a setting.
    pub open spec fn starts(self, press: Press) -> bool {
        ||| press.is_plain('4') && match self.screen {
            Screen::ServerHome => true,
            Screen::Credentials => true,
            Screen::ServerSettings => !self.editing,
            Screen::SaveExit => !self.editing,
            _ => false,
        }
        ||| press.is_plain('r') && (self.screen == Screen::ServerHome || self.screen
            == Screen::Credentials)
    }

    /// Where the key leads among the pages of a server.
    pub open spec fn leads_to(self, press: Press) -> Option<Screen> {
        if self.is_navigable() && press.plain && !self.editing && press.key is Char {
            page_of(press.key->Char_0)
        } else {
            None
        }
    }

    /// What the key does on this page.
    pub open spec fn own_action(self, press: Press) -> Action {
        match self.screen {
            Screen::ServerHome => if press.is_control('s') {
                Action::Save
            } else {
                Action::Pass
            },
            Screen::ServerSettings => if press.is_control('s') {
                if self.editing {
                    Action::AskConfirm
                } else {
                    Action::Save
                }
            } else {
                Action::Pass
            },
            Screen::CredentialIssue => if press.is_control('s') || (press.is_enter()
                && self.issue_field == 2) {
                Action::IssueCredential
            } else {
                Action::Pass
            },
            Screen::Credentials => if (press.is_plain('e') || press.is_enter())
                && self.has_clients {
                Action::EditCredential
            } else {
                Action::Pass
            },
            Screen::ClientConnect => if press.is_enter() {
                Action::Connect
            } else {
                Action::Pass
            },
            Screen::ClientHosts => if press.is_plain('r') {
                Action::Refresh
            } else if press.is_enter() {
                Action::StartWake
            } else if press.leaves() {
                Action::LeaveHosts
            } else {
                Action::Pass
            },
            Screen::Wake => if press.is_enter() {
                Action::FinishWake
            } else if press.is_plain('o') || press.is_plain('t') {
                Action::WaitForWake
            } else if press.leaves() {
                Action::LeaveWake
            } else {
                Action::Pass
            },
            Screen::SaveExit => if press.is_plain('s') || press.is_enter() {
                Action::Save
            } else {
                Action::Pass
            },
            _ => Action::Pass,
        }
    }

    /// What the key does.
    pub open spec fn action(self, press: Press) -> Action {
        match self.modal {
            Some(modal) => {
                if modal != Modal::StopServer {
                    Action::Pass
                } else if press.is_enter() || press.is_plain('y') {
                    Action::StopServer
                } else if press.plain && press.key == Key::Esc || press.is_plain('n') {
                    Action::Dismiss
                } else {
                    Action::Ignore
                }
            },
            None => {
                if self.starts(press) {
                    Action::StartServer
                } else {
                    match self.leads_to(press) {
                        Some(to) => Action::Move {
                            to,
                            saves: to == Screen::SaveExit || self.screen == Screen::ServerSettings,
                        },
                        None => self.own_action(press),
                    }
                }
            },
        }
    }

    fn starts_server(&self, press: Press) -> (r: bool)
        ensures
            r == self.starts(press),
    {
        if !press.plain {
            return false;
        }
        match press.key {
            Key::Char('4') => match self.screen {
                Screen::ServerHome => true,
                Screen::Credentials => true,
                Screen::ServerSettings => !self.editing,
                Screen::SaveExit => !self.editing,
                _ => false,
            },
            Key::Char('r') => self.screen == Screen::ServerHome || self.screen
                == Screen::Credentials,
            _ => false,
        }
    }

    /// Where a digit leads among the pages of a server. A setting that is being
    /// edited keeps the digits.
    pub fn navigate_server_page(&self, press: Press) -> (r: Option<Screen>)
        ensures
            r == self.leads_to(press),
    {
        let navigable: bool = match self.screen {
            Screen::ServerSettings => true,
            Screen::Credentials => true,
            Screen::ServerRunning => true,
            Screen::SaveExit => true,
            _ => false,
        };
        if !navigable || !press.plain || self.editing {
            return None;
        }
        match press.key {
            Key::Char('1') => Some(Screen::ServerHome),
            Key::Char('2') => Some(Screen::ServerSettings),
            Key::Char('3') => Some(Screen::Credentials),
            Key::Char('4') => Some(Screen::ServerRunning),
            Key::Char('5') => Some(Screen::SaveExit),
            _ => None,
        }
    }

    fn page_action(&self, press: Press) -> (r: Action)
        ensures
            r == self.own_action(press),
    {
        let control_s: bool = press.control && press.key == Key::Char('s');
        let enter: bool = press.plain && press.key == Key::Enter;
        let leaves: bool = press.plain && (press.key == Key::Esc || press.key == Key::Char('q'));
        match self.screen {
            Screen::ServerHome => if control_s {
                Action::Save
            } else {
                Action::Pass
            },
            Screen::ServerSettings => if !control_s {
                Action::Pass
            } else if self.editing {
                Action::AskConfirm
            } else {
                Action::Save
            },
            Screen::CredentialIssue => if control_s || (enter && self.issue_field == 2) {
                Action::IssueCredential
            } else {
                Action::Pass
            },
            Screen::Credentials => if ((press.plain && press.key == Key::Char('e')) || enter)
                && self.has_clients {
                Action::EditCredential
            } else {
                Action::Pass
            },
            Screen::ClientConnect => if enter {
                Action::Connect
            } else {
                Action::Pass
            },
            Screen::ClientHosts => if press.plain && press.key == Key::Char('r') {
                Action::Refresh
            } else if enter {
                Action::StartWake
            } else if leaves {
                Action::LeaveHosts
            } else {
                Action::Pass
            },
            Screen::Wake => if enter {
                Action::FinishWake
            } else if press.plain && (press.key == Key::Char('o') || press.key == Key::Char('t')) {
                Action::WaitForWake
            } else if leaves {
                Action::LeaveWake
            } else {
                Action::Pass
            },
            Screen::SaveExit => if (press.plain && press.key == Key::Char('s')) || enter {
                Action::Save
            } else {
                Action::Pass
            },
            _ => Action::Pass,
        }
    }

    /// Decides what a key does.
    pub fn handle_real_action(&self, press: Press) -> (r: Action)
        ensures
            r == self.action(press),
    {
        match self.modal {
            Some(modal) => {
                if modal != Modal::StopServer {
                    return Action::Pass;
                }
                if !press.plain {
                    return Action::Ignore;
                }
                match press.key {
                    Key::Enter => Action::StopServer,
                    Key::Char('y') => Action::StopServer,
                    Key::Esc => Action::Dismiss,
                    Key::Char('n') => Action::Dismiss,
                    _ => Action::Ignore,
                }
            },
            None => {
                if self.starts_server(press) {
                    return Action::StartServer;
                }
                match self.navigate_server_page(press) {
                    Some(to) => Action::Move {
                        to,
                        saves: to == Screen::SaveExit || self.screen == Screen::ServerSettings,
                    },
                    None => self.page_action(press),
                }
            },
        }
    }
}

/// While a question stands before the page, no key acts on what is behind it.
pub proof fn a_question_comes_before_the_page(page: Page, press: Press)
    requires
        page.modal is Some,
    ensures
        page.action(press) == Action::Pass || page.action(press) == Action::Ignore || page.action(
            press,
        ) == Action::Dismiss || page.action(press) == Action::StopServer,
        page.modal->0 != Modal::StopServer ==> page.action(press) == Action::Pass,
{
}

/// What is typed into a setting neither starts the server nor leaves the page.
pub proof fn typing_stays_on_the_page(page: Page, c: char)
    requires
        page.screen == Screen::ServerSettings,
        page.editing,
        page.modal is None,
    ensures
        page.action(Press { key: Key::Char(c), plain: true, control: false }) == Action::Pass,
{
}

} // verus!
