//! The dashboard's shared state: which tab is open, the signed-in account, and whether
//! the service answers; with the steps that change it as answers come in.

use vstd::prelude::*;
use crate::text::str_eq;

verus! {

/// How often the account is asked for again, in milliseconds.
pub const USER_POLL_INTERVAL_MS: i32 = 60000;

/// The state the header and the tabs share. `U` is the account record the service
/// returns.
pub struct DashboardContext<U> {
    pub active_tab: String,
    pub user_data: Option<U>,
    pub user_loading: bool,
    pub api_connected: bool,
    pub is_loading: bool,
}

/// How one request for the account ended: no API key was stored (or it was empty),
/// the service answered (with or without an account), or the request failed.
pub enum UserFetch<U> {
    NoApiKey,
    Fetched(Option<U>),
    Failed,
}

/// The account after an answer: a returned account replaces the old one; otherwise the
/// old one stays.
pub open spec fn user_after<U>(old_user: Option<U>, outcome: UserFetch<U>) -> Option<U> {
    match outcome {
        UserFetch::Fetched(Some(u)) => Some(u),
        _ => old_user,
    }
}

impl<U> DashboardContext<U> {
    /// The overview tab, no account yet, not connected, loading.
    pub fn new() -> (c: DashboardContext<U>)
        ensures
            c.active_tab@ == "overview"@,
            c.user_data is None,
            !c.user_loading,
            !c.api_connected,
            c.is_loading,
    {
        DashboardContext {
            active_tab: String::from_str("overview"),
            user_data: None,
            user_loading: false,
            api_connected: false,
            is_loading: true,
        }
    }

    /// Starts the first request for the account, unless there is an account already or
    /// a request is on its way; says whether it started one.
    pub fn begin_initial_fetch(&mut self) -> (started: bool)
        ensures
            started == (old(self).user_data is None && !old(self).user_loading),
            started ==> final(self).user_loading && final(self).is_loading,
            !started ==> final(self).user_loading == old(self).user_loading
                && final(self).is_loading == old(self).is_loading,
            final(self).active_tab@ == old(self).active_tab@,
            final(self).user_data == old(self).user_data,
            final(self).api_connected == old(self).api_connected,
    {
        if self.user_data.is_none() && !self.user_loading {
            self.user_loading = true;
            self.is_loading = true;
            true
        } else {
            false
        }
    }

    /// Takes the answer to the first request: connected exactly when the service
    /// answered, the account it returned kept, and loading over.
    pub fn finish_initial_fetch(&mut self, outcome: UserFetch<U>)
        ensures
            final(self).api_connected == (outcome is Fetched),
            final(self).user_data == user_after(old(self).user_data, outcome),
            !final(self).user_loading,
            !final(self).is_loading,
            final(self).active_tab@ == old(self).active_tab@,
    {
        match outcome {
            UserFetch::Fetched(user) => {
                self.api_connected = true;
                match user {
                    Some(u) => {
                        self.user_data = Some(u);
                    },
                    None => {},
                }
            },
            UserFetch::NoApiKey => {
                self.api_connected = false;
            },
            UserFetch::Failed => {
                self.api_connected = false;
            },
        }
        self.user_loading = false;
        self.is_loading = false;
    }

    /// Takes the answer to a periodic request: without an API key nothing is asked and
    /// nothing changes; else connected exactly when the service answered, and the
    /// account it returned kept.
    pub fn apply_poll(&mut self, outcome: UserFetch<U>)
        ensures
            final(self).api_connected == match outcome {
                UserFetch::NoApiKey => old(self).api_connected,
                UserFetch::Fetched(_) => true,
                UserFetch::Failed => false,
            },
            final(self).user_data == user_after(old(self).user_data, outcome),
            final(self).user_loading == old(self).user_loading,
            final(self).is_loading == old(self).is_loading,
            final(self).active_tab@ == old(self).active_tab@,
    {
        match outcome {
            UserFetch::Fetched(user) => {
                self.api_connected = true;
                match user {
                    Some(u) => {
                        self.user_data = Some(u);
                    },
                    None => {},
                }
            },
            UserFetch::NoApiKey => {},
            UserFetch::Failed => {
                self.api_connected = false;
            },
        }
    }

    /// The connection note of the header.
    pub fn connection_label(&self) -> (r: &'static str)
        ensures
            r@ == connection_label_of(self.is_loading, self.api_connected),
    {
        if self.is_loading {
            "Checking..."
        } else if self.api_connected {
            "API Connected"
        } else {
            "API Disconnected"
        }
    }

    /// Opens a tab.
    pub fn select_tab(&mut self, tab: &str)
        ensures
            final(self).active_tab@ == tab@,
            final(self).user_data == old(self).user_data,
            final(self).user_loading == old(self).user_loading,
            final(self).api_connected == old(self).api_connected,
            final(self).is_loading == old(self).is_loading,
    {
        self.active_tab = String::from_str(tab);
    }

    /// Whether a tab is the open one (its button is drawn highlighted).
    pub fn is_tab_active(&self, tab: &str) -> (r: bool)
        ensures
            r == (self.active_tab@ == tab@),
    {
        str_eq(self.active_tab.as_str(), tab)
    }
}

/// The connection note of the header: still checking, connected, or not.
pub open spec fn connection_label_of(is_loading: bool, api_connected: bool) -> Seq<char> {
    if is_loading {
        "Checking..."@
    } else if api_connected {
        "API Connected"@
    } else {
        "API Disconnected"@
    }
}

/// The panels the dashboard can show.
#[derive(Clone, Copy, Debug, PartialEq, Eq, Structural)]
pub enum DashboardTab {
    Overview,
    User,
    Themes,
    Automations,
}

/// The panel shown for a tab name; none for an unknown name.
pub open spec fn panel_named(name: Seq<char>) -> Option<DashboardTab> {
    if name == "overview"@ {
        Some(DashboardTab::Overview)
    } else if name == "user"@ {
        Some(DashboardTab::User)
    } else if name == "themes"@ {
        Some(DashboardTab::Themes)
    } else if name == "automations"@ {
        Some(DashboardTab::Automations)
    } else {
        None
    }
}

/// The panel the dashboard shows for the open tab.
pub fn shown_panel(active_tab: &str) -> (r: Option<DashboardTab>)
    ensures
        r == panel_named(active_tab@),
{
    if str_eq(active_tab, "overview") {
        Some(DashboardTab::Overview)
    } else if str_eq(active_tab, "user") {
        Some(DashboardTab::User)
    } else if str_eq(active_tab, "themes") {
        Some(DashboardTab::Themes)
    } else if str_eq(active_tab, "automations") {
        Some(DashboardTab::Automations)
    } else {
        None
    }
}

/// The header's menu on narrow screens.
#[derive(Clone, Copy, Debug, PartialEq, Eq, Structural)]
pub struct MobileMenu {
    pub open: bool,
}

impl MobileMenu {
    /// A closed menu.
    pub fn new() -> (m: MobileMenu)
        ensures
            !m.open,
    {
        MobileMenu { open: false }
    }

    /// Opens a closed menu, closes an open one.
    pub fn toggle(&mut self)
        ensures
            final(self).open == !old(self).open,
    {
        self.open = !self.open;
    }

    /// Closes the menu: on a tap outside it, on a choice in it, and whenever the open
    /// tab changes.
    pub fn close(&mut self)
        ensures
            !final(self).open,
    {
        self.open = false;
    }
}

} // verus!
