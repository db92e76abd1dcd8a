//! State of the settings screen: the selected tab, the token form of the accounts tab and the
//! network proxy form. Reading and writing credentials and settings is left to the caller,
//! which gets told what to write.

use vstd::prelude::*;

use crate::visual::PaletteColor;

verus! {

/// Tabs of the settings screen.
#[derive(Debug, Clone, Copy, PartialEq, Eq, Structural)]
pub enum SettingsTab {
    PowerMode,
    General,
    Accounts,
    NetworkProxy,
}

impl Default for SettingsTab {
    fn default() -> (t: SettingsTab)
        ensures
            t == SettingsTab::PowerMode,
    {
        SettingsTab::PowerMode
    }
}

/// Status of the token submission.
#[derive(Debug, Clone)]
pub enum SubmissionStatus {
    Idle,
    Validating,
    Success(String),
    Error(String),
}

impl Default for SubmissionStatus {
    fn default() -> (s: SubmissionStatus)
        ensures
            s is Idle,
    {
        SubmissionStatus::Idle
    }
}

/// State of the accounts tab: the token being entered and the submission status.
#[derive(Debug, Clone)]
pub struct AccountsTabState {
    pub token_input: String,
    pub status: SubmissionStatus,
}

impl Default for AccountsTabState {
    fn default() -> (s: AccountsTabState)
        ensures
            s.token_input@.len() == 0,
            s.status is Idle,
    {
        AccountsTabState { token_input: String::new(), status: SubmissionStatus::Idle }
    }
}

/// The saved network proxy settings.
#[derive(Debug, Clone)]
pub struct ProxySettings {
    pub enabled: bool,
    pub url: String,
    /// Whether credentials for the proxy are kept in the system keyring.
    pub has_credentials: bool,
}

/// What is to be done with the proxy credentials kept in the keyring.
#[derive(Debug, Clone)]
pub enum ProxyCredentialChange {
    /// Delete the credentials stored for the proxy at `url`.
    Delete { url: String },
    /// Store these credentials for the proxy at `url`.
    Save { url: String, username: String, password: String },
}

/// Settings screen state.
#[derive(Debug, Clone)]
pub struct SettingsScreen {
    /// The saved proxy settings.
    pub proxy: ProxySettings,
    pub selected_tab: SettingsTab,
    pub accounts_state: AccountsTabState,
    /// Proxy form: URL being edited.
    pub proxy_url: String,
    /// Proxy form: username being edited.
    pub proxy_username: String,
    /// Proxy form: password being edited.
    pub proxy_password: String,
    /// Username kept in the keyring for the saved proxy URL (empty when none is kept).
    pub saved_proxy_username: String,
    /// Password kept in the keyring for the saved proxy URL (empty when none is kept).
    pub saved_proxy_password: String,
}

/// The proxy form holds credentials: a username or a password is entered.
pub open spec fn form_has_credentials(s: SettingsScreen) -> bool {
    s.proxy_username@.len() != 0 || s.proxy_password@.len() != 0
}

/// The proxy form differs from what is saved: another URL, or a username or password other
/// than the stored credentials.
pub open spec fn unsaved_proxy_changes(s: SettingsScreen) -> bool {
    ||| s.proxy_url@ != s.proxy.url@
    ||| s.proxy_username@ != s.saved_proxy_username@
    ||| s.proxy_password@ != s.saved_proxy_password@
}

/// The message shown when an account was added.
pub open spec fn account_added_message(username: Seq<char>) -> Seq<char> {
    "Account '"@ + username + "' added successfully!"@
}

impl SettingsScreen {
    /// The screen for the saved proxy settings. `stored_credentials` is what the keyring gave
    /// for the proxy URL; it is taken as the stored credentials, and fills the form, only when
    /// the settings say credentials are stored.
    pub fn new(proxy: ProxySettings, stored_credentials: Option<(String, String)>) -> (s: SettingsScreen)
        ensures
            s.proxy == proxy,
            s.proxy_url == proxy.url,
            s.selected_tab == SettingsTab::PowerMode,
            s.accounts_state.token_input@.len() == 0,
            s.accounts_state.status is Idle,
            match stored_credentials {
                Some((user, pass)) if proxy.has_credentials => s.proxy_username == user
                    && s.proxy_password == pass,
                _ => s.proxy_username@.len() == 0 && s.proxy_password@.len() == 0,
            },
            s.saved_proxy_username == s.proxy_username,
            s.saved_proxy_password == s.proxy_password,
            !unsaved_proxy_changes(s),
    {
        let proxy_url = proxy.url.clone();
        let (proxy_username, proxy_password) = match stored_credentials {
            Some((user, pass)) => {
                if proxy.has_credentials {
                    (user, pass)
                } else {
                    (String::new(), String::new())
                }
            },
            None => (String::new(), String::new()),
        };
        SettingsScreen {
            proxy,
            selected_tab: SettingsTab::PowerMode,
            accounts_state: AccountsTabState::default(),
            proxy_url,
            saved_proxy_username: proxy_username.clone(),
            saved_proxy_password: proxy_password.clone(),
            proxy_username,
            proxy_password,
        }
    }

    /// Whether the proxy form has changes not yet saved.
    pub fn has_unsaved_proxy_changes(&self) -> (b: bool)
        ensures
            b == unsaved_proxy_changes(*self),
    {
        let url_changed = self.proxy_url != self.proxy.url;
        let creds_changed = self.proxy_username != self.saved_proxy_username
            || self.proxy_password != self.saved_proxy_password;
        url_changed || creds_changed
    }

    /// Takes the proxy form into the settings: the URL, whether credentials are kept, and the
    /// credentials now stored. Returns what to do with the keyring: delete the stored
    /// credentials when both fields are empty, otherwise store them. The settings are then to
    /// be saved.
    pub fn update_proxy_credentials(&mut self) -> (change: ProxyCredentialChange)
        ensures
            final(self).proxy.url == old(self).proxy_url,
            final(self).proxy.has_credentials == form_has_credentials(*old(self)),
            final(self).proxy.enabled == old(self).proxy.enabled,
            *final(self) == (SettingsScreen {
                proxy: final(self).proxy,
                saved_proxy_username: old(self).proxy_username,
                saved_proxy_password: old(self).proxy_password,
                ..*old(self)
            }),
            match change {
                ProxyCredentialChange::Delete { url } => !form_has_credentials(*old(self))
                    && url == old(self).proxy_url,
                ProxyCredentialChange::Save { url, username, password } => form_has_credentials(
                    *old(self),
                ) && url == old(self).proxy_url && username == old(self).proxy_username
                    && password == old(self).proxy_password,
            },
            !unsaved_proxy_changes(*final(self)),
    {
        self.proxy.url = self.proxy_url.clone();
        self.proxy.has_credentials = !self.proxy_username.as_str().is_empty()
            || !self.proxy_password.as_str().is_empty();
        self.saved_proxy_username = self.proxy_username.clone();
        self.saved_proxy_password = self.proxy_password.clone();
        if self.proxy_username.as_str().is_empty() && self.proxy_password.as_str().is_empty() {
            ProxyCredentialChange::Delete { url: self.proxy.url.clone() }
        } else {
            ProxyCredentialChange::Save {
                url: self.proxy.url.clone(),
                username: self.proxy_username.clone(),
                password: self.proxy_password.clone(),
            }
        }
    }

    /// Selects a tab; the token submission status goes back to Idle.
    pub fn select_tab(&mut self, tab: SettingsTab)
        ensures
            *final(self) == (SettingsScreen {
                selected_tab: tab,
                accounts_state: AccountsTabState {
                    status: SubmissionStatus::Idle,
                    ..old(self).accounts_state
                },
                ..*old(self)
            }),
    {
        self.selected_tab = tab;
        self.accounts_state.status = SubmissionStatus::Idle;
    }

    /// The token being entered changed; the submission status goes back to Idle.
    pub fn token_input_changed(&mut self, token: String)
        ensures
            *final(self) == (SettingsScreen {
                accounts_state: AccountsTabState { token_input: token, status: SubmissionStatus::Idle },
                ..*old(self)
            }),
    {
        self.accounts_state.token_input = token;
        self.accounts_state.status = SubmissionStatus::Idle;
    }

    /// Starts submitting the token, given the result of checking its format: a malformed
    /// token sets the Error status with the format check's message; a well-formed one sets
    /// Validating. Returns whether the token is to be validated with GitHub.
    pub fn begin_token_submission(&mut self, format_check: Result<(), String>) -> (validate: bool)
        ensures
            validate == format_check is Ok,
            *final(self) == (SettingsScreen {
                accounts_state: AccountsTabState {
                    status: match format_check {
                        Ok(()) => SubmissionStatus::Validating,
                        Err(e) => SubmissionStatus::Error(e),
                    },
                    ..old(self).accounts_state
                },
                ..*old(self)
            }),
    {
        match format_check {
            Ok(()) => {
                self.accounts_state.status = SubmissionStatus::Validating;
                true
            },
            Err(e) => {
                self.accounts_state.status = SubmissionStatus::Error(e);
                false
            },
        }
    }

    /// Takes the outcome of validating the token. On success the token field is cleared and
    /// the Success status names the account, and the username is returned: it is to become the
    /// active account and the settings are to be saved. On failure the Error status holds the
    /// message and nothing is returned.
    pub fn token_validated(&mut self, result: Result<String, String>) -> (added: Option<String>)
        ensures
            match result {
                Ok(username) => {
                    &&& added == Some(username)
                    &&& final(self).accounts_state.token_input@.len() == 0
                    &&& final(self).accounts_state.status matches SubmissionStatus::Success(m)
                        && m@ == account_added_message(username@)
                    &&& *final(self) == (SettingsScreen {
                        accounts_state: final(self).accounts_state,
                        ..*old(self)
                    })
                },
                Err(e) => {
                    &&& added is None
                    &&& *final(self) == (SettingsScreen {
                        accounts_state: AccountsTabState {
                            status: SubmissionStatus::Error(e),
                            ..old(self).accounts_state
                        },
                        ..*old(self)
                    })
                },
            },
    {
        match result {
            Ok(username) => {
                self.accounts_state.token_input = String::new();
                let mut message = String::from_str("Account '");
                message.append(username.as_str());
                message.append("' added successfully!");
                self.accounts_state.status = SubmissionStatus::Success(message);
                Some(username)
            },
            Err(error) => {
                self.accounts_state.status = SubmissionStatus::Error(error);
                None
            },
        }
    }

    /// Colour of a navigation icon: the accent for the selected tab, secondary text otherwise.
    pub fn icon_color(&self, tab: SettingsTab) -> (c: PaletteColor)
        ensures
            c == if self.selected_tab == tab {
                PaletteColor::Accent
            } else {
                PaletteColor::TextSecondary
            },
    {
        if self.selected_tab == tab {
            PaletteColor::Accent
        } else {
            PaletteColor::TextSecondary
        }
    }

    /// Switches the proxy on or off in the settings (which are then to be saved).
    pub fn set_proxy_enabled(&mut self, enabled: bool)
        ensures
            *final(self) == (SettingsScreen {
                proxy: ProxySettings { enabled, ..old(self).proxy },
                ..*old(self)
            }),
    {
        self.proxy.enabled = enabled;
    }

    /// The proxy URL being edited changed.
    pub fn proxy_url_changed(&mut self, url: String)
        ensures
            *final(self) == (SettingsScreen { proxy_url: url, ..*old(self) }),
    {
        self.proxy_url = url;
    }

    /// The proxy username being edited changed.
    pub fn proxy_username_changed(&mut self, username: String)
        ensures
            *final(self) == (SettingsScreen { proxy_username: username, ..*old(self) }),
    {
        self.proxy_username = username;
    }

    /// The proxy password being edited changed.
    pub fn proxy_password_changed(&mut self, password: String)
        ensures
            *final(self) == (SettingsScreen { proxy_password: password, ..*old(self) }),
    {
        self.proxy_password = password;
    }
}

} // verus!
