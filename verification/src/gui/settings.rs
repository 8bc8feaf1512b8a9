//! Saved SSH connections, and the settings panel that edits them.
use crate::path;
use crate::text;
use vstd::prelude::*;
use vstd::string::*;

verus! {

/// The port a connection uses unless it names another.
pub const DEFAULT_PORT: u16 = 22;

/// How a saved connection authenticates. Secrets are kept in plain text, on the
/// trust of a single-user machine.
#[derive(Debug, Clone, PartialEq, Eq)]
pub enum SshAuth {
    Password { password: String },
    /// A private-key file; an empty path tries the default keys.
    Key { key_path: String, passphrase: String },
}

/// How a saved connection authenticates, by view.
pub enum AuthView {
    Password { password: Seq<char> },
    Key { key_path: Seq<char>, passphrase: Seq<char> },
}

impl View for SshAuth {
    type V = AuthView;

    open spec fn view(&self) -> AuthView {
        match self {
            SshAuth::Password { password } => AuthView::Password { password: password@ },
            SshAuth::Key { key_path, passphrase } => AuthView::Key {
                key_path: key_path@,
                passphrase: passphrase@,
            },
        }
    }
}

/// The two authentication choices of the form.
#[derive(Debug, Clone, Copy, PartialEq, Eq, Structural)]
pub enum AuthKind {
    Password,
    Key,
}

impl Default for SshAuth {
    fn default() -> (r: Self)
        ensures
            r@ == (AuthView::Key { key_path: Seq::empty(), passphrase: Seq::empty() }),
    {
        SshAuth::Key { key_path: String::new(), passphrase: String::new() }
    }
}

impl AuthView {
    /// Which of the two choices it is.
    pub open spec fn kind(self) -> AuthKind {
        match self {
            AuthView::Password { .. } => AuthKind::Password,
            AuthView::Key { .. } => AuthKind::Key,
        }
    }
}

impl SshAuth {
    /// Which of the two choices it is.
    pub fn kind(&self) -> (r: AuthKind)
        ensures
            r == self@.kind(),
    {
        match self {
            SshAuth::Password { .. } => AuthKind::Password,
            SshAuth::Key { .. } => AuthKind::Key,
        }
    }

    /// One-word tag for the connection list.
    pub fn tag(&self) -> (r: &'static str)
        ensures
            r@ == match self@.kind() {
                AuthKind::Password => "password"@,
                AuthKind::Key => "key"@,
            },
    {
        match self {
            SshAuth::Password { .. } => "password",
            SshAuth::Key { .. } => "key",
        }
    }

    /// A copy.
    pub fn copy(&self) -> (r: SshAuth)
        ensures
            r@ == self@,
    {
        match self {
            SshAuth::Password { password } => SshAuth::Password { password: password.clone() },
            SshAuth::Key { key_path, passphrase } => SshAuth::Key {
                key_path: key_path.clone(),
                passphrase: passphrase.clone(),
            },
        }
    }
}

/// A saved SSH connection.
#[derive(Debug, Clone, PartialEq, Eq)]
pub struct SshConnection {
    pub name: String,
    pub host: String,
    pub user: String,
    pub port: u16,
    pub auth: SshAuth,
}

/// A saved SSH connection, by view.
pub struct ConnectionView {
    pub name: Seq<char>,
    pub host: Seq<char>,
    pub user: Seq<char>,
    pub port: u16,
    pub auth: AuthView,
}

impl View for SshConnection {
    type V = ConnectionView;

    open spec fn view(&self) -> ConnectionView {
        ConnectionView {
            name: self.name@,
            host: self.host@,
            user: self.user@,
            port: self.port,
            auth: self.auth@,
        }
    }
}

/// Saved connections, by view.
pub open spec fn connections_view(v: Seq<SshConnection>) -> Seq<ConnectionView> {
    v.map_values(|c: SshConnection| c@)
}

impl ConnectionView {
    /// The address of the connection, as the list shows it: the port is left out
    /// where it is the default one.
    pub open spec fn label(self) -> Seq<char> {
        if self.port == DEFAULT_PORT {
            self.user + "@"@ + self.host
        } else {
            self.user + "@"@ + self.host + ":"@ + text::decimal_text(self.port as nat)
        }
    }
}

impl SshConnection {
    /// The address of the connection, as the list shows it.
    pub fn label(&self) -> (r: String)
        ensures
            r@ == self@.label(),
    {
        let mut s = text::join3(self.user.as_str(), "@", self.host.as_str());
        if self.port != DEFAULT_PORT {
            s.append(":");
            let port = text::decimal(self.port as u64);
            s.append(port.as_str());
        }
        s
    }

    /// A copy.
    pub fn copy(&self) -> (r: SshConnection)
        ensures
            r@ == self@,
    {
        SshConnection {
            name: self.name.clone(),
            host: self.host.clone(),
            user: self.user.clone(),
            port: self.port,
            auth: self.auth.copy(),
        }
    }
}

/// What the settings file holds.
#[derive(Debug, Clone, PartialEq, Eq)]
pub struct SettingsConfig {
    pub ssh_connections: Vec<SshConnection>,
}

impl Default for SettingsConfig {
    fn default() -> (r: Self)
        ensures
            r.ssh_connections@.len() == 0,
    {
        SettingsConfig { ssh_connections: Vec::new() }
    }
}

/// Where the settings file is, in the data directory.
pub fn config_path(data_dir: &str) -> (r: String)
    ensures
        r@ == path::joined(data_dir@, "config.json"@),
{
    path::join(data_dir, "config.json")
}

/// A page of the settings panel.
#[derive(Debug, Clone, Copy, PartialEq, Eq, Structural)]
pub enum SettingsPage {
    General,
    Connections,
}

/// The form that edits one connection.
#[derive(Debug, Clone, PartialEq, Eq)]
pub struct SshForm {
    /// Which saved connection is edited; `None` for a new one.
    pub index: Option<usize>,
    pub name: String,
    pub host: String,
    pub user: String,
    pub port: String,
    pub auth_kind: AuthKind,
    pub password: String,
    pub key_path: String,
    pub passphrase: String,
}

/// The form, by view.
pub struct FormView {
    pub index: Option<usize>,
    pub name: Seq<char>,
    pub host: Seq<char>,
    pub user: Seq<char>,
    pub port: Seq<char>,
    pub auth_kind: AuthKind,
    pub password: Seq<char>,
    pub key_path: Seq<char>,
    pub passphrase: Seq<char>,
}

impl View for SshForm {
    type V = FormView;

    open spec fn view(&self) -> FormView {
        FormView {
            index: self.index,
            name: self.name@,
            host: self.host@,
            user: self.user@,
            port: self.port@,
            auth_kind: self.auth_kind,
            password: self.password@,
            key_path: self.key_path@,
            passphrase: self.passphrase@,
        }
    }
}

/// The form of a new connection: empty, on the default port, with a key.
pub open spec fn blank_form() -> FormView {
    FormView {
        index: None,
        name: Seq::empty(),
        host: Seq::empty(),
        user: Seq::empty(),
        port: "22"@,
        auth_kind: AuthKind::Key,
        password: Seq::empty(),
        key_path: Seq::empty(),
        passphrase: Seq::empty(),
    }
}

/// The form of a saved connection.
pub open spec fn form_of(c: ConnectionView, i: usize) -> FormView {
    FormView {
        index: Some(i),
        name: c.name,
        host: c.host,
        user: c.user,
        port: text::decimal_text(c.port as nat),
        auth_kind: c.auth.kind(),
        password: match c.auth {
            AuthView::Password { password } => password,
            AuthView::Key { .. } => Seq::empty(),
        },
        key_path: match c.auth {
            AuthView::Password { .. } => Seq::empty(),
            AuthView::Key { key_path, .. } => key_path,
        },
        passphrase: match c.auth {
            AuthView::Password { .. } => Seq::empty(),
            AuthView::Key { passphrase, .. } => passphrase,
        },
    }
}

/// Whether every character is a decimal digit.
pub open spec fn all_digits(s: Seq<char>) -> bool {
    forall|i: int| 0 <= i < s.len() ==> '0' <= #[trigger] s[i] <= '9'
}

/// The number that digits write.
pub open spec fn digits_value(s: Seq<char>) -> int
    decreases s.len(),
{
    if s.len() == 0 {
        0
    } else {
        digits_value(s.drop_last()) * 10 + (s.last() as int - '0' as int)
    }
}

/// The port a text writes: decimal digits, after a plus sign or not, of a number
/// from 1 to 65535.
pub open spec fn port_number(s: Seq<char>) -> Option<u16> {
    let digits = if s.len() > 0 && s[0] == '+' {
        s.drop_first()
    } else {
        s
    };
    if digits.len() > 0 && all_digits(digits) && 1 <= digits_value(digits) <= u16::MAX {
        Some(digits_value(digits) as u16)
    } else {
        None
    }
}

proof fn lemma_digits_grow(s: Seq<char>, i: int)
    requires
        all_digits(s),
        0 <= i <= s.len(),
    ensures
        0 <= digits_value(s.take(i)) <= digits_value(s),
    decreases s.len(),
{
    if s.len() == 0 {
        assert(s.take(i) =~= s);
    } else if i == s.len() {
        assert(s.take(i) =~= s);
        assert(all_digits(s.drop_last()));
        lemma_digits_grow(s.drop_last(), s.len() - 1);
        assert(s.drop_last().take(s.len() - 1) =~= s.drop_last());
        assert('0' <= s[s.len() - 1] <= '9');
    } else {
        assert(all_digits(s.drop_last()));
        lemma_digits_grow(s.drop_last(), i);
        assert(s.drop_last().take(i) =~= s.take(i));
        assert('0' <= s[s.len() - 1] <= '9');
    }
}

/// The port a text writes, if it writes one.
pub fn parse_port(s: &str) -> (r: Option<u16>)
    ensures
        r == port_number(s@),
{
    let chars = text::chars_of(s);
    let from: usize = if chars.len() > 0 && chars[0] == '+' {
        1
    } else {
        0
    };
    let ghost digits = if from == 1 {
        s@.drop_first()
    } else {
        s@
    };
    if from == chars.len() {
        return None;
    }
    let mut value: u32 = 0;
    let mut i: usize = from;
    while i < chars.len()
        invariant
            from <= i <= chars.len(),
            from <= 1,
            chars@ == s@,
            digits == (if from == 1 {
                s@.drop_first()
            } else {
                s@
            }),
            digits == (if s@.len() > 0 && s@[0] == '+' {
                s@.drop_first()
            } else {
                s@
            }),
            digits.len() == chars.len() - from,
            all_digits(digits.take(i - from)),
            value == digits_value(digits.take(i - from)),
            value <= u16::MAX,
        decreases chars.len() - i,
    {
        let c: char = chars[i];
        assert(digits[i - from] == c);
        if c < '0' || c > '9' {
            return None;
        }
        let d: u32 = c as u32 - '0' as u32;
        let ghost next = digits.take(i - from + 1);
        proof {
            assert(next.drop_last() =~= digits.take(i - from));
            assert(all_digits(next)) by {
                assert forall|k: int| 0 <= k < next.len() implies '0' <= #[trigger] next[k]
                    <= '9' by {
                    if k < i - from {
                        assert(digits.take(i - from)[k] == next[k]);
                    }
                }
            }
        }
        value = value * 10 + d;
        i += 1;
        if value > 65535 {
            proof {
                if all_digits(digits) {
                    lemma_digits_grow(digits, i - from);
                }
            }
            return None;
        }
    }
    assert(digits.take(i - from) =~= digits);
    if value == 0 {
        None
    } else {
        Some(value as u16)
    }
}

impl FormView {
    /// The first reason the form cannot be saved, phrased for the user.
    pub open spec fn invalid_reason(self) -> Option<Seq<char>> {
        if text::trimmed(self.name).len() == 0 {
            Some("Name is required."@)
        } else if text::trimmed(self.host).len() == 0 {
            Some("Host is required."@)
        } else if text::trimmed(self.user).len() == 0 {
            Some("User is required."@)
        } else if port_number(text::trimmed(self.port)) is None {
            Some("Port must be a number (1–65535)."@)
        } else if self.auth_kind == AuthKind::Password && self.password.len() == 0 {
            Some("Password is required."@)
        } else {
            None
        }
    }

    /// The authentication the form asks for.
    pub open spec fn auth(self) -> AuthView {
        match self.auth_kind {
            AuthKind::Password => AuthView::Password { password: self.password },
            AuthKind::Key => AuthView::Key {
                key_path: text::trimmed(self.key_path),
                passphrase: self.passphrase,
            },
        }
    }

    /// The connection the form describes, where it can be saved.
    pub open spec fn connection(self) -> Option<ConnectionView> {
        if self.invalid_reason() is Some {
            None
        } else {
            Some(
                ConnectionView {
                    name: text::trimmed(self.name),
                    host: text::trimmed(self.host),
                    user: text::trimmed(self.user),
                    port: port_number(text::trimmed(self.port))->0,
                    auth: self.auth(),
                },
            )
        }
    }
}

/// A connection by view, where there is one.
pub open spec fn maybe_connection(c: Option<SshConnection>) -> Option<ConnectionView> {
    match c {
        Some(v) => Some(v@),
        None => None,
    }
}

/// A fixed text by view, where there is one.
pub open spec fn maybe_text(s: Option<&str>) -> Option<Seq<char>> {
    match s {
        Some(v) => Some(v@),
        None => None,
    }
}

impl Default for SshForm {
    fn default() -> (r: Self)
        ensures
            r@ == blank_form(),
    {
        SshForm {
            index: None,
            name: String::new(),
            host: String::new(),
            user: String::new(),
            port: "22".to_owned(),
            auth_kind: AuthKind::Key,
            password: String::new(),
            key_path: String::new(),
            passphrase: String::new(),
        }
    }
}

impl SshForm {
    /// The form that edits the saved connection `i`.
    pub fn from_conn(c: &SshConnection, i: usize) -> (r: Self)
        ensures
            r@ == form_of(c@, i),
    {
        let (password, key_path, passphrase) = match &c.auth {
            SshAuth::Password { password } => (password.clone(), String::new(), String::new()),
            SshAuth::Key { key_path, passphrase } => (
                String::new(),
                key_path.clone(),
                passphrase.clone(),
            ),
        };
        SshForm {
            index: Some(i),
            name: c.name.clone(),
            host: c.host.clone(),
            user: c.user.clone(),
            port: text::decimal(c.port as u64),
            auth_kind: c.auth.kind(),
            password,
            key_path,
            passphrase,
        }
    }

    /// The first reason the form cannot be saved, phrased for the user, or
    /// `None` when it can.
    pub fn invalid_reason(&self) -> (r: Option<&'static str>)
        ensures
            maybe_text(r) == self@.invalid_reason(),
    {
        if text::trim(self.name.as_str()).as_str().is_empty() {
            return Some("Name is required.");
        }
        if text::trim(self.host.as_str()).as_str().is_empty() {
            return Some("Host is required.");
        }
        if text::trim(self.user.as_str()).as_str().is_empty() {
            return Some("User is required.");
        }
        let port = text::trim(self.port.as_str());
        if parse_port(port.as_str()).is_none() {
            return Some("Port must be a number (1–65535).");
        }
        if self.auth_kind == AuthKind::Password && self.password.as_str().is_empty() {
            return Some("Password is required.");
        }
        None
    }

    /// Whether the form can be saved.
    pub fn valid(&self) -> (r: bool)
        ensures
            r == (self@.invalid_reason() is None),
    {
        self.invalid_reason().is_none()
    }

    /// The authentication the form asks for.
    fn auth(&self) -> (r: SshAuth)
        ensures
            r@ == self@.auth(),
    {
        match self.auth_kind {
            AuthKind::Password => SshAuth::Password { password: self.password.clone() },
            AuthKind::Key => SshAuth::Key {
                key_path: text::trim(self.key_path.as_str()),
                passphrase: self.passphrase.clone(),
            },
        }
    }

    /// The connection the form describes, or `None` where it cannot be saved. The
    /// form stays as it is.
    pub fn into_connection(&self) -> (r: Option<SshConnection>)
        ensures
            maybe_connection(r) == self@.connection(),
            r matches Some(c) ==> c.port >= 1,
    {
        if !self.valid() {
            return None;
        }
        let written = text::trim(self.port.as_str());
        match parse_port(written.as_str()) {
            Some(port) => Some(
                SshConnection {
                    name: text::trim(self.name.as_str()),
                    host: text::trim(self.host.as_str()),
                    user: text::trim(self.user.as_str()),
                    port,
                    auth: self.auth(),
                },
            ),
            None => None,
        }
    }
}

/// What the user does in the settings panel.
#[derive(Debug, Clone, PartialEq, Eq)]
pub enum SettingsMsg {
    Close,
    Nav(SettingsPage),
    AddConnection,
    EditConnection(usize),
    DeleteConnection(usize),
    SaveConnection,
    CancelEdit,
    FormName(String),
    FormHost(String),
    FormUser(String),
    FormPort(String),
    FormAuthKind(AuthKind),
    FormPassword(String),
    FormKeyPath(String),
    FormPassphrase(String),
}

/// What the user does in the settings panel, by view.
pub enum SettingsMsgView {
    Close,
    Nav(SettingsPage),
    AddConnection,
    EditConnection(usize),
    DeleteConnection(usize),
    SaveConnection,
    CancelEdit,
    FormName(Seq<char>),
    FormHost(Seq<char>),
    FormUser(Seq<char>),
    FormPort(Seq<char>),
    FormAuthKind(AuthKind),
    FormPassword(Seq<char>),
    FormKeyPath(Seq<char>),
    FormPassphrase(Seq<char>),
}

impl View for SettingsMsg {
    type V = SettingsMsgView;

    open spec fn view(&self) -> SettingsMsgView {
        match self {
            SettingsMsg::Close => SettingsMsgView::Close,
            SettingsMsg::Nav(p) => SettingsMsgView::Nav(*p),
            SettingsMsg::AddConnection => SettingsMsgView::AddConnection,
            SettingsMsg::EditConnection(i) => SettingsMsgView::EditConnection(*i),
            SettingsMsg::DeleteConnection(i) => SettingsMsgView::DeleteConnection(*i),
            SettingsMsg::SaveConnection => SettingsMsgView::SaveConnection,
            SettingsMsg::CancelEdit => SettingsMsgView::CancelEdit,
            SettingsMsg::FormName(s) => SettingsMsgView::FormName(s@),
            SettingsMsg::FormHost(s) => SettingsMsgView::FormHost(s@),
            SettingsMsg::FormUser(s) => SettingsMsgView::FormUser(s@),
            SettingsMsg::FormPort(s) => SettingsMsgView::FormPort(s@),
            SettingsMsg::FormAuthKind(k) => SettingsMsgView::FormAuthKind(*k),
            SettingsMsg::FormPassword(s) => SettingsMsgView::FormPassword(s@),
            SettingsMsg::FormKeyPath(s) => SettingsMsgView::FormKeyPath(s@),
            SettingsMsg::FormPassphrase(s) => SettingsMsgView::FormPassphrase(s@),
        }
    }
}

/// A text field of the form.
#[derive(Debug, Clone, Copy, PartialEq, Eq, Structural)]
pub enum Slot {
    Name,
    Host,
    Port,
    User,
    Password,
    KeyPath,
    Passphrase,
}

/// What typing into a field sends.
pub open spec fn typed(slot: Slot, s: Seq<char>) -> SettingsMsgView {
    match slot {
        Slot::Name => SettingsMsgView::FormName(s),
        Slot::Host => SettingsMsgView::FormHost(s),
        Slot::Port => SettingsMsgView::FormPort(s),
        Slot::User => SettingsMsgView::FormUser(s),
        Slot::Password => SettingsMsgView::FormPassword(s),
        Slot::KeyPath => SettingsMsgView::FormKeyPath(s),
        Slot::Passphrase => SettingsMsgView::FormPassphrase(s),
    }
}

impl Slot {
    /// What typing into the field sends.
    pub fn typed(self, s: String) -> (r: SettingsMsg)
        ensures
            r@ == typed(self, s@),
    {
        match self {
            Slot::Name => SettingsMsg::FormName(s),
            Slot::Host => SettingsMsg::FormHost(s),
            Slot::Port => SettingsMsg::FormPort(s),
            Slot::User => SettingsMsg::FormUser(s),
            Slot::Password => SettingsMsg::FormPassword(s),
            Slot::KeyPath => SettingsMsg::FormKeyPath(s),
            Slot::Passphrase => SettingsMsg::FormPassphrase(s),
        }
    }
}

/// One labelled text field, as the form shows it.
#[derive(Debug, Clone, PartialEq, Eq)]
pub struct Field {
    pub slot: Slot,
    pub label: &'static str,
    pub value: String,
    /// What an empty field shows.
    pub placeholder: &'static str,
    /// Whether the label carries an asterisk.
    pub required: bool,
    /// Whether the input is masked.
    pub secure: bool,
}

/// One labelled text field, by view.
pub struct FieldView {
    pub slot: Slot,
    pub label: Seq<char>,
    pub value: Seq<char>,
    pub placeholder: Seq<char>,
    pub required: bool,
    pub secure: bool,
}

impl View for Field {
    type V = FieldView;

    open spec fn view(&self) -> FieldView {
        FieldView {
            slot: self.slot,
            label: self.label@,
            value: self.value@,
            placeholder: self.placeholder@,
            required: self.required,
            secure: self.secure,
        }
    }
}

/// A field of the form with what has been typed into it.
pub open spec fn field_of(form: FormView, slot: Slot) -> FieldView {
    match slot {
        Slot::Name => FieldView {
            slot,
            label: "Name"@,
            value: form.name,
            placeholder: "My GPU server"@,
            required: true,
            secure: false,
        },
        Slot::Host => FieldView {
            slot,
            label: "Host"@,
            value: form.host,
            placeholder: "gpu-01.example.com"@,
            required: true,
            secure: false,
        },
        Slot::Port => FieldView {
            slot,
            label: "Port"@,
            value: form.port,
            placeholder: "22"@,
            required: false,
            secure: false,
        },
        Slot::User => FieldView {
            slot,
            label: "User"@,
            value: form.user,
            placeholder: "root"@,
            required: true,
            secure: false,
        },
        Slot::Password => FieldView {
            slot,
            label: "Password"@,
            value: form.password,
            placeholder: "required"@,
            required: true,
            secure: true,
        },
        Slot::KeyPath => FieldView {
            slot,
            label: "Private key"@,
            value: form.key_path,
            placeholder: "~/.ssh/id_ed25519   ·   blank = default keys"@,
            required: false,
            secure: false,
        },
        Slot::Passphrase => FieldView {
            slot,
            label: "Passphrase"@,
            value: form.passphrase,
            placeholder: "optional"@,
            required: false,
            secure: true,
        },
    }
}

/// The fields of the chosen authentication.
pub open spec fn auth_slots(kind: AuthKind) -> Seq<Slot> {
    match kind {
        AuthKind::Password => seq![Slot::Password],
        AuthKind::Key => seq![Slot::KeyPath, Slot::Passphrase],
    }
}

/// Whether another saved connection already goes where the form does.
pub open spec fn duplicates(form: FormView, saved: Seq<ConnectionView>) -> bool {
    exists|i: int| 0 <= i < saved.len() && #[trigger] same_place(form, saved, i)
}

/// Whether the saved connection `i` is another one and goes where the form does.
pub open spec fn same_place(form: FormView, saved: Seq<ConnectionView>, i: int) -> bool {
    form.index != Some(i as usize) && saved[i].host == text::trimmed(form.host) && saved[i].user
        == text::trimmed(form.user) && text::decimal_text(saved[i].port as nat) == text::trimmed(
        form.port,
    )
}

/// Why the form cannot be saved: a field first, then a connection that exists.
pub open spec fn objection(form: FormView, saved: Seq<ConnectionView>) -> Option<Seq<char>> {
    if form.invalid_reason() is Some {
        form.invalid_reason()
    } else if duplicates(form, saved) {
        Some("A connection to this host already exists."@)
    } else {
        None
    }
}

/// The form as the panel shows it.
#[derive(Debug, Clone, PartialEq, Eq)]
pub struct FormPage {
    pub heading: &'static str,
    /// Name, host, port and user.
    pub identity: Vec<Field>,
    pub auth_kind: AuthKind,
    /// The fields of the chosen authentication.
    pub auth: Vec<Field>,
    /// Why the form cannot be saved; the save button works where there is no
    /// reason.
    pub reason: Option<&'static str>,
}

/// Fields, by view.
pub open spec fn fields_view(v: Seq<Field>) -> Seq<FieldView> {
    v.map_values(|f: Field| f@)
}

/// The given fields of a form.
pub open spec fn fields_of(form: FormView, slots: Seq<Slot>) -> Seq<FieldView> {
    slots.map_values(|s: Slot| field_of(form, s))
}

/// Whether a page shows a form beside the saved connections.
pub open spec fn shows_form(page: FormPage, form: FormView, saved: Seq<ConnectionView>) -> bool {
    &&& page.heading@ == (if form.index is Some {
        "Edit connection"@
    } else {
        "New connection"@
    })
    &&& fields_view(page.identity@) == fields_of(
        form,
        seq![Slot::Name, Slot::Host, Slot::Port, Slot::User],
    )
    &&& page.auth_kind == form.auth_kind
    &&& fields_view(page.auth@) == fields_of(form, auth_slots(form.auth_kind))
    &&& maybe_text(page.reason) == objection(form, saved)
}

/// A field of the form with what has been typed into it.
fn field(form: &SshForm, slot: Slot) -> (r: Field)
    ensures
        r@ == field_of(form@, slot),
{
    match slot {
        Slot::Name => Field {
            slot,
            label: "Name",
            value: form.name.clone(),
            placeholder: "My GPU server",
            required: true,
            secure: false,
        },
        Slot::Host => Field {
            slot,
            label: "Host",
            value: form.host.clone(),
            placeholder: "gpu-01.example.com",
            required: true,
            secure: false,
        },
        Slot::Port => Field {
            slot,
            label: "Port",
            value: form.port.clone(),
            placeholder: "22",
            required: false,
            secure: false,
        },
        Slot::User => Field {
            slot,
            label: "User",
            value: form.user.clone(),
            placeholder: "root",
            required: true,
            secure: false,
        },
        Slot::Password => Field {
            slot,
            label: "Password",
            value: form.password.clone(),
            placeholder: "required",
            required: true,
            secure: true,
        },
        Slot::KeyPath => Field {
            slot,
            label: "Private key",
            value: form.key_path.clone(),
            placeholder: "~/.ssh/id_ed25519   ·   blank = default keys",
            required: false,
            secure: false,
        },
        Slot::Passphrase => Field {
            slot,
            label: "Passphrase",
            value: form.passphrase.clone(),
            placeholder: "optional",
            required: false,
            secure: true,
        },
    }
}

/// Whether another saved connection already goes where the form does.
fn already_saved(form: &SshForm, connections: &Vec<SshConnection>) -> (r: bool)
    ensures
        r == duplicates(form@, connections_view(connections@)),
{
    let host = text::trim(form.host.as_str());
    let user = text::trim(form.user.as_str());
    let port = text::trim(form.port.as_str());
    let ghost saved = connections_view(connections@);
    let mut i: usize = 0;
    while i < connections.len()
        invariant
            i <= connections.len(),
            saved == connections_view(connections@),
            host@ == text::trimmed(form@.host),
            user@ == text::trimmed(form@.user),
            port@ == text::trimmed(form@.port),
            forall|k: int| 0 <= k < i ==> !#[trigger] same_place(form@, saved, k),
        decreases connections.len() - i,
    {
        let c = &connections[i];
        let other = match form.index {
            Some(k) => k != i,
            None => true,
        };
        let written = text::decimal(c.port as u64);
        assert(saved[i as int] == c@);
        if other && text::same(c.host.as_str(), host.as_str()) && text::same(
            c.user.as_str(),
            user.as_str(),
        ) && text::same(written.as_str(), port.as_str()) {
            assert(same_place(form@, saved, i as int));
            return true;
        }
        i += 1;
    }
    false
}

/// The form as the panel shows it, beside the saved connections.
pub fn connection_form(form: &SshForm, connections: &Vec<SshConnection>) -> (r: FormPage)
    ensures
        shows_form(r, form@, connections_view(connections@)),
{
    let heading = if form.index.is_some() {
        "Edit connection"
    } else {
        "New connection"
    };
    let mut identity: Vec<Field> = Vec::new();
    identity.push(field(form, Slot::Name));
    identity.push(field(form, Slot::Host));
    identity.push(field(form, Slot::Port));
    identity.push(field(form, Slot::User));
    let mut auth: Vec<Field> = Vec::new();
    match form.auth_kind {
        AuthKind::Password => {
            auth.push(field(form, Slot::Password));
        },
        AuthKind::Key => {
            auth.push(field(form, Slot::KeyPath));
            auth.push(field(form, Slot::Passphrase));
        },
    }
    let reason = match form.invalid_reason() {
        Some(r) => Some(r),
        None => if already_saved(form, connections) {
            Some("A connection to this host already exists.")
        } else {
            None
        },
    };
    proof {
        assert(fields_view(identity@) =~= fields_of(
            form@,
            seq![Slot::Name, Slot::Host, Slot::Port, Slot::User],
        ));
        assert(fields_view(auth@) =~= fields_of(form@, auth_slots(form@.auth_kind)));
    }
    FormPage { heading, identity, auth_kind: form.auth_kind, auth, reason }
}

/// One saved connection, as the list shows it.
#[derive(Debug, Clone, PartialEq, Eq)]
pub struct ConnectionRow {
    pub name: String,
    pub label: String,
    pub tag: &'static str,
}

/// Whether a row shows a connection.
pub open spec fn shows_connection(row: ConnectionRow, c: ConnectionView) -> bool {
    row.name@ == c.name && row.label@ == c.label() && row.tag@ == match c.auth.kind() {
        AuthKind::Password => "password"@,
        AuthKind::Key => "key"@,
    }
}

/// What the connections page shows below its title.
#[derive(Debug, Clone, PartialEq, Eq)]
pub enum ConnectionsBody {
    /// The form, in place of everything else.
    Form(FormPage),
    /// A hint that nothing is saved.
    Empty,
    /// The saved connections, in order.
    List(Vec<ConnectionRow>),
}

/// The connections page.
#[derive(Debug, Clone, PartialEq, Eq)]
pub struct ConnectionsPage {
    /// Whether the title carries the button that adds a connection.
    pub add: bool,
    pub body: ConnectionsBody,
}

/// The connections page for the saved connections and the form being edited, if
/// one is.
pub fn connections_page(connections: &Vec<SshConnection>, form: &Option<SshForm>) -> (r:
    ConnectionsPage)
    ensures
        r.add == (form is None),
        match form {
            Some(f) => r.body matches ConnectionsBody::Form(page) && shows_form(
                page,
                f@,
                connections_view(connections@),
            ),
            None => if connections@.len() == 0 {
                r.body is Empty
            } else {
                r.body matches ConnectionsBody::List(rows) && rows@.len() == connections@.len()
                    && forall|i: int|
                    0 <= i < rows@.len() ==> shows_connection(#[trigger] rows@[i], connections@[i]@)
            },
        },
{
    match form {
        Some(f) => ConnectionsPage {
            add: false,
            body: ConnectionsBody::Form(connection_form(f, connections)),
        },
        None => {
            if connections.len() == 0 {
                return ConnectionsPage { add: true, body: ConnectionsBody::Empty };
            }
            let mut rows: Vec<ConnectionRow> = Vec::new();
            let mut i: usize = 0;
            while i < connections.len()
                invariant
                    i <= connections.len(),
                    rows@.len() == i,
                    forall|k: int|
                        0 <= k < i ==> shows_connection(#[trigger] rows@[k], connections@[k]@),
                decreases connections.len() - i,
            {
                let c = &connections[i];
                rows.push(
                    ConnectionRow { name: c.name.clone(), label: c.label(), tag: c.auth.tag() },
                );
                i += 1;
            }
            ConnectionsPage { add: true, body: ConnectionsBody::List(rows) }
        },
    }
}

proof fn lemma_decimal_reads_back(n: nat)
    ensures
        decimal_is_plain(text::decimal_text(n)),
        digits_value(text::decimal_text(n)) == n,
    decreases n,
{
    let s = text::decimal_text(n);
    if n < 10 {
        assert(s.drop_last() =~= Seq::<char>::empty());
        assert(digits_value(s.drop_last()) == 0);
        assert(s.last() as int - '0' as int == n);
    } else {
        lemma_decimal_reads_back(n / 10);
        let head = text::decimal_text(n / 10);
        assert(s.drop_last() =~= head);
        assert(s.last() as int - '0' as int == n % 10);
        assert forall|i: int| 0 <= i < s.len() implies '0' <= #[trigger] s[i] <= '9' by {
            if i < head.len() {
                assert(head[i] == s[i]);
            }
        }
    }
}

/// Whether a text is digits and nothing else, at least one.
spec fn decimal_is_plain(s: Seq<char>) -> bool {
    s.len() > 0 && all_digits(s)
}

/// A port written in decimal reads back as itself.
proof fn lemma_port_reads_back(p: u16)
    requires
        p >= 1,
    ensures
        port_number(text::trimmed(text::decimal_text(p as nat))) == Some(p),
{
    let s = text::decimal_text(p as nat);
    lemma_decimal_reads_back(p as nat);
    assert('0' <= s[0] <= '9' && '0' <= s[s.len() - 1] <= '9');
    text::lemma_trimmed_as_is(s);
}

/// Law: opening a saved connection in the form and saving it unchanged keeps it
/// as it was.
pub proof fn law_edit_keeps_saved(form: FormView, c: ConnectionView, i: usize)
    requires
        form.connection() == Some(c),
    ensures
        form_of(c, i).connection() == Some(c),
{
    lemma_port_reads_back(c.port);
    text::law_trim_twice(form.name);
    text::law_trim_twice(form.host);
    text::law_trim_twice(form.user);
    text::law_trim_twice(form.key_path);
}

/// Law: what can be saved has a name, a host, a user and a port that a host can
/// listen on, and a password where it authenticates by one.
pub proof fn law_saved_is_complete(form: FormView, c: ConnectionView)
    requires
        form.connection() == Some(c),
    ensures
        c.name.len() > 0,
        c.host.len() > 0,
        c.user.len() > 0,
        c.port >= 1,
        c.auth matches AuthView::Password { password } ==> password.len() > 0,
        c.auth.kind() == form.auth_kind,
{
}

/// Law: a form for a connection that is already saved under another place in the
/// list can never be saved from the panel.
pub proof fn law_no_second_way_to_a_host(form: FormView, saved: Seq<ConnectionView>, i: int)
    requires
        0 <= i < saved.len(),
        same_place(form, saved, i),
    ensures
        objection(form, saved) is Some,
{
}

/// Law: each field of the form shows what was typed into it; what is secret is
/// hidden, and nothing else is.
pub proof fn law_fields_show_what_was_typed(form: FormView)
    ensures
        field_of(form, Slot::Name).value == form.name,
        field_of(form, Slot::Host).value == form.host,
        field_of(form, Slot::Port).value == form.port,
        field_of(form, Slot::User).value == form.user,
        field_of(form, Slot::Password).value == form.password,
        field_of(form, Slot::KeyPath).value == form.key_path,
        field_of(form, Slot::Passphrase).value == form.passphrase,
        forall|s: Slot| #[trigger]
            field_of(form, s).secure == (s == Slot::Password || s == Slot::Passphrase),
        forall|s: Slot| (#[trigger] field_of(form, s)).slot == s,
        form.auth_kind == AuthKind::Password ==> auth_slots(form.auth_kind) == seq![Slot::Password],
        form.auth_kind == AuthKind::Key ==> auth_slots(form.auth_kind) == seq![
            Slot::KeyPath,
            Slot::Passphrase,
        ],
{
}

/// Law: a field that must be filled in keeps the form from being saved while it is
/// blank, and a field that need not be does not.
pub proof fn law_required_fields(form: FormView)
    ensures
        form.invalid_reason() is None <==> {
            &&& text::trimmed(form.name).len() > 0
            &&& text::trimmed(form.host).len() > 0
            &&& text::trimmed(form.user).len() > 0
            &&& port_number(text::trimmed(form.port)) is Some
            &&& form.auth_kind == AuthKind::Password ==> form.password.len() > 0
        },
        field_of(form, Slot::Name).required,
        field_of(form, Slot::Host).required,
        field_of(form, Slot::User).required,
        field_of(form, Slot::Password).required,
        !field_of(form, Slot::KeyPath).required,
        !field_of(form, Slot::Passphrase).required,
{
}

/// Law: a port written in decimal, with or without zeros or a plus sign in front, is
/// read as that port.
pub proof fn law_port_is_read(p: u16)
    requires
        p >= 1,
    ensures
        port_number(text::decimal_text(p as nat)) == Some(p),
        port_number(seq!['0'] + text::decimal_text(p as nat)) == Some(p),
        port_number(seq!['+'] + text::decimal_text(p as nat)) == Some(p),
{
    let s = text::decimal_text(p as nat);
    lemma_decimal_reads_back(p as nat);
    let plus = seq!['+'] + s;
    let zero = seq!['0'] + s;
    assert('0' <= s[0] <= '9');
    assert(plus.drop_first() =~= s);
    lemma_leading_zero(s);
    assert forall|i: int| 0 <= i < zero.len() implies '0' <= #[trigger] zero[i] <= '9' by {
        if i > 0 {
            assert('0' <= s[i - 1] <= '9');
        }
    }
}

proof fn lemma_leading_zero(s: Seq<char>)
    ensures
        digits_value(seq!['0'] + s) == digits_value(s),
    decreases s.len(),
{
    let z = seq!['0'] + s;
    if s.len() == 0 {
        assert(z =~= seq!['0']);
        assert(z.drop_last() =~= Seq::<char>::empty());
        assert(digits_value(z.drop_last()) == 0);
    } else {
        lemma_leading_zero(s.drop_last());
        assert(z.drop_last() =~= seq!['0'] + s.drop_last());
        assert(z.last() == s.last());
    }
}

/// Law: what is saved is what was typed, without the blanks around it; a password
/// and a passphrase keep theirs.
pub proof fn law_saved_is_what_was_typed(form: FormView, c: ConnectionView)
    requires
        form.connection() == Some(c),
    ensures
        c.name == text::trimmed(form.name),
        c.host == text::trimmed(form.host),
        c.user == text::trimmed(form.user),
        port_number(text::trimmed(form.port)) == Some(c.port),
        form.auth_kind == AuthKind::Password ==> c.auth == (AuthView::Password {
            password: form.password,
        }),
        form.auth_kind == AuthKind::Key ==> c.auth == (AuthView::Key {
            key_path: text::trimmed(form.key_path),
            passphrase: form.passphrase,
        }),
{
}

/// Law: nothing but a blank field or a second connection to the same place keeps a
/// form from being saved from the panel.
pub proof fn law_complete_form_can_be_saved(form: FormView, saved: Seq<ConnectionView>)
    requires
        form.invalid_reason() is None,
        forall|i: int|
            0 <= i < saved.len() && form.index != Some(i as usize) ==> !((#[trigger] saved[i]).host
                == text::trimmed(form.host) && saved[i].user == text::trimmed(form.user)
                && text::decimal_text(saved[i].port as nat) == text::trimmed(form.port)),
    ensures
        objection(form, saved) is None,
{
}

/// Law: a connection is listed as its user at its host, with its port only where
/// that is not the default one.
pub proof fn law_label(c: ConnectionView)
    ensures
        c.port == 22 ==> c.label() == c.user + seq!['@'] + c.host,
        c.port != 22 ==> c.label() == c.user + seq!['@'] + c.host + seq![':'] + text::decimal_text(
            c.port as nat,
        ),
{
    reveal_strlit("@");
    reveal_strlit(":");
    assert("@"@ =~= seq!['@']);
    assert(":"@ =~= seq![':']);
}

/// Law: a form that goes where another saved connection goes, by the same user and
/// port, cannot be saved.
pub proof fn law_same_address_is_refused(form: FormView, saved: Seq<ConnectionView>, i: int)
    requires
        0 <= i < saved.len(),
        form.index != Some(i as usize),
        text::trimmed(form.host) == saved[i].host,
        text::trimmed(form.user) == saved[i].user,
        text::trimmed(form.port) == text::decimal_text(saved[i].port as nat),
    ensures
        objection(form, saved) is Some,
        form.invalid_reason() is None ==> objection(form, saved) == Some(
            "A connection to this host already exists."@,
        ),
{
    assert(same_place(form, saved, i));
}

/// Law: every field is labelled with what is to be typed into it.
pub proof fn law_fields_are_labelled(form: FormView)
    ensures
        field_of(form, Slot::Name).label == "Name"@,
        field_of(form, Slot::Host).label == "Host"@,
        field_of(form, Slot::Port).label == "Port"@,
        field_of(form, Slot::User).label == "User"@,
        field_of(form, Slot::Password).label == "Password"@,
        field_of(form, Slot::KeyPath).label == "Private key"@,
        field_of(form, Slot::Passphrase).label == "Passphrase"@,
{
}

/// Law: a text that holds anything but digits, apart from a plus sign in front, is no
/// port, and neither is one without a digit.
pub proof fn law_not_a_port(s: Seq<char>, i: int)
    ensures
        0 <= i < s.len() && !('0' <= s[i] <= '9') && !(i == 0 && s[i] == '+') ==> port_number(
            s,
        ) is None,
        port_number(Seq::empty()) is None,
        port_number(seq!['+']) is None,
        port_number(s) matches Some(p) ==> p >= 1,
{
    assert(seq!['+'].drop_first() =~= Seq::<char>::empty());
    if 0 <= i < s.len() && !('0' <= s[i] <= '9') && !(i == 0 && s[i] == '+') {
        if s[0] == '+' {
            assert(s.drop_first()[i - 1] == s[i]);
        }
    }
}

} // verus!
