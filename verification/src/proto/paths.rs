//! Naming and path contract, shared by the daemon and every client.
//!
//! Paths are computed from the environment, which is handed in; nothing here
//! reads it or creates a directory.
use crate::path;
use crate::path::{join, with_extension};
use crate::text;
use vstd::prelude::*;
use vstd::string::*;

verus! {

/// Maximum session name length.
pub const SESSION_NAME_MAX: usize = 64;

/// Whether a character may stand in a session name.
pub open spec fn name_char(c: char) -> bool {
    'a' <= c <= 'z' || 'A' <= c <= 'Z' || '0' <= c <= '9' || c == '_' || c == '-'
}

/// Session name contract: one to 64 letters, digits, underscores and hyphens, all
/// of them ASCII.
pub open spec fn valid_name(name: Seq<char>) -> bool {
    &&& 1 <= name.len() <= SESSION_NAME_MAX
    &&& forall|i: int| 0 <= i < name.len() ==> name_char(#[trigger] name[i])
}

/// Session name contract.
pub fn is_valid_session_name(name: &str) -> (r: bool)
    ensures
        r == valid_name(name@),
{
    let chars = text::chars_of(name);
    if chars.len() == 0 || chars.len() > SESSION_NAME_MAX {
        return false;
    }
    let mut i: usize = 0;
    while i < chars.len()
        invariant
            i <= chars.len(),
            chars@ == name@,
            forall|k: int| 0 <= k < i ==> name_char(#[trigger] name@[k]),
        decreases chars.len() - i,
    {
        let c: char = chars[i];
        let fine = ('a' <= c && c <= 'z') || ('A' <= c && c <= 'Z') || ('0' <= c && c <= '9') || c
            == '_' || c == '-';
        if !fine {
            assert(!name_char(name@[i as int]));
            return false;
        }
        i += 1;
    }
    true
}

/// What the paths depend on: environment variables, `None` where one is not set,
/// and the user's id.
#[derive(Debug, Clone)]
pub struct Environment {
    pub asd_socket: Option<String>,
    pub asd_config: Option<String>,
    pub xdg_runtime_dir: Option<String>,
    pub xdg_data_home: Option<String>,
    pub xdg_config_home: Option<String>,
    pub home: Option<String>,
    pub uid: u32,
}

/// A variable's value, `None` where it is empty or not set.
pub open spec fn value_of(v: Option<String>) -> Option<Seq<char>> {
    match v {
        Some(s) => if s@.len() > 0 {
            Some(s@)
        } else {
            None
        },
        None => None,
    }
}

/// A variable's value, `None` where it is empty or not set.
fn set(v: &Option<String>) -> (r: Option<&str>)
    ensures
        match r {
            Some(s) => value_of(*v) == Some(s@),
            None => value_of(*v) is None,
        },
{
    match v {
        Some(s) => if s.as_str().is_empty() {
            None
        } else {
            Some(s.as_str())
        },
        None => None,
    }
}

/// The home directory, or `/tmp`.
pub open spec fn home_of(env: Environment) -> Seq<char> {
    match value_of(env.home) {
        Some(h) => h,
        None => "/tmp"@,
    }
}

/// Where the socket lies.
pub open spec fn runtime_of(env: Environment) -> Seq<char> {
    match value_of(env.xdg_runtime_dir) {
        Some(d) => d,
        None => "/tmp/asd-"@ + text::decimal_text(env.uid as nat),
    }
}

/// The daemon's data directory.
pub open spec fn data_of(env: Environment) -> Seq<char> {
    match value_of(env.xdg_data_home) {
        Some(d) => path::joined(d, "asd"@),
        None => path::joined(home_of(env), ".local/share/asd"@),
    }
}

/// The directory of the config file.
pub open spec fn config_of(env: Environment) -> Seq<char> {
    match value_of(env.xdg_config_home) {
        Some(d) => path::joined(d, "asd"@),
        None => path::joined(home_of(env), ".config/asd"@),
    }
}

fn home_dir(env: &Environment) -> (r: String)
    ensures
        r@ == home_of(*env),
{
    match set(&env.home) {
        Some(h) => h.to_owned(),
        None => "/tmp".to_owned(),
    }
}

/// Directory holding the socket: the runtime directory, falling back to one under
/// `/tmp` of the user's own.
pub fn runtime_dir(env: &Environment) -> (r: String)
    ensures
        r@ == runtime_of(*env),
{
    match set(&env.xdg_runtime_dir) {
        Some(d) => d.to_owned(),
        None => {
            let id = text::decimal(env.uid as u64);
            text::join2("/tmp/asd-", id.as_str())
        },
    }
}

/// Full socket path. `ASD_SOCKET` overrides it entirely.
pub fn socket_path(env: &Environment) -> (r: String)
    ensures
        r@ == match value_of(env.asd_socket) {
            Some(p) => p,
            None => path::joined(runtime_of(*env), "asd.sock"@),
        },
{
    match set(&env.asd_socket) {
        Some(p) => p.to_owned(),
        None => {
            let dir = runtime_dir(env);
            join(dir.as_str(), "asd.sock")
        },
    }
}

/// PID file of the daemon that owns `socket`: the socket path with the extension
/// `pid`.
pub fn pid_path(socket: &str) -> (r: String)
    ensures
        r@ == path::swapped(socket@, "pid"@),
{
    with_extension(socket, "pid")
}

/// Daemon data directory.
pub fn data_dir(env: &Environment) -> (r: String)
    ensures
        r@ == data_of(*env),
{
    match set(&env.xdg_data_home) {
        Some(d) => join(d, "asd"),
        None => {
            let home = home_dir(env);
            join(home.as_str(), ".local/share/asd")
        },
    }
}

/// Path of the persisted session list, in the data directory.
pub fn session_list_path(env: &Environment) -> (r: String)
    ensures
        r@ == path::joined(data_of(*env), "sessions.tsv"@),
{
    let dir = data_dir(env);
    join(dir.as_str(), "sessions.tsv")
}

/// Directory holding the config file.
pub fn config_dir(env: &Environment) -> (r: String)
    ensures
        r@ == config_of(*env),
{
    match set(&env.xdg_config_home) {
        Some(d) => join(d, "asd"),
        None => {
            let home = home_dir(env);
            join(home.as_str(), ".config/asd")
        },
    }
}

/// Config file. `ASD_CONFIG` overrides it entirely.
pub fn config_path(env: &Environment) -> (r: String)
    ensures
        r@ == match value_of(env.asd_config) {
            Some(p) => p,
            None => path::joined(config_of(*env), "config.toml"@),
        },
{
    match set(&env.asd_config) {
        Some(p) => p.to_owned(),
        None => {
            let dir = config_dir(env);
            join(dir.as_str(), "config.toml")
        },
    }
}

/// The directory that holds every program's data.
pub open spec fn data_home(env: Environment) -> Seq<char> {
    match value_of(env.xdg_data_home) {
        Some(d) => d,
        None => path::joined(home_of(env), ".local/share"@),
    }
}

/// The directory that holds every program's config file.
pub open spec fn config_home(env: Environment) -> Seq<char> {
    match value_of(env.xdg_config_home) {
        Some(d) => d,
        None => path::joined(home_of(env), ".config"@),
    }
}

/// Law: the config directory and the data directory have one path exactly where
/// the directories they lie in have one, up to a slash at its end. Without the
/// variables they never do. Paths are compared letter for letter: two that differ
/// may still lead to one directory, such as `/a//b` and `/a/b`.
pub proof fn law_config_and_data_apart(env: Environment)
    ensures
        config_of(env) == data_of(env) <==> path::joined(config_home(env), ""@) == path::joined(
            data_home(env),
            ""@,
        ),
        value_of(env.xdg_config_home) is None && value_of(env.xdg_data_home) is None
            ==> config_of(env) != data_of(env),
{
    reveal_strlit(".local/share/asd");
    reveal_strlit(".config/asd");
    reveal_strlit(".local/share");
    reveal_strlit(".config");
    reveal_strlit("asd");
    reveal_strlit("/");
    reveal_strlit("");
    let config = path::joined(config_home(env), ""@);
    let data = path::joined(data_home(env), ""@);
    assert(config_of(env) =~= config + "asd"@);
    assert(data_of(env) =~= data + "asd"@);
    assert((config + "asd"@).take(config.len() as int) =~= config);
    assert((data + "asd"@).take(data.len() as int) =~= data);
    if value_of(env.xdg_config_home) is None && value_of(env.xdg_data_home) is None {
        assert(config_of(env).len() != data_of(env).len());
    }
}

/// The Windows half of the path contract.
#[derive(Debug, Clone)]
pub struct WindowsEnvironment {
    pub asd_socket: Option<String>,
    pub asd_config: Option<String>,
    pub local_app_data: Option<String>,
    pub app_data: Option<String>,
    pub user_profile: Option<String>,
    pub username: Option<String>,
}

/// Whether a text begins with a drive: a letter and a colon.
pub open spec fn has_drive(s: Seq<char>) -> bool {
    s.len() >= 2 && ('a' <= s[0] <= 'z' || 'A' <= s[0] <= 'Z') && s[1] == ':'
}

/// `name` in the directory `dir`, with a backslash between them. Behind a bare
/// drive there is none, and a name with a drive of its own stands alone.
pub open spec fn joined_back(dir: Seq<char>, name: Seq<char>) -> Seq<char> {
    if has_drive(name) {
        name
    } else if dir.len() == 0 || dir.last() == '\\' || dir.last() == '/' || (has_drive(dir)
        && dir.len() == 2) {
        dir + name
    } else {
        dir + "\\"@ + name
    }
}

fn starts_with_drive(chars: &Vec<char>) -> (r: bool)
    ensures
        r == has_drive(chars@),
{
    chars.len() >= 2 && (('a' <= chars[0] && chars[0] <= 'z') || ('A' <= chars[0] && chars[0]
        <= 'Z')) && chars[1] == ':'
}

fn join_back(dir: &str, name: &str) -> (r: String)
    ensures
        r@ == joined_back(dir@, name@),
{
    if starts_with_drive(&text::chars_of(name)) {
        return name.to_owned();
    }
    let chars = text::chars_of(dir);
    let n: usize = chars.len();
    if n == 0 || chars[n - 1] == '\\' || chars[n - 1] == '/' || (starts_with_drive(&chars) && n
        == 2) {
        text::join2(dir, name)
    } else {
        text::join3(dir, "\\", name)
    }
}

/// A path with slashes for backslashes: Windows takes either.
pub open spec fn slashed(s: Seq<char>) -> Seq<char> {
    s.map_values(
        |c: char|
            if c == '\\' {
                '/'
            } else {
                c
            },
    )
}

/// Where the first slash from `from` on is, or the end.
pub open spec fn slash_from(s: Seq<char>, from: int) -> int
    decreases s.len() - from,
{
    if from >= s.len() {
        s.len() as int
    } else if s[from] == '/' {
        from
    } else {
        slash_from(s, from + 1)
    }
}

/// Where the prefix of a path with slashes ends: a device namespace (`//./pipe`),
/// a share (`//server/share`) or a drive (`C:`). What a prefix holds is no name.
pub open spec fn prefix_end(s: Seq<char>) -> int {
    if s.len() >= 2 && s[0] == '/' && s[1] == '/' {
        if s.len() >= 4 && (s[2] == '.' || s[2] == '?') && s[3] == '/' {
            slash_from(s, 4)
        } else {
            let server = slash_from(s, 2);
            let share = slash_from(s, server + 1);
            if 2 < server < s.len() && server + 1 < share {
                share
            } else {
                0
            }
        }
    } else if has_drive(s) {
        2
    } else {
        0
    }
}

/// The file name of a Windows path: its last component.
pub open spec fn windows_name(s: Seq<char>) -> Option<Seq<char>> {
    path::name_of(slashed(s).skip(prefix_end(slashed(s))))
}

/// Where the first slash from `from` on is, or the end.
fn find_slash(chars: &Vec<char>, from: usize) -> (r: usize)
    ensures
        r == slash_from(chars@, from as int),
        r <= chars.len(),
        from <= chars.len() ==> from <= r,
{
    let mut i: usize = from;
    while i < chars.len() && chars[i] != '/'
        invariant
            from <= i,
            i <= chars.len() || i == from,
            slash_from(chars@, from as int) == slash_from(chars@, i as int),
        decreases chars.len() - i,
    {
        i += 1;
    }
    if i < chars.len() {
        i
    } else {
        chars.len()
    }
}

/// Where the prefix of a path with slashes ends.
fn find_prefix(chars: &Vec<char>) -> (r: usize)
    ensures
        r == prefix_end(chars@),
        r <= chars.len(),
{
    let n: usize = chars.len();
    if n >= 2 && chars[0] == '/' && chars[1] == '/' {
        if n >= 4 && (chars[2] == '.' || chars[2] == '?') && chars[3] == '/' {
            return find_slash(chars, 4);
        }
        let server: usize = find_slash(chars, 2);
        if server > 2 && server < n {
            let share: usize = find_slash(chars, server + 1);
            if share > server + 1 {
                return share;
            }
        }
        0
    } else if starts_with_drive(chars) {
        2
    } else {
        0
    }
}

/// The file name of a Windows path.
fn windows_file_name(s: &str) -> (r: Option<String>)
    ensures
        match r {
            Some(name) => windows_name(s@) == Some(name@),
            None => windows_name(s@) is None,
        },
{
    let given = text::chars_of(s);
    let mut chars: Vec<char> = Vec::new();
    let mut i: usize = 0;
    while i < given.len()
        invariant
            i <= given.len(),
            given@ == s@,
            chars@ == slashed(s@).take(i as int),
        decreases given.len() - i,
    {
        let c: char = given[i];
        chars.push(
            if c == '\\' {
                '/'
            } else {
                c
            },
        );
        i += 1;
        assert(chars@ =~= slashed(s@).take(i as int));
    }
    assert(chars@ =~= slashed(s@));
    let from: usize = find_prefix(&chars);
    let rest = text::text_of(&chars, from, chars.len());
    assert(rest@ =~= slashed(s@).skip(prefix_end(slashed(s@))));
    path::file_name(rest.as_str())
}

impl WindowsEnvironment {
    /// The user's directory, or the root of the system drive.
    pub open spec fn home(self) -> Seq<char> {
        match value_of(self.user_profile) {
            Some(h) => h,
            None => "C:\\"@,
        }
    }

    /// The daemon's data directory.
    pub open spec fn data(self) -> Seq<char> {
        match value_of(self.local_app_data) {
            Some(d) => joined_back(d, "asd"@),
            None => joined_back(self.home(), "AppData\\Local\\asd"@),
        }
    }

    /// The directory of the config file.
    pub open spec fn config(self) -> Seq<char> {
        match value_of(self.app_data) {
            Some(d) => joined_back(d, "asd"@),
            None => joined_back(self.home(), "AppData\\Roaming\\asd"@),
        }
    }

    fn home_dir(&self) -> (r: String)
        ensures
            r@ == self.home(),
    {
        match set(&self.user_profile) {
            Some(h) => h.to_owned(),
            None => "C:\\".to_owned(),
        }
    }

    /// The daemon's named pipe. `ASD_SOCKET` overrides it entirely.
    pub fn socket_path(&self) -> (r: String)
        ensures
            r@ == match value_of(self.asd_socket) {
                Some(p) => p,
                None => "\\\\.\\pipe\\asd-"@ + (match self.username {
                    Some(u) => u@,
                    None => "default"@,
                }),
            },
    {
        match set(&self.asd_socket) {
            Some(p) => p.to_owned(),
            None => match &self.username {
                Some(u) => text::join2("\\\\.\\pipe\\asd-", u.as_str()),
                None => text::join2("\\\\.\\pipe\\asd-", "default"),
            },
        }
    }

    /// PID file of the daemon that owns the pipe `socket`: a pipe cannot hold a
    /// file, so it goes into the data directory, named after the pipe.
    pub fn pid_path(&self, socket: &str) -> (r: String)
        ensures
            r@ == joined_back(
                self.data(),
                (match windows_name(socket@) {
                    Some(name) => name,
                    None => "asd"@,
                }) + ".pid"@,
            ),
    {
        let base = match windows_file_name(socket) {
            Some(name) => name,
            None => "asd".to_owned(),
        };
        let file = text::join2(base.as_str(), ".pid");
        let dir = self.data_dir();
        join_back(dir.as_str(), file.as_str())
    }

    /// Daemon data directory: machine-local state, apart from the config.
    pub fn data_dir(&self) -> (r: String)
        ensures
            r@ == self.data(),
    {
        match set(&self.local_app_data) {
            Some(d) => join_back(d, "asd"),
            None => {
                let home = self.home_dir();
                join_back(home.as_str(), "AppData\\Local\\asd")
            },
        }
    }

    /// Directory holding the config file.
    pub fn config_dir(&self) -> (r: String)
        ensures
            r@ == self.config(),
    {
        match set(&self.app_data) {
            Some(d) => join_back(d, "asd"),
            None => {
                let home = self.home_dir();
                join_back(home.as_str(), "AppData\\Roaming\\asd")
            },
        }
    }

    /// Path of the persisted session list.
    pub fn session_list_path(&self) -> (r: String)
        ensures
            r@ == joined_back(self.data(), "sessions.tsv"@),
    {
        let dir = self.data_dir();
        join_back(dir.as_str(), "sessions.tsv")
    }

    /// Config file. `ASD_CONFIG` overrides it entirely.
    pub fn config_path(&self) -> (r: String)
        ensures
            r@ == match value_of(self.asd_config) {
                Some(p) => p,
                None => joined_back(self.config(), "config.toml"@),
            },
    {
        match set(&self.asd_config) {
            Some(p) => p.to_owned(),
            None => {
                let dir = self.config_dir();
                join_back(dir.as_str(), "config.toml")
            },
        }
    }
}

/// The directory that holds every program's data on Windows.
pub open spec fn windows_data_home(env: WindowsEnvironment) -> Seq<char> {
    match value_of(env.local_app_data) {
        Some(d) => d,
        None => joined_back(env.home(), "AppData\\Local"@),
    }
}

/// The directory that holds every program's config file on Windows.
pub open spec fn windows_config_home(env: WindowsEnvironment) -> Seq<char> {
    match value_of(env.app_data) {
        Some(d) => d,
        None => joined_back(env.home(), "AppData\\Roaming"@),
    }
}

/// Law: on Windows too, the config directory and the data directory have one path
/// exactly where the directories they lie in have one, up to a separator at its
/// end. Without the variables they never do. Paths are compared letter for letter.
pub proof fn law_windows_config_and_data_apart(env: WindowsEnvironment)
    ensures
        env.config() == env.data() <==> joined_back(windows_config_home(env), ""@) == joined_back(
            windows_data_home(env),
            ""@,
        ),
        value_of(env.app_data) is None && value_of(env.local_app_data) is None ==> env.config()
            != env.data(),
{
    reveal_strlit("AppData\\Local\\asd");
    reveal_strlit("AppData\\Roaming\\asd");
    reveal_strlit("AppData\\Local");
    reveal_strlit("AppData\\Roaming");
    reveal_strlit("asd");
    reveal_strlit("\\");
    reveal_strlit("");
    let config = joined_back(windows_config_home(env), ""@);
    let data = joined_back(windows_data_home(env), ""@);
    assert(env.config() =~= config + "asd"@);
    assert(env.data() =~= data + "asd"@);
    assert((config + "asd"@).take(config.len() as int) =~= config);
    assert((data + "asd"@).take(data.len() as int) =~= data);
    if value_of(env.app_data) is None && value_of(env.local_app_data) is None {
        assert(env.config().len() != env.data().len());
    }
}

/// Law: a session name grows by letters, digits, underscores and hyphens alone, up to
/// 64 characters; an empty one is none.
pub proof fn law_session_names(name: Seq<char>, c: char)
    ensures
        !valid_name(Seq::empty()),
        valid_name(name.push(c)) <==> (name.len() == 0 || valid_name(name)) && name.len() < 64 && (
        'a' <= c <= 'z' || 'A' <= c <= 'Z' || '0' <= c <= '9' || c == '_' || c == '-'),
{
    let more = name.push(c);
    if valid_name(more) {
        assert(name_char(more[name.len() as int]));
        assert forall|i: int| 0 <= i < name.len() implies name_char(#[trigger] name[i]) by {
            assert(more[i] == name[i]);
        }
    }
}

/// Law: the directories are those the environment names; where it names none, or an
/// empty one, they lie below the home directory, which is `/tmp` where there is none.
/// The socket's directory is then the user's own below `/tmp`.
pub proof fn law_places_follow_the_environment(env: Environment, v: Seq<char>)
    requires
        v.len() > 0,
        v.last() != '/',
    ensures
        env.home matches Some(h) && h@ == v ==> home_of(env) == v,
        env.home is None || (env.home->0)@.len() == 0 ==> home_of(env) == "/tmp"@,
        env.xdg_runtime_dir matches Some(d) && d@ == v ==> runtime_of(env) == v,
        env.xdg_runtime_dir is None || (env.xdg_runtime_dir->0)@.len() == 0 ==> runtime_of(env)
            == "/tmp/asd-"@ + text::decimal_text(env.uid as nat),
        env.xdg_config_home matches Some(d) && d@ == v ==> config_of(env) == v + "/asd"@,
        env.xdg_data_home matches Some(d) && d@ == v ==> data_of(env) == v + "/asd"@,
        (env.xdg_config_home is None || (env.xdg_config_home->0)@.len() == 0) && home_of(env) == v
            ==> config_of(env) == v + "/.config/asd"@,
        (env.xdg_data_home is None || (env.xdg_data_home->0)@.len() == 0) && home_of(env) == v
            ==> data_of(env) == v + "/.local/share/asd"@,
{
    reveal_strlit("/");
    reveal_strlit("asd");
    reveal_strlit("/asd");
    reveal_strlit(".config/asd");
    reveal_strlit("/.config/asd");
    reveal_strlit(".local/share/asd");
    reveal_strlit("/.local/share/asd");
    assert("/"@ + "asd"@ =~= "/asd"@);
    assert("/"@ + ".config/asd"@ =~= "/.config/asd"@);
    assert("/"@ + ".local/share/asd"@ =~= "/.local/share/asd"@);
    assert(v + "/"@ + "asd"@ =~= v + ("/"@ + "asd"@));
    assert(v + "/"@ + ".config/asd"@ =~= v + ("/"@ + ".config/asd"@));
    assert(v + "/"@ + ".local/share/asd"@ =~= v + ("/"@ + ".local/share/asd"@));
}

} // verus!
