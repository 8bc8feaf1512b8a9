//! Names of sessions, and where the daemon's files are.
use asd::path;
use asd::proto::paths::{
    config_dir, config_path, data_dir, is_valid_session_name, pid_path, runtime_dir,
    session_list_path, socket_path, Environment, WindowsEnvironment,
};

/// An environment with a home directory and nothing else.
fn bare() -> Environment {
    Environment {
        asd_socket: None,
        asd_config: None,
        xdg_runtime_dir: None,
        xdg_data_home: None,
        xdg_config_home: None,
        home: Some("/home/u".into()),
        uid: 1000,
    }
}

/// The environments a file's place is derived in.
fn environments() -> Vec<Environment> {
    let mut all = Vec::new();
    for data in [None, Some("/data".to_string()), Some(String::new())] {
        for config in [None, Some("/config".to_string()), Some(String::new())] {
            for home in [None, Some("/home/u".to_string())] {
                all.push(Environment {
                    xdg_data_home: data.clone(),
                    xdg_config_home: config.clone(),
                    home: home.clone(),
                    ..bare()
                });
            }
        }
    }
    all
}

/// The directory of a path.
fn parent(p: &str) -> &str {
    &p[..p.rfind('/').unwrap()]
}

#[test]
fn paths_pid_path_swaps_the_socket_extension() {
    assert_eq!(pid_path("/tmp/asd-0/asd.sock"), "/tmp/asd-0/asd.pid");
    assert_eq!(pid_path("/run/user/1000/asd.sock"), "/run/user/1000/asd.pid");
    // A socket path with no extension just gains `.pid`.
    assert_eq!(pid_path("/custom/mysock"), "/custom/mysock.pid");
}

#[test]
fn unix_pid_path_swaps_the_socket_extension() {
    assert_eq!(pid_path("/tmp/asd-0/asd.sock"), "/tmp/asd-0/asd.pid");
    assert_eq!(pid_path("/run/user/1000/asd.sock"), "/run/user/1000/asd.pid");
    // A socket path with no extension just gains `.pid`.
    assert_eq!(pid_path("/custom/mysock"), "/custom/mysock.pid");
}

#[test]
fn paths_session_list_path_is_sessions_tsv_in_data_dir() {
    let p = session_list_path(&bare());
    assert_eq!(path::file_name(&p).unwrap(), "sessions.tsv");
    assert_eq!(parent(&p), data_dir(&bare()));
}

#[test]
fn mod_session_list_path_is_sessions_tsv_in_data_dir() {
    for env in environments() {
        let p = session_list_path(&env);
        assert_eq!(path::file_name(&p).unwrap(), "sessions.tsv");
        assert_eq!(parent(&p), data_dir(&env));
    }
}

#[test]
fn config_and_data_never_share_a_directory() {
    for env in environments() {
        assert_ne!(parent(&config_path(&env)), data_dir(&env));
    }
}

#[test]
fn paths_session_name_rules() {
    assert!(is_valid_session_name("s0"));
    assert!(is_valid_session_name("work_2026-07"));
    assert!(is_valid_session_name(&"a".repeat(64)));
    assert!(!is_valid_session_name(""));
    assert!(!is_valid_session_name(&"a".repeat(65)));
    assert!(!is_valid_session_name("has space"));
    assert!(!is_valid_session_name("中文"));
    assert!(!is_valid_session_name("dot.dot"));
}

#[test]
fn mod_session_name_rules() {
    assert!(is_valid_session_name("s0"));
    assert!(is_valid_session_name("work_2026-07"));
    assert!(is_valid_session_name(&"a".repeat(64)));
    assert!(!is_valid_session_name(""));
    assert!(!is_valid_session_name(&"a".repeat(65)));
    assert!(!is_valid_session_name("has space"));
    assert!(!is_valid_session_name("中文"));
    assert!(!is_valid_session_name("dot.dot"));
}

#[test]
fn the_socket_is_where_the_environment_says() {
    assert_eq!(runtime_dir(&bare()), "/tmp/asd-1000");
    assert_eq!(socket_path(&bare()), "/tmp/asd-1000/asd.sock");
    let run = Environment {
        xdg_runtime_dir: Some("/run/user/1000".into()),
        ..bare()
    };
    assert_eq!(socket_path(&run), "/run/user/1000/asd.sock");
    let named = Environment {
        asd_socket: Some("/s/x.sock".into()),
        ..run
    };
    assert_eq!(socket_path(&named), "/s/x.sock");
}

#[test]
fn the_config_is_where_the_environment_says() {
    assert_eq!(config_dir(&bare()), "/home/u/.config/asd");
    assert_eq!(config_path(&bare()), "/home/u/.config/asd/config.toml");
    assert_eq!(data_dir(&bare()), "/home/u/.local/share/asd");
    let named = Environment {
        asd_config: Some("/etc/asd.toml".into()),
        ..bare()
    };
    assert_eq!(config_path(&named), "/etc/asd.toml");
}

#[test]
fn windows_keeps_config_and_data_apart() {
    let env = WindowsEnvironment {
        asd_socket: None,
        asd_config: None,
        local_app_data: None,
        app_data: None,
        user_profile: Some("C:\\Users\\u".into()),
        username: Some("u".into()),
    };
    assert_eq!(env.data_dir(), "C:\\Users\\u\\AppData\\Local\\asd");
    assert_eq!(env.config_dir(), "C:\\Users\\u\\AppData\\Roaming\\asd");
    assert_eq!(
        env.config_path(),
        "C:\\Users\\u\\AppData\\Roaming\\asd\\config.toml"
    );
    assert_eq!(
        env.session_list_path(),
        "C:\\Users\\u\\AppData\\Local\\asd\\sessions.tsv"
    );
    assert_eq!(env.socket_path(), "\\\\.\\pipe\\asd-u");
    assert_eq!(
        env.pid_path(&env.socket_path()),
        "C:\\Users\\u\\AppData\\Local\\asd\\asd-u.pid"
    );
}

#[test]
fn windows_names_the_pid_file_after_the_pipe() {
    let env = WindowsEnvironment {
        asd_socket: None,
        asd_config: None,
        local_app_data: Some("D:\\".into()),
        app_data: None,
        user_profile: None,
        username: None,
    };
    for (socket, file) in [
        ("\\\\.\\pipe\\work", "work.pid"),
        ("//./pipe/work", "work.pid"),
        ("\\\\.\\pipe\\a\\b.sock\\", "b.sock.pid"),
        ("work", "work.pid"),
        ("C:work", "work.pid"),
        ("x\\y/.", "y.pid"),
        // Nothing but a prefix, or the way up: no name.
        ("\\\\.\\pipe", "asd.pid"),
        ("\\\\server\\share", "asd.pid"),
        ("C:", "asd.pid"),
        ("x\\..", "asd.pid"),
        ("", "asd.pid"),
    ] {
        assert_eq!(env.pid_path(socket), format!("D:\\asd\\{file}"), "{socket}");
    }
}

#[test]
fn windows_puts_no_separator_behind_a_bare_drive() {
    let env = WindowsEnvironment {
        asd_socket: None,
        asd_config: None,
        local_app_data: Some("D:".into()),
        app_data: None,
        user_profile: Some("C:".into()),
        username: None,
    };
    assert_eq!(env.data_dir(), "D:asd");
    assert_eq!(env.session_list_path(), "D:asd\\sessions.tsv");
    assert_eq!(env.config_dir(), "C:AppData\\Roaming\\asd");
    assert_eq!(env.config_path(), "C:AppData\\Roaming\\asd\\config.toml");
}

#[test]
fn paths_are_taken_apart_and_put_together() {
    assert_eq!(path::file_name("a/b.rs").as_deref(), Some("b.rs"));
    assert_eq!(path::file_name("b.rs").as_deref(), Some("b.rs"));
    assert_eq!(path::file_name("a/..").as_deref(), None);
    assert_eq!(path::extension("b.rs").as_deref(), Some("rs"));
    assert_eq!(path::extension(".bashrc").as_deref(), None);
    assert_eq!(path::with_extension("a/b.rs", "txt"), "a/b.txt");
    assert_eq!(path::join("/a/b", "c"), "/a/b/c");
    assert_eq!(path::join("/a/b/", "c"), "/a/b/c");
}
