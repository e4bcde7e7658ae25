use gvac::errors::AppError;
use gvac::registry::Registry;
use gvac::session::{
    find_session, finish_connect, mark_active, mark_active_at, touch_session, plan_connect, register_session, remove_session,
    session_info, session_label, sessions_newest_first, AuthMethod, AuthStep, ConnectRequest,
    SessionInfo, SshSession, UtcTime,
};

fn at(secs: i64) -> UtcTime {
    UtcTime { secs, nanos: 0 }
}

fn request(host: &str, user: &str, auth: AuthMethod, label: Option<&str>) -> ConnectRequest {
    ConnectRequest {
        host: host.to_string(),
        port: 2222,
        username: user.to_string(),
        auth,
        label: label.map(|s| s.to_string()),
    }
}

fn session(id: &str, secs: i64) -> SshSession<u8> {
    let req = request("h", "u", AuthMethod::Anonymous, None);
    let info = session_info(&req, id.to_string(), at(secs));
    SshSession { info, request: req, connection: 0 }
}

#[test]
fn connection_plans() {
    let p = plan_connect(&request(" example.org ", " root ", AuthMethod::Anonymous, None)).unwrap();
    assert_eq!(p.address, "example.org:2222");
    assert_eq!(p.username, "root");
    assert!(matches!(p.auth, AuthStep::Probe));
    let p = plan_connect(&request(
        "h",
        "u",
        AuthMethod::PrivateKey { private_key_path: " ~/.ssh/id ".to_string(), passphrase: Some("pp".to_string()) },
        None,
    ))
    .unwrap();
    assert!(matches!(p.auth, AuthStep::PublicKeyFile { ref path, passphrase: Some(ref q) } if path == "~/.ssh/id" && q == "pp"));
    let p = plan_connect(&request("h", "u", AuthMethod::Password { password: " pw ".to_string() }, None)).unwrap();
    assert!(matches!(p.auth, AuthStep::Password { ref password } if password == " pw "));
    for (h, u) in [(" ", "u"), ("h", "\t"), ("", "")] {
        match plan_connect(&request(h, u, AuthMethod::Anonymous, None)) {
            Err(AppError::InvalidInput(m)) => assert_eq!(m, "host and username are required"),
            _ => panic!("should be refused"),
        }
    }
}

#[test]
fn labels() {
    assert_eq!(session_label(&Some("prod".to_string()), "u", "h"), "prod");
    assert_eq!(session_label(&Some("  ".to_string()), "u", "h"), "u@h");
    assert_eq!(session_label(&None, " u", "h "), " u@h ");
}

#[test]
fn finishing_a_connection() {
    let req = request("h", "u", AuthMethod::Anonymous, Some("lab"));
    assert!(matches!(finish_connect(&req, false), Err(AppError::AuthFailed)));
    let info = finish_connect(&req, true).unwrap();
    assert_eq!(info.id.len(), 36);
    for (i, c) in info.id.chars().enumerate() {
        if [8, 13, 18, 23].contains(&i) {
            assert_eq!(c, '-');
        } else {
            assert!(c.is_ascii_hexdigit() && !c.is_ascii_uppercase());
        }
    }
    assert_eq!(info.id.chars().nth(14), Some('4'));
    assert!(matches!(info.id.chars().nth(19), Some('8' | '9' | 'a' | 'b')));
    assert_eq!(info.label, "lab");
    assert_eq!(info.port, 2222);
    assert_eq!(info.connected_at, info.last_active_at);
    let other = finish_connect(&req, true).unwrap();
    assert_ne!(info.id, other.id);
}

#[test]
fn session_table() {
    let mut t: Registry<SshSession<u8>> = Registry::new();
    let info = register_session(&mut t, session("s1", 10));
    assert_eq!(info.id, "s1");
    register_session(&mut t, session("s2", 30));
    register_session(&mut t, session("s3", 20));
    assert!(find_session(&t, "s2").is_ok());
    assert!(matches!(find_session(&t, "nope"), Err(AppError::SessionNotFound)));
    let before = t.get("s1").unwrap().info.last_active_at;
    mark_active(&mut t, "s1");
    assert!(t.get("s1").unwrap().info.last_active_at > before);
    assert_eq!(t.get("s1").unwrap().info.connected_at, at(10));
    mark_active(&mut t, "missing");
    assert_eq!(t.len(), 3);
    let listed: Vec<UtcTime> = sessions_newest_first(&t).iter().map(|i| i.connected_at).collect();
    assert_eq!(listed, vec![at(30), at(20), at(10)]);
    assert!(remove_session(&mut t, "s2").is_ok());
    assert!(matches!(remove_session(&mut t, "s2"), Err(AppError::SessionNotFound)));
    assert_eq!(t.len(), 2);
}

#[test]
fn newest_session_listed_first() {
    let mut t: Registry<SshSession<u8>> = Registry::new();
    for (id, secs) in [("a", 5), ("b", 5), ("c", 9), ("d", -1)] {
        register_session(&mut t, session(id, secs));
    }
    let listed = sessions_newest_first(&t);
    assert_eq!(listed.len(), 4);
    assert_eq!(listed[0].id, "c");
    for w in listed.windows(2) {
        assert!(w[0].connected_at >= w[1].connected_at);
    }
    let mut ids: Vec<&str> = listed.iter().map(|i: &SessionInfo| i.id.as_str()).collect();
    ids.sort();
    assert_eq!(ids, vec!["a", "b", "c", "d"]);
}

#[test]
fn activity_times() {
    let mut s = session("s", 5);
    touch_session(&mut s, at(77));
    assert_eq!(s.info.last_active_at, at(77));
    assert_eq!(s.info.connected_at, at(5));
    let mut t: Registry<SshSession<u8>> = Registry::new();
    register_session(&mut t, session("a", 1));
    register_session(&mut t, session("b", 2));
    mark_active_at(&mut t, "b", UtcTime { secs: 99, nanos: 7 });
    assert_eq!(t.get("b").unwrap().info.last_active_at, UtcTime { secs: 99, nanos: 7 });
    assert_eq!(t.get("a").unwrap().info.last_active_at, at(1));
}

#[test]
fn same_second_sessions_ordered_by_nanoseconds() {
    let mut t: Registry<SshSession<u8>> = Registry::new();
    for (id, nanos) in [("x", 10u32), ("y", 999_999_999), ("z", 11)] {
        let req = request("h", "u", AuthMethod::Anonymous, None);
        let info = session_info(&req, id.to_string(), UtcTime { secs: 100, nanos });
        register_session(&mut t, SshSession { info, request: req, connection: 0 });
    }
    let ids: Vec<String> = sessions_newest_first(&t).into_iter().map(|i| i.id).collect();
    assert_eq!(ids, vec!["y", "z", "x"]);
}
