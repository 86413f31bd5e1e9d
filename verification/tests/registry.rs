use dtch::registry::{
    list_sessions, render_sessions, session_name_from_file_name, socket_path, DirectoryEntry,
    NameError, Session, SOCKET_MODE,
};

fn entry(file_name: &[u8], is_socket: bool, path: &str) -> DirectoryEntry {
    DirectoryEntry {
        file_name: file_name.to_vec(),
        is_socket,
        path: path.to_string(),
    }
}

#[test]
fn socket_path_follows_the_convention() {
    assert_eq!(socket_path("work"), Ok("/tmp/dtch_work.sock".to_string()));
    assert_eq!(
        socket_path("A-z_0.9"),
        Ok("/tmp/dtch_A-z_0.9.sock".to_string())
    );
}

#[test]
fn empty_names_are_refused() {
    assert_eq!(socket_path(""), Err(NameError::Empty));
    assert_eq!(NameError::Empty.message(), "session name cannot be empty");
}

#[test]
fn names_with_other_characters_are_refused() {
    for name in ["a b", "../x", "a/b", "caf\u{e9}", "a\0", "[", "@", "`", "{", ":"] {
        assert_eq!(socket_path(name), Err(NameError::InvalidCharacter));
    }
    assert_eq!(
        NameError::InvalidCharacter.message(),
        "session name may only contain letters, numbers, '.', '_', and '-'"
    );
}

#[test]
fn session_names_come_from_file_names() {
    let name = |file: &[u8]| session_name_from_file_name(file);
    assert_eq!(name(b"dtch_work.sock"), Some("work".to_string()));
    assert_eq!(name(b"dtch_a.sock.sock"), Some("a.sock".to_string()));
    assert_eq!(name(b"dtch_dtch_.sock"), Some("dtch_".to_string()));
    assert_eq!(
        name("dtch_caf\u{e9} x.sock".as_bytes()),
        Some("caf\u{e9} x".to_string())
    );
    assert_eq!(name(b"dtch_.sock"), None);
    assert_eq!(name(b"dtch_sock"), None);
    assert_eq!(name(b"dtch_work"), None);
    assert_eq!(name(b"work.sock"), None);
    assert_eq!(name(b""), None);
    assert_eq!(name(b"Dtch_work.sock"), None);
}

#[test]
fn file_names_that_are_not_text_name_no_session() {
    assert_eq!(session_name_from_file_name(b"dtch_\xff\xfe.sock"), None);
}

#[test]
fn socket_file_leads_back_to_its_session() {
    let path = socket_path("x.y-z_1").unwrap();
    let file = path.strip_prefix("/tmp/").unwrap();
    assert_eq!(
        session_name_from_file_name(file.as_bytes()),
        Some("x.y-z_1".to_string())
    );
}

#[test]
fn listing_picks_and_sorts_sessions() {
    let entries = vec![
        entry(b"dtch_b.sock", true, "/tmp/dtch_b.sock"),
        entry(b"dtch_file.sock", false, "/tmp/dtch_file.sock"),
        entry(b"other.sock", true, "/tmp/other.sock"),
        entry(b"dtch_a.sock", true, "/tmp/dtch_a.sock"),
        entry(b"dtch_B.sock", true, "/tmp/dtch_B.sock"),
        entry(b"dtch_ab.sock", true, "/tmp/dtch_ab.sock"),
    ];
    let names: Vec<String> = list_sessions(&entries).into_iter().map(|s| s.name).collect();
    assert_eq!(names, ["B", "a", "ab", "b"]);
}

#[test]
fn listing_keeps_the_order_of_equal_names() {
    let entries = vec![
        entry(b"dtch_b.sock", true, "second"),
        entry(b"dtch_a.sock", true, "first"),
        entry(b"dtch_b.sock", true, "third"),
    ];
    let sockets: Vec<String> = list_sessions(&entries).into_iter().map(|s| s.socket).collect();
    assert_eq!(sockets, ["first", "second", "third"]);
}

#[test]
fn table_without_sessions() {
    assert_eq!(render_sessions(&Vec::new()), ["no active sessions"]);
}

#[test]
fn table_with_sessions() {
    let sessions = vec![
        Session {
            name: "work".to_string(),
            socket: "/tmp/dtch_work.sock".to_string(),
        },
        Session {
            name: "a-name-of-twenty-six-chars".to_string(),
            socket: "/tmp/long".to_string(),
        },
    ];
    let name = "work";
    assert_eq!(
        render_sessions(&sessions),
        [
            format!("{:<24} SOCKET", "NAME"),
            format!("{:<24} {}", name, "/tmp/dtch_work.sock"),
            "a-name-of-twenty-six-chars /tmp/long".to_string(),
        ]
    );
    assert_eq!(
        render_sessions(&sessions)[0],
        "NAME                     SOCKET"
    );
}

#[test]
fn sockets_are_private() {
    assert_eq!(SOCKET_MODE, 0o600);
}
