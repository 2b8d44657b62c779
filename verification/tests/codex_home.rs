use threadbridge::codex_home::{
    is_rollout_for, session_index, session_meta_payload, CodexHome, SessionIndexEntry, SessionMetaEnvelope,
    SessionMetaPayload,
};

fn entry(id: &str, name: &str, updated_at: &str) -> SessionIndexEntry {
    SessionIndexEntry { id: id.to_owned(), thread_name: name.to_owned(), updated_at: updated_at.to_owned() }
}

#[test]
fn recent_sessions_are_newest_first_and_limited() {
    let home = CodexHome::new("/home/u/.codex".to_owned());
    let index = vec![
        entry("a", "Alpha", "2026-01-01"),
        entry("b", " ", "2026-03-01"),
        entry("c", "Gamma", "2026-02-01"),
        entry("a", "Alpha again", "2026-04-01"),
    ];
    let listed = home.list_recent_sessions(index.clone(), 2);
    assert_eq!(listed.len(), 2);
    assert_eq!((listed[0].id.as_str(), listed[0].title.as_str()), ("a", "Alpha again"));
    assert_eq!((listed[1].id.as_str(), listed[1].title.as_str()), ("b", "(untitled session)"));
    let all = home.list_recent_sessions(index.clone(), 10);
    let ids: Vec<&str> = all.iter().map(|s| s.id.as_str()).collect();
    assert_eq!(ids, vec!["a", "b", "c"]);
    assert!(home.list_recent_sessions(index, 0).is_empty());
}

#[test]
fn resolving_a_session_reads_its_index_entry() {
    let home = CodexHome::new("/c".to_owned());
    let index = vec![entry("s1", "Named", "t1")];
    let meta = SessionMetaPayload { id: "s1".to_owned(), cwd: "/work".to_owned() };
    let record = home
        .resolve_session(index.clone(), "s1", Some(("/c/sessions/x-s1.jsonl".to_owned(), meta.clone())))
        .unwrap();
    assert_eq!(record.title, "Named");
    assert_eq!(record.updated_at, Some("t1".to_owned()));
    assert_eq!(record.cwd, "/work");
    assert_eq!(record.rollout_path, "/c/sessions/x-s1.jsonl");
    let other = home.resolve_session(index.clone(), "s2", Some(("/p".to_owned(), meta))).unwrap();
    assert_eq!(other.title, "(untitled session)");
    assert_eq!(other.updated_at, None);
    assert!(home.resolve_session(index, "s1", None).is_none());
}

#[test]
fn codex_home_paths() {
    let home = CodexHome::in_home_dir("/home/u");
    assert_eq!(home.root(), "/home/u/.codex");
    assert_eq!(home.session_index_path(), "/home/u/.codex/session_index.jsonl");
    assert_eq!(home.sessions_root(), "/home/u/.codex/sessions");
}

#[test]
fn rollout_files_and_metadata() {
    assert!(is_rollout_for("rollout-2026-s1.jsonl", "s1"));
    assert!(!is_rollout_for("rollout-2026-s1.json", "s1"));
    assert!(!is_rollout_for("rollout-2026-s2.jsonl", "s1"));
    let meta = SessionMetaPayload { id: "s".to_owned(), cwd: "/w".to_owned() };
    let found = session_meta_payload(SessionMetaEnvelope { kind: "session_meta".to_owned(), payload: meta.clone() });
    assert_eq!(found.map(|p| p.cwd), Some("/w".to_owned()));
    assert!(session_meta_payload(SessionMetaEnvelope { kind: "response_item".to_owned(), payload: meta }).is_none());
}

#[test]
fn later_index_lines_replace_earlier_ones() {
    let map = session_index(vec![entry("a", "one", "1"), entry("a", "two", "2")]);
    assert_eq!(map.len(), 1);
    assert_eq!(map.get("a").map(|e| e.thread_name.as_str()), Some("two"));
}
