use chatapi::sessions::manager::SessionManager;
use chatapi::sessions::store::{session_file_name, session_id_of, FileIndex, MemoryStore, SessionMeta};
use chatapi::shared::{ChatMessage, Role};
use chatapi::traits::SessionError;

fn msg(role: Role, text: &str) -> ChatMessage {
    ChatMessage { role, content: text.to_string() }
}

#[test]
fn sessions_are_created_extended_and_listed() {
    let mut m = SessionManager::new();
    let s = m.create("deepseek-chat");
    assert_eq!(s.id.len(), 36);
    assert_eq!(s.metadata.model, "deepseek-chat");
    assert!(s.messages.is_empty());
    assert_eq!(s.created_at, s.updated_at);
    m.add_message(&s.id, msg(Role::User, "hi"));
    m.add_message(&s.id, msg(Role::Assistant, "hello"));
    m.add_message("missing", msg(Role::User, "lost"));
    let got = m.get(&s.id).unwrap();
    assert_eq!(got.messages.len(), 2);
    assert_eq!(got.messages[1].content, "hello");
    let list = m.list();
    assert_eq!(list.len(), 1);
    assert_eq!(list[0].message_count, 2);
    assert_eq!(list[0].model, "deepseek-chat");
    assert!(m.get("missing").is_none());
}

#[test]
fn branches_keep_a_prefix() {
    let mut m = SessionManager::new();
    let s = m.create("m");
    for t in ["a", "b", "c"] {
        m.add_message(&s.id, msg(Role::User, t));
    }
    let b = m.branch(&s.id, Some(2)).unwrap();
    assert_ne!(b.id, s.id);
    assert_eq!(b.messages.iter().map(|x| x.content.clone()).collect::<Vec<_>>(), vec!["a", "b"]);
    assert_eq!(b.metadata.model, "m");
    let all = m.branch(&s.id, Some(10)).unwrap();
    assert_eq!(all.messages.len(), 3);
    let none = m.branch(&s.id, None).unwrap();
    assert_eq!(none.messages.len(), 3);
    assert!(m.branch("missing", Some(1)).is_none());
    assert_eq!(m.list().len(), 4);
    assert!(m.delete(&s.id));
    assert!(!m.delete(&s.id));
    assert_eq!(m.list().len(), 3);
}

#[test]
fn memory_store_roundtrip() {
    let mut st = MemoryStore::new();
    st.save(&msg(Role::User, "one"), "s1").unwrap();
    st.save(&msg(Role::Assistant, "two"), "s1").unwrap();
    let loaded = st.load("s1").unwrap().unwrap();
    assert_eq!(loaded.len(), 2);
    assert_eq!(loaded[0].content, "one");
    assert!(st.load("nope").unwrap().is_none());
    let list = st.list().unwrap();
    assert_eq!(list.len(), 1);
    assert_eq!(list[0].message_count, 2);
    assert_eq!(list[0].model, "unknown");
    st.delete("s1").unwrap();
    assert!(st.load("s1").unwrap().is_none());
}

#[test]
fn file_index_tracks_saves() {
    let mut idx = FileIndex::new();
    idx.note_save("s1", "m", 10, 1, 10);
    idx.note_save("s1", "other", 99, 2, 20);
    idx.insert("s2".into(), SessionMeta { model: "x".into(), created_at: 1, updated_at: 2, message_count: 5 });
    let list = idx.list();
    assert_eq!(list.len(), 2);
    assert_eq!(list[0].id, "s1");
    assert_eq!(list[0].model, "m");
    assert_eq!(list[0].created_at, 10);
    assert_eq!(list[0].updated_at, 20);
    assert_eq!(list[0].message_count, 2);
    idx.remove("s1");
    idx.remove("s1");
    assert_eq!(idx.list().len(), 1);
    assert_eq!(idx.list()[0].id, "s2");
}

#[test]
fn session_files_are_named_by_id() {
    assert_eq!(session_file_name("abc"), "abc.json");
    assert_eq!(session_id_of("abc.json"), Some("abc".to_string()));
    assert_eq!(session_id_of("a.b.json"), Some("a.b".to_string()));
    assert_eq!(session_id_of(".json"), None);
    assert_eq!(session_id_of("abc.txt"), None);
    assert_eq!(session_id_of("json"), None);
}

#[test]
fn session_errors_display() {
    assert_eq!(SessionError::NotFound("x".into()).display_text(), "session not found: x");
    assert_eq!(SessionError::StoreError("disk".into()).display_text(), "store error: disk");
}
