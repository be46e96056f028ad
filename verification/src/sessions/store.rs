//! The session stores: the in-memory store (each session's messages, its
//! model and its times, by id), and the index and file naming of the
//! file-backed store, whose files the program reads and writes.
use vstd::prelude::*;
use crate::ids::now_millis;
use crate::sessions::models::{copy_messages, message_view, messages_view, MessageView, SessionSummary};
use crate::shared::ChatMessage;

verus! {

broadcast use vstd::seq_lib::group_seq_properties;

/// (id, messages, model, created at, updated at)
pub type StoredView = (Seq<char>, Seq<MessageView>, Seq<char>, i64, i64);

struct Stored {
    id: String,
    messages: Vec<ChatMessage>,
    model: String,
    created_at: i64,
    updated_at: i64,
}

spec fn stored_view(s: Stored) -> StoredView {
    (s.id@, messages_view(s.messages@), s.model@, s.created_at, s.updated_at)
}

pub open spec fn stored_position(v: Seq<StoredView>, id: Seq<char>) -> Option<int>
    decreases v.len(),
{
    if v.len() == 0 {
        None
    } else if v.last().0 == id {
        Some(v.len() - 1)
    } else {
        stored_position(v.drop_last(), id)
    }
}

pub open spec fn stored_ids_distinct(v: Seq<StoredView>) -> bool {
    forall|i: int, j: int| 0 <= i < j < v.len() ==> v[i].0 != v[j].0
}

proof fn lemma_stored_position(v: Seq<StoredView>, id: Seq<char>)
    requires
        stored_ids_distinct(v),
    ensures
        stored_position(v, id) matches Some(i) ==> 0 <= i < v.len() && v[i].0 == id,
        stored_position(v, id) is None ==> forall|j: int| 0 <= j < v.len() ==> v[j].0 != id,
        forall|j: int| 0 <= j < v.len() && v[j].0 == id ==> stored_position(v, id) == Some(j),
    decreases v.len(),
{
    if v.len() > 0 {
        let d = v.drop_last();
        assert(stored_ids_distinct(d)) by {
            assert forall|i: int, j: int| 0 <= i < j < d.len() implies d[i].0 != d[j].0 by {
                assert(d[i] == v[i] && d[j] == v[j]);
            }
        }
        lemma_stored_position(d, id);
        assert forall|j: int| 0 <= j < v.len() && v[j].0 == id implies stored_position(v, id) == Some(j) by {
            if j < v.len() - 1 {
                assert(d[j] == v[j]);
                assert(v[j].0 != v[v.len() - 1].0);
            }
        }
        if stored_position(v, id) is None {
            assert forall|j: int| 0 <= j < v.len() implies v[j].0 != id by {
                if j < v.len() - 1 {
                    assert(d[j] == v[j]);
                }
            }
        }
    }
}

/// In-memory session store.
pub struct MemoryStore {
    sessions: Vec<Stored>,
}

impl View for MemoryStore {
    type V = Seq<StoredView>;

    closed spec fn view(&self) -> Seq<StoredView> {
        self.sessions@.map_values(|s: Stored| stored_view(s))
    }
}

impl MemoryStore {
    pub open spec fn wf(&self) -> bool {
        stored_ids_distinct(self@)
    }

    pub fn new() -> (r: Self)
        ensures
            r.wf(),
            r@ == Seq::<StoredView>::empty(),
    {
        let r = MemoryStore { sessions: Vec::new() };
        assert(r@ =~= Seq::<StoredView>::empty());
        r
    }

    fn find(&self, id: &str) -> (r: Option<usize>)
        requires
            self.wf(),
        ensures
            r matches Some(i) ==> stored_position(self@, id@) == Some(i as int) && i < self@.len(),
            r is None ==> stored_position(self@, id@) is None,
    {
        proof {
            lemma_stored_position(self@, id@);
        }
        let key = String::from_str(id);
        let mut i: usize = 0;
        while i < self.sessions.len()
            invariant
                i <= self.sessions.len(),
                key@ == id@,
                stored_ids_distinct(self@),
                self@.len() == self.sessions@.len(),
                forall|j: int| 0 <= j < i ==> self@[j].0 != id@,
            decreases self.sessions.len() - i,
        {
            if self.sessions[i].id == key {
                assert(self@[i as int].0 == self.sessions@[i as int].id@);
                proof {
                    lemma_stored_position(self@, id@);
                }
                return Some(i);
            }
            i = i + 1;
        }
        None
    }

    /// Appends a message to a session, opening the session (model `unknown`)
    /// when there is none with that id.
    pub fn save(&mut self, message: &ChatMessage, id: &str) -> (r: Result<(), crate::traits::SessionError>)
        requires
            old(self).wf(),
        ensures
            final(self).wf(),
            r is Ok,
            stored_position(old(self)@, id@) matches Some(i) ==> {
                &&& final(self)@.len() == old(self)@.len()
                &&& forall|j: int| 0 <= j < old(self)@.len() && j != i ==> final(self)@[j] == old(self)@[j]
                &&& final(self)@[i].0 == id@
                &&& final(self)@[i].1 == old(self)@[i].1.push(message_view(*message))
                &&& final(self)@[i].2 == old(self)@[i].2
                &&& final(self)@[i].3 == old(self)@[i].3
            },
            stored_position(old(self)@, id@) is None ==> {
                &&& final(self)@.len() == old(self)@.len() + 1
                &&& final(self)@.drop_last() == old(self)@
                &&& final(self)@.last().0 == id@
                &&& final(self)@.last().1 == seq![message_view(*message)]
                &&& final(self)@.last().2 == "unknown"@
                &&& final(self)@.last().3 == final(self)@.last().4
            },
    {
        proof {
            lemma_stored_position(self@, id@);
        }
        let now = now_millis();
        let m = ChatMessage { role: message.role, content: message.content.clone() };
        match self.find(id) {
            Some(i) => {
                let ghost before = self.sessions@[i as int];
                let mut msgs = copy_messages(&self.sessions[i].messages, 0, self.sessions[i].messages.len());
                assert(self.sessions@[i as int].messages@.subrange(0, self.sessions@[i as int].messages@.len() as int) =~= self.sessions@[i as int].messages@);
                let ghost mv = msgs@;
                msgs.push(m);
                assert(messages_view(msgs@) =~= messages_view(mv).push(message_view(m)));
                let entry = Stored {
                    id: self.sessions[i].id.clone(),
                    messages: msgs,
                    model: self.sessions[i].model.clone(),
                    created_at: self.sessions[i].created_at,
                    updated_at: now,
                };
                self.sessions.set(i, entry);
                proof {
                    assert forall|a: int, b: int| 0 <= a < b < self@.len() implies self@[a].0 != self@[b].0 by {
                        assert(old(self)@[a].0 != old(self)@[b].0);
                    }
                }
            },
            None => {
                let mut msgs: Vec<ChatMessage> = Vec::new();
                msgs.push(m);
                assert(messages_view(msgs@) =~= seq![message_view(*message)]);
                self.sessions.push(Stored {
                    id: String::from_str(id),
                    messages: msgs,
                    model: String::from_str("unknown"),
                    created_at: now,
                    updated_at: now,
                });
                assert(self@.drop_last() =~= old(self)@);
                proof {
                    assert forall|a: int, b: int| 0 <= a < b < self@.len() implies self@[a].0 != self@[b].0 by {
                        if b < old(self)@.len() {
                            assert(old(self)@[a].0 != old(self)@[b].0);
                        } else {
                            assert(self@[a] == old(self)@[a]);
                        }
                    }
                }
            },
        }
        Ok(())
    }

    /// A session's messages, if there is a session with that id.
    pub fn load(&self, id: &str) -> (r: Result<Option<Vec<ChatMessage>>, crate::traits::SessionError>)
        requires
            self.wf(),
        ensures
            stored_position(self@, id@) matches Some(i) ==> r matches Ok(Some(v)) && messages_view(v@) == self@[i].1,
            stored_position(self@, id@) is None ==> r matches Ok(None),
    {
        match self.find(id) {
            Some(i) => {
                let v = copy_messages(&self.sessions[i].messages, 0, self.sessions[i].messages.len());
                assert(self.sessions@[i as int].messages@.subrange(0, self.sessions@[i as int].messages@.len() as int) =~= self.sessions@[i as int].messages@);
                Ok(Some(v))
            },
            None => Ok(None),
        }
    }

    /// A summary of every stored session.
    pub fn list(&self) -> (r: Result<Vec<SessionSummary>, crate::traits::SessionError>)
        ensures
            r matches Ok(v) && v@.len() == self@.len() && forall|i: int| 0 <= i < v@.len() ==> {
                &&& (#[trigger] v@[i]).id@ == self@[i].0
                &&& v@[i].message_count == self@[i].1.len()
                &&& v@[i].model@ == self@[i].2
                &&& v@[i].created_at == self@[i].3
                &&& v@[i].updated_at == self@[i].4
            },
    {
        let mut out: Vec<SessionSummary> = Vec::new();
        let mut i: usize = 0;
        while i < self.sessions.len()
            invariant
                i <= self.sessions.len(),
                out@.len() == i,
                self@.len() == self.sessions@.len(),
                forall|k: int| 0 <= k < i ==> {
                    &&& (#[trigger] out@[k]).id@ == self@[k].0
                    &&& out@[k].message_count == self@[k].1.len()
                    &&& out@[k].model@ == self@[k].2
                    &&& out@[k].created_at == self@[k].3
                    &&& out@[k].updated_at == self@[k].4
                },
            decreases self.sessions.len() - i,
        {
            let s = &self.sessions[i];
            out.push(SessionSummary {
                id: s.id.clone(),
                created_at: s.created_at,
                updated_at: s.updated_at,
                message_count: s.messages.len(),
                model: s.model.clone(),
            });
            i = i + 1;
        }
        Ok(out)
    }

    /// Deletes a session, if there is one with that id.
    pub fn delete(&mut self, id: &str) -> (r: Result<(), crate::traits::SessionError>)
        requires
            old(self).wf(),
        ensures
            final(self).wf(),
            r is Ok,
            stored_position(old(self)@, id@) matches Some(i) ==> final(self)@ == old(self)@.remove(i),
            stored_position(old(self)@, id@) is None ==> final(self)@ == old(self)@,
            forall|j: int| 0 <= j < final(self)@.len() ==> final(self)@[j].0 != id@,
    {
        proof {
            lemma_stored_position(self@, id@);
        }
        match self.find(id) {
            Some(i) => {
                self.sessions.remove(i);
                assert(self@ =~= old(self)@.remove(i as int));
                proof {
                    let n = self@;
                    assert forall|a: int, b: int| 0 <= a < b < n.len() implies n[a].0 != n[b].0 by {
                        let a0 = if a < i { a } else { a + 1 };
                        let b0 = if b < i { b } else { b + 1 };
                        assert(n[a] == old(self)@[a0] && n[b] == old(self)@[b0]);
                    }
                    assert forall|j: int| 0 <= j < n.len() implies n[j].0 != id@ by {
                        let j0 = if j < i { j } else { j + 1 };
                        assert(n[j] == old(self)@[j0]);
                    }
                }
            },
            None => {},
        }
        Ok(())
    }
}

// ── The file-backed store's index ──────────────────────────────────────

/// What the file store's index keeps of a session.
#[derive(Debug, Clone)]
pub struct SessionMeta {
    pub model: String,
    pub created_at: i64,
    pub updated_at: i64,
    pub message_count: usize,
}

pub struct MetaView {
    pub model: Seq<char>,
    pub created_at: i64,
    pub updated_at: i64,
    pub message_count: usize,
}

pub open spec fn meta_view(m: SessionMeta) -> MetaView {
    MetaView { model: m.model@, created_at: m.created_at, updated_at: m.updated_at, message_count: m.message_count }
}

pub open spec fn index_ids_distinct(v: Seq<(Seq<char>, MetaView)>) -> bool {
    forall|i: int, j: int| 0 <= i < j < v.len() ==> v[i].0 != v[j].0
}

/// The file store's index: each session's metadata, by id.
pub struct FileIndex {
    entries: Vec<(String, SessionMeta)>,
}

impl View for FileIndex {
    type V = Seq<(Seq<char>, MetaView)>;

    closed spec fn view(&self) -> Seq<(Seq<char>, MetaView)> {
        self.entries@.map_values(|e: (String, SessionMeta)| (e.0@, meta_view(e.1)))
    }
}

impl FileIndex {
    pub open spec fn wf(&self) -> bool {
        index_ids_distinct(self@)
    }

    pub fn new() -> (r: Self)
        ensures
            r.wf(),
            r@.len() == 0,
    {
        let r = FileIndex { entries: Vec::new() };
        assert(r@ =~= Seq::<(Seq<char>, MetaView)>::empty());
        r
    }

    fn position(&self, id: &str) -> (r: Option<usize>)
        ensures
            r matches Some(i) ==> i < self@.len() && self@[i as int].0 == id@,
            r is None ==> forall|j: int| 0 <= j < self@.len() ==> self@[j].0 != id@,
    {
        let key = String::from_str(id);
        let mut i: usize = 0;
        while i < self.entries.len()
            invariant
                i <= self.entries.len(),
                key@ == id@,
                self@.len() == self.entries@.len(),
                forall|j: int| 0 <= j < i ==> self@[j].0 != id@,
            decreases self.entries.len() - i,
        {
            if self.entries[i].0 == key {
                return Some(i);
            }
            i = i + 1;
        }
        None
    }

    /// Puts a session's metadata under its id, replacing what was there.
    pub fn insert(&mut self, id: String, meta: SessionMeta)
        requires
            old(self).wf(),
        ensures
            final(self).wf(),
            (exists|j: int| 0 <= j < old(self)@.len() && old(self)@[j].0 == id@
                && final(self)@ == old(self)@.update(j, (id@, meta_view(meta))))
            || ((forall|j: int| 0 <= j < old(self)@.len() ==> old(self)@[j].0 != id@)
                && final(self)@ == old(self)@.push((id@, meta_view(meta)))),
    {
        let ghost e = (id@, meta_view(meta));
        match self.position(id.as_str()) {
            Some(i) => {
                self.entries.set(i, (id, meta));
                proof {
                    assert(self@ =~= old(self)@.update(i as int, e));
                    assert forall|a: int, b: int| 0 <= a < b < self@.len() implies self@[a].0 != self@[b].0 by {
                        assert(self@[a].0 == old(self)@[a].0 && self@[b].0 == old(self)@[b].0);
                    }
                }
            },
            None => {
                self.entries.push((id, meta));
                proof {
                    assert(self@ =~= old(self)@.push(e));
                    assert forall|a: int, b: int| 0 <= a < b < self@.len() implies self@[a].0 != self@[b].0 by {
                        if b < old(self)@.len() {
                            assert(self@[a] == old(self)@[a] && self@[b] == old(self)@[b]);
                        } else {
                            assert(self@[a] == old(self)@[a]);
                        }
                    }
                }
            },
        }
    }

    /// Notes a save: a known session takes the new message count and time;
    /// an unknown one enters with the file's model and creation time.
    pub fn note_save(&mut self, id: &str, model: &str, created_at: i64, message_count: usize, now: i64)
        requires
            old(self).wf(),
        ensures
            final(self).wf(),
            (exists|j: int| 0 <= j < old(self)@.len() && old(self)@[j].0 == id@
                && final(self)@ == old(self)@.update(j, (id@, MetaView {
                    message_count, updated_at: now, ..old(self)@[j].1
                })))
            || ((forall|j: int| 0 <= j < old(self)@.len() ==> old(self)@[j].0 != id@)
                && final(self)@ == old(self)@.push((id@, MetaView {
                    model: model@, created_at, updated_at: now, message_count,
                }))),
    {
        match self.position(id) {
            Some(i) => {
                let old_meta = &self.entries[i].1;
                let meta = SessionMeta {
                    model: old_meta.model.clone(),
                    created_at: old_meta.created_at,
                    updated_at: now,
                    message_count,
                };
                self.insert(String::from_str(id), meta);
            },
            None => {
                self.insert(String::from_str(id), SessionMeta {
                    model: String::from_str(model),
                    created_at,
                    updated_at: now,
                    message_count,
                });
            },
        }
    }

    /// Forgets a session.
    pub fn remove(&mut self, id: &str)
        requires
            old(self).wf(),
        ensures
            final(self).wf(),
            (exists|j: int| 0 <= j < old(self)@.len() && old(self)@[j].0 == id@ && final(self)@ == old(self)@.remove(j))
            || ((forall|j: int| 0 <= j < old(self)@.len() ==> old(self)@[j].0 != id@) && final(self)@ == old(self)@),
    {
        if let Some(i) = self.position(id) {
            self.entries.remove(i);
            proof {
                let o = old(self)@;
                let n = self@;
                assert(n =~= o.remove(i as int));
                assert forall|a: int, b: int| 0 <= a < b < n.len() implies n[a].0 != n[b].0 by {
                    let a0 = if a < i { a } else { a + 1 };
                    let b0 = if b < i { b } else { b + 1 };
                    assert(n[a] == o[a0] && n[b] == o[b0]);
                }
            }
        }
    }

    /// The sessions' summaries.
    pub fn list(&self) -> (r: Vec<SessionSummary>)
        ensures
            r@.len() == self@.len(),
            forall|i: int| 0 <= i < r@.len() ==> {
                &&& (#[trigger] r@[i]).id@ == self@[i].0
                &&& r@[i].model@ == self@[i].1.model
                &&& r@[i].created_at == self@[i].1.created_at
                &&& r@[i].updated_at == self@[i].1.updated_at
                &&& r@[i].message_count == self@[i].1.message_count
            },
    {
        let mut out: Vec<SessionSummary> = Vec::new();
        let mut i: usize = 0;
        while i < self.entries.len()
            invariant
                i <= self.entries.len(),
                out@.len() == i,
                self@.len() == self.entries@.len(),
                forall|k: int| 0 <= k < i ==> {
                    &&& (#[trigger] out@[k]).id@ == self@[k].0
                    &&& out@[k].model@ == self@[k].1.model
                    &&& out@[k].created_at == self@[k].1.created_at
                    &&& out@[k].updated_at == self@[k].1.updated_at
                    &&& out@[k].message_count == self@[k].1.message_count
                },
            decreases self.entries.len() - i,
        {
            let e = &self.entries[i];
            out.push(SessionSummary {
                id: e.0.clone(),
                created_at: e.1.created_at,
                updated_at: e.1.updated_at,
                message_count: e.1.message_count,
                model: e.1.model.clone(),
            });
            i = i + 1;
        }
        out
    }
}

/// The file a session is kept in, inside the store's directory.
pub fn session_file_name(id: &str) -> (r: String)
    ensures
        r@ == id@ + ".json"@,
{
    let mut out = String::from_str(id);
    crate::text::push_str(&mut out, ".json");
    out
}

/// The session a file in the store's directory holds: the name before a
/// final `.json` extension (a name whose only dot opens it has none).
pub open spec fn session_of_file(name: Seq<char>) -> Option<Seq<char>> {
    if name.len() > 5 && name.subrange(name.len() - 5, name.len() as int) == ".json"@ {
        Some(name.subrange(0, name.len() - 5))
    } else {
        None
    }
}

pub fn session_id_of(file_name: &str) -> (r: Option<String>)
    ensures
        r matches Some(id) ==> session_of_file(file_name@) == Some(id@),
        r is None ==> session_of_file(file_name@) is None,
{
    let cs = crate::text::chars_of(file_name);
    let n = cs.len();
    proof {
        reveal_strlit(".json");
    }
    if n > 5 && cs[n - 5] == '.' && cs[n - 4] == 'j' && cs[n - 3] == 's' && cs[n - 2] == 'o' && cs[n - 1] == 'n' {
        assert(cs@.subrange(n - 5, n as int) =~= ".json"@);
        Some(crate::text::string_of(&cs, 0, n - 5))
    } else {
        proof {
            if n > 5 && cs@.subrange(n - 5, n as int) == ".json"@ {
                assert(cs@.subrange(n - 5, n as int)[0] == cs@[n - 5]);
                assert(cs@.subrange(n - 5, n as int)[1] == cs@[n - 4]);
                assert(cs@.subrange(n - 5, n as int)[2] == cs@[n - 3]);
                assert(cs@.subrange(n - 5, n as int)[3] == cs@[n - 2]);
                assert(cs@.subrange(n - 5, n as int)[4] == cs@[n - 1]);
            }
        }
        None
    }
}

} // verus!
