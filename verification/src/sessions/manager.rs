//! High-level session management: create, extend, list, delete and branch
//! conversations, keyed by id.
use vstd::prelude::*;
use crate::ids::{is_uuid_text, now_millis, uuid_v4_text};
use crate::sessions::models::{
    copy_messages, copy_session, message_view, messages_view, MessageView, MetadataView, Session,
    SessionMetadata, SessionSummary, SessionView,
};
use crate::shared::ChatMessage;

verus! {

broadcast use vstd::seq_lib::group_seq_properties;

/// The position of the session with id `id`, if any.
pub open spec fn position(v: Seq<SessionView>, id: Seq<char>) -> Option<int>
    decreases v.len(),
{
    if v.len() == 0 {
        None
    } else if v.last().id == id {
        Some(v.len() - 1)
    } else {
        position(v.drop_last(), id)
    }
}

pub open spec fn ids_distinct(v: Seq<SessionView>) -> bool {
    forall|i: int, j: int| 0 <= i < j < v.len() ==> v[i].id != v[j].id
}

/// The sessions with `s` stored under its id (replacing one with that id).
pub open spec fn put(v: Seq<SessionView>, s: SessionView) -> Seq<SessionView> {
    match position(v, s.id) {
        Some(i) => v.update(i, s),
        None => v.push(s),
    }
}

/// The sessions without the one with id `id`.
pub open spec fn without(v: Seq<SessionView>, id: Seq<char>) -> Seq<SessionView> {
    match position(v, id) {
        Some(i) => v.remove(i),
        None => v,
    }
}

/// The session with id `id`, if any.
pub open spec fn lookup(v: Seq<SessionView>, id: Seq<char>) -> Option<SessionView> {
    match position(v, id) {
        Some(i) => Some(v[i]),
        None => None,
    }
}

pub open spec fn summary_of(s: SessionView, m: SessionSummary) -> bool {
    &&& m.id@ == s.id
    &&& m.created_at == s.created_at
    &&& m.updated_at == s.updated_at
    &&& m.message_count == s.messages.len()
    &&& m.model@ == s.metadata.model
}

/// The messages a branch keeps: all, or the first `at` of them.
pub open spec fn branch_messages(msgs: Seq<MessageView>, at: Option<usize>) -> Seq<MessageView> {
    match at {
        Some(k) => if k < msgs.len() { msgs.take(k as int) } else { msgs },
        None => msgs,
    }
}

pub open spec fn fresh_metadata(model: Seq<char>) -> MetadataView {
    MetadataView { model, tools_used: Seq::empty(), total_tokens: 0, total_tool_calls: 0, tool_history: Seq::empty() }
}

/// A session just made: its id is a UUID, it is as old as its last update,
/// and its metadata is fresh for `model`.
pub open spec fn is_new_session(s: SessionView, model: Seq<char>) -> bool {
    &&& is_uuid_text(s.id)
    &&& s.created_at == s.updated_at
    &&& s.metadata == fresh_metadata(model)
}

/// The sessions after `m` is appended, at `now`, to the one with id `id`:
/// its messages gain `m` and it was last updated at `now`; without such a
/// session nothing changes.
pub open spec fn message_added(v: Seq<SessionView>, id: Seq<char>, m: MessageView, now: i64) -> Seq<SessionView> {
    match lookup(v, id) {
        Some(s) => put(v, SessionView { messages: s.messages.push(m), updated_at: now, ..s }),
        None => v,
    }
}

pub proof fn lemma_position(v: Seq<SessionView>, id: Seq<char>)
    requires
        ids_distinct(v),
    ensures
        position(v, id) matches Some(i) ==> 0 <= i < v.len() && v[i].id == id,
        position(v, id) is None ==> forall|j: int| 0 <= j < v.len() ==> v[j].id != id,
        forall|j: int| 0 <= j < v.len() && v[j].id == id ==> position(v, id) == Some(j),
    decreases v.len(),
{
    if v.len() > 0 {
        let d = v.drop_last();
        assert(ids_distinct(d)) by {
            assert forall|i: int, j: int| 0 <= i < j < d.len() implies d[i].id != d[j].id by {
                assert(d[i] == v[i] && d[j] == v[j]);
            }
        }
        lemma_position(d, id);
        assert forall|j: int| 0 <= j < v.len() && v[j].id == id implies position(v, id) == Some(j) by {
            if j < v.len() - 1 {
                assert(d[j] == v[j]);
                assert(v[j].id != v[v.len() - 1].id);
            }
        }
        if position(v, id) is None {
            assert forall|j: int| 0 <= j < v.len() implies v[j].id != id by {
                if j < v.len() - 1 {
                    assert(d[j] == v[j]);
                }
            }
        }
    }
}

pub proof fn lemma_put(v: Seq<SessionView>, s: SessionView)
    requires
        ids_distinct(v),
    ensures
        ids_distinct(put(v, s)),
        lookup(put(v, s), s.id) == Some(s),
        forall|id: Seq<char>| id != s.id ==> lookup(put(v, s), id) == lookup(v, id),
{
    lemma_position(v, s.id);
    let n = put(v, s);
    assert forall|a: int, b: int| 0 <= a < b < n.len() implies n[a].id != n[b].id by {
        match position(v, s.id) {
            Some(i) => {
                if a != i { assert(n[a] == v[a]); }
                if b != i { assert(n[b] == v[b]); }
            },
            None => {
                assert(n[a] == v[a]);
                if b < v.len() { assert(n[b] == v[b]); }
            },
        }
    }
    lemma_position(n, s.id);
    match position(v, s.id) {
        Some(i) => { assert(n[i] == s); },
        None => { assert(n[v.len() as int] == s); },
    }
    assert forall|id: Seq<char>| id != s.id implies lookup(put(v, s), id) == lookup(v, id) by {
        lemma_position(v, id);
        lemma_position(n, id);
        match position(v, id) {
            Some(j) => { assert(n[j] == v[j]); },
            None => {
                assert forall|j: int| 0 <= j < n.len() implies n[j].id != id by {
                    match position(v, s.id) {
                        Some(i) => { if j != i { assert(n[j] == v[j]); } },
                        None => { if j < v.len() { assert(n[j] == v[j]); } },
                    }
                }
            },
        }
    }
}

/// A message added at `now` is stamped on its session: the session keeps its
/// id, creation time and metadata, gains the message last, and reads as
/// updated at `now`; every other session stays as it was.
pub proof fn law_added_message_stamps_session(v: Seq<SessionView>, id: Seq<char>, m: MessageView, now: i64)
    requires
        ids_distinct(v),
    ensures
        lookup(v, id) matches Some(s) ==> lookup(message_added(v, id, m, now), id) matches Some(t) && {
            &&& t.id == s.id
            &&& t.created_at == s.created_at
            &&& t.updated_at == now
            &&& t.metadata == s.metadata
            &&& t.messages == s.messages.push(m)
        },
        lookup(v, id) is None ==> message_added(v, id, m, now) == v,
        forall|other: Seq<char>| other != id ==> lookup(message_added(v, id, m, now), other) == lookup(v, other),
{
    lemma_position(v, id);
    if let Some(s) = lookup(v, id) {
        lemma_put(v, SessionView { messages: s.messages.push(m), updated_at: now, ..s });
    }
}

pub proof fn lemma_without(v: Seq<SessionView>, id: Seq<char>)
    requires
        ids_distinct(v),
    ensures
        ids_distinct(without(v, id)),
        lookup(without(v, id), id) is None,
        forall|other: Seq<char>| other != id ==> lookup(without(v, id), other) == lookup(v, other),
{
    lemma_position(v, id);
    let n = without(v, id);
    match position(v, id) {
        Some(i) => {
            assert forall|a: int, b: int| 0 <= a < b < n.len() implies n[a].id != n[b].id by {
                let a0 = if a < i { a } else { a + 1 };
                let b0 = if b < i { b } else { b + 1 };
                assert(n[a] == v[a0] && n[b] == v[b0]);
            }
            assert forall|j: int| 0 <= j < n.len() implies n[j].id != id by {
                let j0 = if j < i { j } else { j + 1 };
                assert(n[j] == v[j0]);
            }
        },
        None => {},
    }
    lemma_position(n, id);
    assert forall|other: Seq<char>| other != id implies lookup(n, other) == lookup(v, other) by {
        lemma_position(v, other);
        lemma_position(n, other);
        match position(v, id) {
            Some(i) => {
                match position(v, other) {
                    Some(j) => {
                        let j1 = if j < i { j } else { j - 1 };
                        assert(n[j1] == v[j]);
                    },
                    None => {
                        assert forall|k: int| 0 <= k < n.len() implies n[k].id != other by {
                            let k0 = if k < i { k } else { k + 1 };
                            assert(n[k] == v[k0]);
                        }
                    },
                }
            },
            None => {},
        }
    }
}

/// High-level session management.
pub struct SessionManager {
    active: Vec<Session>,
}

pub open spec fn session_views(v: Seq<Session>) -> Seq<SessionView> {
    v.map_values(|s: Session| s@)
}

impl View for SessionManager {
    type V = Seq<SessionView>;

    closed spec fn view(&self) -> Seq<SessionView> {
        session_views(self.active@)
    }
}

impl SessionManager {
    /// No two sessions share an id.
    pub open spec fn wf(&self) -> bool {
        ids_distinct(self@)
    }

    pub fn new() -> (r: Self)
        ensures
            r.wf(),
            r@ == Seq::<SessionView>::empty(),
    {
        let r = SessionManager { active: Vec::new() };
        assert(r@ =~= Seq::<SessionView>::empty());
        r
    }

    fn find(&self, id: &str) -> (r: Option<usize>)
        requires
            self.wf(),
        ensures
            r matches Some(i) ==> position(self@, id@) == Some(i as int) && i < self@.len(),
            r is None ==> position(self@, id@) is None,
    {
        proof {
            lemma_position(self@, id@);
        }
        let key = String::from_str(id);
        let mut i: usize = 0;
        while i < self.active.len()
            invariant
                i <= self.active.len(),
                key@ == id@,
                ids_distinct(self@),
                forall|j: int| 0 <= j < i ==> self@[j].id != id@,
                self@.len() == self.active@.len(),
            decreases self.active.len() - i,
        {
            if self.active[i].id == key {
                assert(self@[i as int].id == self.active@[i as int].id@);
                proof {
                    lemma_position(self@, id@);
                }
                return Some(i);
            }
            i = i + 1;
        }
        None
    }

    fn store(&mut self, s: Session)
        requires
            old(self).wf(),
        ensures
            final(self).wf(),
            final(self)@ == put(old(self)@, s@),
    {
        proof {
            lemma_put(self@, s@);
            lemma_position(self@, s@.id);
        }
        let ghost sv = s@;
        match self.find(s.id.as_str()) {
            Some(i) => {
                self.active.set(i, s);
                assert(self@ =~= old(self)@.update(i as int, sv));
            },
            None => {
                self.active.push(s);
                assert(self@ =~= old(self)@.push(sv));
            },
        }
    }

    /// Creates a new, empty session for `model` and keeps it.
    pub fn create(&mut self, model: &str) -> (r: Session)
        requires
            old(self).wf(),
        ensures
            final(self).wf(),
            is_new_session(r@, model@),
            r@.messages.len() == 0,
            final(self)@ == put(old(self)@, r@),
            lookup(final(self)@, r@.id) == Some(r@),
    {
        let id = uuid_v4_text();
        let now = now_millis();
        let session = Session {
            id,
            created_at: now,
            updated_at: now,
            messages: Vec::new(),
            metadata: SessionMetadata::new(String::from_str(model)),
        };
        assert(session@.messages =~= Seq::<MessageView>::empty());
        proof {
            lemma_put(self@, session@);
        }
        self.store(copy_session(&session));
        session
    }

    /// Appends a message to a session, if there is one with that id, and
    /// marks the session updated at `now`.
    pub fn add_message_at(&mut self, session_id: &str, message: ChatMessage, now: i64)
        requires
            old(self).wf(),
        ensures
            final(self).wf(),
            final(self)@ == message_added(old(self)@, session_id@, message_view(message), now),
            lookup(old(self)@, session_id@) is None ==> final(self)@ == old(self)@,
            lookup(old(self)@, session_id@) matches Some(s) ==> lookup(final(self)@, session_id@) matches Some(t) && {
                &&& t.id == s.id
                &&& t.created_at == s.created_at
                &&& t.updated_at == now
                &&& t.metadata == s.metadata
                &&& t.messages == s.messages.push(message_view(message))
            },
            forall|other: Seq<char>| other != session_id@ ==> lookup(final(self)@, other) == lookup(old(self)@, other),
    {
        proof {
            lemma_position(self@, session_id@);
        }
        let ghost mv = message_view(message);
        match self.find(session_id) {
            Some(i) => {
                let mut s = copy_session(&self.active[i]);
                let ghost sv = s@;
                s.messages.push(message);
                s.updated_at = now;
                assert(s@.messages =~= sv.messages.push(mv));
                assert(s@ == (SessionView { messages: sv.messages.push(mv), updated_at: now, ..sv }));
                assert(put(old(self)@, s@) == old(self)@.update(i as int, s@));
                proof {
                    lemma_put(old(self)@, s@);
                }
                self.store(s);
            },
            None => {},
        }
    }

    /// Appends a message to a session, if there is one with that id, and
    /// marks the session updated at the clock's reading.
    pub fn add_message(&mut self, session_id: &str, message: ChatMessage)
        requires
            old(self).wf(),
        ensures
            final(self).wf(),
            exists|now: i64| final(self)@ == #[trigger] message_added(old(self)@, session_id@, message_view(message), now),
            lookup(old(self)@, session_id@) is None ==> final(self)@ == old(self)@,
            lookup(old(self)@, session_id@) matches Some(s) ==> lookup(final(self)@, session_id@) matches Some(t) && {
                &&& t.id == s.id
                &&& t.created_at == s.created_at
                &&& t.metadata == s.metadata
                &&& t.messages == s.messages.push(message_view(message))
            },
            forall|other: Seq<char>| other != session_id@ ==> lookup(final(self)@, other) == lookup(old(self)@, other),
    {
        let now = now_millis();
        self.add_message_at(session_id, message, now);
    }

    /// The session with that id, if any.
    pub fn get(&self, id: &str) -> (r: Option<Session>)
        requires
            self.wf(),
        ensures
            r matches Some(s) ==> lookup(self@, id@) == Some(s@),
            r is None ==> lookup(self@, id@) is None,
    {
        match self.find(id) {
            Some(i) => Some(copy_session(&self.active[i])),
            None => None,
        }
    }

    /// A summary of every session.
    pub fn list(&self) -> (r: Vec<SessionSummary>)
        ensures
            r@.len() == self@.len(),
            forall|i: int| 0 <= i < r@.len() ==> summary_of(self@[i], #[trigger] r@[i]),
    {
        let mut out: Vec<SessionSummary> = Vec::new();
        let mut i: usize = 0;
        while i < self.active.len()
            invariant
                i <= self.active.len(),
                out@.len() == i,
                forall|k: int| 0 <= k < i ==> summary_of(self@[k], #[trigger] out@[k]),
            decreases self.active.len() - i,
        {
            let s = &self.active[i];
            out.push(SessionSummary {
                id: s.id.clone(),
                created_at: s.created_at,
                updated_at: s.updated_at,
                message_count: s.messages.len(),
                model: s.metadata.model.clone(),
            });
            i = i + 1;
        }
        out
    }

    /// Deletes a session; tells whether there was one.
    pub fn delete(&mut self, id: &str) -> (r: bool)
        requires
            old(self).wf(),
        ensures
            final(self).wf(),
            r == (lookup(old(self)@, id@) is Some),
            final(self)@ == without(old(self)@, id@),
            lookup(final(self)@, id@) is None,
    {
        proof {
            lemma_without(self@, id@);
        }
        match self.find(id) {
            Some(i) => {
                self.active.remove(i);
                assert(self@ =~= old(self)@.remove(i as int));
                true
            },
            None => false,
        }
    }

    /// Branches a session: a new session for the same model holding the
    /// source's messages up to `at_message` (all of them when `None`).
    pub fn branch(&mut self, source_id: &str, at_message: Option<usize>) -> (r: Option<Session>)
        requires
            old(self).wf(),
        ensures
            final(self).wf(),
            lookup(old(self)@, source_id@) is None ==> r is None && final(self)@ == old(self)@,
            lookup(old(self)@, source_id@) matches Some(src) ==> r matches Some(b) && {
                &&& is_new_session(b@, src.metadata.model)
                &&& b@.messages == branch_messages(src.messages, at_message)
                &&& final(self)@ == put(old(self)@, b@)
            },
    {
        let i = match self.find(source_id) {
            Some(i) => i,
            None => return None,
        };
        let src = &self.active[i];
        let n = src.messages.len();
        let end = match at_message {
            Some(k) => if k < n { k } else { n },
            None => n,
        };
        let messages = copy_messages(&src.messages, 0, end);
        proof {
            assert(messages_view(src.messages@.subrange(0, end as int)) =~= branch_messages(messages_view(src.messages@), at_message));
        }
        let model = src.metadata.model.clone();
        let now = now_millis();
        let branched = Session {
            id: uuid_v4_text(),
            created_at: now,
            updated_at: now,
            messages,
            metadata: SessionMetadata::new(model),
        };
        self.store(copy_session(&branched));
        Some(branched)
    }
}

/// A branch taken at a message index keeps exactly the messages before it
/// (or all when the index is past the end), in order.
pub proof fn law_branch_is_prefix(msgs: Seq<MessageView>, k: usize)
    ensures
        branch_messages(msgs, Some(k)).len() == if k < msgs.len() { k as int } else { msgs.len() as int },
        forall|j: int| 0 <= j < branch_messages(msgs, Some(k)).len() ==> #[trigger] branch_messages(msgs, Some(k))[j] == msgs[j],
{
}

} // verus!
