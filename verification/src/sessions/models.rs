//! Session records. Times are milliseconds since the Unix epoch.
use vstd::prelude::*;
use crate::shared::{ChatMessage, Role};

verus! {

broadcast use vstd::seq_lib::group_seq_properties;

/// Record of a single tool execution.
#[derive(Debug, Clone)]
pub struct ToolExecution {
    pub tool_name: String,
    pub arguments: String,
    pub result: String,
    pub is_error: bool,
    pub executed_at: i64,
    pub duration_ms: u64,
}

/// Metadata about a session.
#[derive(Debug, Clone)]
pub struct SessionMetadata {
    pub model: String,
    pub tools_used: Vec<String>,
    pub total_tokens: u64,
    pub total_tool_calls: u64,
    pub tool_history: Vec<ToolExecution>,
}

/// A conversation session with full history.
#[derive(Debug, Clone)]
pub struct Session {
    pub id: String,
    pub created_at: i64,
    pub updated_at: i64,
    pub messages: Vec<ChatMessage>,
    pub metadata: SessionMetadata,
}

/// Lightweight summary for listing sessions.
#[derive(Debug, Clone)]
pub struct SessionSummary {
    pub id: String,
    pub created_at: i64,
    pub updated_at: i64,
    pub message_count: usize,
    pub model: String,
}

pub type MessageView = (Role, Seq<char>);
pub type ExecutionView = (Seq<char>, Seq<char>, Seq<char>, bool, i64, u64);

pub struct MetadataView {
    pub model: Seq<char>,
    pub tools_used: Seq<Seq<char>>,
    pub total_tokens: u64,
    pub total_tool_calls: u64,
    pub tool_history: Seq<ExecutionView>,
}

pub struct SessionView {
    pub id: Seq<char>,
    pub created_at: i64,
    pub updated_at: i64,
    pub messages: Seq<MessageView>,
    pub metadata: MetadataView,
}

pub open spec fn message_view(m: ChatMessage) -> MessageView {
    (m.role, m.content@)
}

pub open spec fn messages_view(v: Seq<ChatMessage>) -> Seq<MessageView> {
    v.map_values(|m: ChatMessage| message_view(m))
}

pub open spec fn execution_view(e: ToolExecution) -> ExecutionView {
    (e.tool_name@, e.arguments@, e.result@, e.is_error, e.executed_at, e.duration_ms)
}

impl View for SessionMetadata {
    type V = MetadataView;

    open spec fn view(&self) -> MetadataView {
        MetadataView {
            model: self.model@,
            tools_used: self.tools_used@.map_values(|s: String| s@),
            total_tokens: self.total_tokens,
            total_tool_calls: self.total_tool_calls,
            tool_history: self.tool_history@.map_values(|e: ToolExecution| execution_view(e)),
        }
    }
}

impl View for Session {
    type V = SessionView;

    open spec fn view(&self) -> SessionView {
        SessionView {
            id: self.id@,
            created_at: self.created_at,
            updated_at: self.updated_at,
            messages: messages_view(self.messages@),
            metadata: self.metadata@,
        }
    }
}

impl SessionMetadata {
    /// Fresh metadata: the model, no tool use, no tokens counted.
    pub fn new(model: String) -> (r: Self)
        ensures
            r@ == (MetadataView { model: model@, tools_used: Seq::empty(), total_tokens: 0, total_tool_calls: 0, tool_history: Seq::empty() }),
    {
        let r = SessionMetadata { model, tools_used: Vec::new(), total_tokens: 0, total_tool_calls: 0, tool_history: Vec::new() };
        assert(r@.tools_used =~= Seq::<Seq<char>>::empty());
        assert(r@.tool_history =~= Seq::<ExecutionView>::empty());
        r
    }
}

/// A copy of the messages `v[from..to]`.
pub fn copy_messages(v: &Vec<ChatMessage>, from: usize, to: usize) -> (r: Vec<ChatMessage>)
    requires
        from <= to <= v.len(),
    ensures
        messages_view(r@) == messages_view(v@.subrange(from as int, to as int)),
{
    let mut out: Vec<ChatMessage> = Vec::new();
    let mut i = from;
    while i < to
        invariant
            from <= i <= to <= v.len(),
            messages_view(out@) == messages_view(v@.subrange(from as int, i as int)),
        decreases to - i,
    {
        let ghost o = out@;
        let m = ChatMessage { role: v[i].role, content: v[i].content.clone() };
        assert(message_view(m) == message_view(v@[i as int]));
        out.push(m);
        assert(messages_view(out@) =~= messages_view(o).push(message_view(m)));
        assert(v@.subrange(from as int, i + 1) =~= v@.subrange(from as int, i as int).push(v@[i as int]));
        assert(messages_view(out@) =~= messages_view(v@.subrange(from as int, i + 1)));
        i = i + 1;
    }
    out
}

fn copy_metadata(m: &SessionMetadata) -> (r: SessionMetadata)
    ensures
        r@ == m@,
{
    let mut tools: Vec<String> = Vec::new();
    let mut i: usize = 0;
    while i < m.tools_used.len()
        invariant
            i <= m.tools_used.len(),
            tools@.map_values(|s: String| s@) == m.tools_used@.take(i as int).map_values(|s: String| s@),
        decreases m.tools_used.len() - i,
    {
        let ghost o = tools@;
        let t = m.tools_used[i].clone();
        tools.push(t);
        assert(tools@.map_values(|s: String| s@) =~= o.map_values(|s: String| s@).push(t@));
        assert(m.tools_used@.take(i + 1) =~= m.tools_used@.take(i as int).push(m.tools_used@[i as int]));
        assert(tools@.map_values(|s: String| s@) =~= m.tools_used@.take(i + 1).map_values(|s: String| s@));
        i = i + 1;
    }
    assert(m.tools_used@.take(i as int) =~= m.tools_used@);
    let mut hist: Vec<ToolExecution> = Vec::new();
    let mut j: usize = 0;
    while j < m.tool_history.len()
        invariant
            j <= m.tool_history.len(),
            hist@.map_values(|e: ToolExecution| execution_view(e)) == m.tool_history@.take(j as int).map_values(|e: ToolExecution| execution_view(e)),
        decreases m.tool_history.len() - j,
    {
        let e = &m.tool_history[j];
        let ghost o = hist@;
        let ne = ToolExecution {
            tool_name: e.tool_name.clone(),
            arguments: e.arguments.clone(),
            result: e.result.clone(),
            is_error: e.is_error,
            executed_at: e.executed_at,
            duration_ms: e.duration_ms,
        };
        assert(execution_view(ne) == execution_view(m.tool_history@[j as int]));
        hist.push(ne);
        assert(hist@.map_values(|e: ToolExecution| execution_view(e)) =~= o.map_values(|e: ToolExecution| execution_view(e)).push(execution_view(ne)));
        assert(m.tool_history@.take(j + 1) =~= m.tool_history@.take(j as int).push(m.tool_history@[j as int]));
        assert(hist@.map_values(|e: ToolExecution| execution_view(e)) =~= m.tool_history@.take(j + 1).map_values(|e: ToolExecution| execution_view(e)));
        j = j + 1;
    }
    assert(m.tool_history@.take(j as int) =~= m.tool_history@);
    SessionMetadata {
        model: m.model.clone(),
        tools_used: tools,
        total_tokens: m.total_tokens,
        total_tool_calls: m.total_tool_calls,
        tool_history: hist,
    }
}

/// A copy of a session, equal to it in every field.
pub fn copy_session(s: &Session) -> (r: Session)
    ensures
        r@ == s@,
{
    let messages = copy_messages(&s.messages, 0, s.messages.len());
    assert(s.messages@.subrange(0, s.messages@.len() as int) =~= s.messages@);
    Session {
        id: s.id.clone(),
        created_at: s.created_at,
        updated_at: s.updated_at,
        messages,
        metadata: copy_metadata(&s.metadata),
    }
}

} // verus!
