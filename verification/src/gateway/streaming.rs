//! The streaming answer: tokens from the target are gathered into content
//! chunks of at least 64 bytes; when the target is done, the whole text is
//! checked for tool calls, and if it holds any, the answer switches to tool
//! call chunks in place of the content chunks still pending.
//!
//! The stream is a state machine: the library decides which event comes next,
//! and the code around it turns each event into an SSE line.
use vstd::prelude::*;
use crate::rules::prompt::byte_len;
use crate::gateway::routes::{shows_tool_pattern, tool_text_fits};
use crate::tool_parser::{
    contains_tool_call_pattern, extract_step, feed_view, initial_view, parse_tool_calls_from_text,
    tool_calls_fit, view_wf, CallSpec, ParserView,
};
use crate::text::trim;

verus! {

broadcast use vstd::seq_lib::group_seq_properties;

/// One event of a streamed answer, before it is written out as a chunk.
#[derive(Debug, Clone)]
pub enum SseEvent {
    /// A content delta.
    Content(String),
    /// The opening of a tool call: its index, id, type and function name.
    ToolCallStart { index: u32, id: String, call_type: String, name: String },
    /// A tool call's arguments.
    ToolCallArguments { index: u32, arguments: String },
    /// The last chunk of a text answer (finish reason `stop`).
    Stop,
    /// The last chunk of a tool call answer (finish reason `tool_calls`).
    ToolCallsStop,
    /// The closing `[DONE]` line.
    Done,
}

pub enum EventView {
    Content(Seq<char>),
    ToolCallStart(nat, Seq<char>, Seq<char>, Seq<char>),
    ToolCallArguments(nat, Seq<char>),
    Stop,
    ToolCallsStop,
    Done,
}

pub open spec fn event_view(e: SseEvent) -> EventView {
    match e {
        SseEvent::Content(t) => EventView::Content(t@),
        SseEvent::ToolCallStart { index, id, call_type, name } => EventView::ToolCallStart(index as nat, id@, call_type@, name@),
        SseEvent::ToolCallArguments { index, arguments } => EventView::ToolCallArguments(index as nat, arguments@),
        SseEvent::Stop => EventView::Stop,
        SseEvent::ToolCallsStop => EventView::ToolCallsStop,
        SseEvent::Done => EventView::Done,
    }
}

pub open spec fn events_view(v: Seq<SseEvent>) -> Seq<EventView> {
    v.map_values(|e: SseEvent| event_view(e))
}

/// Two events per call, in order: its opening, then its arguments.
pub open spec fn call_events(calls: Seq<CallSpec>) -> Seq<EventView>
    decreases calls.len(),
{
    if calls.len() == 0 {
        Seq::empty()
    } else {
        let i = (calls.len() - 1) as nat;
        let c = calls.last();
        call_events(calls.drop_last())
            .push(EventView::ToolCallStart(i, c.id, c.call_type, c.name))
            .push(EventView::ToolCallArguments(i, c.arguments))
    }
}

/// A content event for a non-empty text, nothing for an empty one.
pub open spec fn content_if_any(t: Seq<char>) -> Seq<EventView> {
    if t.len() > 0 { seq![EventView::Content(t)] } else { Seq::empty() }
}

/// The events that end an answer whose whole text is `text`, given the
/// content events still pending: the tool call events in their place when
/// the text holds tool calls, else the pending ones and a stop.
pub open spec fn final_events(text: Seq<char>, pending: Seq<EventView>) -> Seq<EventView> {
    let st = extract_step(feed_view(initial_view(), text));
    if shows_tool_pattern(text) && st.calls.len() > 0 {
        content_if_any(st.prefix) + call_events(st.calls) + content_if_any(trim(st.buffer))
            + seq![EventView::ToolCallsStop, EventView::Done]
    } else {
        pending + seq![EventView::Stop, EventView::Done]
    }
}

pub struct SseView {
    pub id: Seq<char>,
    pub model: Seq<char>,
    pub buffer: Seq<char>,
    pub accumulated: Seq<char>,
    pub pending: Seq<EventView>,
    pub done: bool,
    pub final_flushed: bool,
}

/// The state after the final flush: the buffer goes out as a last content
/// event, and the final events, decided on the whole text (which already
/// holds every token once), replace the pending ones. A second flush
/// changes nothing.
pub open spec fn flushed(v: SseView) -> SseView {
    if v.final_flushed {
        v
    } else {
        let pending = if v.buffer.len() > 0 { v.pending.push(EventView::Content(v.buffer)) } else { v.pending };
        SseView { buffer: Seq::empty(), pending: final_events(v.accumulated, pending), final_flushed: true, ..v }
    }
}

/// What comes from the token channel when the stream asks it.
#[derive(Debug)]
pub enum Incoming {
    /// A token.
    Token(String),
    /// The channel is closed: the target is done.
    Closed,
    /// Nothing yet.
    Empty,
}

/// What the stream does on one poll.
#[derive(Debug)]
pub enum SseStep {
    /// Send this event.
    Emit(SseEvent),
    /// Nothing to send yet; poll again at once.
    Again,
    /// Nothing to send; wait for the channel.
    Wait,
    /// The stream is over.
    End,
}

/// An OpenAI-compatible SSE answer being streamed.
pub struct SseStream {
    id: String,
    model: String,
    buffer: String,
    accumulated: String,
    pending: Vec<SseEvent>,
    done: bool,
    final_flushed: bool,
}

impl View for SseStream {
    type V = SseView;

    closed spec fn view(&self) -> SseView {
        SseView {
            id: self.id@,
            model: self.model@,
            buffer: self.buffer@,
            accumulated: self.accumulated@,
            pending: events_view(self.pending@),
            done: self.done,
            final_flushed: self.final_flushed,
        }
    }
}

/// What one step with `incoming` does to a stream in state `v`, leaving it
/// in state `w` and answering `r`: a token is gathered and sent once the
/// buffer holds 64 bytes; a closed channel brings the final events; an empty
/// channel sends what is buffered.
pub open spec fn incoming_step(v: SseView, incoming: Incoming, w: SseView, r: SseStep) -> bool {
    match incoming {
        Incoming::Token(t) => {
            let buf = v.buffer + t@;
            let acc = v.accumulated + t@;
            if byte_len(buf) >= 64 {
                r matches SseStep::Emit(e) && event_view(e) == EventView::Content(buf)
                    && w == (SseView { buffer: Seq::empty(), accumulated: acc, ..v })
            } else {
                r is Again && w == (SseView { buffer: buf, accumulated: acc, ..v })
            }
        },
        Incoming::Closed => {
            let f = flushed(v);
            if f.pending.len() > 0 {
                r matches SseStep::Emit(e) && event_view(e) == f.pending[0]
                    && w == (SseView { pending: f.pending.drop_first(), done: f.done || f.pending.len() == 1, ..f })
            } else {
                r is End && w == (SseView { done: true, ..f })
            }
        },
        Incoming::Empty => if v.buffer.len() > 0 {
            r matches SseStep::Emit(e) && event_view(e) == EventView::Content(v.buffer)
                && w == (SseView { buffer: Seq::empty(), ..v })
        } else {
            r is Wait && w == v
        },
    }
}

impl SseStream {
    pub fn new(id: String, model: String) -> (r: Self)
        ensures
            r@ == (SseView { id: id@, model: model@, buffer: Seq::empty(), accumulated: Seq::empty(), pending: Seq::empty(), done: false, final_flushed: false }),
    {
        let r = SseStream {
            id,
            model,
            buffer: String::new(),
            accumulated: String::new(),
            pending: Vec::new(),
            done: false,
            final_flushed: false,
        };
        assert(events_view(r.pending@) =~= Seq::<EventView>::empty());
        r
    }

    /// The completion id the chunks carry.
    pub fn id(&self) -> (r: &String)
        ensures
            r@ == self@.id,
    {
        &self.id
    }

    /// The model the chunks name.
    pub fn model(&self) -> (r: &String)
        ensures
            r@ == self@.model,
    {
        &self.model
    }

    /// Computes the final events from the text gathered so far.
    pub fn flush_final(&mut self)
        requires
            !old(self)@.final_flushed ==> tool_text_fits(old(self)@.accumulated),
        ensures
            final(self)@ == flushed(old(self)@),
    {
        if self.final_flushed {
            return;
        }
        self.final_flushed = true;
        if !self.buffer.as_str().is_empty() {
            let b = self.buffer.clone();
            self.pending.push(SseEvent::Content(b));
            self.buffer = String::new();
            assert(events_view(self.pending@) =~= events_view(old(self).pending@).push(EventView::Content(old(self)@.buffer)));
        }
        let ghost text = self.accumulated@;
        let ghost pend = events_view(self.pending@);
        if contains_tool_call_pattern(self.accumulated.as_str()) {
            let result = parse_tool_calls_from_text(self.accumulated.as_str());
            if result.has_tool_calls {
                let ghost st = extract_step(feed_view(initial_view(), text));
                let mut out: Vec<SseEvent> = Vec::new();
                if !result.prefix_text.as_str().is_empty() {
                    out.push(SseEvent::Content(result.prefix_text.clone()));
                }
                assert(events_view(out@) =~= content_if_any(st.prefix));
                let calls = &result.tool_calls;
                let mut i: usize = 0;
                while i < calls.len()
                    invariant
                        i <= calls.len(),
                        calls.len() <= u32::MAX,
                        crate::tool_parser::calls_view(calls@) == st.calls,
                        events_view(out@) == content_if_any(st.prefix) + call_events(st.calls.take(i as int)),
                    decreases calls.len() - i,
                {
                    let tc = &calls[i];
                    let ghost before = events_view(out@);
                    out.push(SseEvent::ToolCallStart {
                        index: i as u32,
                        id: tc.id.clone(),
                        call_type: tc.call_type.clone(),
                        name: tc.function.name.clone(),
                    });
                    out.push(SseEvent::ToolCallArguments { index: i as u32, arguments: tc.function.arguments.clone() });
                    proof {
                        let t = st.calls.take(i + 1);
                        assert(t.drop_last() =~= st.calls.take(i as int));
                        assert(t.last() == crate::tool_parser::call_view(calls@[i as int]));
                        assert(events_view(out@) =~= before
                            .push(EventView::ToolCallStart(i as nat, t.last().id, t.last().call_type, t.last().name))
                            .push(EventView::ToolCallArguments(i as nat, t.last().arguments)));
                    }
                    i = i + 1;
                }
                assert(st.calls.take(i as int) =~= st.calls);
                if !result.suffix_text.as_str().is_empty() {
                    out.push(SseEvent::Content(result.suffix_text.clone()));
                }
                out.push(SseEvent::ToolCallsStop);
                out.push(SseEvent::Done);
                self.pending = out;
                assert(events_view(self.pending@) =~= final_events(text, pend));
                return;
            }
        }
        self.pending.push(SseEvent::Stop);
        self.pending.push(SseEvent::Done);
        assert(events_view(self.pending@) =~= final_events(text, pend));
    }

    /// Takes the first pending event; the stream is over once the last one
    /// is taken.
    fn take_pending(&mut self) -> (r: SseEvent)
        requires
            old(self).pending@.len() > 0,
        ensures
            event_view(r) == old(self)@.pending[0],
            final(self)@ == (SseView {
                pending: old(self)@.pending.drop_first(),
                done: old(self)@.done || old(self)@.pending.len() == 1,
                ..old(self)@
            }),
    {
        let e = self.pending.remove(0);
        if self.pending.len() == 0 {
            self.done = true;
        }
        assert(events_view(self.pending@) =~= events_view(old(self).pending@).drop_first());
        e
    }

    /// The first half of a poll: an ended stream ends, and a pending event
    /// goes out first. `None` asks for the channel to be polled.
    pub fn poll_ready(&mut self) -> (r: Option<SseStep>)
        ensures
            old(self)@.done ==> (r matches Some(SseStep::End) && final(self)@ == old(self)@),
            !old(self)@.done && old(self)@.pending.len() > 0 ==> (r matches Some(SseStep::Emit(e))
                && event_view(e) == old(self)@.pending[0]
                && final(self)@ == (SseView {
                    pending: old(self)@.pending.drop_first(),
                    done: old(self)@.pending.len() == 1,
                    ..old(self)@
                })),
            !old(self)@.done && old(self)@.pending.len() == 0 ==> r is None && final(self)@ == old(self)@,
    {
        if self.done {
            return Some(SseStep::End);
        }
        if self.pending.len() > 0 {
            let e = self.take_pending();
            return Some(SseStep::Emit(e));
        }
        None
    }

    /// The second half of a poll, with what the channel gave: a token is
    /// gathered and sent once the buffer holds 64 bytes; a closed channel
    /// brings the final events; an empty channel sends what is buffered.
    pub fn on_incoming(&mut self, incoming: Incoming) -> (r: SseStep)
        requires
            incoming is Closed && !old(self)@.final_flushed ==> tool_text_fits(old(self)@.accumulated),
            incoming matches Incoming::Token(t) ==> byte_len(old(self)@.buffer + t@) <= usize::MAX,
        ensures
            incoming_step(old(self)@, incoming, final(self)@, r),
    {
        match incoming {
            Incoming::Token(t) => {
                self.accumulated.append(t.as_str());
                self.buffer.append(t.as_str());
                if self.buffer.as_str().len() >= 64 {
                    let data = self.buffer.clone();
                    self.buffer = String::new();
                    SseStep::Emit(SseEvent::Content(data))
                } else {
                    SseStep::Again
                }
            },
            Incoming::Closed => {
                self.flush_final();
                if self.pending.len() > 0 {
                    let e = self.take_pending();
                    SseStep::Emit(e)
                } else {
                    self.done = true;
                    SseStep::End
                }
            },
            Incoming::Empty => {
                if !self.buffer.as_str().is_empty() {
                    let data = self.buffer.clone();
                    self.buffer = String::new();
                    SseStep::Emit(SseEvent::Content(data))
                } else {
                    SseStep::Wait
                }
            },
        }
    }

    /// `on_incoming` where a closing channel's text, if it is read for
    /// calls, holds calls that all get a number; `None`, with the stream
    /// unchanged, where it does not.
    pub fn try_on_incoming(&mut self, incoming: Incoming) -> (r: Option<SseStep>)
        requires
            incoming matches Incoming::Token(t) ==> byte_len(old(self)@.buffer + t@) <= usize::MAX,
        ensures
            r is None <==> (incoming is Closed && !old(self)@.final_flushed && !tool_text_fits(old(self)@.accumulated)),
            r is None ==> final(self)@ == old(self)@,
            r matches Some(step) ==> incoming_step(old(self)@, incoming, final(self)@, step),
    {
        let closed = match &incoming {
            Incoming::Closed => true,
            _ => false,
        };
        if closed && !self.final_flushed {
            let acc = self.accumulated.as_str();
            if contains_tool_call_pattern(acc) && !tool_calls_fit(acc) {
                return None;
            }
        }
        Some(self.on_incoming(incoming))
    }
}

/// Each call gets its own index: the `k`-th parsed call opens with index
/// `k` and its arguments carry index `k`, two events per call in the order
/// of the calls.
pub proof fn law_call_events_are_indexed(calls: Seq<CallSpec>)
    ensures
        call_events(calls).len() == 2 * calls.len(),
        forall|k: int| 0 <= k < calls.len() ==> {
            &&& call_events(calls)[2 * k] == EventView::ToolCallStart(k as nat, calls[k].id, calls[k].call_type, calls[k].name)
            &&& call_events(calls)[2 * k + 1] == EventView::ToolCallArguments(k as nat, calls[k].arguments)
        },
    decreases calls.len(),
{
    if calls.len() > 0 {
        let d = calls.drop_last();
        law_call_events_are_indexed(d);
        assert forall|k: int| 0 <= k < calls.len() implies {
            &&& call_events(calls)[2 * k] == EventView::ToolCallStart(k as nat, calls[k].id, calls[k].call_type, calls[k].name)
            &&& call_events(calls)[2 * k + 1] == EventView::ToolCallArguments(k as nat, calls[k].arguments)
        } by {
            if k < d.len() {
                assert(d[k] == calls[k]);
            }
        }
    }
}

/// Distinct calls are told apart: no two tool call openings in the final
/// events of a call list share an index.
pub proof fn law_call_indexes_are_distinct(calls: Seq<CallSpec>, a: int, b: int)
    requires
        0 <= a < b < calls.len(),
    ensures
        call_events(calls)[2 * a] != call_events(calls)[2 * b],
        call_events(calls)[2 * a + 1] != call_events(calls)[2 * b + 1],
{
    law_call_events_are_indexed(calls);
    let (ca, cb) = (calls[a], calls[b]);
    assert(call_events(calls)[2 * a] == EventView::ToolCallStart(a as nat, ca.id, ca.call_type, ca.name));
    assert(call_events(calls)[2 * b] == EventView::ToolCallStart(b as nat, cb.id, cb.call_type, cb.name));
    assert(call_events(calls)[2 * a + 1] == EventView::ToolCallArguments(a as nat, ca.arguments));
    assert(call_events(calls)[2 * b + 1] == EventView::ToolCallArguments(b as nat, cb.arguments));
}

/// The final flush happens once: flushing a flushed stream changes nothing.
pub proof fn law_final_flush_once(v: SseView)
    ensures
        flushed(flushed(v)) == flushed(v),
        flushed(v).final_flushed,
        !v.final_flushed ==> flushed(v).buffer.len() == 0,
{
}

/// Every answer ends the same way: a last chunk with its finish reason (a
/// stop, or tool calls when the text held any), then the closing `[DONE]`.
pub proof fn law_answer_ends_with_done(text: Seq<char>, pending: Seq<EventView>)
    ensures
        final_events(text, pending).len() >= 2,
        final_events(text, pending).last() == EventView::Done,
        final_events(text, pending)[final_events(text, pending).len() - 2] == EventView::Stop
            || final_events(text, pending)[final_events(text, pending).len() - 2] == EventView::ToolCallsStop,
{
}

} // verus!
