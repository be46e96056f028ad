//! The real-time side of the gateway: the events pushed to WebSocket
//! clients, and the decisions of the interactive terminal's two pumps (shell
//! output to the client, client input to the shell).
use vstd::prelude::*;

verus! {

/// Events pushed to connected WebSocket clients.
#[derive(Debug, Clone)]
pub enum WsEvent {
    /// Streaming token from the LLM.
    Token { session_id: String, content: String },
    /// LLM response complete.
    ResponseDone { session_id: String, response: String },
    /// Tool call requested by the LLM.
    ToolCall { session_id: String, tool_name: String, arguments: String },
    /// Tool execution result.
    ToolResult { session_id: String, tool_name: String, result: String, is_error: bool },
    /// Session created or deleted.
    SessionEvent { session_id: String, action: String },
}

/// The shell the terminal runs: `$SHELL`, or bash.
pub fn shell_program(shell_env: Option<String>) -> (r: String)
    ensures
        r@ == (match shell_env { Some(s) => s@, None => "/bin/bash"@ }),
{
    match shell_env {
        Some(s) => s,
        None => String::from_str("/bin/bash"),
    }
}

/// The size of the buffers the shell's output is read into.
pub fn read_buffer_size() -> (r: usize)
    ensures
        r == 4096,
{
    4096
}

/// What the output pump does after a read from the shell.
#[derive(Debug, Clone, Copy, PartialEq, Eq, Structural)]
pub enum OutputStep {
    /// Send the bytes read to the client.
    Forward,
    /// Read again.
    Continue,
    /// Stop pumping.
    Stop,
}

/// The output pump's answer to a read of `read` bytes (`None` when the read
/// failed) from the shell's standard output or error: data goes to the
/// client; the end of standard output or any failure stops the pump, while
/// the end of standard error only leaves standard output to read.
pub fn output_step(from_stdout: bool, read: Option<usize>) -> (r: OutputStep)
    ensures
        read is None ==> r == OutputStep::Stop,
        read matches Some(n) && n > 0 ==> r == OutputStep::Forward,
        read == Some(0usize) ==> r == (if from_stdout { OutputStep::Stop } else { OutputStep::Continue }),
{
    match read {
        None => OutputStep::Stop,
        Some(0) => if from_stdout { OutputStep::Stop } else { OutputStep::Continue },
        Some(_) => OutputStep::Forward,
    }
}

/// A message from the terminal's client, as far as the input pump cares.
#[derive(Debug, Clone)]
pub enum TerminalInput {
    Binary(Vec<u8>),
    Text(String),
    Close,
    Failed,
    Other,
}

/// What the input pump does with one message.
#[derive(Debug, Clone)]
pub enum InputStep {
    /// Write these bytes to the shell and flush.
    Write(Vec<u8>),
    /// Wait for the next message.
    Continue,
    /// Stop pumping.
    Stop,
}

/// The input pump's answer to a client message: binary data and text (as
/// its UTF-8 bytes) go to the shell; a close or a failure stops the pump;
/// anything else is passed over.
pub fn input_step(msg: TerminalInput) -> (r: InputStep)
    ensures
        match msg {
            TerminalInput::Binary(d) => r matches InputStep::Write(w) && w@ == d@,
            TerminalInput::Text(t) => r matches InputStep::Write(w) && w@ == vstd::utf8::encode_utf8(t@),
            TerminalInput::Close => r is Stop,
            TerminalInput::Failed => r is Stop,
            TerminalInput::Other => r is Continue,
        },
{
    match msg {
        TerminalInput::Binary(d) => InputStep::Write(d),
        TerminalInput::Text(t) => {
            let b = t.as_str().as_bytes();
            let mut out: Vec<u8> = Vec::new();
            let mut i: usize = 0;
            while i < b.len()
                invariant
                    i <= b.len(),
                    b@ == vstd::utf8::encode_utf8(t@),
                    out@ == b@.take(i as int),
                decreases b.len() - i,
            {
                out.push(b[i]);
                assert(b@.take(i + 1) =~= b@.take(i as int).push(b@[i as int]));
                i = i + 1;
            }
            assert(b@.take(i as int) =~= b@);
            InputStep::Write(out)
        },
        TerminalInput::Close => InputStep::Stop,
        TerminalInput::Failed => InputStep::Stop,
        TerminalInput::Other => InputStep::Continue,
    }
}

} // verus!
