//! Bridging a WebSocket to a shell inside a session's container.
use vstd::prelude::*;
use vstd::string::StrSliceExecFns;
use crate::agent::types::ControlMsg;
use crate::text::{copy_str, strings_view};

verus! {

/// Rows of the terminal when it opens.
pub const INITIAL_ROWS: u16 = 24;

/// Columns of the terminal when it opens.
pub const INITIAL_COLS: u16 = 80;

/// The `docker` arguments that open an interactive shell in `container_id`.
pub fn docker_exec_args(container_id: &str) -> (r: Vec<String>)
    ensures
        strings_view(r@) == seq![
            "exec"@,
            "-it"@,
            container_id@,
            "sh"@,
            "-lc"@,
            "export TERM=xterm-256color; exec sh"@,
        ],
{
    let mut r: Vec<String> = Vec::new();
    r.push(copy_str("exec"));
    r.push(copy_str("-it"));
    r.push(copy_str(container_id));
    r.push(copy_str("sh"));
    r.push(copy_str("-lc"));
    r.push(copy_str("export TERM=xterm-256color; exec sh"));
    assert(strings_view(r@) =~= seq![
        "exec"@,
        "-it"@,
        container_id@,
        "sh"@,
        "-lc"@,
        "export TERM=xterm-256color; exec sh"@,
    ]);
    r
}

/// What arrives from the browser side of a terminal connection.
#[derive(Debug)]
pub enum TerminalInput {
    /// Raw bytes for the shell.
    Binary(Vec<u8>),
    /// A text frame, and the control message it reads as, if it reads as one.
    Text { text: String, control: Option<ControlMsg> },
    /// The browser closed the connection.
    Close,
    /// The connection failed.
    Failed,
    /// Any other frame (ping, pong).
    Other,
}

/// What the bridge does with an input.
#[derive(Debug)]
pub enum TerminalAction {
    /// Sends bytes to the shell; when they cannot be delivered the bridge
    /// ends if `end_if_undelivered`, and goes on otherwise.
    Forward { bytes: Vec<u8>, end_if_undelivered: bool },
    /// Resizes the terminal.
    Resize { rows: u16, cols: u16 },
    /// Ends the bridge.
    Stop,
    /// Nothing to do.
    Ignore,
}

/// What the bridge does with `input`: binary frames go to the shell as they
/// are; a text frame that reads as a resize request resizes the terminal,
/// any other text goes to the shell as its UTF-8 bytes followed by a newline
/// (and a failed delivery of text is not fatal); close and failure end the
/// bridge.
pub fn terminal_action(input: TerminalInput) -> (r: TerminalAction)
    ensures
        match input {
            TerminalInput::Binary(data) => r matches TerminalAction::Forward {
                bytes,
                end_if_undelivered,
            } && bytes@ == data@ && end_if_undelivered,
            TerminalInput::Text { text, control } => match control {
                Some(ControlMsg::Resize { cols, rows }) => r == (TerminalAction::Resize {
                    rows,
                    cols,
                }),
                None => r matches TerminalAction::Forward { bytes, end_if_undelivered } && bytes@
                    == vstd::utf8::encode_utf8(text@).push(10u8) && !end_if_undelivered,
            },
            TerminalInput::Close => r is Stop,
            TerminalInput::Failed => r is Stop,
            TerminalInput::Other => r is Ignore,
        },
{
    match input {
        TerminalInput::Binary(data) => TerminalAction::Forward { bytes: data, end_if_undelivered: true },
        TerminalInput::Text { text, control } => match control {
            Some(ControlMsg::Resize { cols, rows }) => TerminalAction::Resize { rows, cols },
            None => {
                let mut bytes = text.as_str().as_bytes_vec();
                bytes.push(10u8);
                TerminalAction::Forward { bytes, end_if_undelivered: false }
            },
        },
        TerminalInput::Close => TerminalAction::Stop,
        TerminalInput::Failed => TerminalAction::Stop,
        TerminalInput::Other => TerminalAction::Ignore,
    }
}

} // verus!
