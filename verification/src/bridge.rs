//! Bridges one client WebSocket to one browser's CDP pipe.
//!
//! Hot path is raw frames: one WS message equals one `\0`-delimited CDP
//! message, no JSON parsing in either direction.

use crate::chrome::pipe;
use crate::text;
use vstd::prelude::*;

verus! {

/// The close code for a browser that went away.
pub const CLOSE_BROWSER_GONE: u16 = 1011;

/// The close code for a client that was idle for too long.
pub const CLOSE_IDLE_TIMEOUT: u16 = 1013;

/// What comes from the client.
#[derive(Debug)]
pub enum ClientEvent {
    /// A text or binary message.
    Data(Vec<u8>),
    /// A ping or pong.
    Control,
    /// A close message, the end of the stream, or a broken one.
    Closed,
    /// Nothing, for this many milliseconds.
    Idle(u128),
    /// The last message could not be passed on to the browser.
    SendFailed,
}

/// Why the client pump exited.
#[derive(Debug, Clone, Copy, PartialEq, Eq, Structural)]
pub enum PumpExit {
    /// Client closed the WebSocket, or a send/upstream error broke the pump.
    ClientClosed,
    /// No client->browser message arrived within this many milliseconds.
    IdleTimeout(u128),
}

/// What the client pump does next.
#[derive(Debug)]
pub enum ClientStep {
    /// Write these bytes to the browser's pipe.
    Forward(Vec<u8>),
    /// Wait for the next message.
    Next,
    /// Stop pumping.
    Exit(PumpExit),
}

/// What the client pump does with what comes from the client: each message
/// becomes one frame.
pub fn pump_client_to_browser(event: ClientEvent) -> (r: ClientStep)
    ensures
        match event {
            ClientEvent::Data(bytes) => r matches ClientStep::Forward(frame) && frame@
                == bytes@.push(0),
            ClientEvent::Control => r is Next,
            ClientEvent::Closed => r == ClientStep::Exit(PumpExit::ClientClosed),
            ClientEvent::Idle(ms) => r == ClientStep::Exit(PumpExit::IdleTimeout(ms)),
            ClientEvent::SendFailed => r == ClientStep::Exit(PumpExit::ClientClosed),
        },
{
    match event {
        ClientEvent::Data(bytes) => ClientStep::Forward(pipe::frame_raw(bytes.as_slice())),
        ClientEvent::Control => ClientStep::Next,
        ClientEvent::Closed => ClientStep::Exit(PumpExit::ClientClosed),
        ClientEvent::Idle(ms) => ClientStep::Exit(PumpExit::IdleTimeout(ms)),
        ClientEvent::SendFailed => ClientStep::Exit(PumpExit::ClientClosed),
    }
}

/// What comes from the browser.
#[derive(Debug)]
pub enum BrowserEvent {
    /// A frame.
    Frame(Vec<u8>),
    /// The end of the pipe, or a broken one.
    Gone,
    /// The last frame could not be passed on to the client.
    SendFailed,
}

/// Why a connection is closed.
#[derive(Debug, PartialEq, Eq)]
pub struct CloseInfo {
    /// The close code.
    pub code: u16,
    /// The reason.
    pub reason: String,
}

/// What the browser pump does next.
#[derive(Debug)]
pub enum BrowserStep {
    /// Send this text message to the client.
    Text(String),
    /// Send this binary message to the client.
    Binary(Vec<u8>),
    /// Send this close message to the client and stop pumping.
    Close(CloseInfo),
    /// Stop pumping.
    Exit,
}

/// What the browser pump does with what comes from the browser: a frame goes
/// on as text if it is valid UTF-8, as binary otherwise, with the same bytes.
/// When the browser is gone the client is told so.
pub fn pump_browser_to_client(event: BrowserEvent) -> (r: BrowserStep)
    ensures
        match event {
            BrowserEvent::Frame(bytes) => if vstd::utf8::valid_utf8(bytes@) {
                r matches BrowserStep::Text(s) && vstd::utf8::encode_utf8(s@) == bytes@
            } else {
                r == BrowserStep::Binary(bytes)
            },
            BrowserEvent::Gone => r matches BrowserStep::Close(info) && info.code
                == CLOSE_BROWSER_GONE && info.reason@ == "browser closed"@,
            BrowserEvent::SendFailed => r is Exit,
        },
{
    match event {
        BrowserEvent::Frame(bytes) => {
            let text = match text::utf8_str(bytes.as_slice()) {
                Some(s) => Some(s.to_owned()),
                None => None,
            };
            match text {
                Some(s) => {
                    proof {
                        vstd::utf8::decode_utf8_encode_utf8(bytes@);
                    }
                    BrowserStep::Text(s)
                },
                None => BrowserStep::Binary(bytes),
            }
        },
        BrowserEvent::Gone => BrowserStep::Close(
            CloseInfo { code: CLOSE_BROWSER_GONE, reason: "browser closed".to_owned() },
        ),
        BrowserEvent::SendFailed => BrowserStep::Exit,
    }
}

/// Which side of a bridge ended first.
#[derive(Debug, Clone, Copy, PartialEq, Eq, Structural)]
pub enum BridgeEnd {
    /// The client's side.
    Client(PumpExit),
    /// The browser's side.
    Browser,
}

/// What is left to do when a bridge has ended.
#[derive(Debug)]
pub struct Ended {
    /// The close message to send to the client, if there is one.
    pub close: Option<CloseInfo>,
    /// Whether the pipe can be used again.
    pub reclaimed: bool,
}

/// What is left to do when a bridge has ended. The pipe can be reclaimed when
/// the CLIENT's side ended (the browser is still alive, so the caller can run
/// post-session capture over it), not when the browser closed first (nothing
/// left to capture). A client that was idle is told so.
pub fn bridge_reclaimable(end: BridgeEnd) -> (r: Ended)
    ensures
        r.reclaimed == (end is Client),
        match end {
            BridgeEnd::Client(PumpExit::IdleTimeout(ms)) => r.close matches Some(info) && info.code
                == CLOSE_IDLE_TIMEOUT && info.reason@ == "idle-timeout after "@ + text::decimal_of(
                ms as nat,
            ) + "ms"@,
            _ => r.close is None,
        },
{
    match end {
        BridgeEnd::Client(PumpExit::ClientClosed) => Ended { close: None, reclaimed: true },
        BridgeEnd::Client(PumpExit::IdleTimeout(ms)) => {
            let mut reason = "idle-timeout after ".to_owned();
            reason.append(text::decimal(ms).as_str());
            reason.append("ms");
            Ended {
                close: Some(CloseInfo { code: CLOSE_IDLE_TIMEOUT, reason }),
                reclaimed: true,
            }
        },
        BridgeEnd::Browser => Ended { close: None, reclaimed: false },
    }
}

} // verus!
