//! What the GUI tells the server about its viewport, and how it judges the
//! server's answer to its handshake.

use vstd::prelude::*;

verus! {

/// Viewport geometry reported to the server during handshake and on resize.
#[derive(Debug, Clone, Copy, PartialEq, Eq, Structural)]
pub struct Geometry {
    pub cols: u16,
    pub rows: u16,
    pub cell_width_px: u32,
    pub cell_height_px: u32,
}

/// The first message the server sends back after the client's hello.
#[derive(Debug, Clone)]
pub enum HandshakeReply {
    /// The server's welcome: whether it granted full semantic frames, and
    /// the reason it gave if it rejected the client.
    Welcome { semantic_frame: bool, error: Option<String> },
    /// Any other message.
    Other,
}

/// Why a handshake failed.
#[derive(Debug, Clone)]
pub enum HandshakeError {
    /// The server rejected the client, with its reason.
    Rejected(String),
    /// The server did not grant semantic-frame encoding.
    WrongEncoding,
    /// The server answered with something other than a welcome.
    Unexpected,
}

/// Judges the server's reply to the hello: a welcome without an error that
/// grants semantic frames completes the handshake; a rejection is reported
/// first, then a missing semantic-frame grant, then any non-welcome reply.
pub fn check_welcome(reply: HandshakeReply) -> (r: Result<(), HandshakeError>)
    ensures
        match reply {
            HandshakeReply::Welcome { semantic_frame, error } => match error {
                Some(reason) => r matches Err(HandshakeError::Rejected(e)) && e@ == reason@,
                None => if semantic_frame {
                    r is Ok
                } else {
                    r matches Err(HandshakeError::WrongEncoding)
                },
            },
            HandshakeReply::Other => r matches Err(HandshakeError::Unexpected),
        },
{
    match reply {
        HandshakeReply::Welcome { semantic_frame, error } => {
            if let Some(reason) = error {
                return Err(HandshakeError::Rejected(reason));
            }
            if !semantic_frame {
                return Err(HandshakeError::WrongEncoding);
            }
            Ok(())
        },
        HandshakeReply::Other => Err(HandshakeError::Unexpected),
    }
}

/// The frame encoding a client asks the server for (the one this client
/// uses).
#[derive(Debug, Clone, Copy, PartialEq, Eq, Structural)]
pub enum RenderEncoding {
    /// Whole semantic frames: cells with symbols, colors and modifiers.
    SemanticFrame,
}

/// Whose keybindings apply to the client's input (the choice this client
/// makes).
#[derive(Debug, Clone, Copy, PartialEq, Eq, Structural)]
pub enum ClientKeybindings {
    Server,
}

/// How the client was launched (as this client is).
#[derive(Debug, Clone, Copy, PartialEq, Eq, Structural)]
pub enum ClientLaunchMode {
    App,
}

/// The GUI's hello to the server, but for the protocol version, which the
/// wire layer adds.
#[derive(Debug, Clone, Copy, PartialEq, Eq, Structural)]
pub struct Hello {
    pub cols: u16,
    pub rows: u16,
    pub cell_width_px: u32,
    pub cell_height_px: u32,
    pub requested_encoding: RenderEncoding,
    pub keybindings: ClientKeybindings,
    pub launch_mode: ClientLaunchMode,
}

/// The hello for a viewport: its grid and cell size, asking for semantic
/// frames, with the server's keybindings, as an app client.
pub fn hello(geometry: Geometry) -> (h: Hello)
    ensures
        h == (Hello {
            cols: geometry.cols,
            rows: geometry.rows,
            cell_width_px: geometry.cell_width_px,
            cell_height_px: geometry.cell_height_px,
            requested_encoding: RenderEncoding::SemanticFrame,
            keybindings: ClientKeybindings::Server,
            launch_mode: ClientLaunchMode::App,
        }),
{
    Hello {
        cols: geometry.cols,
        rows: geometry.rows,
        cell_width_px: geometry.cell_width_px,
        cell_height_px: geometry.cell_height_px,
        requested_encoding: RenderEncoding::SemanticFrame,
        keybindings: ClientKeybindings::Server,
        launch_mode: ClientLaunchMode::App,
    }
}

/// Why setting a receive timeout failed.
#[derive(Debug, Clone)]
pub enum TimeoutError {
    /// The stream kind has no receive timeouts (named pipes).
    Unsupported,
    /// Any other failure, with its message.
    Other(String),
}

/// Setting a receive timeout at best effort: a stream without timeouts
/// counts as success, so callers can rely on blocking reads everywhere;
/// any other failure is passed on.
pub fn best_effort(set: Result<(), TimeoutError>) -> (r: Result<(), TimeoutError>)
    ensures
        match set {
            Ok(()) => r is Ok,
            Err(TimeoutError::Unsupported) => r is Ok,
            Err(TimeoutError::Other(m)) => r matches Err(TimeoutError::Other(e)) && e@ == m@,
        },
{
    match set {
        Ok(()) => Ok(()),
        Err(TimeoutError::Unsupported) => Ok(()),
        Err(TimeoutError::Other(m)) => Err(TimeoutError::Other(m)),
    }
}

} // verus!
