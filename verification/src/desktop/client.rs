use vstd::prelude::*;

use crate::desktop::config::Config;
use crate::protocol::{ProfileDto, WsClientMsg, WsServerMsg};
use crate::text::{concat, trim_end_char};

verus! {

/// The server's answer to `GET /profile/latest`.
#[derive(Debug)]
pub struct LatestProfileResponse {
    pub payload: ProfileDto,
    pub source_device_id: String,
    pub created_at: String,
}

/// `/file/`.
pub open spec fn file_route() -> Seq<char> {
    seq!['/', 'f', 'i', 'l', 'e', '/']
}

/// `/profile/latest`.
pub open spec fn latest_route() -> Seq<char> {
    seq!['/', 'p', 'r', 'o', 'f', 'i', 'l', 'e', '/', 'l', 'a', 't', 'e', 's', 't']
}

/// The URL under which a file is uploaded and downloaded.
pub fn file_url(config: &Config, data_name: &str) -> (r: String)
    ensures
        r@ == trim_end_char(config.server_url@, '/') + file_route() + data_name@,
{
    let base = config.api_base();
    let a = concat(base.as_str(), "/file/");
    proof {
        reveal_strlit("/file/");
        assert("/file/"@ =~= file_route());
    }
    concat(a.as_str(), data_name)
}

/// The URL of the latest profile.
pub fn latest_url(config: &Config) -> (r: String)
    ensures
        r@ == trim_end_char(config.server_url@, '/') + latest_route(),
{
    let base = config.api_base();
    proof {
        reveal_strlit("/profile/latest");
        assert("/profile/latest"@ =~= latest_route());
    }
    concat(base.as_str(), "/profile/latest")
}

/// The first message of a session: the token, the device id and the device name.
pub fn auth_message(config: &Config) -> (m: WsClientMsg)
    ensures
        m matches WsClientMsg::Auth { token, device_id, name } && token == config.token
            && device_id == config.device_id && name == Some(config.device_name),
{
    WsClientMsg::Auth {
        token: config.token.clone(),
        device_id: config.device_id.clone(),
        name: Some(config.device_name.clone()),
    }
}

/// `auth error: `.
pub open spec fn auth_error_prefix() -> Seq<char> {
    seq!['a', 'u', 't', 'h', ' ', 'e', 'r', 'r', 'o', 'r', ':', ' ']
}

/// `unexpected response: `.
pub open spec fn unexpected_prefix() -> Seq<char> {
    seq![
        'u', 'n', 'e', 'x', 'p', 'e', 'c', 't', 'e', 'd', ' ', 'r', 'e', 's', 'p', 'o', 'n', 's',
        'e', ':', ' ',
    ]
}

/// The outcome of the server's answer to `Auth`: the device id it confirms, or the
/// error to report (`raw` is the text of the answer).
pub fn auth_reply(reply: WsServerMsg, raw: &str) -> (r: Result<String, String>)
    ensures
        match reply {
            WsServerMsg::AuthOk { device_id } => r == Ok::<String, String>(device_id),
            WsServerMsg::AuthError { reason } => r matches Err(e) && e@ == auth_error_prefix()
                + reason@,
            _ => r matches Err(e) && e@ == unexpected_prefix() + raw@,
        },
{
    match reply {
        WsServerMsg::AuthOk { device_id } => Ok(device_id),
        WsServerMsg::AuthError { reason } => {
            proof {
                reveal_strlit("auth error: ");
                assert("auth error: "@ =~= auth_error_prefix());
            }
            Err(concat("auth error: ", reason.as_str()))
        },
        _ => {
            proof {
                reveal_strlit("unexpected response: ");
                assert("unexpected response: "@ =~= unexpected_prefix());
            }
            Err(concat("unexpected response: ", raw))
        },
    }
}

/// One event read from the WebSocket.
pub enum WsFrame {
    Text(String),
    Binary,
    Ping,
    Pong,
    Close,
    Frame,
    /// The stream reported an error.
    Failed,
    /// The stream ended.
    Ended,
}

/// What the reader does with an event.
#[derive(Debug)]
pub enum ReadStep {
    /// Parse this text as a server message (skipping it when it does not parse).
    Parse(String),
    /// Read the next event.
    Skip,
    /// The session is over.
    Stop,
}

/// How the reader treats each event: texts are parsed, pings, pongs and binary or raw
/// frames are skipped, and a close, an error or the end of the stream stop it.
pub fn read_step(frame: WsFrame) -> (r: ReadStep)
    ensures
        match frame {
            WsFrame::Text(t) => r matches ReadStep::Parse(u) && u == t,
            WsFrame::Ping | WsFrame::Pong | WsFrame::Binary | WsFrame::Frame => r is Skip,
            WsFrame::Close | WsFrame::Failed | WsFrame::Ended => r is Stop,
        },
{
    match frame {
        WsFrame::Text(t) => ReadStep::Parse(t),
        WsFrame::Ping | WsFrame::Pong | WsFrame::Binary | WsFrame::Frame => ReadStep::Skip,
        WsFrame::Close | WsFrame::Failed | WsFrame::Ended => ReadStep::Stop,
    }
}

/// Why the answer to `Auth` could not be read.
#[derive(Debug, Clone, Copy, PartialEq, Eq, Structural)]
pub enum AuthFrameError {
    /// A frame other than text arrived.
    UnexpectedMessage,
    /// The stream reported an error.
    Failed,
    /// The connection closed.
    Closed,
}

/// The text of the answer to `Auth`, or why there is none: only a text frame is an
/// answer; any other frame, an error or the end of the stream fails the handshake.
pub fn auth_frame(frame: WsFrame) -> (r: Result<String, AuthFrameError>)
    ensures
        match frame {
            WsFrame::Text(t) => r == Ok::<String, AuthFrameError>(t),
            WsFrame::Failed => r == Err::<String, AuthFrameError>(AuthFrameError::Failed),
            WsFrame::Ended => r == Err::<String, AuthFrameError>(AuthFrameError::Closed),
            _ => r == Err::<String, AuthFrameError>(AuthFrameError::UnexpectedMessage),
        },
{
    match frame {
        WsFrame::Text(t) => Ok(t),
        WsFrame::Failed => Err(AuthFrameError::Failed),
        WsFrame::Ended => Err(AuthFrameError::Closed),
        _ => Err(AuthFrameError::UnexpectedMessage),
    }
}

/// The message that announces a local clipboard change.
pub fn clip_message(profile: &ProfileDto, config: &Config) -> (m: WsClientMsg)
    ensures
        m matches WsClientMsg::LiteClipSync { payload, device_id } && payload == *profile
            && device_id == config.device_id,
{
    WsClientMsg::LiteClipSync { payload: profile.duplicate(), device_id: config.device_id.clone() }
}

} // verus!
