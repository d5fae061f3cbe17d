use vstd::prelude::*;

use crate::protocol::{ProfileDto, WsClientMsg, WsServerMsg};
use crate::server::auth::{verify_ws_token, ws_token_ok};
use crate::server::routes::{empty_profile, latest_with_source_or_default};
use crate::server::session::delivered;
use crate::text::opt_string;

verus! {

/// The server's answer to the first message of a session, and the device it
/// admits: an `Auth` with an accepted token is answered `AuthOk` and admits its
/// device (with the name it gave); an `Auth` with another token is answered
/// `AuthError` "invalid token"; any other message is answered `AuthError` "first
/// message must be Auth"; no readable first message is not answered. Only an
/// accepted `Auth` admits a device.
pub fn authenticate(first: Option<WsClientMsg>, expected_token: &str) -> (r: (
    Option<WsServerMsg>,
    Option<(String, Option<String>)>,
))
    ensures
        match first {
            Some(WsClientMsg::Auth { token, device_id, name }) => if ws_token_ok(
                token@,
                expected_token@,
            ) {
                &&& r.0 matches Some(WsServerMsg::AuthOk { device_id: d }) && d == device_id
                &&& r.1 == Some((device_id, name))
            } else {
                &&& r.0 matches Some(WsServerMsg::AuthError { reason }) && reason@
                    == "invalid token"@
                &&& r.1 is None
            },
            Some(_) => {
                &&& r.0 matches Some(WsServerMsg::AuthError { reason }) && reason@
                    == "first message must be Auth"@
                &&& r.1 is None
            },
            None => r.0 is None && r.1 is None,
        },
{
    match first {
        Some(WsClientMsg::Auth { token, device_id, name }) => {
            if !verify_ws_token(token.as_str(), expected_token) {
                (Some(WsServerMsg::AuthError { reason: String::from_str("invalid token") }), None)
            } else {
                (
                    Some(WsServerMsg::AuthOk { device_id: device_id.clone() }),
                    Some((device_id, name)),
                )
            }
        },
        Some(_) => (
            Some(WsServerMsg::AuthError { reason: String::from_str("first message must be Auth") }),
            None,
        ),
        None => (None, None),
    }
}

/// One step of opening the session of an admitted device.
pub enum SessionOp {
    /// Read the profiles that the device missed since it was last seen.
    LoadBacklog { device_id: String },
    /// Record the device as seen now, under this name (an empty name keeps the one
    /// on record).
    Register { device_id: String, name: String },
    /// Send the backlog read in the first step, when it is not empty.
    SendBacklog,
}

/// The steps that open the session of an admitted device, in order: the backlog is
/// read before the device is registered, since registering moves the time from which
/// the backlog counts.
pub fn session_opening(device_id: &str, name: Option<String>) -> (ops: Vec<SessionOp>)
    ensures
        ops@.len() == 3,
        ops@[0] matches SessionOp::LoadBacklog { device_id: d } && d@ == device_id@,
        ops@[1] matches SessionOp::Register { device_id: d, name: n } && d@ == device_id@ && n@
            == crate::server::db::text_or_empty(name),
        ops@[2] is SendBacklog,
{
    let mut ops: Vec<SessionOp> = Vec::new();
    ops.push(SessionOp::LoadBacklog { device_id: device_id.to_owned() });
    ops.push(
        SessionOp::Register {
            device_id: device_id.to_owned(),
            name: crate::server::db::registered_name(name),
        },
    );
    ops.push(SessionOp::SendBacklog);
    ops
}

/// What the server does with a message of an admitted device.
pub enum ClientAction {
    /// Store the profile, then broadcast it.
    Store { payload: ProfileDto, device_id: String },
    /// Answer with the latest stored profile.
    SendLatest,
    /// Nothing (a repeated `Auth`).
    Ignore,
}

/// Classifies a message of an admitted device.
pub fn client_action(msg: WsClientMsg) -> (a: ClientAction)
    ensures
        match msg {
            WsClientMsg::LiteClipSync { payload, device_id } => a matches ClientAction::Store {
                payload: p,
                device_id: d,
            } && p == payload && d == device_id,
            WsClientMsg::GetLatest => a is SendLatest,
            WsClientMsg::Auth { .. } => a is Ignore,
        },
{
    match msg {
        WsClientMsg::LiteClipSync { payload, device_id } => ClientAction::Store { payload, device_id },
        WsClientMsg::GetLatest => ClientAction::SendLatest,
        WsClientMsg::Auth { .. } => ClientAction::Ignore,
    }
}

/// A server message with its routing on the broadcast channel.
pub struct Outgoing {
    pub msg: WsServerMsg,
    pub source_device_id: Option<String>,
    pub target_device_id: Option<String>,
}

/// The broadcast of a stored profile: it names the device that sent it and that
/// device's registered name (empty when unknown), and it is routed as coming from the
/// sending connection, to every other one.
pub fn clip_broadcast(
    payload: ProfileDto,
    device_id: String,
    source_name: Option<String>,
    my_device_id: &str,
) -> (o: Outgoing)
    ensures
        o.msg matches WsServerMsg::ClipBroadcast { payload: p, source_device_id, source_device_name }
            && p == payload && source_device_id == device_id && source_device_name@
            == crate::server::db::text_or_empty(source_name),
        opt_string(o.source_device_id) == Some(my_device_id@),
        o.target_device_id is None,
{
    let name = crate::server::db::registered_name(source_name);
    Outgoing {
        msg: WsServerMsg::ClipBroadcast {
            payload,
            source_device_id: device_id,
            source_device_name: name,
        },
        source_device_id: Some(my_device_id.to_owned()),
        target_device_id: None,
    }
}

/// What storing a profile leads to: its broadcast when the save succeeded; when it
/// failed the profile is dropped and nothing is broadcast.
pub fn broadcast_after_save(
    saved: bool,
    payload: ProfileDto,
    device_id: String,
    source_name: Option<String>,
    my_device_id: &str,
) -> (o: Option<Outgoing>)
    ensures
        !saved ==> o is None,
        saved ==> (o matches Some(out) && out.msg matches WsServerMsg::ClipBroadcast {
            payload: p,
            source_device_id,
            source_device_name,
        } && p == payload && source_device_id == device_id && source_device_name@
            == crate::server::db::text_or_empty(source_name) && opt_string(out.source_device_id)
            == Some(my_device_id@) && out.target_device_id is None),
{
    if saved {
        Some(clip_broadcast(payload, device_id, source_name, my_device_id))
    } else {
        None
    }
}

/// The answer to `GetLatest`: the latest profile, its origin and time (all empty when
/// none is stored), routed to the asking device only.
pub fn latest_reply(latest: Option<(ProfileDto, String, String)>, my_device_id: &str) -> (o:
    Outgoing)
    ensures
        o.msg matches WsServerMsg::LatestProfile { payload, source_device_id, created_at }
            && match latest {
            Some(l) => payload == l.0 && source_device_id == l.1 && created_at == l.2,
            None => payload@ == empty_profile() && source_device_id@.len() == 0
                && created_at@.len() == 0,
        },
        opt_string(o.source_device_id) == Some(my_device_id@),
        opt_string(o.target_device_id) == Some(my_device_id@),
{
    let (payload, source_device_id, created_at) = latest_with_source_or_default(latest);
    Outgoing {
        msg: WsServerMsg::LatestProfile { payload, source_device_id, created_at },
        source_device_id: Some(my_device_id.to_owned()),
        target_device_id: Some(my_device_id.to_owned()),
    }
}

/// The backlog sent after authentication: the missed profiles, or nothing when none
/// were missed.
pub fn backlog_message(entries: Vec<ProfileDto>) -> (m: Option<WsServerMsg>)
    ensures
        entries@.len() == 0 ==> m is None,
        entries@.len() > 0 ==> (m matches Some(WsServerMsg::Backlog { entries: e }) && e == entries),
{
    if entries.len() == 0 {
        None
    } else {
        Some(WsServerMsg::Backlog { entries })
    }
}

/// A stored profile's broadcast reaches every connected device except the connection
/// that sent it.
pub proof fn lemma_broadcast_skips_only_sender(my_device_id: Seq<char>, device: Seq<char>)
    ensures
        delivered(Some(my_device_id), None, device) == (device != my_device_id),
{
}

/// The answer to `GetLatest` reaches the asking device and no other.
pub proof fn lemma_latest_reaches_only_asker(my_device_id: Seq<char>, device: Seq<char>)
    ensures
        delivered(Some(my_device_id), Some(my_device_id), device) == (device == my_device_id),
{
}

} // verus!
