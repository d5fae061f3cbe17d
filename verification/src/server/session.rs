use vstd::prelude::*;

use crate::text::{chars_eq, chars_of, opt_string};

verus! {

/// A message on the server's broadcast channel: the JSON text to send, the connection
/// it came from, and the one device it is meant for, if any.
#[derive(Clone, Debug)]
pub struct WsMessage {
    pub data: String,
    pub source_device_id: Option<String>,
    pub target_device_id: Option<String>,
}

/// Whether a connection of `device` sends on a message: a targeted message goes to
/// its target only; any other goes to every connection but the one it came from.
pub open spec fn delivered(source: Option<Seq<char>>, target: Option<Seq<char>>, device: Seq<char>) -> bool {
    match target {
        Some(t) => t == device,
        None => source != Some(device),
    }
}

/// Decides whether the connection of `my_device_id` forwards a channel message.
pub fn should_deliver(msg: &WsMessage, my_device_id: &str) -> (r: bool)
    ensures
        r == delivered(
            opt_string(msg.source_device_id),
            opt_string(msg.target_device_id),
            my_device_id@,
        ),
{
    let me = chars_of(my_device_id);
    match &msg.target_device_id {
        Some(t) => chars_eq(&chars_of(t.as_str()), &me),
        None => match &msg.source_device_id {
            Some(s) => !chars_eq(&chars_of(s.as_str()), &me),
            None => true,
        },
    }
}

} // verus!
