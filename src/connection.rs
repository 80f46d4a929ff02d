//! Where the client connects.

use vstd::prelude::*;
use crate::text::{starts_with};

verus! {

pub open spec fn has_prefix(s: Seq<char>, p: Seq<char>) -> bool {
    p.len() <= s.len() && s.subrange(0, p.len() as int) == p
}

/// Local hosts are reached over plain `ws://`, all others over `wss://`.
pub open spec fn ws_url_text(host: Seq<char>, room_id: Seq<char>) -> Seq<char> {
    let scheme = if has_prefix(host, "localhost"@) || has_prefix(host, "127.0.0.1"@) {
        "ws://"@
    } else {
        "wss://"@
    };
    scheme + host + "/ws/"@ + room_id
}

/// The websocket URL of `room_id` on `host`.
pub fn ws_url(host: &str, room_id: &str) -> (url: String)
    ensures
        url@ == ws_url_text(host@, room_id@),
{
    let local = starts_with(host, "localhost") || starts_with(host, "127.0.0.1");
    let mut url = String::new();
    if local {
        url.append("ws://");
    } else {
        url.append("wss://");
    }
    url.append(host);
    url.append("/ws/");
    url.append(room_id);
    url
}

} // verus!
