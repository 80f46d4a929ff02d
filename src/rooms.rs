//! Creation of rooms: their identifiers and the command that joins one.

use vstd::prelude::*;

verus! {

/// Length of a generated room identifier.
pub const ROOM_ID_LENGTH: usize = 10;

/// The URL-safe alphabet of generated identifiers: `_`, `-`, digits and
/// ASCII letters.
pub open spec fn url_safe(c: char) -> bool {
    c == '_' || c == '-' || ('0' <= c && c <= '9') || ('a' <= c && c <= 'z') || ('A' <= c && c <= 'Z')
}

/// Relies on `nanoid::format` with `nanoid::rngs::default` and
/// `nanoid::alphabet::SAFE`: `size` characters drawn at random from that
/// alphabet (it does not return for a size of zero).
#[verifier::external_body]
fn random_id(size: usize) -> (r: String)
    requires
        size > 0,
    ensures
        r@.len() == size,
        forall|i: int| 0 <= i < r@.len() ==> url_safe(#[trigger] r@[i]),
{
    nanoid::format(nanoid::rngs::default, &nanoid::alphabet::SAFE, size)
}

/// A fresh random room identifier.
pub fn generate_room_id() -> (id: String)
    ensures
        id@.len() == ROOM_ID_LENGTH,
        forall|i: int| 0 <= i < id@.len() ==> url_safe(#[trigger] id@[i]),
{
    random_id(ROOM_ID_LENGTH)
}

/// `sh -c "$(curl -fsSL http://HOST/join/ROOM)"`.
pub open spec fn install_command_text(host: Seq<char>, room_id: Seq<char>) -> Seq<char> {
    "sh -c \"$(curl -fsSL http://"@ + host + "/join/"@ + room_id + ")\""@
}

/// Answer to a room-creation request.
#[derive(Debug, Clone, PartialEq, Eq)]
pub struct CreateRoomResponse {
    pub room_id: String,
    pub install_command: String,
}

impl CreateRoomResponse {
    /// The response for `room_id`, served from `host`.
    pub fn new(room_id: String, host: &str) -> (r: Self)
        ensures
            r.room_id == room_id,
            r.install_command@ == install_command_text(host@, room_id@),
    {
        let mut cmd = String::new();
        cmd.append("sh -c \"$(curl -fsSL http://");
        cmd.append(host);
        cmd.append("/join/");
        cmd.append(room_id.as_str());
        cmd.append(")\"");
        assert(cmd@ =~= install_command_text(host@, room_id@));
        CreateRoomResponse { room_id, install_command: cmd }
    }
}

} // verus!
