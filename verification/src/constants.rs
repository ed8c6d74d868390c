//! Server-wide constants and identification strings.

use vstd::prelude::*;
use vstd::string::StringExecFns;
use crate::protocol_version::ProtocolVersion;

verus! {

/// The largest datagram the voice transport accepts.
pub const MTU: usize = 1600;

/// The server's name, as announced to clients.
pub fn app_name() -> (r: &'static str)
    ensures
        r@ == "chatcore"@,
{
    "chatcore"
}

/// The server's version, as announced to clients.
pub fn app_version() -> (r: &'static str)
    ensures
        r@ == "0.1.0"@,
{
    "0.1.0"
}

/// The protocol version the server speaks.
pub fn app_protocol_version() -> (r: ProtocolVersion)
    ensures
        r.major == 1,
        r.minor == 4,
        r.patch == 0,
{
    ProtocolVersion { major: 1, minor: 4, patch: 0 }
}

/// The release line announced to clients: the name and the version,
/// separated by one space.
pub fn release() -> (r: String)
    ensures
        r@ == "chatcore"@ + " "@ + "0.1.0"@,
{
    let mut s = String::from_str(app_name());
    s.append(" ");
    s.append(app_version());
    s
}

} // verus!
