//! Values that the client and the daemon agree on.

use vstd::prelude::*;

verus! {

/// The endpoint that the daemon listens on.
pub const UNIX_DOMAIN_SOCKET_FILE: &'static str = "/tmp/hints.socket";

/// The size of the buffers that messages are read into.
pub const SOCKET_MESSAGE_SIZE: usize = 1024;

/// The alphabet that labels are written in unless configured otherwise.
pub const DEFAULT_ALPHABET: &'static str = "asdfgqwertzxcvbhjklyuiopnm";

} // verus!
