//! Command-line options of the service: the listen address, whether to
//! accept connections from other machines, and the service-installation
//! subcommand. The address rewriting done for `--allow-external` is exact:
//! the port is taken from between the first colon of the given address and
//! the next colon or the end.

use vstd::prelude::*;

use crate::strings::{find_char_from, index_of_char, is_prefix, str_starts_with};

verus! {

/// The service-installation subcommands.
#[derive(Clone, Copy, Debug, PartialEq, Eq, Structural)]
pub enum SystemdAction {
    Install { enable: bool, now: bool },
}

/// The top-level subcommands.
#[derive(Clone, Copy, Debug, PartialEq, Eq, Structural)]
pub enum Commands {
    Systemd { action: SystemdAction },
}

/// The parsed command line: the address to listen on, whether external
/// connections are allowed, and an optional subcommand.
#[derive(Debug, PartialEq)]
pub struct Cli {
    pub listen: String,
    pub allow_external: bool,
    pub command: Option<Commands>,
}

/// The address the server binds, given the configured listen address: the
/// address itself, unless external connections are allowed, in which case
/// the host part is replaced by the wildcard address, keeping the
/// configured port (or the default port when the address has none).
pub open spec fn listen_address(listen: Seq<char>, allow_external: bool) -> Seq<char> {
    if !allow_external {
        listen
    } else {
        let i = index_of_char(listen, ':', 0);
        if i == listen.len() {
            "0.0.0.0:8449"@
        } else {
            let j = index_of_char(listen, ':', i + 1);
            "0.0.0.0:"@ + listen.subrange(i + 1, j)
        }
    }
}

impl Cli {
    /// The address to bind, per [`listen_address`].
    pub fn get_listen_address(&self) -> (r: String)
        ensures
            r@ == listen_address(self.listen@, self.allow_external),
    {
        if self.allow_external {
            let s = self.listen.as_str();
            let len = s.unicode_len();
            let i = find_char_from(s, ':', 0);
            if i == len {
                "0.0.0.0:8449".to_owned()
            } else {
                let j = find_char_from(s, ':', i + 1);
                let port = s.substring_char(i + 1, j);
                let prefix = "0.0.0.0:".to_owned();
                prefix.concat(port)
            }
        } else {
            self.listen.clone()
        }
    }

    /// Whether the server will accept connections from other machines:
    /// either requested explicitly, or implied by a wildcard listen
    /// address.
    pub fn is_external(&self) -> (r: bool)
        ensures
            r == (self.allow_external || is_prefix(self.listen@, "0.0.0.0:"@)),
    {
        self.allow_external || str_starts_with(self.listen.as_str(), "0.0.0.0:")
    }
}

} // verus!
