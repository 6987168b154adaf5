//! Server settings. Loading them from configuration is I/O and lives with
//! the embedding program; the library holds the shape and the derived
//! server URL, whose assembly is verified character by character.

use vstd::prelude::*;
use vstd::string::StringExecFns;

verus! {

/// The settings the server runs with.
pub struct Settings {
    pub appid: String,
    pub secret: String,
    pub image_dir: String,
    pub server_scheme: String,
    pub server_host: String,
    pub server_port: String,
}

impl Settings {
    /// The URL the server is reachable at: scheme, host, and the port when
    /// one is configured.
    pub open spec fn server_url_spec(&self) -> Seq<char> {
        if self.server_port@.len() == 0 {
            self.server_scheme@ + "://"@ + self.server_host@
        } else {
            self.server_scheme@ + "://"@ + self.server_host@ + ":"@ + self.server_port@
        }
    }

    /// Renders the URL the server is reachable at.
    pub fn server_url(&self) -> (r: String)
        ensures
            r@ == self.server_url_spec(),
    {
        let mut url = self.server_scheme.clone();
        url.append("://");
        url.append(self.server_host.as_str());
        if !self.server_port.as_str().is_empty() {
            url.append(":");
            url.append(self.server_port.as_str());
        }
        proof {
            assert(url@ =~= self.server_url_spec());
        }
        url
    }
}

} // verus!
