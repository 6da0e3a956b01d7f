//! Configuration data: server name and bind points. Loading from a file or
//! the environment happens outside the library; the defaults live here.

use vstd::prelude::*;
use vstd::string::StringExecFns;

verus! {

/// Paths to a PKCS#8 certificate and key pair.
#[derive(Clone, PartialEq, Debug)]
pub struct TLSCert {
    pub cert: String,
    pub key: String,
}

/// One bind point: a name, an `ip:port` address, and optional TLS
/// material.
#[derive(Clone, PartialEq, Debug)]
pub struct Listener {
    pub name: String,
    pub address: String,
    pub tls: Option<TLSCert>,
}

/// The server section of the configuration.
#[derive(Clone, PartialEq, Debug)]
pub struct Server {
    pub name: String,
    pub listeners: Vec<Listener>,
}

/// The whole configuration.
#[derive(Clone, PartialEq, Debug)]
pub struct Config {
    pub server: Server,
}

impl Default for Config {
    /// The default configuration: server name `localhost`, one plain
    /// listener on `127.0.0.1:6667`.
    fn default() -> (r: Config)
        ensures
            r.server.name@ == "localhost"@,
            r.server.listeners@.len() == 1,
            r.server.listeners@[0].name@ == "plain"@,
            r.server.listeners@[0].address@ == "127.0.0.1:6667"@,
            r.server.listeners@[0].tls is None,
    {
        Config {
            server: Server {
                name: String::from_str("localhost"),
                listeners: vec![
                    Listener {
                        name: String::from_str("plain"),
                        address: String::from_str("127.0.0.1:6667"),
                        tls: None,
                    },
                ],
            },
        }
    }
}

} // verus!
