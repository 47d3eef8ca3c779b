//! The worker's settings.

use vstd::prelude::*;

verus! {

/// Where the store and the control socket are found.
#[derive(Clone, Debug)]
pub struct ServerConfig {
    pub database_url: String,
    pub zmq_crawlers_sub: String,
}

impl ServerConfig {
    /// The settings, from what the environment gives: a store address that
    /// is not given is `app.db`, a socket address that is not given is
    /// `tcp://127.0.0.1:5555`.
    pub fn from_settings(database_url: Option<String>, zmq_address: Option<String>) -> (r:
        ServerConfig)
        ensures
            r.database_url@ == (match database_url {
                Some(url) => url@,
                None => "app.db"@,
            }),
            r.zmq_crawlers_sub@ == (match zmq_address {
                Some(address) => address@,
                None => "tcp://127.0.0.1:5555"@,
            }),
    {
        ServerConfig {
            database_url: match database_url {
                Some(url) => url,
                None => String::from_str("app.db"),
            },
            zmq_crawlers_sub: match zmq_address {
                Some(address) => address,
                None => String::from_str("tcp://127.0.0.1:5555"),
            },
        }
    }
}

} // verus!
