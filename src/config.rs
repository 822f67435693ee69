use vstd::prelude::*;
use vstd::string::StringExecFns;

verus! {

/// The address the service listens on when nothing else is configured.
pub open spec fn default_listen() -> Seq<char> {
    "0.0.0.0:3000"@
}

/// The service's settings.
pub struct Config {
    listen: String,
}

impl Config {
    /// The configured listen address, as `host:port`.
    pub closed spec fn listen_addr(&self) -> Seq<char> {
        self.listen@
    }

    /// Settings that listen on `listen`.
    pub fn new(listen: String) -> (r: Config)
        ensures
            r.listen_addr() == listen@,
    {
        Config { listen }
    }

    /// The configured listen address, as `host:port`.
    pub fn listen(&self) -> (r: &String)
        ensures
            r@ == self.listen_addr(),
    {
        &self.listen
    }

    /// The default listen address, as text.
    pub fn default_listen() -> (r: String)
        ensures
            r@ == default_listen(),
    {
        let r = String::from_str("0.0.0.0:3000");
        proof {
            reveal_strlit("0.0.0.0:3000");
        }
        r
    }
}

impl Default for Config {
    /// Settings that listen on the default address.
    fn default() -> (r: Config)
        ensures
            r.listen_addr() == default_listen(),
    {
        Config { listen: Config::default_listen() }
    }
}

} // verus!
