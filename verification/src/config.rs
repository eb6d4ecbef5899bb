//! The user-supplied connection settings, as loaded from the host's
//! configuration file by the surrounding application.

use vstd::prelude::*;

verus! {

/// The configuration for one multiworld connection. The values are not
/// guaranteed to be complete or accurate; callers must check them against
/// the live session before acting on them.
pub struct Config {
    pub url: String,
    pub slot: String,
    pub seed: String,
    pub client_version: String,
    pub password: Option<String>,
}

impl Config {
    /// Builds a configuration from its parts.
    pub fn new(
        url: String,
        slot: String,
        seed: String,
        client_version: String,
        password: Option<String>,
    ) -> (r: Config)
        ensures
            r.url@ == url@,
            r.slot@ == slot@,
            r.seed@ == seed@,
            r.client_version@ == client_version@,
            r.password == password,
    {
        Config { url, slot, seed, client_version, password }
    }

    /// Returns the server URL to connect to.
    pub fn url(&self) -> (r: &str)
        ensures
            r@ == self.url@,
    {
        self.url.as_str()
    }

    /// Sets the server URL to connect to.
    pub fn set_url(&mut self, url: String)
        ensures
            final(self).url@ == url@,
            final(self).slot == old(self).slot,
            final(self).seed == old(self).seed,
            final(self).client_version == old(self).client_version,
            final(self).password == old(self).password,
    {
        self.url = url;
    }

    /// Returns the name of the slot this player occupies in the room.
    pub fn slot(&self) -> (r: &str)
        ensures
            r@ == self.slot@,
    {
        self.slot.as_str()
    }

    /// Returns the seed identifier of the room this configuration was
    /// generated for.
    pub fn seed(&self) -> (r: &str)
        ensures
            r@ == self.seed@,
    {
        self.seed.as_str()
    }

    /// Returns the version of the generator that produced this
    /// configuration.
    pub fn client_version(&self) -> (r: &str)
        ensures
            r@ == self.client_version@,
    {
        self.client_version.as_str()
    }

    /// Returns the room password, if one was configured.
    pub fn password(&self) -> (r: Option<&String>)
        ensures
            match r {
                Some(p) => self.password matches Some(q) && p@ == q@,
                None => self.password is None,
            },
    {
        self.password.as_ref()
    }
}

} // verus!
