//! Configuration values and how a file's settings override the defaults.
//!
//! Reading the file from disk and deserializing it belong to the
//! surrounding program; the types here carry the settled values and the
//! rules by which a loaded configuration overrides the default one.

use vstd::prelude::*;

verus! {

/// System-level settings.
#[derive(Debug)]
pub struct SystemConfig {
    pub debug: bool,
    pub connection_test: bool,
}

impl SystemConfig {
    /// Takes every field from `other`.
    pub fn update(self, other: SystemConfig) -> (r: SystemConfig)
        ensures
            r.debug == other.debug,
            r.connection_test == other.connection_test,
    {
        SystemConfig { debug: other.debug, connection_test: other.connection_test }
    }
}

impl Default for SystemConfig {
    /// Debugging off, connection test on.
    fn default() -> (r: SystemConfig)
        ensures
            !r.debug,
            r.connection_test,
    {
        SystemConfig { debug: false, connection_test: true }
    }
}

/// How to authenticate to the Tor control port.
#[derive(Clone, Copy, Debug, PartialEq, Eq, Structural)]
pub enum TorAuthConfig {
    HashedPassword,
    SafeCookie,
}

/// Tor-side settings: the SOCKS proxy and control-port addresses, and the
/// control-port authentication material.
#[derive(Debug)]
pub struct TorConfig {
    pub proxy_address: String,
    pub control_address: String,
    pub authentication: Option<TorAuthConfig>,
    pub cookie: Option<Vec<u8>>,
    pub hashed_password: Option<String>,
}

impl TorConfig {
    /// Takes the addresses from `other`; authentication material from
    /// `other` where it has any, else from `self`.
    pub fn update(self, other: TorConfig) -> (r: TorConfig)
        ensures
            r.proxy_address == other.proxy_address,
            r.control_address == other.control_address,
            r.authentication == if other.authentication is Some {
                other.authentication
            } else {
                self.authentication
            },
            r.cookie == if other.cookie is Some {
                other.cookie
            } else {
                self.cookie
            },
            r.hashed_password == if other.hashed_password is Some {
                other.hashed_password
            } else {
                self.hashed_password
            },
    {
        let authentication: Option<TorAuthConfig> = match other.authentication {
            Some(a) => Some(a),
            None => self.authentication,
        };
        let cookie: Option<Vec<u8>> = match other.cookie {
            Some(c) => Some(c),
            None => self.cookie,
        };
        let hashed_password: Option<String> = match other.hashed_password {
            Some(p) => Some(p),
            None => self.hashed_password,
        };
        TorConfig {
            proxy_address: other.proxy_address,
            control_address: other.control_address,
            authentication,
            cookie,
            hashed_password,
        }
    }
}

impl Default for TorConfig {
    /// The standard local Tor daemon: SOCKS at 9050, control at 9051, no
    /// authentication material.
    fn default() -> (r: TorConfig)
        ensures
            r.proxy_address@ == "127.0.0.1:9050"@,
            r.control_address@ == "127.0.0.1:9051"@,
            r.authentication is None,
            r.cookie is None,
            r.hashed_password is None,
    {
        TorConfig {
            proxy_address: String::from_str("127.0.0.1:9050"),
            control_address: String::from_str("127.0.0.1:9051"),
            authentication: None,
            cookie: None,
            hashed_password: None,
        }
    }
}

/// The whole configuration.
#[derive(Debug)]
pub struct Config {
    pub system: SystemConfig,
    pub tor: TorConfig,
}

impl Config {
    /// Overrides this configuration with `other`, section by section.
    pub fn update(self, other: Config) -> (r: Config)
        ensures
            r.system.debug == other.system.debug,
            r.system.connection_test == other.system.connection_test,
            r.tor.proxy_address == other.tor.proxy_address,
            r.tor.control_address == other.tor.control_address,
            r.tor.authentication == if other.tor.authentication is Some {
                other.tor.authentication
            } else {
                self.tor.authentication
            },
            r.tor.cookie == if other.tor.cookie is Some {
                other.tor.cookie
            } else {
                self.tor.cookie
            },
            r.tor.hashed_password == if other.tor.hashed_password is Some {
                other.tor.hashed_password
            } else {
                self.tor.hashed_password
            },
    {
        Config { system: self.system.update(other.system), tor: self.tor.update(other.tor) }
    }
}

impl Default for Config {
    /// The default of each section.
    fn default() -> (r: Config)
        ensures
            !r.system.debug,
            r.system.connection_test,
            r.tor.proxy_address@ == "127.0.0.1:9050"@,
            r.tor.control_address@ == "127.0.0.1:9051"@,
            r.tor.authentication is None,
            r.tor.cookie is None,
            r.tor.hashed_password is None,
    {
        Config { system: SystemConfig::default(), tor: TorConfig::default() }
    }
}

} // verus!
