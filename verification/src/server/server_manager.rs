//! The listener's settings together with the router, and the choice of
//! transport.

use vstd::prelude::*;
use crate::config::ConfigError;
use crate::proxy_service::proxy_bridge::ProxyBridge;
use crate::types::ServerSettings;

verus! {

/// How the listener is set up. It binds the port on all interfaces.
#[derive(Debug)]
pub enum Transport {
    /// Plain TCP.
    Plaintext { port: u16 },
    /// TCP with TLS terminated here, from a PEM key and certificate chain.
    Tls { port: u16, key_path: String, cert_path: String },
}

/// `t` is the transport that the settings ask for.
pub open spec fn is_transport_of(settings: ServerSettings, t: Transport) -> bool {
    if settings.enable_https {
        &&& settings.key_path is Some
        &&& settings.cert_path is Some
        &&& t matches Transport::Tls { port, key_path, cert_path }
        &&& port == settings.port
        &&& key_path@ == settings.key_path->0@
        &&& cert_path@ == settings.cert_path->0@
    } else {
        t == (Transport::Plaintext { port: settings.port })
    }
}

/// Owns what the listener runs on: the settings and the router.
pub struct ServerManager {
    settings: ServerSettings,
    proxy_bridge: ProxyBridge,
}

impl ServerManager {
    /// The settings that the manager was made with.
    pub closed spec fn settings(&self) -> ServerSettings {
        self.settings
    }

    /// The router that the manager was made with.
    pub closed spec fn bridge(&self) -> ProxyBridge {
        self.proxy_bridge
    }

    /// A manager over the settings and the router.
    pub fn new(settings: ServerSettings, proxy_bridge: ProxyBridge) -> (r: Self)
        ensures
            r.settings() == settings,
            r.bridge() == proxy_bridge,
    {
        ServerManager { settings, proxy_bridge }
    }

    /// The transport to start the listener with: TLS with both paths where
    /// the settings enable it, else plaintext. Settings that enable TLS
    /// without both paths are an error.
    pub fn transport(&self) -> (r: Result<Transport, ConfigError>)
        ensures
            self.settings().tls_paths_missing() ==> r == Err::<Transport, ConfigError>(
                ConfigError::MissingTlsPaths,
            ),
            !self.settings().tls_paths_missing() ==> r is Ok && is_transport_of(
                self.settings(),
                r->Ok_0,
            ),
    {
        if self.settings.enable_https {
            match (&self.settings.key_path, &self.settings.cert_path) {
                (Some(key), Some(cert)) => Ok(
                    Transport::Tls {
                        port: self.settings.port,
                        key_path: key.clone(),
                        cert_path: cert.clone(),
                    },
                ),
                _ => Err(ConfigError::MissingTlsPaths),
            }
        } else {
            Ok(Transport::Plaintext { port: self.settings.port })
        }
    }

    /// Gives the router back, to serve requests with.
    pub fn into_bridge(self) -> (r: ProxyBridge)
        ensures
            r == self.bridge(),
    {
        self.proxy_bridge
    }
}

} // verus!
