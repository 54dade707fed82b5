//! The configuration as a whole, and what makes it unfit to start with.

use vstd::prelude::*;
use crate::types::{Backend, Frontend, ServerSettings};

verus! {

/// The topology and the listener settings.
pub struct Config {
    pub server: ServerSettings,
    pub frontends: Vec<Frontend>,
    pub backends: Vec<Backend>,
}

/// Why a configuration cannot be started with.
#[derive(Debug, Clone, Copy, PartialEq, Eq, Structural)]
pub enum ConfigError {
    /// TLS is enabled, and the certificate path or the key path is missing.
    MissingTlsPaths,
    /// The frontend at this index names a backend group that is not
    /// configured.
    UnknownBackend { frontend: usize },
}

impl ConfigError {
    /// The error in words, as a specification value.
    pub open spec fn spec_message(&self) -> Seq<char> {
        match self {
            ConfigError::MissingTlsPaths => {
                "cert_path and key_path must be provided when enable_https is true"@
            },
            ConfigError::UnknownBackend { .. } => {
                "a frontend names a backend that is not configured"@
            },
        }
    }

    /// The error in words.
    pub fn message(&self) -> (text: String)
        ensures
            text@ == self.spec_message(),
    {
        match self {
            ConfigError::MissingTlsPaths => {
                "cert_path and key_path must be provided when enable_https is true".to_owned()
            },
            ConfigError::UnknownBackend { .. } => {
                "a frontend names a backend that is not configured".to_owned()
            },
        }
    }
}

impl ServerSettings {
    /// TLS is enabled without both of its paths.
    pub open spec fn tls_paths_missing(&self) -> bool {
        self.enable_https && (self.cert_path is None || self.key_path is None)
    }

    /// Rejects settings that enable TLS without both a certificate path
    /// and a key path, and accepts all others.
    pub fn validate(&self) -> (r: Result<(), ConfigError>)
        ensures
            self.tls_paths_missing() ==> r == Err::<(), ConfigError>(ConfigError::MissingTlsPaths),
            !self.tls_paths_missing() ==> r is Ok,
    {
        if self.enable_https && (self.cert_path.is_none() || self.key_path.is_none()) {
            Err(ConfigError::MissingTlsPaths)
        } else {
            Ok(())
        }
    }
}

/// `r` is the first backend group with the given name, or none where no
/// group has it.
pub open spec fn is_backend_named(backends: Seq<Backend>, name: Seq<char>, r: Option<usize>) -> bool {
    match r {
        Some(i) => {
            &&& i < backends.len()
            &&& backends[i as int].name@ == name
            &&& forall|j: int| 0 <= j < i ==> (#[trigger] backends[j]).name@ != name
        },
        None => forall|j: int| 0 <= j < backends.len() ==> (#[trigger] backends[j]).name@ != name,
    }
}

/// `r` is the first frontend that names no configured backend group, or
/// none where every frontend names one.
pub open spec fn is_first_unbound(config: Config, r: Option<usize>) -> bool {
    match r {
        Some(i) => {
            &&& i < config.frontends@.len()
            &&& is_backend_named(config.backends@, config.frontends@[i as int].backend@, None)
            &&& forall|j: int|
                0 <= j < i ==> !is_backend_named(
                    config.backends@,
                    (#[trigger] config.frontends@[j]).backend@,
                    None,
                )
        },
        None => forall|j: int|
            0 <= j < config.frontends@.len() ==> !is_backend_named(
                config.backends@,
                (#[trigger] config.frontends@[j]).backend@,
                None,
            ),
    }
}

impl Config {
    /// The first backend group with the given name.
    pub fn find_backend(&self, name: &String) -> (r: Option<usize>)
        ensures
            is_backend_named(self.backends@, name@, r),
    {
        let mut i: usize = 0;
        while i < self.backends.len()
            invariant
                i <= self.backends@.len(),
                forall|j: int| 0 <= j < i ==> (#[trigger] self.backends@[j]).name@ != name@,
            decreases self.backends@.len() - i,
        {
            if self.backends[i].name == *name {
                return Some(i);
            }
            i += 1;
        }
        None
    }

    /// Checks the configuration before anything is started: TLS needs both
    /// of its paths, and every frontend a configured backend group. The
    /// missing paths are reported first, then the first frontend without a
    /// group.
    pub fn validate(&self) -> (r: Result<(), ConfigError>)
        ensures
            self.server.tls_paths_missing() ==> r == Err::<(), ConfigError>(
                ConfigError::MissingTlsPaths,
            ),
            !self.server.tls_paths_missing() ==> match r {
                Ok(_) => is_first_unbound(*self, None),
                Err(ConfigError::UnknownBackend { frontend }) => is_first_unbound(
                    *self,
                    Some(frontend),
                ),
                Err(ConfigError::MissingTlsPaths) => false,
            },
    {
        match self.server.validate() {
            Err(e) => {
                return Err(e);
            },
            Ok(_) => {},
        }
        let mut i: usize = 0;
        while i < self.frontends.len()
            invariant
                i <= self.frontends@.len(),
                !self.server.tls_paths_missing(),
                forall|j: int|
                    0 <= j < i ==> !is_backend_named(
                        self.backends@,
                        (#[trigger] self.frontends@[j]).backend@,
                        None,
                    ),
            decreases self.frontends@.len() - i,
        {
            match self.find_backend(&self.frontends[i].backend) {
                None => {
                    return Err(ConfigError::UnknownBackend { frontend: i });
                },
                Some(k) => {
                    assert(self.backends@[k as int].name@ == self.frontends@[i as int].backend@);
                },
            }
            i += 1;
        }
        Ok(())
    }
}

} // verus!
