//! Command-line flags and the choices made from them before connecting.

use vstd::prelude::*;

verus! {

/// Timeout of requests when none is given, in milliseconds.
pub const DEFAULT_TIMEOUT_MS: u64 = 2000;

/// Flags common to every command.
#[derive(Clone, Debug)]
pub struct Flags {
    /// 0 for INFO, 1 for DEBUG, 2 for TRACE.
    pub verbose: u8,
    /// Timeout of requests, in milliseconds.
    pub timeout: u64,
    /// Path of the config file, when given.
    pub config: Option<String>,
}

impl Default for Flags {
    fn default() -> (r: Flags)
        ensures
            r.verbose == 0,
            r.timeout == DEFAULT_TIMEOUT_MS,
            r.config is None,
    {
        Flags { verbose: 0, timeout: DEFAULT_TIMEOUT_MS, config: None }
    }
}

/// Why no server could be reached from the configuration.
#[derive(Clone, Debug)]
pub enum ConfigError {
    /// No config path was given and no home directory is known.
    ConfigFileOpenError,
    /// The config path names something other than a file.
    ConfigFileTypeError(String),
    /// The configuration selects no server.
    ServerNotFound,
}

/// A server of the configuration.
#[derive(Clone, Debug)]
pub struct Server {
    pub url: String,
    pub secret: Option<String>,
}

/// The server to connect to and the timeout to use with it.
#[derive(Clone, Debug)]
pub struct ServerConnection {
    pub server: Server,
    pub timeout_ms: u64,
}

/// Where the config file lies below the home directory.
pub open spec fn default_config_suffix() -> Seq<char> {
    ".config/clashctl/config.ron"@
}

/// Path of `rel` inside the directory `dir`.
pub open spec fn path_join(dir: Seq<char>, rel: Seq<char>) -> Seq<char> {
    if dir.len() > 0 && dir.last() == '/' {
        dir + rel
    } else {
        dir + "/"@ + rel
    }
}

/// Relies on `home::home_dir`: the user's home directory, if one is known.
/// It depends on the environment; nothing is known of it.
#[verifier::external_body]
fn home_directory() -> (r: Option<String>) {
    home::home_dir().map(|p| p.to_string_lossy().into_owned())
}

impl Flags {
    /// Path of the config file: the one given, else the default one under
    /// `home`; an error when neither is known.
    pub fn config_path(&self, home: Option<String>) -> (r: Result<String, ConfigError>)
        ensures
            match self.config {
                Some(c) => r matches Ok(p) && p@ == c@,
                None => match home {
                    Some(h) => r matches Ok(p) && p@ == path_join(h@, default_config_suffix()),
                    None => r matches Err(ConfigError::ConfigFileOpenError),
                },
            },
    {
        match &self.config {
            Some(c) => Ok(c.clone()),
            None => match home {
                Some(h) => {
                    let mut p = h;
                    let n = p.as_str().unicode_len();
                    let ends_with_slash = n > 0 && p.as_str().get_char(n - 1) == '/';
                    if !ends_with_slash {
                        p.append("/");
                    }
                    p.append(".config/clashctl/config.ron");
                    Ok(p)
                },
                None => Err(ConfigError::ConfigFileOpenError),
            },
        }
    }

    /// Path of the config file, looking up the home directory when no path
    /// was given.
    pub fn get_config_path(&self) -> (r: Result<String, ConfigError>)
        ensures
            self.config matches Some(c) ==> r matches Ok(p) && p@ == c@,
            self.config is None ==> match r {
                Ok(p) => exists|h: Seq<char>| p@ == path_join(h, default_config_suffix()),
                Err(e) => e is ConfigFileOpenError,
            },
    {
        if self.config.is_some() {
            self.config_path(None)
        } else {
            let home = home_directory();
            self.config_path(home)
        }
    }

    /// The server to connect to, from the one the configuration selects,
    /// with this timeout.
    pub fn connect_server_from_config(&self, using: Option<Server>) -> (r: Result<ServerConnection, ConfigError>)
        ensures
            match using {
                Some(s) => r matches Ok(c) && c.server == s && c.timeout_ms == self.timeout,
                None => r matches Err(ConfigError::ServerNotFound),
            },
    {
        match using {
            Some(server) => Ok(ServerConnection { server, timeout_ms: self.timeout }),
            None => Err(ConfigError::ServerNotFound),
        }
    }
}

} // verus!
