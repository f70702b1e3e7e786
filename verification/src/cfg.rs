//! Application identity and the persisted configuration.

use vstd::prelude::*;
use vstd::string::*;

verus! {

/// Identifies the application for the platform's configuration directories.
#[derive(Clone, Copy, Debug)]
pub struct AppId {
    /// Reverse-DNS style qualifier, such as `com`.
    pub qualifier: &'static str,
    /// Organization or vendor name, such as `local`.
    pub organization: &'static str,
    /// Application name, such as `sentinel`.
    pub application: &'static str,
}

/// The identity of the sentinel application, whose store every tool shares.
pub fn sentinel_app() -> (app: AppId)
    ensures
        app.qualifier@ == "com"@,
        app.organization@ == "local"@,
        app.application@ == "sentinel"@,
{
    AppId { qualifier: "com", organization: "local", application: "sentinel" }
}

/// The application that a name given on the command line stands for. Every
/// name, known or not, selects the sentinel.
pub fn app_by_name(name: &str) -> (app: AppId)
    ensures
        app.qualifier@ == "com"@,
        app.organization@ == "local"@,
        app.application@ == "sentinel"@,
{
    sentinel_app()
}

/// The application's configuration, as `config.toml` holds it.
#[derive(Clone, Debug)]
pub struct Config {
    /// Log level used where the environment sets none, such as `info`.
    pub log_level: String,
    /// Path of the database; kept for compatibility.
    pub db_path: String,
}

/// The database path of a configuration that names none: `mem.db`.
pub fn default_db_path() -> (path: String)
    ensures
        path@ == "mem.db"@,
{
    String::from_str("mem.db")
}

impl Default for Config {
    /// The configuration written when none exists: level `info`, database
    /// `mem.db`.
    fn default() -> (conf: Config)
        ensures
            conf.log_level@ == "info"@,
            conf.db_path@ == "mem.db"@,
    {
        Config { log_level: String::from_str("info"), db_path: default_db_path() }
    }
}

} // verus!
