use vstd::prelude::*;

verus! {

/// The environment variables the process is configured from.
#[derive(Debug, Clone, Copy, PartialEq, Eq, Structural)]
pub enum ConfigKey {
    AppHost,
    AppPort,
    RustLog,
}

impl ConfigKey {
    pub open spec fn name_view(self) -> Seq<char> {
        match self {
            ConfigKey::AppHost => "APP_HOST"@,
            ConfigKey::AppPort => "APP_PORT"@,
            ConfigKey::RustLog => "RUST_LOG"@,
        }
    }

    /// The name of the environment variable that holds this setting.
    pub fn var_name(self) -> (r: String)
        ensures
            r@ == self.name_view(),
    {
        match self {
            ConfigKey::AppHost => String::from_str("APP_HOST"),
            ConfigKey::AppPort => String::from_str("APP_PORT"),
            ConfigKey::RustLog => String::from_str("RUST_LOG"),
        }
    }
}

/// The HTTP side of the configuration.
#[derive(Debug)]
pub struct Application {
    pub host: String,
    pub port: String,
    pub log_level: String,
}

/// Checks that a setting was present; an absent one is reported by its key.
fn require_setting(value: Option<String>, key: ConfigKey) -> (r: Result<String, ConfigKey>)
    ensures
        value is Some <==> r is Ok,
        r is Ok ==> r->Ok_0@ == value->Some_0@,
        r is Err ==> r->Err_0 == key,
{
    match value {
        Some(v) => Ok(v),
        None => Err(key),
    }
}

impl Application {
    /// Builds the settings from the values read for `APP_HOST`, `APP_PORT`
    /// and `RUST_LOG`, in that order. The first absent one is the error.
    pub fn from_env(host: Option<String>, port: Option<String>, log_level: Option<String>) -> (r:
        Result<Application, ConfigKey>)
        ensures
            r is Ok <==> host is Some && port is Some && log_level is Some,
            r is Ok ==> r->Ok_0.host@ == host->Some_0@ && r->Ok_0.port@ == port->Some_0@
                && r->Ok_0.log_level@ == log_level->Some_0@,
            host is None ==> r == Err::<Application, ConfigKey>(ConfigKey::AppHost),
            host is Some && port is None ==> r == Err::<Application, ConfigKey>(ConfigKey::AppPort),
            host is Some && port is Some && log_level is None ==> r == Err::<Application, ConfigKey>(
                ConfigKey::RustLog,
            ),
    {
        let host = require_setting(host, ConfigKey::AppHost)?;
        let port = require_setting(port, ConfigKey::AppPort)?;
        let log_level = require_setting(log_level, ConfigKey::RustLog)?;
        Ok(Application { host, port, log_level })
    }

    /// The address the server binds to: `host:port`.
    pub fn server_url(&self) -> (r: String)
        ensures
            r@ == self.host@ + seq![':'] + self.port@,
    {
        let mut url = self.host.clone();
        url.append(":");
        url.append(self.port.as_str());
        proof {
            reveal_strlit(":");
        }
        url
    }
}

/// The whole process configuration.
#[derive(Debug)]
pub struct Config {
    pub app: Application,
}

impl Config {
    /// Builds the configuration from the values read for `APP_HOST`,
    /// `APP_PORT` and `RUST_LOG`; the first absent one is the error.
    pub fn from_env(host: Option<String>, port: Option<String>, log_level: Option<String>) -> (r:
        Result<Config, ConfigKey>)
        ensures
            r is Ok <==> host is Some && port is Some && log_level is Some,
            r is Ok ==> r->Ok_0.app.host@ == host->Some_0@ && r->Ok_0.app.port@ == port->Some_0@
                && r->Ok_0.app.log_level@ == log_level->Some_0@,
            host is None ==> r == Err::<Config, ConfigKey>(ConfigKey::AppHost),
            host is Some && port is None ==> r == Err::<Config, ConfigKey>(ConfigKey::AppPort),
            host is Some && port is Some && log_level is None ==> r == Err::<Config, ConfigKey>(
                ConfigKey::RustLog,
            ),
    {
        match Application::from_env(host, port, log_level) {
            Ok(app) => Ok(Config { app }),
            Err(k) => Err(k),
        }
    }
}

} // verus!
