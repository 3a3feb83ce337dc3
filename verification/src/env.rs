//! The settings of a process.

use vstd::prelude::*;

verus! {

/// The settings that a process runs with.
#[derive(Clone, Debug)]
pub struct EnvironmentValues {
    /// The issuer of the access tokens.
    pub domain: String,
    pub redis_url: String,
    pub database_url: String,
    /// The secret that access tokens are signed with.
    pub jwt_private_key: String,
    pub server_port: i16,
    pub rust_env: String,
    pub api_version_date: String,
}

/// The variables of the environment from which the settings are taken, each as it
/// was found: absent where it is not set.
#[derive(Clone, Debug)]
pub struct EnvironmentVariables {
    pub domain: Option<String>,
    pub database_url: Option<String>,
    pub redis_url: Option<String>,
    pub jwt_private_key: Option<String>,
    pub server_port: Option<String>,
    pub rust_env: Option<String>,
    pub api_version_date: Option<String>,
}

/// Why the settings could not be taken from the environment.
#[derive(Clone, Copy, Debug, PartialEq, Eq, Structural)]
pub enum SettingError {
    /// `DATABASE_URL` is not set.
    DatabaseUrlMissing,
    /// `REDIS_URL` is not set.
    RedisUrlMissing,
    /// `SERVER_PORT` is set to what is no number that a port can be held in.
    ServerPortNotANumber,
}

pub const DEFAULT_DOMAIN: &'static str = "localhost";

pub const DEFAULT_JWT_PRIVATE_KEY: &'static str = "my secret";

pub const DEFAULT_SERVER_PORT: i16 = 80;

pub const DEFAULT_RUST_ENV: &'static str = "dev";

pub const DEFAULT_API_VERSION_DATE: &'static str = "2020-03-31";

/// The number that a text stands for as a 16-bit signed integer in decimal; `None`
/// where it stands for none.
pub uninterp spec fn i16_of_text(text: Seq<char>) -> Option<i16>;

/// Reads a 16-bit signed integer in decimal.
///
/// Trusted: `str::parse::<i16>` of the standard library, which is a function of the
/// text alone. The result is what `i16_of_text` names.
#[verifier::external_body]
fn parse_i16(text: &str) -> (r: Option<i16>)
    ensures
        r == i16_of_text(text@),
{
    text.parse::<i16>().ok()
}

/// The text of a variable, or the default where it is not set.
pub open spec fn text_or(value: Option<String>, default: Seq<char>) -> Seq<char> {
    match value {
        Some(text) => text@,
        None => default,
    }
}

fn value_or(value: Option<String>, default: &str) -> (r: String)
    ensures
        r@ == text_or(value, default@),
{
    match value {
        Some(text) => text,
        None => default.to_owned(),
    }
}

/// The port that the variable gives: 80 where it is not set, nothing where it is set
/// to what is no number.
pub open spec fn port_of(value: Option<String>) -> Option<i16> {
    match value {
        Some(text) => i16_of_text(text@),
        None => Some(DEFAULT_SERVER_PORT),
    }
}

/// What the settings are for given variables, or why there are none. A missing
/// database is reported before a missing redis, and that before a port that is no
/// number.
pub open spec fn settings_of(vars: EnvironmentVariables, r: Result<EnvironmentValues, SettingError>) -> bool {
    if vars.database_url is None {
        r == Err::<EnvironmentValues, SettingError>(SettingError::DatabaseUrlMissing)
    } else if vars.redis_url is None {
        r == Err::<EnvironmentValues, SettingError>(SettingError::RedisUrlMissing)
    } else if port_of(vars.server_port) is None {
        r == Err::<EnvironmentValues, SettingError>(SettingError::ServerPortNotANumber)
    } else {
        &&& r matches Ok(env)
        &&& env.domain@ == text_or(vars.domain, DEFAULT_DOMAIN@)
        &&& env.database_url@ == vars.database_url->0@
        &&& env.redis_url@ == vars.redis_url->0@
        &&& env.jwt_private_key@ == text_or(vars.jwt_private_key, DEFAULT_JWT_PRIVATE_KEY@)
        &&& Some(env.server_port) == port_of(vars.server_port)
        &&& env.rust_env@ == text_or(vars.rust_env, DEFAULT_RUST_ENV@)
        &&& env.api_version_date@ == text_or(vars.api_version_date, DEFAULT_API_VERSION_DATE@)
    }
}

impl EnvironmentValues {
    /// The settings that the variables give, with the defaults for those that are not
    /// set. The database and redis have no default.
    pub fn init(vars: EnvironmentVariables) -> (r: Result<EnvironmentValues, SettingError>)
        ensures
            settings_of(vars, r),
    {
        let database_url = match vars.database_url {
            Some(url) => url,
            None => {
                return Err(SettingError::DatabaseUrlMissing);
            },
        };
        let redis_url = match vars.redis_url {
            Some(url) => url,
            None => {
                return Err(SettingError::RedisUrlMissing);
            },
        };
        let port = match &vars.server_port {
            Some(text) => parse_i16(text.as_str()),
            None => Some(DEFAULT_SERVER_PORT),
        };
        let server_port = match port {
            Some(number) => number,
            None => {
                return Err(SettingError::ServerPortNotANumber);
            },
        };
        Ok(
            EnvironmentValues {
                domain: value_or(vars.domain, DEFAULT_DOMAIN),
                database_url,
                redis_url,
                jwt_private_key: value_or(vars.jwt_private_key, DEFAULT_JWT_PRIVATE_KEY),
                server_port,
                rust_env: value_or(vars.rust_env, DEFAULT_RUST_ENV),
                api_version_date: value_or(vars.api_version_date, DEFAULT_API_VERSION_DATE),
            },
        )
    }
}

} // verus!
