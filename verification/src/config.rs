//! The service configuration assembled from its environment values.
use vstd::prelude::*;

use crate::text::{decimal_digits, format_u16, lemma_u16_round_trip, parse_u16_spec};

verus! {

/// The settings the service runs with.
#[derive(Debug)]
pub struct Config {
    pub log_level: String,
    pub db_url: String,
    pub jwt_secret: String,
}

/// The MySQL connection URL of a database: the port is written in base ten.
pub open spec fn mysql_url(
    user: Seq<char>,
    password: Seq<char>,
    host: Seq<char>,
    port: u16,
    name: Seq<char>,
) -> Seq<char> {
    "mysql://"@ + user + ":"@ + password + "@"@ + host + ":"@ + decimal_digits(port as nat) + "/"@
        + name
}

/// The log level used when none is configured.
pub open spec fn default_log_level() -> Seq<char> {
    "info"@
}

impl Config {
    /// The configuration for the given settings. A missing log level means
    /// `info`.
    pub fn new(
        log_level: Option<String>,
        db_host: &str,
        db_port: u16,
        db_user: &str,
        db_password: &str,
        db_name: &str,
        jwt_secret: String,
    ) -> (c: Config)
        ensures
            c.log_level@ == (match log_level {
                Some(l) => l@,
                None => default_log_level(),
            }),
            c.db_url@ == mysql_url(db_user@, db_password@, db_host@, db_port, db_name@),
            c.jwt_secret@ == jwt_secret@,
    {
        let log_level = match log_level {
            Some(l) => l,
            None => String::from_str("info"),
        };
        let port = format_u16(db_port);
        let mut url = String::from_str("mysql://");
        url.append(db_user);
        url.append(":");
        url.append(db_password);
        url.append("@");
        url.append(db_host);
        url.append(":");
        url.append(port.as_str());
        url.append("/");
        url.append(db_name);
        Config { log_level, db_url: url, jwt_secret }
    }

    /// The tracing filter of the service: `sqlx` logs warnings only, the
    /// rest logs at the configured level.
    pub fn log_filter(&self) -> (f: String)
        ensures
            f@ == "sqlx=warn,"@ + self.log_level@,
    {
        String::from_str("sqlx=warn,").concat(self.log_level.as_str())
    }
}

/// The URL names the user, password, host and database as given, and the
/// port between the host's `:` and the `/` before the database reads back
/// (`u16::from_str`) as the configured port.
pub proof fn lemma_url_parts(user: Seq<char>, password: Seq<char>, host: Seq<char>, port: u16, name: Seq<char>)
    ensures
        exists|p: Seq<char>|
            #[trigger] parse_u16_spec(p) == Some(port) && mysql_url(user, password, host, port, name)
                == "mysql://"@ + user + ":"@ + password + "@"@ + host + ":"@ + p + "/"@ + name,
{
    lemma_u16_round_trip(port);
    let p = decimal_digits(port as nat);
    assert(parse_u16_spec(p) == Some(port));
}

} // verus!
