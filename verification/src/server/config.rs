use vstd::prelude::*;

use crate::text::{parse_i64, parse_i64_str, parse_u16, parse_u16_str};

verus! {

/// The server's settings, read from `LITECLIPSYNC_*` environment variables.
#[derive(Clone)]
pub struct Config {
    pub port: u16,
    pub token: String,
    pub storage_path: String,
    pub max_history_days: i64,
    pub ws_inline_max_bytes: usize,
    pub tls_cert_path: Option<String>,
    pub tls_key_path: Option<String>,
}

/// The port: the variable's value when it parses as a `u16`, else 8765.
pub open spec fn port_from(var: Option<Seq<char>>) -> u16 {
    match var {
        Some(v) => match parse_u16(v) {
            Some(p) => p,
            None => 8765,
        },
        None => 8765,
    }
}

/// The history length in days: the variable's value when it parses as an `i64`, else 7.
pub open spec fn history_days_from(var: Option<Seq<char>>) -> i64 {
    match var {
        Some(v) => match parse_i64(v) {
            Some(d) => d,
            None => 7,
        },
        None => 7,
    }
}

impl Config {
    /// Builds the settings from the values of `LITECLIPSYNC_PORT`, `_TOKEN`,
    /// `_STORAGE_PATH`, `_MAX_HISTORY_DAYS`, `_TLS_CERT_PATH` and `_TLS_KEY_PATH`
    /// (`None` where a variable is unset): unparsable numbers fall back to their
    /// defaults, the token to `liteclipsync`, the storage to `./data`.
    pub fn from_vars(
        port: Option<&str>,
        token: Option<String>,
        storage_path: Option<String>,
        max_history_days: Option<&str>,
        tls_cert_path: Option<String>,
        tls_key_path: Option<String>,
    ) -> (c: Config)
        ensures
            c.port == port_from(crate::text::opt_chars(port)),
            c.token@ == match token {
                Some(t) => t@,
                None => "liteclipsync"@,
            },
            c.storage_path@ == match storage_path {
                Some(p) => p@,
                None => "./data"@,
            },
            c.max_history_days == history_days_from(crate::text::opt_chars(max_history_days)),
            c.ws_inline_max_bytes == 1_048_576,
            c.tls_cert_path == tls_cert_path,
            c.tls_key_path == tls_key_path,
    {
        let port_v: u16 = match port {
            Some(v) => match parse_u16_str(v) {
                Some(p) => p,
                None => 8765,
            },
            None => 8765,
        };
        let days: i64 = match max_history_days {
            Some(v) => match parse_i64_str(v) {
                Some(d) => d,
                None => 7,
            },
            None => 7,
        };
        Config {
            port: port_v,
            token: match token {
                Some(t) => t,
                None => String::from_str("liteclipsync"),
            },
            storage_path: match storage_path {
                Some(p) => p,
                None => String::from_str("./data"),
            },
            max_history_days: days,
            ws_inline_max_bytes: 1_048_576,
            tls_cert_path,
            tls_key_path,
        }
    }

    /// How many days of history are kept: `max_history_days` when positive; a zero or
    /// negative setting keeps everything.
    pub fn history_retention_days(&self) -> (r: Option<i64>)
        ensures
            r == if self.max_history_days > 0 {
                Some(self.max_history_days)
            } else {
                None
            },
    {
        if self.max_history_days > 0 {
            Some(self.max_history_days)
        } else {
            None
        }
    }

    /// The token that clients must present.
    pub fn token(&self) -> (r: &str)
        ensures
            r@ == self.token@,
    {
        self.token.as_str()
    }
}

} // verus!
