//! Configuration of the pipeline and how it resolves into connection
//! settings.
use vstd::prelude::*;

use crate::encoding::{base58_decoded, decode_base58};
use crate::record::opt_text;

verus! {

/// The port used when the configuration names none.
pub const DEFAULT_POSTGRES_PORT: u16 = 5432;

/// The number of workers when the configuration names none.
pub const DEFAULT_THREADS_COUNT: usize = 100;

/// The batch size when the configuration names none.
pub const DEFAULT_ACCOUNTS_INSERT_BATCH_SIZE: usize = 10;

/// Whether store failures terminate the process when the configuration does
/// not say.
pub const DEFAULT_PANIC_ON_DB_ERROR: bool = false;

/// The bound of the work queue: a producer that finds it full waits.
pub const MAX_ASYNC_REQUESTS: usize = 40960;

/// The configuration of the pipeline.
#[derive(Clone, Debug, Default, PartialEq, Eq)]
pub struct GeyserPluginPostgresConfig {
    /// The host name or IP of the PostgreSQL server.
    pub host: Option<String>,
    /// The user name on the PostgreSQL server.
    pub user: Option<String>,
    /// The port of the PostgreSQL server.
    pub port: Option<u16>,
    /// A full connection string; when set, `host`, `user` and `port` are
    /// ignored.
    pub connection_str: Option<String>,
    /// The number of workers, each with its own connection.
    pub threads: Option<usize>,
    /// The batch size of bulk loads.
    pub batch_size: Option<usize>,
    /// Whether a failure to write to the store terminates the process.
    pub panic_on_db_errors: Option<bool>,
    /// Whether to connect over TLS.
    pub use_ssl: Option<bool>,
    /// Path of the server's certificate authority file.
    pub server_ca: Option<String>,
    /// Path of the client's certificate file.
    pub client_cert: Option<String>,
    /// Path of the client's private PEM key file.
    pub client_key: Option<String>,
    /// Program ID of the inscription program, in Base58. Required: only
    /// transactions that list this key are looked at.
    pub program_id: Option<String>,
}

/// The errors of the pipeline.
pub enum GeyserPluginPostgresError {
    DataStoreConnectionError { msg: String },
    DataSchemaError { msg: String },
    ConfigurationError { msg: String },
    ReplicaAccountV001NotSupported,
}

/// What is missing from a configuration.
#[derive(Clone, Copy, PartialEq, Eq, Structural, Debug)]
pub enum ConfigError {
    /// Neither a connection string nor both a host and a user.
    MissingConnectionTarget,
    /// TLS is asked for without a server certificate authority.
    MissingServerCa,
    /// A client key is given without a client certificate.
    MissingClientCert,
    /// A client certificate is given without a client key.
    MissingClientKey,
    /// No program ID is given.
    MissingProgramId,
    /// The program ID is not Base58 text.
    InvalidProgramId,
}

/// The files that a TLS connection is set up from: the server's
/// certificate authority, and the client's certificate and key when the
/// client authenticates with a certificate.
pub struct TlsFiles {
    pub server_ca: String,
    pub client_cert: Option<String>,
    pub client_key: Option<String>,
}

/// How to reach the store: the connection string, and the TLS files when
/// the connection is encrypted.
pub struct ConnectionPlan {
    pub connection_str: String,
    pub tls: Option<TlsFiles>,
}

pub open spec fn digit(d: nat) -> char {
    if d == 0 {
        '0'
    } else if d == 1 {
        '1'
    } else if d == 2 {
        '2'
    } else if d == 3 {
        '3'
    } else if d == 4 {
        '4'
    } else if d == 5 {
        '5'
    } else if d == 6 {
        '6'
    } else if d == 7 {
        '7'
    } else if d == 8 {
        '8'
    } else {
        '9'
    }
}

/// The decimal text of a number, without leading zeros.
pub open spec fn decimal(n: nat) -> Seq<char>
    decreases n,
{
    if n < 10 {
        seq![digit(n)]
    } else {
        decimal(n / 10).push(digit(n % 10))
    }
}

fn digit_text(d: u16) -> (r: &'static str)
    requires
        d < 10,
    ensures
        r@ == seq![digit(d as nat)],
{
    proof {
        reveal_strlit("0");
        reveal_strlit("1");
        reveal_strlit("2");
        reveal_strlit("3");
        reveal_strlit("4");
        reveal_strlit("5");
        reveal_strlit("6");
        reveal_strlit("7");
        reveal_strlit("8");
        reveal_strlit("9");
    }
    let r = if d == 0 {
        "0"
    } else if d == 1 {
        "1"
    } else if d == 2 {
        "2"
    } else if d == 3 {
        "3"
    } else if d == 4 {
        "4"
    } else if d == 5 {
        "5"
    } else if d == 6 {
        "6"
    } else if d == 7 {
        "7"
    } else if d == 8 {
        "8"
    } else {
        "9"
    };
    assert(r@ =~= seq![digit(d as nat)]);
    r
}

/// Appends the decimal text of `n`.
fn append_decimal(s: &mut String, n: u16)
    ensures
        final(s)@ == old(s)@ + decimal(n as nat),
    decreases n,
{
    if n >= 10 {
        append_decimal(s, n / 10);
    }
    s.append(digit_text(n % 10));
    proof {
        if n >= 10 {
            assert(old(s)@ + decimal((n / 10) as nat) + seq![digit((n % 10) as nat)] =~= old(s)@
                + decimal(n as nat));
        } else {
            assert(old(s)@ + seq![digit((n % 10) as nat)] =~= old(s)@ + decimal(n as nat));
        }
    }
}

/// The port that the configuration resolves to.
pub open spec fn port_of(c: GeyserPluginPostgresConfig) -> u16 {
    match c.port {
        Some(p) => p,
        None => DEFAULT_POSTGRES_PORT,
    }
}

/// The connection string of a configuration: the one it gives, else one
/// built from its host, user and port; none without a host or a user.
pub open spec fn connection_text(c: GeyserPluginPostgresConfig) -> Option<Seq<char>> {
    match c.connection_str {
        Some(s) => Some(s@),
        None => match (c.host, c.user) {
            (Some(h), Some(u)) => Some(
                "host="@ + h@ + " user="@ + u@ + " port="@ + decimal(port_of(c) as nat),
            ),
            _ => None,
        },
    }
}

/// Whether the configuration asks for TLS.
pub open spec fn wants_tls(c: GeyserPluginPostgresConfig) -> bool {
    c.use_ssl == Some(true)
}

/// The first thing missing from a configuration, if any.
pub open spec fn config_problem(c: GeyserPluginPostgresConfig) -> Option<ConfigError> {
    if connection_text(c) is None {
        Some(ConfigError::MissingConnectionTarget)
    } else if wants_tls(c) && c.server_ca is None {
        Some(ConfigError::MissingServerCa)
    } else if wants_tls(c) && c.client_cert is None && c.client_key is Some {
        Some(ConfigError::MissingClientCert)
    } else if wants_tls(c) && c.client_cert is Some && c.client_key is None {
        Some(ConfigError::MissingClientKey)
    } else {
        None
    }
}

fn clone_text(s: &String) -> (r: String)
    ensures
        r@ == s@,
{
    s.clone()
}

impl ConfigError {
    /// The configuration error that the pipeline reports for this problem.
    pub fn into_plugin_error(self) -> (r: GeyserPluginPostgresError)
        ensures
            r is ConfigurationError,
    {
        let msg = match self {
            ConfigError::MissingConnectionTarget => String::from_str(
                "\"connection_str\", or \"host\" and \"user\" must be specified",
            ),
            ConfigError::MissingServerCa => String::from_str(
                "\"server_ca\" must be specified when \"use_ssl\" is set",
            ),
            ConfigError::MissingClientCert => String::from_str(
                "\"client_cert\" must be specified when \"client_key\" is set",
            ),
            ConfigError::MissingClientKey => String::from_str(
                "\"client_key\" must be specified when \"client_cert\" is set",
            ),
            ConfigError::MissingProgramId => String::from_str("\"program_id\" must be specified"),
            ConfigError::InvalidProgramId => String::from_str(
                "\"program_id\" must be a Base58 account key",
            ),
        };
        GeyserPluginPostgresError::ConfigurationError { msg }
    }
}

impl GeyserPluginPostgresConfig {
    /// The port to connect to.
    pub fn resolved_port(&self) -> (r: u16)
        ensures
            r == port_of(*self),
    {
        match self.port {
            Some(p) => p,
            None => DEFAULT_POSTGRES_PORT,
        }
    }

    /// The number of workers to start.
    pub fn worker_count(&self) -> (r: usize)
        ensures
            r == match self.threads {
                Some(n) => n,
                None => DEFAULT_THREADS_COUNT,
            },
    {
        match self.threads {
            Some(n) => n,
            None => DEFAULT_THREADS_COUNT,
        }
    }

    /// The batch size of bulk loads.
    pub fn resolved_batch_size(&self) -> (r: usize)
        ensures
            r == match self.batch_size {
                Some(n) => n,
                None => DEFAULT_ACCOUNTS_INSERT_BATCH_SIZE,
            },
    {
        match self.batch_size {
            Some(n) => n,
            None => DEFAULT_ACCOUNTS_INSERT_BATCH_SIZE,
        }
    }

    /// Whether a store failure terminates the process.
    pub fn escalates_db_errors(&self) -> (r: bool)
        ensures
            r == match self.panic_on_db_errors {
                Some(b) => b,
                None => DEFAULT_PANIC_ON_DB_ERROR,
            },
    {
        match self.panic_on_db_errors {
            Some(b) => b,
            None => DEFAULT_PANIC_ON_DB_ERROR,
        }
    }

    /// The key of the inscription program, decoded from its Base58 text.
    pub fn program_key(&self) -> (r: Result<Vec<u8>, ConfigError>)
        ensures
            match self.program_id {
                None => r == Err::<Vec<u8>, ConfigError>(ConfigError::MissingProgramId),
                Some(text) => match base58_decoded(text@) {
                    Some(bytes) => r matches Ok(key) && key@ == bytes,
                    None => r == Err::<Vec<u8>, ConfigError>(ConfigError::InvalidProgramId),
                },
            },
    {
        match &self.program_id {
            None => Err(ConfigError::MissingProgramId),
            Some(text) => match decode_base58(text) {
                Some(key) => Ok(key),
                None => Err(ConfigError::InvalidProgramId),
            },
        }
    }

    /// The connection string and TLS files that the configuration resolves
    /// to; an error names the first thing missing.
    pub fn connection_plan(&self) -> (r: Result<ConnectionPlan, ConfigError>)
        ensures
            config_problem(*self) matches Some(e) ==> r == Err::<ConnectionPlan, ConfigError>(e),
            config_problem(*self) is None ==> (r matches Ok(plan) && {
                &&& connection_text(*self) == Some(plan.connection_str@)
                &&& (plan.tls is Some) == wants_tls(*self)
                &&& (plan.tls matches Some(t) ==> {
                    &&& opt_text(self.server_ca) == Some(t.server_ca@)
                    &&& opt_text(self.client_cert) == opt_text(t.client_cert)
                    &&& opt_text(self.client_key) == opt_text(t.client_key)
                })
            }),
    {
        let connection_str = match &self.connection_str {
            Some(s) => clone_text(s),
            None => match (&self.host, &self.user) {
                (Some(h), Some(u)) => {
                    let mut s = String::from_str("host=");
                    s.append(h.as_str());
                    s.append(" user=");
                    s.append(u.as_str());
                    s.append(" port=");
                    append_decimal(&mut s, self.resolved_port());
                    s
                },
                _ => {
                    return Err(ConfigError::MissingConnectionTarget);
                },
            },
        };
        let wants = match self.use_ssl {
            Some(b) => b,
            None => false,
        };
        if !wants {
            return Ok(ConnectionPlan { connection_str, tls: None });
        }
        let server_ca = match &self.server_ca {
            Some(p) => clone_text(p),
            None => {
                return Err(ConfigError::MissingServerCa);
            },
        };
        let client_cert = match (&self.client_cert, &self.client_key) {
            (None, Some(_)) => {
                return Err(ConfigError::MissingClientCert);
            },
            (Some(_), None) => {
                return Err(ConfigError::MissingClientKey);
            },
            (Some(cert), Some(_)) => Some(clone_text(cert)),
            (None, None) => None,
        };
        let client_key = match &self.client_key {
            Some(k) => Some(clone_text(k)),
            None => None,
        };
        Ok(ConnectionPlan { connection_str, tls: Some(TlsFiles { server_ca, client_cert, client_key }) })
    }
}

} // verus!
