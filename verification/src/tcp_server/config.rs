//! Strongly-typed configuration, read from environment variables.

use vstd::prelude::*;

use crate::env;
use crate::env::Env;
use crate::net::SocketAddress;
use crate::text;

pub use crate::env::ConfigError;

verus! {

/// Runtime configuration for the server.
#[derive(Debug, Clone, Copy)]
pub struct Config {
    /// Address the TCP server binds to.
    pub bind_addr: SocketAddress,
    /// Upper bound on concurrently-handled connections. At capacity the accept loop
    /// stops accepting instead of starting unbounded tasks.
    pub max_connections: usize,
    /// Maximum accepted request-body size, in bytes (larger is answered `413`).
    pub max_body_bytes: usize,
    /// Inactivity timeout. An idle keep-alive connection is closed after this; a
    /// stalled in-flight request gets a `408`.
    pub request_timeout_secs: u64,
    /// How long to let in-flight connections drain after a shutdown signal.
    pub shutdown_grace_secs: u64,
}

/// The address to bind to, as text.
pub open spec fn bind_text(vars: Map<Seq<char>, Seq<char>>) -> Seq<char> {
    env::var_or(vars, "APP_BIND_ADDR"@, "127.0.0.1:8080"@)
}

/// The first variable that cannot be read. `bind_addr` is the address that its
/// text denotes, if any.
pub open spec fn first_invalid(
    vars: Map<Seq<char>, Seq<char>>,
    bind_addr: Option<SocketAddress>,
) -> Option<Seq<char>> {
    if bind_addr is None {
        Some("APP_BIND_ADDR"@)
    } else if env::number_of(vars, "MAX_CONNECTIONS"@, "10000"@, usize::MAX as nat) is None {
        Some("MAX_CONNECTIONS"@)
    } else if env::number_of(vars, "MAX_BODY_BYTES"@, "65536"@, usize::MAX as nat) is None {
        Some("MAX_BODY_BYTES"@)
    } else if env::number_of(vars, "REQUEST_TIMEOUT_SECS"@, "30"@, u64::MAX as nat) is None {
        Some("REQUEST_TIMEOUT_SECS"@)
    } else if env::number_of(vars, "SHUTDOWN_GRACE_SECS"@, "10"@, u64::MAX as nat) is None {
        Some("SHUTDOWN_GRACE_SECS"@)
    } else {
        None
    }
}

impl Config {
    /// What the variables say, where all of them can be read.
    pub open spec fn reads(
        self,
        vars: Map<Seq<char>, Seq<char>>,
        bind_addr: Option<SocketAddress>,
    ) -> bool {
        &&& bind_addr == Some(self.bind_addr)
        &&& env::number_of(vars, "MAX_CONNECTIONS"@, "10000"@, usize::MAX as nat) == Some(
            self.max_connections as nat,
        )
        &&& env::number_of(vars, "MAX_BODY_BYTES"@, "65536"@, usize::MAX as nat) == Some(
            self.max_body_bytes as nat,
        )
        &&& env::number_of(vars, "REQUEST_TIMEOUT_SECS"@, "30"@, u64::MAX as nat) == Some(
            self.request_timeout_secs as nat,
        )
        &&& env::number_of(vars, "SHUTDOWN_GRACE_SECS"@, "10"@, u64::MAX as nat) == Some(
            self.shutdown_grace_secs as nat,
        )
    }

    /// The text of the address to bind to, which the caller reads.
    pub fn bind_address(vars: &Env) -> (s: String)
        ensures
            s@ == bind_text(vars@),
    {
        vars.or("APP_BIND_ADDR", "127.0.0.1:8080")
    }

    /// Builds configuration from environment variables, falling back to
    /// development-friendly defaults. `bind_addr` is what [`Config::bind_address`]
    /// denotes, `None` if it is no address. Errors only when a provided value is
    /// present but unparseable.
    pub fn from_env(vars: &Env, bind_addr: Option<SocketAddress>) -> (out: Result<
        Self,
        ConfigError,
    >)
        ensures
            match out {
                Ok(c) => first_invalid(vars@, bind_addr) is None && c.reads(vars@, bind_addr),
                Err(e) => first_invalid(vars@, bind_addr) == Some(e.variable()),
            },
    {
        let bind_addr = match bind_addr {
            Some(a) => a,
            None => {
                return Err(ConfigError::Invalid("APP_BIND_ADDR"));
            },
        };
        let max_connections: usize = match vars.number(
            "MAX_CONNECTIONS",
            "10000",
            usize::MAX as u64,
        ) {
            Ok(n) => n as usize,
            Err(e) => {
                return Err(e);
            },
        };
        let max_body_bytes: usize = match vars.number(
            "MAX_BODY_BYTES",
            "65536",
            usize::MAX as u64,
        ) {
            Ok(n) => n as usize,
            Err(e) => {
                return Err(e);
            },
        };
        let request_timeout_secs: u64 = match vars.number("REQUEST_TIMEOUT_SECS", "30", u64::MAX) {
            Ok(n) => n,
            Err(e) => {
                return Err(e);
            },
        };
        let shutdown_grace_secs: u64 = match vars.number("SHUTDOWN_GRACE_SECS", "10", u64::MAX) {
            Ok(n) => n,
            Err(e) => {
                return Err(e);
            },
        };
        Ok(
            Config {
                bind_addr,
                max_connections,
                max_body_bytes,
                request_timeout_secs,
                shutdown_grace_secs,
            },
        )
    }
}

/// Every setting is what its variable spells, or its default where the variable is not
/// set; without any variable and with an address to bind to, everything can be read.
pub proof fn settings_are_what_was_set(
    vars: Env,
    bind_addr: Option<SocketAddress>,
    n: nat,
    out: Result<Config, ConfigError>,
)
    requires
        call_ensures(Config::from_env, (&vars, bind_addr), out),
    ensures
        out matches Ok(c) ==> {
            &&& bind_addr == Some(c.bind_addr)
            &&& !vars@.contains_key("MAX_CONNECTIONS"@) ==> c.max_connections == 10000
            &&& vars@.contains_key("MAX_CONNECTIONS"@) && vars@["MAX_CONNECTIONS"@] == text::decimal_text(n) ==> c.max_connections == n
            &&& !vars@.contains_key("MAX_BODY_BYTES"@) ==> c.max_body_bytes == 65536
            &&& vars@.contains_key("MAX_BODY_BYTES"@) && vars@["MAX_BODY_BYTES"@] == text::decimal_text(n) ==> c.max_body_bytes == n
            &&& !vars@.contains_key("REQUEST_TIMEOUT_SECS"@) ==> c.request_timeout_secs == 30
            &&& vars@.contains_key("REQUEST_TIMEOUT_SECS"@) && vars@["REQUEST_TIMEOUT_SECS"@] == text::decimal_text(n) ==> c.request_timeout_secs == n
            &&& !vars@.contains_key("SHUTDOWN_GRACE_SECS"@) ==> c.shutdown_grace_secs == 10
            &&& vars@.contains_key("SHUTDOWN_GRACE_SECS"@) && vars@["SHUTDOWN_GRACE_SECS"@] == text::decimal_text(n) ==> c.shutdown_grace_secs == n
        },
        bind_addr is None ==> out is Err,
        bind_addr is Some && vars@.dom() =~= Set::empty() ==> out is Ok,
{
    lemma_default_10();
    lemma_default_30();
    lemma_default_10000();
    lemma_default_65536();
    text::decimal_round_trips(n);
}

proof fn lemma_default_10()
    ensures
        text::decimal_of("10"@) == Some(10nat),
{
    reveal_strlit("10");
    reveal_with_fuel(text::decimal_text, 3);
    assert("10"@ =~= text::decimal_text(10)) by {
        assert('0' as u8 == 48);
    }
    text::decimal_round_trips(10);
}

proof fn lemma_default_30()
    ensures
        text::decimal_of("30"@) == Some(30nat),
{
    reveal_strlit("30");
    reveal_with_fuel(text::decimal_text, 3);
    assert("30"@ =~= text::decimal_text(30)) by {
        assert('0' as u8 == 48);
    }
    text::decimal_round_trips(30);
}

proof fn lemma_default_10000()
    ensures
        text::decimal_of("10000"@) == Some(10000nat),
{
    reveal_strlit("10000");
    reveal_with_fuel(text::decimal_text, 6);
    assert("10000"@ =~= text::decimal_text(10000)) by {
        assert('0' as u8 == 48);
    }
    text::decimal_round_trips(10000);
}

proof fn lemma_default_65536()
    ensures
        text::decimal_of("65536"@) == Some(65536nat),
{
    reveal_strlit("65536");
    reveal_with_fuel(text::decimal_text, 6);
    assert("65536"@ =~= text::decimal_text(65536)) by {
        assert('0' as u8 == 48);
    }
    text::decimal_round_trips(65536);
}

/// Whatever else is set, the settings are read where there is an address to bind to and
/// every number is unset or spelled in digits and in range.
pub proof fn proper_settings_are_read(
    vars: Env,
    bind_addr: Option<SocketAddress>,
    out: Result<Config, ConfigError>,
)
    requires
        bind_addr is Some,
        env::unset_or_number(vars@, "MAX_CONNECTIONS"@, usize::MAX as nat),
        env::unset_or_number(vars@, "MAX_BODY_BYTES"@, usize::MAX as nat),
        env::unset_or_number(vars@, "REQUEST_TIMEOUT_SECS"@, u64::MAX as nat),
        env::unset_or_number(vars@, "SHUTDOWN_GRACE_SECS"@, u64::MAX as nat),
        call_ensures(Config::from_env, (&vars, bind_addr), out),
    ensures
        out is Ok,
{
    lemma_default_10();
    lemma_default_30();
    lemma_default_10000();
    lemma_default_65536();
    env::numbers_in_range_can_be_read(vars@, "MAX_CONNECTIONS"@, "10000"@, usize::MAX as nat);
    env::numbers_in_range_can_be_read(vars@, "MAX_BODY_BYTES"@, "65536"@, usize::MAX as nat);
    env::numbers_in_range_can_be_read(vars@, "REQUEST_TIMEOUT_SECS"@, "30"@, u64::MAX as nat);
    env::numbers_in_range_can_be_read(vars@, "SHUTDOWN_GRACE_SECS"@, "10"@, u64::MAX as nat);
}

/// The address to bind to is what is set, or a local one where nothing is; one that
/// cannot be read is what is reported first.
pub proof fn address_is_what_was_set(vars: Env, s: String, out: Result<Config, ConfigError>)
    requires
        call_ensures(Config::bind_address, (&vars,), s),
        call_ensures(Config::from_env, (&vars, None), out),
    ensures
        vars@.contains_key("APP_BIND_ADDR"@) ==> s@ == vars@["APP_BIND_ADDR"@],
        !vars@.contains_key("APP_BIND_ADDR"@) ==> s@ == "127.0.0.1:8080"@,
        out is Err && out->Err_0.variable() == "APP_BIND_ADDR"@,
{
}

} // verus!
