//! Strongly-typed configuration, read from environment variables.

use vstd::prelude::*;

use crate::env;
use crate::env::Env;
use crate::net::SocketAddress;
use crate::text;

pub use crate::env::ConfigError;

verus! {

/// Runtime configuration for the service.
#[derive(Debug)]
pub struct Config {
    /// Address the HTTP server binds to.
    pub bind_addr: SocketAddress,
    /// Maximum accepted request body size, in bytes.
    pub max_body_bytes: usize,
    /// Connection URL of the database (e.g. `sqlite://data/links.db`).
    pub database_url: String,
    /// Upper bound on pooled database connections.
    pub database_max_connections: u32,
    /// Base URL used to build the full short link returned to clients.
    pub public_base_url: String,
    /// Per-request timeout in seconds (a slow request is cut off with `408`).
    pub request_timeout_secs: u64,
    /// Max in-flight requests; excess requests wait (bounded by the timeout).
    pub max_concurrent_requests: usize,
    /// Hosts (and their subdomains) that may not be shortened. Lowercased.
    pub blocked_hosts: Vec<String>,
    /// Per-IP rate limit in requests/second. `0` disables rate limiting.
    pub rate_limit_rps: u32,
    /// Per-IP burst capacity. When `0` and `rate_limit_rps > 0`, defaults to rps.
    pub rate_limit_burst: u32,
}

/// The address to bind to, as text.
pub open spec fn bind_text(vars: Map<Seq<char>, Seq<char>>) -> Seq<char> {
    env::var_or(vars, "APP_BIND_ADDR"@, "127.0.0.1:8080"@)
}

/// The first variable that cannot be read. `bind_addr` is the address that its
/// text denotes, if any.
pub open spec fn first_invalid(
    vars: Map<Seq<char>, Seq<char>>,
    bind_addr: Option<SocketAddress>,
) -> Option<Seq<char>> {
    if bind_addr is None {
        Some("APP_BIND_ADDR"@)
    } else if env::number_of(vars, "MAX_BODY_BYTES"@, "16384"@, usize::MAX as nat) is None {
        Some("MAX_BODY_BYTES"@)
    } else if env::number_of(vars, "DATABASE_MAX_CONNECTIONS"@, "5"@, u32::MAX as nat) is None {
        Some("DATABASE_MAX_CONNECTIONS"@)
    } else if env::number_of(vars, "REQUEST_TIMEOUT_SECS"@, "10"@, u64::MAX as nat) is None {
        Some("REQUEST_TIMEOUT_SECS"@)
    } else if env::number_of(vars, "MAX_CONCURRENT_REQUESTS"@, "1024"@, usize::MAX as nat) is None {
        Some("MAX_CONCURRENT_REQUESTS"@)
    } else if env::number_of(vars, "RATE_LIMIT_RPS"@, "0"@, u32::MAX as nat) is None {
        Some("RATE_LIMIT_RPS"@)
    } else if env::number_of(vars, "RATE_LIMIT_BURST"@, "0"@, u32::MAX as nat) is None {
        Some("RATE_LIMIT_BURST"@)
    } else {
        None
    }
}

impl Config {
    /// What the variables say, where all of them can be read.
    pub open spec fn reads(
        &self,
        vars: Map<Seq<char>, Seq<char>>,
        bind_addr: Option<SocketAddress>,
    ) -> bool {
        &&& bind_addr == Some(self.bind_addr)
        &&& env::number_of(vars, "MAX_BODY_BYTES"@, "16384"@, usize::MAX as nat) == Some(
            self.max_body_bytes as nat,
        )
        &&& self.database_url@ == env::var_or(vars, "DATABASE_URL"@, "sqlite://links.db"@)
        &&& env::number_of(vars, "DATABASE_MAX_CONNECTIONS"@, "5"@, u32::MAX as nat) == Some(
            self.database_max_connections as nat,
        )
        &&& self.public_base_url@ == env::var_or(
            vars,
            "PUBLIC_BASE_URL"@,
            "http://127.0.0.1:8080"@,
        )
        &&& env::number_of(vars, "REQUEST_TIMEOUT_SECS"@, "10"@, u64::MAX as nat) == Some(
            self.request_timeout_secs as nat,
        )
        &&& env::number_of(vars, "MAX_CONCURRENT_REQUESTS"@, "1024"@, usize::MAX as nat) == Some(
            self.max_concurrent_requests as nat,
        )
        &&& env::strings(self.blocked_hosts@) == env::listed(
            text::split_on(env::var_or(vars, "BLOCKED_HOSTS"@, ""@), seq![',']),
        )
        &&& env::number_of(vars, "RATE_LIMIT_RPS"@, "0"@, u32::MAX as nat) == Some(
            self.rate_limit_rps as nat,
        )
        &&& env::number_of(vars, "RATE_LIMIT_BURST"@, "0"@, u32::MAX as nat) == Some(
            self.rate_limit_burst as nat,
        )
    }

    /// The text of the address to bind to, which the caller reads.
    pub fn bind_address(vars: &Env) -> (s: String)
        ensures
            s@ == bind_text(vars@),
    {
        vars.or("APP_BIND_ADDR", "127.0.0.1:8080")
    }

    /// Builds configuration from environment variables, falling back to
    /// development-friendly defaults. `bind_addr` is what [`Config::bind_address`]
    /// denotes, `None` if it is no address. Errors only when a provided value is
    /// present but unparseable.
    pub fn from_env(vars: &Env, bind_addr: Option<SocketAddress>) -> (out: Result<
        Self,
        ConfigError,
    >)
        ensures
            match out {
                Ok(c) => first_invalid(vars@, bind_addr) is None && c.reads(vars@, bind_addr),
                Err(e) => first_invalid(vars@, bind_addr) == Some(e.variable()),
            },
    {
        let bind_addr = match bind_addr {
            Some(a) => a,
            None => {
                return Err(ConfigError::Invalid("APP_BIND_ADDR"));
            },
        };
        let max_body_bytes: usize = match vars.number(
            "MAX_BODY_BYTES",
            "16384",
            usize::MAX as u64,
        ) {
            Ok(n) => n as usize,
            Err(e) => {
                return Err(e);
            },
        };
        let database_url = vars.or("DATABASE_URL", "sqlite://links.db");
        let database_max_connections: u32 = match vars.number(
            "DATABASE_MAX_CONNECTIONS",
            "5",
            u32::MAX as u64,
        ) {
            Ok(n) => n as u32,
            Err(e) => {
                return Err(e);
            },
        };
        let public_base_url = vars.or("PUBLIC_BASE_URL", "http://127.0.0.1:8080");
        let request_timeout_secs: u64 = match vars.number("REQUEST_TIMEOUT_SECS", "10", u64::MAX) {
            Ok(n) => n,
            Err(e) => {
                return Err(e);
            },
        };
        let max_concurrent_requests: usize = match vars.number(
            "MAX_CONCURRENT_REQUESTS",
            "1024",
            usize::MAX as u64,
        ) {
            Ok(n) => n as usize,
            Err(e) => {
                return Err(e);
            },
        };
        let blocked_hosts = env::comma_list(vars.or("BLOCKED_HOSTS", "").as_str());
        let rate_limit_rps: u32 = match vars.number("RATE_LIMIT_RPS", "0", u32::MAX as u64) {
            Ok(n) => n as u32,
            Err(e) => {
                return Err(e);
            },
        };
        let rate_limit_burst: u32 = match vars.number("RATE_LIMIT_BURST", "0", u32::MAX as u64) {
            Ok(n) => n as u32,
            Err(e) => {
                return Err(e);
            },
        };
        Ok(
            Config {
                bind_addr,
                max_body_bytes,
                database_url,
                database_max_connections,
                public_base_url,
                request_timeout_secs,
                max_concurrent_requests,
                blocked_hosts,
                rate_limit_rps,
                rate_limit_burst,
            },
        )
    }
}

/// Every setting is what its variable spells, or its default where the variable is not
/// set; without any variable and with an address to bind to, everything can be read.
pub proof fn settings_are_what_was_set(
    vars: Env,
    bind_addr: Option<SocketAddress>,
    n: nat,
    out: Result<Config, ConfigError>,
)
    requires
        call_ensures(Config::from_env, (&vars, bind_addr), out),
    ensures
        out matches Ok(c) ==> {
            &&& bind_addr == Some(c.bind_addr)
            &&& !vars@.contains_key("MAX_BODY_BYTES"@) ==> c.max_body_bytes == 16384
            &&& vars@.contains_key("MAX_BODY_BYTES"@) && vars@["MAX_BODY_BYTES"@] == text::decimal_text(n) ==> c.max_body_bytes == n
            &&& !vars@.contains_key("DATABASE_MAX_CONNECTIONS"@) ==> c.database_max_connections == 5
            &&& vars@.contains_key("DATABASE_MAX_CONNECTIONS"@) && vars@["DATABASE_MAX_CONNECTIONS"@] == text::decimal_text(n) ==> c.database_max_connections == n
            &&& !vars@.contains_key("REQUEST_TIMEOUT_SECS"@) ==> c.request_timeout_secs == 10
            &&& vars@.contains_key("REQUEST_TIMEOUT_SECS"@) && vars@["REQUEST_TIMEOUT_SECS"@] == text::decimal_text(n) ==> c.request_timeout_secs == n
            &&& !vars@.contains_key("MAX_CONCURRENT_REQUESTS"@) ==> c.max_concurrent_requests == 1024
            &&& vars@.contains_key("MAX_CONCURRENT_REQUESTS"@) && vars@["MAX_CONCURRENT_REQUESTS"@] == text::decimal_text(n) ==> c.max_concurrent_requests == n
            &&& !vars@.contains_key("RATE_LIMIT_RPS"@) ==> c.rate_limit_rps == 0
            &&& vars@.contains_key("RATE_LIMIT_RPS"@) && vars@["RATE_LIMIT_RPS"@] == text::decimal_text(n) ==> c.rate_limit_rps == n
            &&& !vars@.contains_key("RATE_LIMIT_BURST"@) ==> c.rate_limit_burst == 0
            &&& vars@.contains_key("RATE_LIMIT_BURST"@) && vars@["RATE_LIMIT_BURST"@] == text::decimal_text(n) ==> c.rate_limit_burst == n
            &&& !vars@.contains_key("DATABASE_URL"@) ==> c.database_url@ == "sqlite://links.db"@
            &&& vars@.contains_key("DATABASE_URL"@) ==> c.database_url@ == vars@["DATABASE_URL"@]
            &&& !vars@.contains_key("PUBLIC_BASE_URL"@) ==> c.public_base_url@ == "http://127.0.0.1:8080"@
            &&& vars@.contains_key("PUBLIC_BASE_URL"@) ==> c.public_base_url@ == vars@["PUBLIC_BASE_URL"@]
        },
        bind_addr is None ==> out is Err,
        bind_addr is Some && vars@.dom() =~= Set::empty() ==> out is Ok,
{
    lemma_default_0();
    lemma_default_5();
    lemma_default_10();
    lemma_default_1024();
    lemma_default_16384();
    text::decimal_round_trips(n);
}

proof fn lemma_default_0()
    ensures
        text::decimal_of("0"@) == Some(0nat),
{
    reveal_strlit("0");
    reveal_with_fuel(text::decimal_text, 2);
    assert("0"@ =~= text::decimal_text(0)) by {
        assert('0' as u8 == 48);
    }
    text::decimal_round_trips(0);
}

proof fn lemma_default_5()
    ensures
        text::decimal_of("5"@) == Some(5nat),
{
    reveal_strlit("5");
    reveal_with_fuel(text::decimal_text, 2);
    assert("5"@ =~= text::decimal_text(5)) by {
        assert('0' as u8 == 48);
    }
    text::decimal_round_trips(5);
}

proof fn lemma_default_10()
    ensures
        text::decimal_of("10"@) == Some(10nat),
{
    reveal_strlit("10");
    reveal_with_fuel(text::decimal_text, 3);
    assert("10"@ =~= text::decimal_text(10)) by {
        assert('0' as u8 == 48);
    }
    text::decimal_round_trips(10);
}

proof fn lemma_default_1024()
    ensures
        text::decimal_of("1024"@) == Some(1024nat),
{
    reveal_strlit("1024");
    reveal_with_fuel(text::decimal_text, 5);
    assert("1024"@ =~= text::decimal_text(1024)) by {
        assert('0' as u8 == 48);
    }
    text::decimal_round_trips(1024);
}

proof fn lemma_default_16384()
    ensures
        text::decimal_of("16384"@) == Some(16384nat),
{
    reveal_strlit("16384");
    reveal_with_fuel(text::decimal_text, 6);
    assert("16384"@ =~= text::decimal_text(16384)) by {
        assert('0' as u8 == 48);
    }
    text::decimal_round_trips(16384);
}

/// Whatever else is set, the settings are read where there is an address to bind to and
/// every number is unset or spelled in digits and in range.
pub proof fn proper_settings_are_read(
    vars: Env,
    bind_addr: Option<SocketAddress>,
    out: Result<Config, ConfigError>,
)
    requires
        bind_addr is Some,
        env::unset_or_number(vars@, "MAX_BODY_BYTES"@, usize::MAX as nat),
        env::unset_or_number(vars@, "DATABASE_MAX_CONNECTIONS"@, u32::MAX as nat),
        env::unset_or_number(vars@, "REQUEST_TIMEOUT_SECS"@, u64::MAX as nat),
        env::unset_or_number(vars@, "MAX_CONCURRENT_REQUESTS"@, usize::MAX as nat),
        env::unset_or_number(vars@, "RATE_LIMIT_RPS"@, u32::MAX as nat),
        env::unset_or_number(vars@, "RATE_LIMIT_BURST"@, u32::MAX as nat),
        call_ensures(Config::from_env, (&vars, bind_addr), out),
    ensures
        out is Ok,
{
    lemma_default_0();
    lemma_default_5();
    lemma_default_10();
    lemma_default_1024();
    lemma_default_16384();
    env::numbers_in_range_can_be_read(vars@, "MAX_BODY_BYTES"@, "16384"@, usize::MAX as nat);
    env::numbers_in_range_can_be_read(vars@, "DATABASE_MAX_CONNECTIONS"@, "5"@, u32::MAX as nat);
    env::numbers_in_range_can_be_read(vars@, "REQUEST_TIMEOUT_SECS"@, "10"@, u64::MAX as nat);
    env::numbers_in_range_can_be_read(vars@, "MAX_CONCURRENT_REQUESTS"@, "1024"@, usize::MAX as nat);
    env::numbers_in_range_can_be_read(vars@, "RATE_LIMIT_RPS"@, "0"@, u32::MAX as nat);
    env::numbers_in_range_can_be_read(vars@, "RATE_LIMIT_BURST"@, "0"@, u32::MAX as nat);
}

/// The address to bind to is what is set, or a local one where nothing is; one that
/// cannot be read is what is reported first.
pub proof fn address_is_what_was_set(vars: Env, s: String, out: Result<Config, ConfigError>)
    requires
        call_ensures(Config::bind_address, (&vars,), s),
        call_ensures(Config::from_env, (&vars, None), out),
    ensures
        vars@.contains_key("APP_BIND_ADDR"@) ==> s@ == vars@["APP_BIND_ADDR"@],
        !vars@.contains_key("APP_BIND_ADDR"@) ==> s@ == "127.0.0.1:8080"@,
        out is Err && out->Err_0.variable() == "APP_BIND_ADDR"@,
{
}

/// The denylist holds the hosts that are set, with commas between them: each without the
/// white space around it and in lower case, and none that is empty. Where nothing is set
/// it is empty.
pub proof fn denylist_is_what_was_set(
    vars: Env,
    bind_addr: Option<SocketAddress>,
    out: Result<Config, ConfigError>,
    parts: Seq<Seq<char>>,
    x: Seq<char>,
)
    requires
        call_ensures(Config::from_env, (&vars, bind_addr), out),
        out is Ok,
        parts.len() > 0,
        forall|i: int| 0 <= i < parts.len() ==> !(#[trigger] parts[i]).contains(','),
    ensures
        !vars@.contains_key("BLOCKED_HOSTS"@) ==> out->Ok_0.blocked_hosts@.len() == 0,
        vars@.contains_key("BLOCKED_HOSTS"@) && vars@["BLOCKED_HOSTS"@] == text::joined_with(
            parts,
            seq![','],
        ) ==> ((exists|k: int|
            0 <= k < out->Ok_0.blocked_hosts@.len() && (
            #[trigger] out->Ok_0.blocked_hosts@[k])@ == x) <==> x.len() > 0 && (exists|i: int|
            0 <= i < parts.len() && x == text::lowered(text::trimmed(#[trigger] parts[i])))),
{
    let list = out->Ok_0.blocked_hosts@;
    let comma = seq![','];
    if !vars@.contains_key("BLOCKED_HOSTS"@) {
        reveal_strlit("");
        let none: Seq<Seq<char>> = seq![Seq::<char>::empty()];
        assert(text::joined_with(none, comma) =~= ""@) by {
            reveal_with_fuel(text::joined_with, 2);
        }
        text::joined_pieces_are_split_again(none, comma);
        if list.len() > 0 {
            let y = env::strings(list)[0];
            assert(env::listed(none).contains(y));
            env::lists_hold_their_parts(none, y);
            text::trimming_takes_white_space_only(Seq::<char>::empty());
        }
    } else if vars@["BLOCKED_HOSTS"@] == text::joined_with(parts, comma) {
        assert forall|i: int, j: int|
            0 <= i < parts.len() && 0 <= j < parts[i].len() implies #[trigger] parts[i][j]
            != comma[0] by {
            assert(!parts[i].contains(','));
        }
        text::joined_pieces_are_split_again(parts, comma);
        env::lists_hold_their_parts(parts, x);
        assert(env::strings(list) == env::listed(parts));
        assert forall|k: int| 0 <= k < list.len() implies (#[trigger] list[k])@
            == env::listed(parts)[k] by {
            assert(env::strings(list)[k] == list[k]@);
        }
        if env::listed(parts).contains(x) {
            let k = choose|k: int|
                0 <= k < env::listed(parts).len() && env::listed(parts)[k] == x;
            assert(env::strings(list)[k] == list[k]@);
        }
    }
}

} // verus!
