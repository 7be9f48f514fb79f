use rest_services::env::Env;
use rest_services::net::SocketAddress;
use rest_services::tcp_server::metrics::Metrics;
use rest_services::tcp_server::registry::{Cmd, Registry};
use rest_services::tcp_server::server::{AcceptLoop, Accepted, AfterAccept, LoopAction};
use rest_services::tcp_server::config::ConfigError;
use rest_services::tcp_server::{Config, ServerError};

fn addr() -> SocketAddress {
    SocketAddress::V4 { ip4: 0x7f00_0001, port: 1234 }
}

#[test]
fn counters_accumulate() {
    let mut m = Metrics::default();
    assert_eq!(m.connections_total(), 0);
    m.on_connect();
    m.on_connect();
    m.on_request();
    assert_eq!(m.connections_total(), 2);
    assert_eq!(m.requests_total(), 1);
}

#[test]
fn guard_registers_and_drop_deregisters() {
    let mut reg = Registry::spawn();
    assert_eq!(reg.active_count(), 0);

    let g1 = reg.guard(1, addr());
    let g2 = reg.guard(2, addr());
    assert_eq!(reg.active_count(), 2);

    reg.release(g1);
    assert_eq!(reg.active_count(), 1);
    reg.release(g2);
    assert_eq!(reg.active_count(), 0);
}

#[test]
fn registry_carries_out_commands() {
    let mut reg = Registry::spawn();
    assert_eq!(reg.apply(Cmd::Register { id: 7, addr: addr() }), None);
    assert_eq!(reg.apply(Cmd::Register { id: 7, addr: addr() }), None);
    assert_eq!(reg.apply(Cmd::ActiveCount), Some(1));
    assert_eq!(reg.apply(Cmd::Deregister { id: 8 }), None);
    assert_eq!(reg.apply(Cmd::Deregister { id: 7 }), None);
    assert_eq!(reg.apply(Cmd::ActiveCount), Some(0));
}

#[test]
fn accept_loop_numbers_connections_and_backs_off() {
    let mut l = AcceptLoop::new(2);
    for id in 1..4u64 {
        assert_eq!(l.next(false), LoopAction::Acquire);
        l.on_permit(true);
        assert_eq!(l.next(false), LoopAction::Accept);
        if id == 2 {
            assert_eq!(l.on_accept(Accepted::Failed), AfterAccept::Backoff { millis: 50 });
            assert_eq!(l.next(false), LoopAction::Acquire);
            l.on_permit(true);
        }
        assert_eq!(l.on_accept(Accepted::Connection), AfterAccept::Spawn { id });
    }
}

#[test]
fn live_connections_never_exceed_the_limit() {
    let max = 3usize;
    let mut l = AcceptLoop::new(max);
    let mut free = max;
    let mut live = 0;
    for turn in 0..100 {
        match l.next(false) {
            LoopAction::Acquire if free > 0 => {
                free -= 1;
                l.on_permit(true);
            }
            // At capacity the loop waits until a connection ends.
            LoopAction::Acquire => {
                assert_eq!(live, max);
                live -= 1;
                free += 1;
            }
            LoopAction::Accept if turn % 5 == 0 => {
                assert!(matches!(l.on_accept(Accepted::Failed), AfterAccept::Backoff { .. }));
                free += 1;
            }
            LoopAction::Accept => {
                assert!(matches!(l.on_accept(Accepted::Connection), AfterAccept::Spawn { .. }));
                live += 1;
            }
            LoopAction::Drain { .. } => panic!("nothing was shut down"),
        }
        assert!(live <= max);
    }
}

#[test]
fn graceful_shutdown_completes() {
    // Noticed before the next permit.
    let mut l = AcceptLoop::new(1024);
    assert_eq!(l.next(true), LoopAction::Drain { permits: 1024 });
    assert_eq!(l.next(false), LoopAction::Drain { permits: 1024 });
    // While waiting for a permit.
    let mut l = AcceptLoop::new(1024);
    assert_eq!(l.next(false), LoopAction::Acquire);
    l.on_permit(false);
    assert_eq!(l.next(true), LoopAction::Drain { permits: 1024 });
    // While waiting for a connection.
    let mut l = AcceptLoop::new(usize::MAX);
    l.on_permit(true);
    assert_eq!(l.on_accept(Accepted::Shutdown), AfterAccept::Stop);
    assert_eq!(l.next(true), LoopAction::Drain { permits: u32::MAX });
}

#[test]
fn config_defaults_and_values() {
    let mut env = Env::new();
    assert_eq!(Config::bind_address(&env), "127.0.0.1:8080");
    let c = Config::from_env(&env, Some(addr())).unwrap();
    assert_eq!(c.bind_addr, addr());
    assert_eq!(c.max_connections, 10000);
    assert_eq!(c.max_body_bytes, 65536);
    assert_eq!(c.request_timeout_secs, 30);
    assert_eq!(c.shutdown_grace_secs, 10);

    env.set("APP_BIND_ADDR", "0.0.0.0:9000");
    env.set("MAX_CONNECTIONS", "20000");
    env.set("SHUTDOWN_GRACE_SECS", "+3");
    assert_eq!(Config::bind_address(&env), "0.0.0.0:9000");
    let c = Config::from_env(&env, Some(addr())).unwrap();
    assert_eq!(c.max_connections, 20000);
    assert_eq!(c.shutdown_grace_secs, 3);
}

#[test]
fn config_names_the_first_variable_that_is_wrong() {
    let mut env = Env::new();
    env.set("SHUTDOWN_GRACE_SECS", "soon");
    assert_eq!(
        Config::from_env(&env, Some(addr())).unwrap_err(),
        ConfigError::Invalid("SHUTDOWN_GRACE_SECS")
    );
    env.set("REQUEST_TIMEOUT_SECS", "18446744073709551616");
    assert_eq!(
        Config::from_env(&env, Some(addr())).unwrap_err(),
        ConfigError::Invalid("REQUEST_TIMEOUT_SECS")
    );
    env.set("MAX_BODY_BYTES", "");
    assert_eq!(
        Config::from_env(&env, Some(addr())).unwrap_err(),
        ConfigError::Invalid("MAX_BODY_BYTES")
    );
    env.set("MAX_CONNECTIONS", "-1");
    assert_eq!(
        Config::from_env(&env, Some(addr())).unwrap_err(),
        ConfigError::Invalid("MAX_CONNECTIONS")
    );
    assert_eq!(
        Config::from_env(&env, None).unwrap_err(),
        ConfigError::Invalid("APP_BIND_ADDR")
    );
}

#[test]
fn server_errors_are_described() {
    let e = ServerError::Config(ConfigError::Invalid("MAX_CONNECTIONS"));
    assert_eq!(e.message(), "invalid value for MAX_CONNECTIONS");
    assert_eq!(ServerError::Io("address in use".to_owned()).message(), "i/o error: address in use");
}
