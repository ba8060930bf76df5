use webbench::webbench::too_many_failures;
use webbench::webbench::Config;
use webbench::webbench::ConfigError;
use webbench::webbench::SockAddr;
use webbench::worker::WorkerState;

fn local_addr() -> SockAddr {
    SockAddr::V4 { octets: [127, 0, 0, 1], port: 8080 }
}

fn valid_config() -> Config {
    Config {
        addrs: vec![local_addr()],
        request: b"GET / HTTP/1.1\r\nHost: x\r\nConnection: close\r\n\r\n".to_vec(),
        is_keepalive: false,
        clients: 4,
    }
}

#[test]
fn a_valid_config_passes_validation() {
    assert_eq!(valid_config().validate(), Ok(()));
}

#[test]
fn an_empty_address_list_is_rejected() {
    let mut config = valid_config();
    config.addrs = Vec::new();
    assert_eq!(config.validate(), Err(ConfigError::NoAddress));
}

#[test]
fn an_empty_request_is_rejected() {
    let mut config = valid_config();
    config.request = Vec::new();
    assert_eq!(config.validate(), Err(ConfigError::EmptyRequest));
}

#[test]
fn a_zero_client_count_is_rejected() {
    let mut config = valid_config();
    config.clients = 0;
    assert_eq!(config.validate(), Err(ConfigError::NoClients));
}

#[test]
fn the_first_problem_is_the_one_reported() {
    let config = Config {
        addrs: Vec::new(),
        request: Vec::new(),
        is_keepalive: false,
        clients: 0,
    };
    assert_eq!(config.validate(), Err(ConfigError::NoAddress));
}

#[test]
fn the_spawn_plan_has_one_worker_per_client() {
    let config = valid_config();
    let workers = config.spawn_plan();
    assert_eq!(workers.len(), 4);
    for w in &workers {
        assert_eq!(w.keep_alive, false);
        assert_eq!(w.request_len, config.request.len());
        assert_eq!(w.state, WorkerState::Connecting);
    }
}

#[test]
fn the_spawn_plan_carries_the_keepalive_mode() {
    let mut config = valid_config();
    config.is_keepalive = true;
    config.clients = 2;
    let workers = config.spawn_plan();
    assert_eq!(workers.len(), 2);
    for w in &workers {
        assert!(w.keep_alive);
    }
}

#[test]
fn no_successes_yet_means_no_abort() {
    assert!(!too_many_failures(0, 0));
    assert!(!too_many_failures(0, 1000));
}

#[test]
fn the_abort_threshold_is_half() {
    assert!(!too_many_failures(10, 5));
    assert!(too_many_failures(10, 6));
    assert!(!too_many_failures(1, 0));
    assert!(too_many_failures(1, 1));
    assert!(too_many_failures(u32::MAX, u32::MAX));
}
