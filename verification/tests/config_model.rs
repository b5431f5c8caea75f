use prover::config::{CircuitConfig, Config, CoordinatorConfig, L2GethConfig};
use prover::types::ProverType;

fn sample_config(l2geth: Option<L2GethConfig>) -> Config {
    Config {
        prover_name: String::from("worker-7"),
        keystore_path: String::from("/keys/store.json"),
        keystore_password: String::from("example-password"),
        db_path: String::from("/state/db"),
        prover_type: ProverType::Chunk,
        low_version_circuit: CircuitConfig {
            hard_fork_name: String::from("bernoulli"),
            params_path: String::from("/params/low"),
            assets_path: String::from("/assets/low"),
        },
        high_version_circuit: CircuitConfig {
            hard_fork_name: String::from("curie"),
            params_path: String::from("/params/high"),
            assets_path: String::from("/assets/high"),
        },
        coordinator: CoordinatorConfig {
            base_url: String::from("https://coordinator.example"),
            retry_count: 3,
            retry_wait_time_sec: 5,
            connection_timeout_sec: 30,
        },
        l2geth,
    }
}

#[test]
fn constructed_config_keeps_every_field() {
    let c = sample_config(Some(L2GethConfig { endpoint: String::from("https://rpc.example") }));
    assert_eq!(c.prover_name, "worker-7");
    assert_eq!(c.keystore_path, "/keys/store.json");
    assert_eq!(c.keystore_password, "example-password");
    assert_eq!(c.db_path, "/state/db");
    assert_eq!(c.prover_type, ProverType::Chunk);
    assert_eq!(c.low_version_circuit.hard_fork_name, "bernoulli");
    assert_eq!(c.low_version_circuit.params_path, "/params/low");
    assert_eq!(c.low_version_circuit.assets_path, "/assets/low");
    assert_eq!(c.high_version_circuit.hard_fork_name, "curie");
    assert_eq!(c.high_version_circuit.params_path, "/params/high");
    assert_eq!(c.high_version_circuit.assets_path, "/assets/high");
    assert_eq!(c.coordinator.base_url, "https://coordinator.example");
    assert_eq!(c.coordinator.retry_count, 3);
    assert_eq!(c.coordinator.retry_wait_time_sec, 5);
    assert_eq!(c.coordinator.connection_timeout_sec, 30);
    assert_eq!(c.l2geth.as_ref().map(|g| g.endpoint.as_str()), Some("https://rpc.example"));
}

#[test]
fn absent_optional_section_is_valid() {
    let c = sample_config(None);
    assert!(c.l2geth.is_none());
    assert!(c.has_valid_circuit_paths());
}

#[test]
fn empty_circuit_path_fails_validation() {
    let mut c = sample_config(None);
    c.high_version_circuit.assets_path = String::new();
    assert!(!c.has_valid_circuit_paths());
}
