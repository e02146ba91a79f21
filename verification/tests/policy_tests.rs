use fairshare::policy::{PolicyConfig, PolicyError, PolicyManager, ResourceSpec};
use fairshare::utils::MemParseError;

fn policy(def_cpu: u32, def_mem: &str, max_cpu: u32, max_mem: &str) -> PolicyConfig {
    PolicyConfig {
        defaults: ResourceSpec { cpu: def_cpu, mem: def_mem.to_string() },
        max: ResourceSpec { cpu: max_cpu, mem: max_mem.to_string() },
    }
}

#[test]
fn test_valid_policy_parsing() {
    let mut manager = PolicyManager::new("/etc/fairshare/policy.d/default.yaml");

    assert!(manager.load_config(policy(2, "8G", 8, "32G")).is_ok());

    let config = manager.get_config().unwrap();
    assert_eq!(config.defaults.cpu, 2);
    assert_eq!(config.defaults.mem, "8G");
    assert_eq!(config.max.cpu, 8);
    assert_eq!(config.max.mem, "32G");
}

#[test]
fn test_policy_validation_max_less_than_defaults() {
    let mut manager = PolicyManager::new("default.yaml");

    let result = manager.load_config(policy(8, "32G", 2, "8G"));
    assert_eq!(
        result.unwrap_err(),
        PolicyError::MaxCpuBelowDefault { max: 2, default_cpu: 8 }
    );
    assert!(manager.get_config().is_none());

    let result = manager.load_config(policy(2, "32G", 8, "8G"));
    assert_eq!(result.unwrap_err(), PolicyError::MaxMemBelowDefault);
}

#[test]
fn test_policy_validation_zero_cpu() {
    let mut manager = PolicyManager::new("default.yaml");

    let result = manager.load_config(policy(0, "8G", 8, "32G"));
    assert_eq!(result.unwrap_err(), PolicyError::ZeroDefaultCpu);

    let result = manager.load_config(policy(2, "8G", 0, "32G"));
    assert_eq!(result.unwrap_err(), PolicyError::ZeroMaxCpu);
}

#[test]
fn test_policy_validation_invalid_memory_format() {
    let mut manager = PolicyManager::new("default.yaml");

    let result = manager.load_config(policy(2, "invalid", 8, "32G"));
    assert!(result.is_err());
    assert_eq!(
        result.unwrap_err(),
        PolicyError::InvalidMemory(MemParseError::InvalidFormat)
    );
}

#[test]
fn test_request_validation_within_limits() {
    let mut manager = PolicyManager::new("default.yaml");
    manager.load_config(policy(2, "8G", 8, "32G")).unwrap();

    assert!(manager.validate_request(4, "16G").is_ok());
    assert!(manager.validate_request(8, "32G").is_ok());
    assert!(manager.validate_request(1, "1G").is_ok());
}

#[test]
fn test_request_validation_exceeds_cpu_limit() {
    let mut manager = PolicyManager::new("default.yaml");
    manager.load_config(policy(2, "8G", 8, "32G")).unwrap();

    let result = manager.validate_request(16, "8G");
    assert_eq!(
        result.unwrap_err(),
        PolicyError::CpuExceedsMax { requested: 16, max: 8 }
    );
}

#[test]
fn test_request_validation_exceeds_memory_limit() {
    let mut manager = PolicyManager::new("default.yaml");
    manager.load_config(policy(2, "8G", 8, "32G")).unwrap();

    let result = manager.validate_request(4, "64G");
    assert_eq!(result.unwrap_err(), PolicyError::MemExceedsMax);
}

#[test]
fn test_request_validation_zero_cpu() {
    let mut manager = PolicyManager::new("default.yaml");
    manager.load_config(policy(2, "8G", 8, "32G")).unwrap();

    let result = manager.validate_request(0, "8G");
    assert_eq!(result.unwrap_err(), PolicyError::ZeroCpu);
}

#[test]
fn test_memory_unit_parsing_in_policy() {
    let mut manager = PolicyManager::new("default.yaml");

    assert!(manager.load_config(policy(2, "8192M", 8, "32GB")).is_ok());

    // 16G is within the 32GB limit.
    assert!(manager.validate_request(4, "16G").is_ok());
}

#[test]
fn test_reload_policies() {
    let mut manager = PolicyManager::new("default.yaml");

    manager.load_config(policy(2, "8G", 8, "32G")).unwrap();
    assert_eq!(manager.get_config().unwrap().defaults.cpu, 2);

    // Reloading drops the old configuration before installing the fresh one.
    manager.clear();
    assert!(manager.get_config().is_none());
    assert!(manager.load_config(policy(2, "8G", 8, "32G")).is_ok());
    assert_eq!(manager.get_config().unwrap().defaults.cpu, 2);
}

#[test]
fn test_get_defaults_and_max() {
    let mut manager = PolicyManager::new("default.yaml");
    manager.load_config(policy(2, "8G", 8, "32G")).unwrap();

    let defaults = manager.get_defaults().unwrap();
    assert_eq!(defaults.cpu, 2);
    assert_eq!(defaults.mem, "8G");

    let max = manager.get_max().unwrap();
    assert_eq!(max.cpu, 8);
    assert_eq!(max.mem, "32G");
}

#[test]
fn test_policy_not_loaded() {
    let manager = PolicyManager::new("/nonexistent/path.yaml");

    assert!(manager.get_defaults().is_err());
    assert!(manager.get_max().is_err());
    assert_eq!(
        manager.validate_request(1, "1G").unwrap_err(),
        PolicyError::NotLoaded
    );
}

#[test]
fn test_request_validation_invalid_memory() {
    let mut manager = PolicyManager::new("default.yaml");
    manager.load_config(policy(2, "8G", 8, "32G")).unwrap();

    assert_eq!(
        manager.validate_request(1, "banana").unwrap_err(),
        PolicyError::InvalidMemory(MemParseError::InvalidFormat)
    );
    assert_eq!(
        manager.validate_request(1, "1PB").unwrap_err(),
        PolicyError::InvalidMemory(MemParseError::UnknownUnit)
    );
}
