use fairshare::system::{
    calculate_available_resources, check_request, parse_cpu_quota_percent, parse_memory_max_value,
    parse_uid_from_slice, ServiceAlloc, SystemReserves, SystemTotals, UserAlloc,
};

fn totals(cpu: u64, mem: u64) -> SystemTotals {
    SystemTotals { total_cpu_count: cpu, total_mem_bytes: mem, total_disk_bytes: 0 }
}

fn no_reserves() -> SystemReserves {
    SystemReserves { cpu_reserve: 0, mem_reserve_bytes: 0, disk_reserve_bytes: 0 }
}

fn mk_alloc(uid: u32, cpu_percent: u64, mem: u64) -> UserAlloc {
    UserAlloc { uid, cpu_quota_percent: cpu_percent, mem_bytes: mem, disk_bytes: 0 }
}

fn no_services() -> Vec<ServiceAlloc> {
    Vec::new()
}

#[test]
fn test_check_request_sufficient_resources() {
    let totals = totals(8, 16_000_000_000);
    let allocations = vec![mk_alloc(1000, 200, 4_000_000_000)];

    // Request 2 CPUs and 4 GB - should be allowed
    assert!(check_request(
        &totals,
        &no_reserves(),
        &allocations,
        &no_services(),
        2,
        4_000_000_000,
        0,
        None
    ));
}

#[test]
fn test_check_request_insufficient_cpu() {
    let totals = totals(8, 16_000_000_000);
    let allocations = vec![mk_alloc(1000, 600, 4_000_000_000)];

    // Request 4 CPUs when only 2 are available - should fail
    assert!(!check_request(
        &totals,
        &no_reserves(),
        &allocations,
        &no_services(),
        4,
        4_000_000_000,
        0,
        None
    ));
}

#[test]
fn test_check_request_insufficient_memory() {
    let totals = totals(8, 16_000_000_000);
    let allocations = vec![mk_alloc(1000, 200, 12_000_000_000)];

    // Request 8 GB when only 4 GB available - should fail
    assert!(!check_request(
        &totals,
        &no_reserves(),
        &allocations,
        &no_services(),
        2,
        8_000_000_000,
        0,
        None
    ));
}

#[test]
fn test_check_request_multiple_users() {
    let totals = totals(16, 32_000_000_000);
    let allocations = vec![mk_alloc(1000, 400, 8_000_000_000), mk_alloc(1001, 200, 4_000_000_000)];

    // 6 CPUs used, 12 GB used
    // Request 5 CPUs and 10 GB - should be allowed (10 available, 20 available)
    assert!(check_request(
        &totals,
        &no_reserves(),
        &allocations,
        &no_services(),
        5,
        10_000_000_000,
        0,
        None
    ));

    // Request 12 CPUs - should fail (only 10 available)
    assert!(!check_request(
        &totals,
        &no_reserves(),
        &allocations,
        &no_services(),
        12,
        8_000_000_000,
        0,
        None
    ));
}

#[test]
fn test_check_request_exact_available() {
    let totals = totals(8, 16_000_000_000);
    let allocations = vec![mk_alloc(1000, 400, 8_000_000_000)];

    // Available: 4 CPUs, 8 GB.  Request exactly what's available: admitted.
    assert!(check_request(
        &totals,
        &no_reserves(),
        &allocations,
        &no_services(),
        4,
        8_000_000_000,
        0,
        None
    ));

    // One more CPU than available: rejected.
    assert!(!check_request(
        &totals,
        &no_reserves(),
        &allocations,
        &no_services(),
        5,
        8_000_000_000,
        0,
        None
    ));
    // One more byte of memory than available: rejected.
    assert!(!check_request(
        &totals,
        &no_reserves(),
        &allocations,
        &no_services(),
        4,
        8_000_000_001,
        0,
        None
    ));
}

#[test]
fn test_check_request_user_modifying_own_allocation() {
    let totals = totals(16, 32_000_000_000);
    let allocations = vec![mk_alloc(1000, 400, 10_000_000_000), mk_alloc(1001, 200, 5_000_000_000)];

    // Total used: 6 CPUs, 15 GB.  User 1000's own 4 CPUs / 10 GB are
    // excluded from the charge, so 5 CPUs and 11 GB fit.
    assert!(check_request(
        &totals,
        &no_reserves(),
        &allocations,
        &no_services(),
        5,
        11_000_000_000,
        0,
        Some(1000)
    ));

    // User 1001 shrinking its grant always fits.
    assert!(check_request(
        &totals,
        &no_reserves(),
        &allocations,
        &no_services(),
        1,
        3_000_000_000,
        0,
        Some(1001)
    ));

    // A new user sees 10 CPUs and 17 GB; a small request fits.
    assert!(check_request(
        &totals,
        &no_reserves(),
        &allocations,
        &no_services(),
        1,
        1_000_000_000,
        0,
        Some(1002)
    ));

    // User 1000 asking for far more than the delta allows is rejected.
    assert!(!check_request(
        &totals,
        &no_reserves(),
        &allocations,
        &no_services(),
        20,
        15_000_000_000,
        0,
        Some(1000)
    ));
}

#[test]
fn test_concurrent_charge_scenario() {
    // Totals {cpu:16, mem:32GB}, allocations for uid 1000 (4 CPUs, 8 GB)
    // and uid 1001 (2 CPUs, 4 GB), no reserves.
    let totals = totals(16, 32_000_000_000);
    let allocations = vec![mk_alloc(1000, 400, 8_000_000_000), mk_alloc(1001, 200, 4_000_000_000)];

    assert!(check_request(
        &totals,
        &no_reserves(),
        &allocations,
        &no_services(),
        5,
        10_000_000_000,
        0,
        None
    ));
    assert!(!check_request(
        &totals,
        &no_reserves(),
        &allocations,
        &no_services(),
        12,
        8_000_000_000,
        0,
        None
    ));
}

#[test]
fn test_availability_clamps_to_zero() {
    // Reserves larger than capacity drive availability to zero, never below.
    let totals = totals(4, 8_000_000_000);
    let reserves = SystemReserves {
        cpu_reserve: 100,
        mem_reserve_bytes: 100_000_000_000,
        disk_reserve_bytes: 7,
    };
    let (cpu, mem, disk) =
        calculate_available_resources(&totals, &reserves, &Vec::new(), &no_services(), None);
    assert_eq!(cpu, 0);
    assert_eq!(mem, 0);
    assert_eq!(disk, 0);
}

#[test]
fn test_availability_with_services_and_requester() {
    let totals = totals(16, 32_000_000_000);
    let allocations = vec![mk_alloc(1000, 400, 10_000_000_000), mk_alloc(1001, 200, 5_000_000_000)];
    let services = vec![ServiceAlloc {
        name: String::from("docker"),
        cpu_quota_percent: 200,
        mem_bytes: 2_000_000_000,
        disk_bytes: 0,
    }];
    let (cpu, mem, _disk) =
        calculate_available_resources(&totals, &no_reserves(), &allocations, &services, Some(1000));
    // Charge: (600 - 400) percent from users plus 200 percent from services.
    assert_eq!(cpu, 12);
    // Charge: (15 - 10) GB from users plus 2 GB from services.
    assert_eq!(mem, 25_000_000_000);
}

#[test]
fn test_delta_exclusion_concrete() {
    // The verdict for uid 1000 is the same whatever its own grant size.
    let totals = totals(16, 32_000_000_000);
    let others = vec![mk_alloc(1001, 200, 5_000_000_000)];
    for own_cpu in [0u64, 100, 400, 1600] {
        let mut allocations = vec![mk_alloc(1000, own_cpu, 10_000_000_000)];
        allocations.extend(others.iter().map(|a| mk_alloc(a.uid, a.cpu_quota_percent, a.mem_bytes)));
        assert!(check_request(
            &totals,
            &no_reserves(),
            &allocations,
            &no_services(),
            14,
            11_000_000_000,
            0,
            Some(1000)
        ));
        assert!(!check_request(
            &totals,
            &no_reserves(),
            &allocations,
            &no_services(),
            15,
            11_000_000_000,
            0,
            Some(1000)
        ));
    }
}

#[test]
fn test_parse_uid_from_slice_rejects_root() {
    // parse_uid_from_slice parses user-0.slice even though the allocation
    // gathering skips uid 0; the filtering happens in the caller.
    let uid = parse_uid_from_slice("user-0.slice");
    assert_eq!(uid, Some("0".to_string()), "Should parse UID 0 correctly");

    let uid = parse_uid_from_slice("user-1000.slice");
    assert_eq!(uid, Some("1000".to_string()), "Should parse UID 1000 correctly");
}

#[test]
fn test_system_slices_excluded_from_allocations() {
    // Regression guard: user-0.slice parses as uid 0, so the caller can
    // filter the root slice out of user allocations.
    let uid_0 = parse_uid_from_slice("user-0.slice");
    assert_eq!(uid_0, Some("0".to_string()), "Root user-0.slice should parse correctly");
}

#[test]
fn test_parse_uid_from_slice_rejects_malformed() {
    assert_eq!(parse_uid_from_slice("session-42.scope"), None);
    assert_eq!(parse_uid_from_slice("user-abc.slice"), None);
    assert_eq!(parse_uid_from_slice("user-12-34.slice"), None);
    assert_eq!(parse_uid_from_slice("user-.slice"), None);
    assert_eq!(parse_uid_from_slice("user-99999999999.slice"), None);
    assert_eq!(parse_uid_from_slice("user-0007.slice"), Some("0007".to_string()));
}

#[test]
fn test_parse_memory_max_values() {
    assert_eq!(parse_memory_max_value("4000000000"), 4_000_000_000);
    assert_eq!(parse_memory_max_value("infinity"), 0);
    assert_eq!(parse_memory_max_value(""), 0);
    assert_eq!(parse_memory_max_value("12x"), 0);
}

#[test]
fn test_parse_cpu_quota_values() {
    assert_eq!(parse_cpu_quota_percent("2s"), 200);
    assert_eq!(parse_cpu_quota_percent("1.5s"), 150);
    assert_eq!(parse_cpu_quota_percent("0.25s"), 25);
    assert_eq!(parse_cpu_quota_percent("infinity"), 0);
    assert_eq!(parse_cpu_quota_percent(""), 0);
    assert_eq!(parse_cpu_quota_percent("s"), 0);
}
