use instantmon::identity::{IdentityResolver, InterfaceIdentity};
use instantmon::model::{ComponentReading, CpuReading, DiskReading, NetReading, OsReading};
use instantmon::service::SystemService;

fn cpu(brand: &str, frequency: u64, usage_centi: u32) -> CpuReading {
    CpuReading { brand: String::from(brand), frequency, usage_centi }
}

fn base_reading() -> OsReading {
    OsReading {
        hostname: String::from("testhost"),
        os_type: String::from("13.2"),
        os_version: String::from("SomeOS 13.2"),
        kernel_version: String::from("6.1.0"),
        system_time_ms: 1_700_000_000_000,
        monotonic_ms: 10_000,
        uptime: 4_242,
        cpus: vec![cpu("TestCore", 2_400, 2_500), cpu("TestCore", 2_400, 7_500)],
        components: vec![
            ComponentReading { label: String::from("acpitz"), temperature_centi: 3_100 },
            ComponentReading { label: String::from("CPU Package"), temperature_centi: 5_450 },
            ComponentReading { label: String::from("CPU Core 0"), temperature_centi: 5_600 },
        ],
        memory_total: 16_000_000,
        memory_used: 9_000_000,
        memory_free: 5_000_000,
        swap_total: 2_000_000,
        swap_used: 1_000,
        disks: vec![
            DiskReading {
                name: String::from("sda1"),
                mount_point: String::from("/"),
                total_space: 1_000_000,
                available_space: 250_000,
                file_system: String::from("ext4"),
            },
            DiskReading {
                name: String::from("sdb1"),
                mount_point: String::from("/data"),
                total_space: 500_000,
                available_space: 500_000,
                file_system: String::from("xfs"),
            },
        ],
        networks: vec![
            NetReading {
                interface: String::from("eth0"),
                received_bytes: 1_000,
                transmitted_bytes: 500,
                received_packets: 10,
                transmitted_packets: 5,
            },
            NetReading {
                interface: String::from("lo"),
                received_bytes: 77,
                transmitted_bytes: 77,
                received_packets: 7,
                transmitted_packets: 7,
            },
        ],
    }
}

#[test]
fn snapshot_passes_scalar_fields_through() {
    let mut service = SystemService::new();
    let info = service.get_system_info(&base_reading());
    assert_eq!(info.hostname, "testhost");
    assert_eq!(info.os_type, "13.2");
    assert_eq!(info.os_version, "SomeOS 13.2");
    assert_eq!(info.kernel_version, "6.1.0");
    assert_eq!(info.system_time_ms, 1_700_000_000_000);
    assert_eq!(info.uptime, 4_242);
    assert_eq!(info.cpu_model, "TestCore");
    assert_eq!(info.cpu_cores, 2);
    assert_eq!(info.cpu_frequency, 2_400);
    assert_eq!(info.memory_total, 16_000_000);
    assert_eq!(info.memory_used, 9_000_000);
    assert_eq!(info.memory_free, 5_000_000);
    assert_eq!(info.swap_total, 2_000_000);
    assert_eq!(info.swap_used, 1_000);
}

#[test]
fn cpu_usage_is_the_integer_mean() {
    // (2500 + 7500) / 2 cores = 5000 hundredths, i.e. 50%.
    let mut service = SystemService::new();
    let info = service.get_system_info(&base_reading());
    assert_eq!(info.cpu_usage_centi, 5_000);
    // Uneven division rounds down: (1000 + 2000 + 4000) / 3 = 2333.
    let avg = SystemService::get_cpu_usage(&vec![
        cpu("x", 1, 1_000),
        cpu("x", 1, 2_000),
        cpu("x", 1, 4_000),
    ]);
    assert_eq!(avg, 2_333);
}

#[test]
fn no_cores_reported_yields_empty_model_and_zero_usage() {
    let mut service = SystemService::new();
    let mut reading = base_reading();
    reading.cpus = Vec::new();
    let info = service.get_system_info(&reading);
    assert_eq!(info.cpu_model, "");
    assert_eq!(info.cpu_cores, 0);
    assert_eq!(info.cpu_usage_centi, 0);
    assert_eq!(info.cpu_frequency, 0);
}

#[test]
fn first_cpu_labelled_sensor_wins() {
    let mut service = SystemService::new();
    let info = service.get_system_info(&base_reading());
    assert_eq!(info.cpu_temperature_centi, Some(5_450));
}

#[test]
fn missing_cpu_sensor_yields_absent_temperature() {
    let mut service = SystemService::new();
    let mut reading = base_reading();
    reading.components = vec![
        ComponentReading { label: String::from("acpitz"), temperature_centi: 3_100 },
        ComponentReading { label: String::from("nvme composite"), temperature_centi: 4_000 },
    ];
    // The snapshot is still assembled in full; only the field is absent.
    let info = service.get_system_info(&reading);
    assert_eq!(info.cpu_temperature_centi, None);
    assert_eq!(info.hostname, "testhost");
    assert_eq!(info.disks.len(), 2);
    assert_eq!(info.networks.len(), 2);

    reading.components = Vec::new();
    let info = service.get_system_info(&reading);
    assert_eq!(info.cpu_temperature_centi, None);
}

#[test]
fn cpu_label_match_is_case_sensitive_substring() {
    let temp = SystemService::get_cpu_temperature(&vec![
        ComponentReading { label: String::from("cpu core"), temperature_centi: 1 },
        ComponentReading { label: String::from("SoC CPU thermal"), temperature_centi: 2 },
    ]);
    assert_eq!(temp, Some(2));
}

#[test]
fn disk_used_space_is_total_minus_available() {
    let mut service = SystemService::new();
    let info = service.get_system_info(&base_reading());
    assert_eq!(info.disks.len(), 2);
    for disk in &info.disks {
        assert_eq!(disk.used_space, disk.total_space - disk.available_space);
    }
    assert_eq!(info.disks[0].name, "sda1");
    assert_eq!(info.disks[0].mount_point, "/");
    assert_eq!(info.disks[0].used_space, 750_000);
    assert_eq!(info.disks[0].file_system, "ext4");
    assert_eq!(info.disks[1].used_space, 0);
}

#[test]
fn repeated_calls_with_unchanged_state_return_identical_scalars() {
    let mut service = SystemService::new();
    let reading = base_reading();
    let a = service.get_system_info(&reading);
    // No time elapsed, OS state unchanged.
    let b = service.get_system_info(&reading);
    assert_eq!(a.hostname, b.hostname);
    assert_eq!(a.os_type, b.os_type);
    assert_eq!(a.os_version, b.os_version);
    assert_eq!(a.kernel_version, b.kernel_version);
    assert_eq!(a.system_time_ms, b.system_time_ms);
    assert_eq!(a.uptime, b.uptime);
    assert_eq!(a.cpu_model, b.cpu_model);
    assert_eq!(a.cpu_cores, b.cpu_cores);
    assert_eq!(a.cpu_usage_centi, b.cpu_usage_centi);
    assert_eq!(a.cpu_frequency, b.cpu_frequency);
    assert_eq!(a.cpu_temperature_centi, b.cpu_temperature_centi);
    assert_eq!(a.memory_total, b.memory_total);
    assert_eq!(a.memory_used, b.memory_used);
    assert_eq!(a.memory_free, b.memory_free);
    assert_eq!(a.swap_total, b.swap_total);
    assert_eq!(a.swap_used, b.swap_used);
    // And the repeat with zero elapsed time reports zero rates.
    assert_eq!(b.networks[0].rx_speed, 0);
    assert_eq!(b.networks[0].tx_speed, 0);
}

#[test]
fn snapshot_rates_follow_the_history() {
    let mut service = SystemService::new();
    let reading = base_reading();
    let first = service.get_system_info(&reading);
    // Cold start: both interfaces report zero.
    assert_eq!(first.networks[0].rx_speed, 0);
    assert_eq!(first.networks[0].tx_speed, 0);
    assert_eq!(first.networks[1].rx_speed, 0);

    let mut later = base_reading();
    later.monotonic_ms = 12_000;
    later.networks[0].received_bytes = 5_000;
    later.networks[0].transmitted_bytes = 1_500;
    let second = service.get_system_info(&later);
    // eth0: +4000 rx, +1000 tx bytes over 2 seconds.
    assert_eq!(second.networks[0].interface, "eth0");
    assert_eq!(second.networks[0].rx_speed, 2_000);
    assert_eq!(second.networks[0].tx_speed, 500);
    // lo: unchanged counters, a true zero rate.
    assert_eq!(second.networks[1].rx_speed, 0);
    // Cumulative counters pass through.
    assert_eq!(second.networks[0].received_bytes, 5_000);
    assert_eq!(second.networks[0].transmitted_bytes, 1_500);
    assert_eq!(second.networks[0].received_packets, 10);
    assert_eq!(second.networks[0].transmitted_packets, 5);
}

#[test]
fn unimplemented_resolver_reports_no_addresses() {
    let mut service = SystemService::new();
    let info = service.get_system_info(&base_reading());
    for net in &info.networks {
        assert!(net.ip_addresses.is_empty());
        assert!(net.mac_address.is_none());
    }
    let name = String::from("eth0");
    assert!(service.get_interface_ips(&name).is_empty());
    assert!(service.get_mac_address(&name).is_none());
}

#[test]
fn table_resolver_fills_identity_fields() {
    let table = vec![InterfaceIdentity {
        name: String::from("eth0"),
        ip_addresses: vec![String::from("192.168.1.2"), String::from("fe80::1")],
        mac_address: Some(String::from("aa:bb:cc:dd:ee:ff")),
    }];
    let mut service = SystemService::with_resolver(IdentityResolver::Table(table));
    let info = service.get_system_info(&base_reading());
    let eth0 = &info.networks[0];
    assert_eq!(eth0.ip_addresses, vec!["192.168.1.2", "fe80::1"]);
    assert_eq!(eth0.mac_address.as_deref(), Some("aa:bb:cc:dd:ee:ff"));
    // An interface missing from the table still resolves to nothing.
    let lo = &info.networks[1];
    assert!(lo.ip_addresses.is_empty());
    assert!(lo.mac_address.is_none());
}

#[test]
fn duplicate_interface_names_within_one_refresh_take_the_later_sample() {
    // A pathological reading where one name appears twice: the second
    // occurrence measures against the first one's just-recorded sample.
    let mut service = SystemService::new();
    let mut reading = base_reading();
    reading.networks = vec![
        NetReading {
            interface: String::from("eth0"),
            received_bytes: 1_000,
            transmitted_bytes: 0,
            received_packets: 0,
            transmitted_packets: 0,
        },
        NetReading {
            interface: String::from("eth0"),
            received_bytes: 2_000,
            transmitted_bytes: 0,
            received_packets: 0,
            transmitted_packets: 0,
        },
    ];
    let info = service.get_system_info(&reading);
    assert_eq!(info.networks[0].rx_speed, 0);
    // Same timestamp, so the rate is clamped to zero by the zero-dt policy.
    assert_eq!(info.networks[1].rx_speed, 0);
}
