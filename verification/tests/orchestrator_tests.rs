use lambdo::api::{select_ephemeral_ports, simple_spawn_options, StartResponse};
use lambdo::config::{
    default_bridge, default_bridge_address, default_image_manager_strategy, default_images_folder,
    ImageManagerConfig, ImageManagerStrategy, LambdoApiConfig, LambdoConfig, LambdoConfigError,
    NetworkConfig,
};
use lambdo::image::Image;
use lambdo::vm_manager::net::IpNet;
use lambdo::vm_manager::state::{str_eq, LambdoState, VMState, VMStatus};
use lambdo::vm_manager::vmm::{
    build_configuration, cleanup_rules, commit_start, dedup_port_mapping, generate_vm_id,
    prepare_start, remove_vm, stop_report, Error,
};
use lambdo::vm_manager::{
    bridge_firewall_rules, validate_bridge_config, BootOptions, DiskOptions, NetworkOptions,
    VMOptions,
};

fn test_config(bridge_address: &str) -> LambdoConfig {
    LambdoConfig {
        api_version: String::from("lambdo.io/v1alpha1"),
        kind: String::from("Config"),
        api: LambdoApiConfig {
            network: NetworkConfig {
                bridge: String::from("lambdo0"),
                bridge_address: String::from(bridge_address),
                web_host: String::from("0.0.0.0"),
                web_port: 3000,
            },
            image_manager: ImageManagerConfig {
                images_folder: String::from("/var/lib/lambdo/images"),
                strategy: ImageManagerStrategy::Folder,
            },
        },
    }
}

fn test_image(id: &str) -> Image {
    Image {
        id: String::from(id),
        name: String::from(id),
        path: format!("/var/lib/lambdo/images/{}", id),
    }
}

fn test_options(port_mapping: Vec<(u16, u16)>) -> VMOptions {
    VMOptions {
        boot: BootOptions { boot_args: None, initrd: None, kernel: test_image("vmlinux") },
        disks: vec![DiskOptions {
            image: test_image("rootfs"),
            is_readonly: false,
            is_root_device: true,
        }],
        network: NetworkOptions { port_mapping },
    }
}

#[test]
fn start_assigns_first_free_ip_and_keeps_mapping() {
    let mut state = LambdoState::new(test_config("192.168.10.1/24"));
    let (record, rules) =
        prepare_start(&state, &test_options(vec![(8080, 80)]), String::from("vm-one-00000001"))
            .expect("start must succeed");
    assert_eq!(record.ip, Some(IpNet { addr: 0xC0A80A02, prefix: 24 }));
    assert_eq!(record.status, VMStatus::Pending);
    assert_eq!(record.port_mapping, vec![(8080, 80)]);
    assert_eq!(record.configuration.host_dev_name.as_str(), "tap-vm-one-0");
    assert_eq!(rules.len(), 3);
    commit_start(&mut state, record);
    assert_eq!(state.vms[0].get_state(), VMStatus::Running);
    let used = state.get_used_ports();
    assert!(used.contains(&8080));
    let mapping = state.get_used_ports_of_vm("vm-one-00000001").expect("record must exist");
    assert!(mapping.contains(&(8080, 80)));
}

#[test]
fn start_appends_network_boot_argument() {
    let state = LambdoState::new(test_config("192.168.10.1/24"));
    let (record, _) =
        prepare_start(&state, &test_options(vec![]), String::from("vm-boot-00000001"))
            .expect("start must succeed");
    assert_eq!(
        record.configuration.boot_args.as_str(),
        "console=ttyS0 reboot=k panic=1 pci=off nomodule \
         ip=192.168.10.2::192.168.10.1:255.255.255.0::eth0:on"
    );
}

#[test]
fn two_starts_never_share_ip_or_port() {
    let mut state = LambdoState::new(test_config("192.168.10.1/24"));
    let (first, _) =
        prepare_start(&state, &test_options(vec![(8080, 80)]), String::from("vm-aaa-00000001"))
            .expect("first start must succeed");
    commit_start(&mut state, first);
    let (second, _) =
        prepare_start(&state, &test_options(vec![(9090, 90)]), String::from("vm-bbb-00000002"))
            .expect("second start must succeed");
    commit_start(&mut state, second);
    let a = state.vms[0].ip.unwrap();
    let b = state.vms[1].ip.unwrap();
    assert_ne!(a.addr, b.addr);
    assert_eq!(a.addr, 0xC0A80A02);
    assert_eq!(b.addr, 0xC0A80A03);
    let used = state.get_used_ports();
    assert_eq!(used, vec![8080, 9090]);
}

#[test]
fn start_rejects_claimed_host_port() {
    let mut state = LambdoState::new(test_config("192.168.10.1/24"));
    let (first, _) =
        prepare_start(&state, &test_options(vec![(8080, 80)]), String::from("vm-aaa-00000001"))
            .expect("first start must succeed");
    commit_start(&mut state, first);
    let err =
        prepare_start(&state, &test_options(vec![(8080, 81)]), String::from("vm-bbb-00000002"))
            .expect_err("claimed host port must be rejected");
    match err {
        Error::NetSetupError(msg) => assert_eq!(msg.as_str(), "Port mapping already exists"),
        other => panic!("wrong error: {}", other.describe()),
    }
}

#[test]
fn terminal_record_frees_its_resources() {
    let mut state = LambdoState::new(test_config("192.168.10.1/24"));
    let (mut first, _) =
        prepare_start(&state, &test_options(vec![(8080, 80)]), String::from("vm-aaa-00000001"))
            .expect("first start must succeed");
    first.set_state(VMStatus::Exited);
    state.vms.push(first);
    // The exited record keeps 192.168.10.2 in its field, but the scan must
    // reuse it, and the claimed-port check must ignore it.
    let (second, _) =
        prepare_start(&state, &test_options(vec![(8080, 81)]), String::from("vm-bbb-00000002"))
            .expect("resources of a terminal record are free");
    assert_eq!(second.ip, Some(IpNet { addr: 0xC0A80A02, prefix: 24 }));
    assert_eq!(second.port_mapping, vec![(8080, 81)]);
}

#[test]
fn start_rejects_duplicate_id() {
    let mut state = LambdoState::new(test_config("192.168.10.1/24"));
    let (first, _) = prepare_start(&state, &test_options(vec![]), String::from("vm-aaa-00000001"))
        .expect("first start must succeed");
    commit_start(&mut state, first);
    let err = prepare_start(&state, &test_options(vec![]), String::from("vm-aaa-00000001"))
        .expect_err("duplicate id must be rejected");
    match err {
        Error::Other(msg) => assert_eq!(msg.as_str(), "VM id already in use"),
        other => panic!("wrong error: {}", other.describe()),
    }
}

#[test]
fn ip_pool_exhaustion_fails_with_no_ip_available() {
    // A /30 leaves two candidates after the bridge's own address.
    let mut state = LambdoState::new(test_config("192.168.10.1/30"));
    for (i, id) in ["vm-aaa-00000001", "vm-bbb-00000002"].iter().enumerate() {
        let (record, _) = prepare_start(&state, &test_options(vec![]), String::from(*id))
            .expect("pool must not be exhausted yet");
        assert_eq!(record.ip.unwrap().addr, 0xC0A80A02 + i as u32);
        commit_start(&mut state, record);
    }
    let err = prepare_start(&state, &test_options(vec![]), String::from("vm-ccc-00000003"))
        .expect_err("pool must be exhausted");
    assert!(matches!(err, Error::NoIPAvailable));
}

#[test]
fn host_prefix_pool_is_empty() {
    let state = LambdoState::new(test_config("192.168.10.1/32"));
    let err = prepare_start(&state, &test_options(vec![]), String::from("vm-aaa-00000001"))
        .expect_err("a /32 has no address to hand out");
    assert!(matches!(err, Error::NoIPAvailable));
}

#[test]
fn stop_is_consuming() {
    let mut state = LambdoState::new(test_config("192.168.10.1/24"));
    let (record, _) =
        prepare_start(&state, &test_options(vec![(8080, 80)]), String::from("vm-one-00000001"))
            .expect("start must succeed");
    commit_start(&mut state, record);
    let removed = remove_vm(&mut state, "vm-one-00000001").expect("first stop must succeed");
    assert_eq!(removed.get_id().as_str(), "vm-one-00000001");
    let second = remove_vm(&mut state, "vm-one-00000001");
    assert!(matches!(second, Err(Error::VmNotFound)));
    assert!(state.get_used_ports_of_vm("vm-one-00000001").is_none());
    assert!(state.get_used_ports().is_empty());
}

#[test]
fn stop_of_unknown_id_reports_vm_not_found() {
    let mut state = LambdoState::new(test_config("192.168.10.1/24"));
    assert!(matches!(remove_vm(&mut state, "missing"), Err(Error::VmNotFound)));
}

#[test]
fn cleanup_removes_what_start_installed() {
    let state = LambdoState::new(test_config("192.168.10.1/24"));
    let (record, installed) =
        prepare_start(&state, &test_options(vec![(8080, 80)]), String::from("vm-one-00000001"))
            .expect("start must succeed");
    let removed = cleanup_rules(&record).expect("record has an address");
    assert_eq!(installed.len(), removed.len());
    for (a, b) in installed.iter().zip(removed.iter()) {
        assert_eq!(a.table, b.table);
        assert_eq!(a.chain, b.chain);
        assert_eq!(a.rule, b.rule);
    }
}

#[test]
fn cleanup_without_address_fails() {
    let record = VMState::new(build_configuration(
        &test_options(vec![]),
        String::from("vm-one-00000001"),
    ));
    let err = cleanup_rules(&record).expect_err("no address was assigned");
    match err {
        Error::Other(msg) => assert_eq!(msg.as_str(), "VM has no IP address"),
        other => panic!("wrong error: {}", other.describe()),
    }
}

#[test]
fn stop_reports_backend_error_first() {
    let backend: Result<(), Error> = Err(Error::Other(String::from("backend failed")));
    let cleanup: Result<(), Error> = Err(Error::NetSetupError(String::from("cleanup failed")));
    match stop_report(backend, cleanup) {
        Err(Error::Other(msg)) => assert_eq!(msg.as_str(), "backend failed"),
        _ => panic!("backend error must win"),
    }
    let ok_backend: Result<(), Error> = Ok(());
    let cleanup: Result<(), Error> = Err(Error::NetSetupError(String::from("cleanup failed")));
    assert!(matches!(stop_report(ok_backend, cleanup), Err(Error::NetSetupError(_))));
    let both_ok: Result<(), Error> = Ok(());
    assert!(stop_report(both_ok, Ok(())).is_ok());
}

#[test]
fn ephemeral_ports_are_distinct_and_in_range() {
    let mapping =
        select_ephemeral_ports(&vec![], &vec![80, 443]).expect("free range must succeed");
    assert_eq!(mapping.len(), 2);
    assert_eq!(mapping[0], (10000, 80));
    assert_eq!(mapping[1], (10001, 443));
    assert_ne!(mapping[0].0, mapping[1].0);
    for (host, _) in mapping {
        assert!((10000..20000).contains(&host));
    }
}

#[test]
fn ephemeral_ports_skip_used_ones() {
    let mapping = select_ephemeral_ports(&vec![10000, 10002], &vec![80])
        .expect("free ports remain");
    assert_eq!(mapping, vec![(10001, 80)]);
}

#[test]
fn ephemeral_range_exhaustion_fails() {
    let used: Vec<u16> = (10000u16..20000u16).collect();
    let err = select_ephemeral_ports(&used, &vec![80]).expect_err("range is exhausted");
    match err {
        Error::NetSetupError(msg) => assert_eq!(msg.as_str(), "No free port found"),
        other => panic!("wrong error: {}", other.describe()),
    }
}

#[test]
fn spawn_options_take_fixed_shape() {
    let opts = simple_spawn_options(
        test_image("vmlinux"),
        test_image("my-rootfs"),
        vec![(10000, 80)],
    );
    assert_eq!(opts.boot.kernel.id.as_str(), "vmlinux");
    assert!(opts.boot.initrd.is_none());
    assert!(opts.boot.boot_args.is_none());
    assert_eq!(opts.disks.len(), 1);
    assert_eq!(opts.disks[0].image.id.as_str(), "my-rootfs");
    assert!(!opts.disks[0].is_readonly);
    assert!(opts.disks[0].is_root_device);
    assert_eq!(opts.network.port_mapping, vec![(10000, 80)]);
}

#[test]
fn mapping_normalization_keeps_last_value_per_port() {
    let normalized = dedup_port_mapping(&vec![(8080, 80), (8080, 81), (9000, 90)]);
    assert_eq!(normalized, vec![(8080, 81), (9000, 90)]);
}

#[test]
fn configuration_carries_request_values() {
    let mut opts = test_options(vec![]);
    opts.boot.boot_args = Some(String::from("quiet"));
    opts.boot.initrd = Some(test_image("initrd"));
    let cfg = build_configuration(&opts, String::from("vm-cfg-00000001"));
    assert_eq!(cfg.vm_id.as_str(), "vm-cfg-00000001");
    assert_eq!(cfg.boot_args.as_str(), "quiet");
    assert_eq!(cfg.kernel_image_path.as_str(), "/var/lib/lambdo/images/vmlinux");
    assert_eq!(cfg.initrd_path.as_deref(), Some("/var/lib/lambdo/images/initrd"));
    assert_eq!(cfg.drives.len(), 1);
    assert_eq!(cfg.drives[0].drive_id.as_str(), "rootfs");
    assert_eq!(cfg.drives[0].path_on_host.as_str(), "/var/lib/lambdo/images/rootfs");
    assert!(!cfg.drives[0].is_read_only);
    assert!(cfg.drives[0].is_root_device);
    assert_eq!(cfg.iface_id.as_str(), "tap0");
    assert_eq!(cfg.chroot.as_str(), "/tmp");
    assert_eq!(cfg.exec_binary.as_str(), "/usr/bin/firecracker");
}

#[test]
fn bridge_bootstrap_validates_name_length() {
    // Sixteen characters: one over the host's interface-name limit.
    let err = validate_bridge_config("abcdefghijklmnop", "192.168.10.1/24")
        .expect_err("long name must be rejected");
    match err {
        Error::NetSetupError(msg) => assert_eq!(msg.as_str(), "bridge name is too long"),
        other => panic!("wrong error: {}", other.describe()),
    }
    let ok = validate_bridge_config("abcdefghijklmno", "192.168.10.1/24");
    assert!(ok.is_ok());
}

#[test]
fn bridge_bootstrap_validates_address() {
    let err = validate_bridge_config("lambdo0", "not-an-address")
        .expect_err("bad address must be rejected");
    match err {
        Error::NetSetupError(msg) => assert_eq!(msg.as_str(), "invalid bridge address"),
        other => panic!("wrong error: {}", other.describe()),
    }
    let inet = validate_bridge_config("lambdo0", "192.168.10.1/24").unwrap();
    assert_eq!(inet, IpNet { addr: 0xC0A80A01, prefix: 24 });
}

#[test]
fn bootstrap_installs_rules_once() {
    // First run: something is missing, three rules go in.
    let first = bridge_firewall_rules(false, false, "eth0", "lambdo0");
    assert_eq!(first.len(), 3);
    assert_eq!(first[0].table.as_str(), "filter");
    assert_eq!(first[0].chain.as_str(), "FORWARD");
    assert_eq!(first[0].rule.as_str(), "-i eth0 -o lambdo0 -j ACCEPT");
    assert_eq!(first[1].rule.as_str(), "-i lambdo0 -o eth0 -j ACCEPT");
    assert_eq!(first[2].table.as_str(), "nat");
    assert_eq!(first[2].chain.as_str(), "POSTROUTING");
    assert_eq!(first[2].rule.as_str(), "-o eth0 -j MASQUERADE");
    // Second run: bridge and address are in place, nothing is installed.
    let second = bridge_firewall_rules(true, true, "eth0", "lambdo0");
    assert!(second.is_empty());
    // A partial first state still installs.
    assert_eq!(bridge_firewall_rules(true, false, "eth0", "lambdo0").len(), 3);
    assert_eq!(bridge_firewall_rules(false, true, "eth0", "lambdo0").len(), 3);
}

#[test]
fn address_presence_needs_matching_netmask() {
    let inet = IpNet { addr: 0xC0A80A01, prefix: 24 };
    // Right address, right netmask.
    assert!(lambdo::vm_manager::address_present(
        &vec![(0x0A000001, Some(0xFF000000)), (0xC0A80A01, Some(0xFFFFFF00))],
        inet
    ));
    // Right address, wrong or missing netmask.
    assert!(!lambdo::vm_manager::address_present(&vec![(0xC0A80A01, Some(0xFFFF0000))], inet));
    assert!(!lambdo::vm_manager::address_present(&vec![(0xC0A80A01, None)], inet));
    // No matching address at all.
    assert!(!lambdo::vm_manager::address_present(&vec![(0x0A000001, Some(0xFFFFFF00))], inet));
}

#[test]
fn generated_ids_have_the_documented_shape() {
    let id = generate_vm_id();
    assert_eq!(id.len(), 36);
    assert!(id
        .chars()
        .all(|c| c.is_ascii_digit() || ('a'..='f').contains(&c) || c == '-'));
    let other = generate_vm_id();
    assert_ne!(id, other);
}

#[test]
fn config_validation_checks_kind_and_version() {
    let good = test_config("192.168.10.1/24");
    assert!(good.validate().is_ok());
    let mut bad_kind = test_config("192.168.10.1/24");
    bad_kind.kind = String::from("Other");
    assert!(matches!(bad_kind.validate(), Err(LambdoConfigError::KindNotSupported)));
    let mut bad_version = test_config("192.168.10.1/24");
    bad_version.api_version = String::from("lambdo.io/v2");
    assert!(matches!(bad_version.validate(), Err(LambdoConfigError::VersionNotSupported)));
}

#[test]
fn defaults_match_the_documented_values() {
    assert_eq!(default_bridge().as_str(), "lambdo0");
    assert_eq!(default_bridge_address().as_str(), "192.168.10.1/24");
    assert_eq!(default_images_folder().as_str(), "/var/lib/lambdo/images");
    assert!(matches!(default_image_manager_strategy(), ImageManagerStrategy::Folder));
}

#[test]
fn start_response_carries_id_and_mapping() {
    let response = StartResponse::from((String::from("vm-one"), vec![(8080u16, 80u16)]));
    assert_eq!(response.id.as_str(), "vm-one");
    assert_eq!(response.port_mapping, vec![(8080, 80)]);
}

#[test]
fn record_accessors_report_fields() {
    let mut record = VMState::new(build_configuration(
        &test_options(vec![]),
        String::from("vm-one-00000001"),
    ));
    assert_eq!(record.get_id().as_str(), "vm-one-00000001");
    assert_eq!(record.get_state(), VMStatus::Pending);
    record.set_state(VMStatus::Running);
    assert_eq!(record.get_state(), VMStatus::Running);
}

#[test]
fn string_comparison_is_exact() {
    assert!(str_eq("abc", "abc"));
    assert!(!str_eq("abc", "abd"));
    assert!(!str_eq("abc", "abcd"));
}

#[test]
fn error_messages_name_the_failure() {
    assert_eq!(Error::NoIPAvailable.describe().as_str(), "No IP address available");
    assert_eq!(Error::VmNotFound.describe().as_str(), "VM not found");
    assert_eq!(Error::VmAlreadyEnded.describe().as_str(), "VM already ended");
    assert_eq!(
        Error::VmmNew(String::from("x")).describe().as_str(),
        "Error while creating VMM: x"
    );
    assert_eq!(
        Error::VmmConfigure(String::from("x")).describe().as_str(),
        "Error while configuring VMM: x"
    );
    assert_eq!(
        Error::VmmRun(String::from("x")).describe().as_str(),
        "Error while running VMM: x"
    );
    assert_eq!(Error::ImageError(String::from("x")).describe().as_str(), "Error with images: x");
    assert_eq!(Error::Other(String::from("x")).describe().as_str(), "Other error: x");
    assert_eq!(
        Error::NetSetupError(String::from("x")).describe().as_str(),
        "Error while setting up network: x"
    );
}
