//! The evaluator: whether a condition holds of a snapshot, and the findings
//! that a set of compiled rules gives for it.
//!
//! A condition on something that was not observed does not hold, so that a
//! rule never fires on what is not known.

use crate::condition::{Condition, ConditionModel, Key};
use crate::correlate::{is_ranked, lemma_rank_is_ranked, rank, sort_by_severity};
use crate::metrics::{GpuDetails, Metrics, MEMORY_EPSILON_BITS};
use crate::number::{decimal_text, push_decimal, Float};
use crate::pattern::pattern_matches;
use crate::rules::{copy_of, text_of, views, CompiledRule, Finding, FindingModel, Rule};
use crate::text::{
    chars_of, contains, has_part, lowered, same_ignoring_case, same_text_ignoring_case, to_lower,
};
use crate::trigger::{models, parse_trigger, spec_parse_trigger};
use vstd::prelude::*;

verus! {

/// The log text that an optional string slice holds, if any.
pub open spec fn log_text(logs: Option<&str>) -> Option<Seq<char>> {
    match logs {
        Some(text) => Some(text@),
        None => None,
    }
}

/// Whether some process name holds the text, taken in lower case.
pub open spec fn some_process_holds(names: Seq<String>, text: Seq<char>) -> bool {
    exists|i: int| 0 <= i < names.len() && contains(#[trigger] names[i]@, to_lower(text))
}

/// Whether a number that may not be known is greater than a threshold.
pub open spec fn known_above(value: Option<Float>, threshold: Float) -> bool {
    value matches Some(v) && v.spec_gt(threshold)
}

/// Whether a number that may not be known is less than a threshold.
pub open spec fn known_below(value: Option<Float>, threshold: Float) -> bool {
    value matches Some(v) && v.spec_lt(threshold)
}

/// Whether a count that may not be known is greater than a threshold.
pub open spec fn counted_above(value: Option<u32>, threshold: nat) -> bool {
    value matches Some(v) && v > threshold
}

/// Whether a text that may not be known is exactly the given one.
pub open spec fn known_equal(value: Option<String>, text: Seq<char>) -> bool {
    value matches Some(v) && v@ == text
}

/// The temperature of the GPU, where a GPU and its temperature are known.
pub open spec fn gpu_temperature(gpu: Option<GpuDetails>) -> Option<Float> {
    match gpu {
        Some(g) => g.temperature,
        None => None,
    }
}

/// How busy the GPU is, where a GPU and its load are known.
pub open spec fn gpu_utilization(gpu: Option<GpuDetails>) -> Option<Float> {
    match gpu {
        Some(g) => g.utilization,
        None => None,
    }
}

/// The share of GPU memory in use, where a GPU is known and the share
/// means something.
pub open spec fn gpu_memory_utilization(gpu: Option<GpuDetails>) -> Option<Float> {
    match gpu {
        Some(g) => g.spec_memory_utilization(),
        None => None,
    }
}

/// The word for the state of render offload.
pub open spec fn offload_word(enabled: bool) -> Seq<char> {
    if enabled {
        "enabled"@
    } else {
        "disabled"@
    }
}

/// Whether a condition holds of a snapshot and of the recent log text.
/// Numbers compare strictly.
pub open spec fn spec_holds(c: ConditionModel, m: Metrics, logs: Option<Seq<char>>) -> bool {
    match c.key {
        Key::CpuGreater => m.cpu_usage.spec_gt(c.number()),
        Key::MemGreater => m.mem_usage.spec_gt(c.number()),
        Key::TotalRamLess => m.total_ram_mb < c.count(),
        Key::ProcessContains => some_process_holds(m.process_names@, c.text()),
        Key::ProcessCountGreater => m.process_count > c.count(),
        Key::LogContains => logs matches Some(text) && pattern_matches(c.text(), text),
        Key::DiskFullGreater => m.disk_full_percent.spec_gt(c.number()),
        Key::SnapLoopsGreater => counted_above(m.snap_loops, c.count()),
        Key::FlatpakUnusedGreater => counted_above(m.flatpak_unused, c.count()),
        Key::BatteryDrainGreater => known_above(m.battery_drain_w, c.number()),
        Key::WifiChannelCountGreater => counted_above(m.wifi_channel_count, c.count()),
        Key::WifiSignalLess => known_below(m.wifi_signal_dbm, c.number()),
        Key::FanSpeedGreater => known_above(m.fan_speed_rpm, c.number()),
        Key::TemperatureGreater => known_above(m.temperature_c, c.number()),
        Key::FilesystemEquals => known_equal(m.filesystem, c.text()),
        Key::WaylandVsX11 => known_equal(m.wayland_vs_x11, c.text()),
        Key::DockerDanglingGreater => counted_above(m.docker_dangling, c.count()),
        Key::PipewireLatencyGreater => known_above(m.pipewire_latency_ms, c.number()),
        Key::FirefoxSoftRender => m.firefox_soft_render == Some(c.flag()),
        Key::ZfsArcPercentGreater => known_above(m.zfs_arc_full_percent, c.number()),
        Key::LuksDevicesGreater => counted_above(m.luks_device_count, c.count()),
        Key::GpuVendorEquals => m.gpu matches Some(g) && same_ignoring_case(g.vendor@, c.text()),
        Key::GpuTempGreater => known_above(gpu_temperature(m.gpu), c.number()),
        Key::GpuTempLess => known_below(gpu_temperature(m.gpu), c.number()),
        Key::GpuUtilGreater => known_above(gpu_utilization(m.gpu), c.number()),
        Key::GpuMemUtilGreater => known_above(gpu_memory_utilization(m.gpu), c.number()),
        Key::PrimeOffloadEquals => same_ignoring_case(
            offload_word(m.prime_offload_enabled),
            c.text(),
        ),
        Key::GamescopeRunning => m.gamescope_running == c.flag(),
        Key::SteamRunning => m.steam_running == c.flag(),
        Key::ProtonFailures => m.proton_failure_detected == c.flag(),
        Key::VulkanLoaderMissing => m.vulkan_loader_missing == c.flag(),
    }
}

fn above(value: Option<Float>, threshold: Float) -> (r: bool)
    ensures
        r == known_above(value, threshold),
{
    match value {
        Some(v) => v.gt(threshold),
        None => false,
    }
}

fn below(value: Option<Float>, threshold: Float) -> (r: bool)
    ensures
        r == known_below(value, threshold),
{
    match value {
        Some(v) => v.lt(threshold),
        None => false,
    }
}

fn more_than(value: Option<u32>, threshold: u32) -> (r: bool)
    ensures
        r == counted_above(value, threshold as nat),
{
    match value {
        Some(v) => v > threshold,
        None => false,
    }
}

fn equals(value: &Option<String>, text: &String) -> (r: bool)
    ensures
        r == known_equal(*value, text@),
{
    match value {
        Some(v) => *v == *text,
        None => false,
    }
}

fn process_holds(names: &Vec<String>, text: &String) -> (r: bool)
    ensures
        r == some_process_holds(names@, text@),
{
    let needle = lowered(&chars_of(text.as_str()));
    let mut i: usize = 0;
    while i < names.len()
        invariant
            i <= names.len(),
            needle@ == to_lower(text@),
            forall|k: int| 0 <= k < i ==> !contains(#[trigger] names@[k]@, to_lower(text@)),
        decreases names.len() - i,
    {
        if has_part(&chars_of(names[i].as_str()), &needle) {
            return true;
        }
        i += 1;
    }
    false
}

fn temperature_of(gpu: &Option<GpuDetails>) -> (r: Option<Float>)
    ensures
        r == gpu_temperature(*gpu),
{
    match gpu {
        Some(g) => g.temperature,
        None => None,
    }
}

fn utilization_of(gpu: &Option<GpuDetails>) -> (r: Option<Float>)
    ensures
        r == gpu_utilization(*gpu),
{
    match gpu {
        Some(g) => g.utilization,
        None => None,
    }
}

fn memory_utilization_of(gpu: &Option<GpuDetails>) -> (r: Option<Float>)
    ensures
        r == gpu_memory_utilization(*gpu),
{
    match gpu {
        Some(g) => g.memory_utilization(),
        None => None,
    }
}

fn vendor_is(gpu: &Option<GpuDetails>, text: &String) -> (r: bool)
    ensures
        r == (*gpu matches Some(g) && same_ignoring_case(g.vendor@, text@)),
{
    match gpu {
        Some(g) => same_text_ignoring_case(
            &chars_of(g.vendor.as_str()),
            &chars_of(text.as_str()),
        ),
        None => false,
    }
}

fn offload_is(enabled: bool, text: &String) -> (r: bool)
    ensures
        r == same_ignoring_case(offload_word(enabled), text@),
{
    let word = if enabled {
        "enabled"
    } else {
        "disabled"
    };
    same_text_ignoring_case(&chars_of(word), &chars_of(text.as_str()))
}

/// Decides whether a condition holds of a snapshot. `logs` is the recent log
/// text, `None` where there is none to be had.
pub fn condition_holds(condition: &Condition, metrics: &Metrics, logs: Option<&str>) -> (r: bool)
    ensures
        r == spec_holds(condition@, *metrics, log_text(logs)),
{
    match condition {
        Condition::CpuGreater(value) => metrics.cpu_usage.gt(*value),
        Condition::MemGreater(value) => metrics.mem_usage.gt(*value),
        Condition::TotalRamLess(value) => metrics.total_ram_mb < *value,
        Condition::ProcessContains(name) => process_holds(&metrics.process_names, name),
        Condition::ProcessCountGreater(value) => metrics.process_count > *value,
        Condition::LogContains(pattern) => match logs {
            Some(text) => pattern.is_match(text),
            None => false,
        },
        Condition::DiskFullGreater(value) => metrics.disk_full_percent.gt(*value),
        Condition::SnapLoopsGreater(value) => more_than(metrics.snap_loops, *value),
        Condition::FlatpakUnusedGreater(value) => more_than(metrics.flatpak_unused, *value),
        Condition::BatteryDrainGreater(value) => above(metrics.battery_drain_w, *value),
        Condition::WifiChannelCountGreater(value) => more_than(
            metrics.wifi_channel_count,
            *value,
        ),
        Condition::WifiSignalLess(value) => below(metrics.wifi_signal_dbm, *value),
        Condition::FanSpeedGreater(value) => above(metrics.fan_speed_rpm, *value),
        Condition::TemperatureGreater(value) => above(metrics.temperature_c, *value),
        Condition::FilesystemEquals(text) => equals(&metrics.filesystem, text),
        Condition::WaylandVsX11(text) => equals(&metrics.wayland_vs_x11, text),
        Condition::DockerDanglingGreater(value) => more_than(metrics.docker_dangling, *value),
        Condition::PipewireLatencyGreater(value) => above(metrics.pipewire_latency_ms, *value),
        Condition::FirefoxSoftRender(expected) => match metrics.firefox_soft_render {
            Some(state) => state == *expected,
            None => false,
        },
        Condition::ZfsArcPercentGreater(value) => above(metrics.zfs_arc_full_percent, *value),
        Condition::LuksDevicesGreater(value) => more_than(metrics.luks_device_count, *value),
        Condition::GpuVendorEquals(text) => vendor_is(&metrics.gpu, text),
        Condition::GpuTempGreater(value) => above(temperature_of(&metrics.gpu), *value),
        Condition::GpuTempLess(value) => below(temperature_of(&metrics.gpu), *value),
        Condition::GpuUtilGreater(value) => above(utilization_of(&metrics.gpu), *value),
        Condition::GpuMemUtilGreater(value) => above(memory_utilization_of(&metrics.gpu), *value),
        Condition::PrimeOffloadEquals(text) => offload_is(metrics.prime_offload_enabled, text),
        Condition::GamescopeRunning(expected) => metrics.gamescope_running == *expected,
        Condition::SteamRunning(expected) => metrics.steam_running == *expected,
        Condition::ProtonFailures(expected) => metrics.proton_failure_detected == *expected,
        Condition::VulkanLoaderMissing(expected) => metrics.vulkan_loader_missing == *expected,
    }
}

/// Whether every condition of a list holds.
pub open spec fn all_hold(conditions: Seq<ConditionModel>, m: Metrics, logs: Option<Seq<char>>) -> bool {
    forall|i: int| 0 <= i < conditions.len() ==> spec_holds(#[trigger] conditions[i], m, logs)
}

/// Whether a compiled rule fires: all of its conditions hold.
pub open spec fn fires(rule: CompiledRule, m: Metrics, logs: Option<Seq<char>>) -> bool {
    all_hold(models(rule.conditions@), m, logs)
}

/// Decides whether a compiled rule fires. The conditions are tried in order,
/// and none after the first that does not hold.
pub fn rule_fires(rule: &CompiledRule, metrics: &Metrics, logs: Option<&str>) -> (r: bool)
    ensures
        r == fires(*rule, *metrics, log_text(logs)),
{
    let ghost held = models(rule.conditions@);
    let mut i: usize = 0;
    while i < rule.conditions.len()
        invariant
            i <= rule.conditions.len(),
            held == models(rule.conditions@),
            forall|k: int| 0 <= k < i ==> spec_holds(#[trigger] held[k], *metrics, log_text(logs)),
        decreases rule.conditions.len() - i,
    {
        proof {
            assert(held[i as int] == rule.conditions@[i as int]@);
        }
        if !condition_holds(&rule.conditions[i], metrics, logs) {
            return false;
        }
        i += 1;
    }
    true
}

/// The glyph for the tier of a severity: up to 4 is low, 5 to 7 is medium,
/// anything above is high.
pub open spec fn severity_glyph(severity: u8) -> Seq<char> {
    if severity <= 4 {
        "\u{2139}\u{fe0f}"@
    } else if severity <= 7 {
        "\u{26a0}\u{fe0f}"@
    } else {
        "\u{1f525}"@
    }
}

/// The glyph for the tier of a severity.
pub fn severity_emoji(severity: u8) -> (r: &'static str)
    ensures
        r@ == severity_glyph(severity),
{
    if severity <= 4 {
        "\u{2139}\u{fe0f}"
    } else if severity <= 7 {
        "\u{26a0}\u{fe0f}"
    } else {
        "\u{1f525}"
    }
}

/// A severity as it is shown: the glyph of its tier, a space, the number.
pub open spec fn severity_label(severity: u8) -> Seq<char> {
    severity_glyph(severity) + seq![' '] + decimal_text(severity as nat)
}

/// The text that shows a severity.
pub fn label_of(severity: u8) -> (r: String)
    ensures
        r@ == severity_label(severity),
{
    let mut out = severity_emoji(severity).to_owned();
    out.push(' ');
    proof {
        assert(out@ =~= severity_glyph(severity) + seq![' ']);
    }
    push_decimal(&mut out, severity);
    out
}

/// The finding that a rule gives when it fires.
pub open spec fn finding_of(rule: Rule) -> FindingModel {
    FindingModel {
        severity: severity_label(rule.severity),
        severity_value: rule.severity,
        message: rule.message@,
        solution: rule.solution@,
        auto_fix: text_of(rule.auto_fix),
        rule_name: rule.name@,
    }
}

/// Makes the finding of a rule that fired.
pub fn finding_for(rule: &Rule) -> (r: Finding)
    ensures
        r@ == finding_of(*rule),
{
    Finding {
        severity: label_of(rule.severity),
        severity_value: rule.severity,
        message: rule.message.clone(),
        solution: rule.solution.clone(),
        auto_fix: copy_of(&rule.auto_fix),
        rule_name: rule.name.clone(),
    }
}

/// The findings of those of the first `upto` rules that fire, in the order
/// of the rules.
pub open spec fn fired_upto(
    rules: Seq<CompiledRule>,
    m: Metrics,
    logs: Option<Seq<char>>,
    upto: int,
) -> Seq<FindingModel>
    decreases upto,
{
    if upto <= 0 {
        Seq::empty()
    } else if fires(rules[upto - 1], m, logs) {
        fired_upto(rules, m, logs, upto - 1).push(finding_of(rules[upto - 1].rule))
    } else {
        fired_upto(rules, m, logs, upto - 1)
    }
}

/// What evaluation gives: one finding for each rule that fires, by falling
/// severity, rules of equal severity in the order in which they were given.
pub open spec fn spec_evaluate(rules: Seq<CompiledRule>, m: Metrics, logs: Option<Seq<char>>) -> Seq<
    FindingModel,
> {
    rank(fired_upto(rules, m, logs, rules.len() as int))
}

/// Evaluates compiled rules against a snapshot. `logs` is the recent log
/// text, `None` where there is none to be had.
pub fn evaluate_rules(metrics: &Metrics, parsed_rules: &Vec<CompiledRule>, logs: Option<&str>) -> (r:
    Vec<Finding>)
    ensures
        views(r@) == spec_evaluate(parsed_rules@, *metrics, log_text(logs)),
{
    let mut findings: Vec<Finding> = Vec::new();
    let mut i: usize = 0;
    proof {
        assert(views(findings@) =~= fired_upto(parsed_rules@, *metrics, log_text(logs), 0));
    }
    while i < parsed_rules.len()
        invariant
            i <= parsed_rules.len(),
            views(findings@) == fired_upto(parsed_rules@, *metrics, log_text(logs), i as int),
        decreases parsed_rules.len() - i,
    {
        let ghost before = findings@;
        if rule_fires(&parsed_rules[i], metrics, logs) {
            let finding = finding_for(&parsed_rules[i].rule);
            findings.push(finding);
            proof {
                assert(views(findings@) =~= views(before).push(finding@));
            }
        }
        i += 1;
    }
    sort_by_severity(&mut findings);
    findings
}

/// Compiles a rule: its trigger into conditions, with the rule beside them.
/// `numbers` is as for [`parse_trigger`].
pub fn compile_rule(rule: Rule, numbers: &Vec<Option<Float>>) -> (r: CompiledRule)
    ensures
        r.rule == rule,
        models(r.conditions@) == spec_parse_trigger(rule.trigger@, numbers@),
{
    let conditions = parse_trigger(rule.trigger.as_str(), numbers);
    CompiledRule { conditions, rule }
}

/// Whether what a condition of the given kind reads was not observed. The
/// kinds that read a field that is always there are never in that case.
pub open spec fn source_absent(key: Key, m: Metrics, logs: Option<Seq<char>>) -> bool {
    match key {
        Key::LogContains => logs is None,
        Key::SnapLoopsGreater => m.snap_loops is None,
        Key::FlatpakUnusedGreater => m.flatpak_unused is None,
        Key::BatteryDrainGreater => m.battery_drain_w is None,
        Key::WifiChannelCountGreater => m.wifi_channel_count is None,
        Key::WifiSignalLess => m.wifi_signal_dbm is None,
        Key::FanSpeedGreater => m.fan_speed_rpm is None,
        Key::TemperatureGreater => m.temperature_c is None,
        Key::FilesystemEquals => m.filesystem is None,
        Key::WaylandVsX11 => m.wayland_vs_x11 is None,
        Key::DockerDanglingGreater => m.docker_dangling is None,
        Key::PipewireLatencyGreater => m.pipewire_latency_ms is None,
        Key::FirefoxSoftRender => m.firefox_soft_render is None,
        Key::ZfsArcPercentGreater => m.zfs_arc_full_percent is None,
        Key::LuksDevicesGreater => m.luks_device_count is None,
        Key::GpuVendorEquals => m.gpu is None,
        Key::GpuTempGreater | Key::GpuTempLess => m.gpu is None || m.gpu->Some_0.temperature is None,
        Key::GpuUtilGreater => m.gpu is None || m.gpu->Some_0.utilization is None,
        Key::GpuMemUtilGreater => {
            ||| m.gpu is None
            ||| m.gpu->Some_0.memory_used_mb is None
            ||| m.gpu->Some_0.memory_total_mb is None
            ||| m.gpu->Some_0.memory_used_percent is None
        },
        _ => false,
    }
}

/// A condition on something that was not observed does not hold.
pub proof fn lemma_absent_source_fails(c: ConditionModel, m: Metrics, logs: Option<Seq<char>>)
    requires
        source_absent(c.key, m, logs),
    ensures
        !spec_holds(c, m, logs),
{
}

/// Where the total of GPU memory is not above one thousandth of a megabyte,
/// no condition on the share of GPU memory in use holds, whatever its
/// threshold.
pub proof fn lemma_small_total_fails(c: ConditionModel, m: Metrics, logs: Option<Seq<char>>)
    requires
        c.key == Key::GpuMemUtilGreater,
        m.gpu matches Some(g) ==> (g.memory_total_mb matches Some(total) ==> !total.spec_gt(
            Float { bits: MEMORY_EPSILON_BITS },
        )),
    ensures
        !spec_holds(c, m, logs),
{
}

/// A rule without conditions fires on every snapshot.
pub proof fn lemma_empty_rule_fires(rule: CompiledRule, m: Metrics, logs: Option<Seq<char>>)
    requires
        rule.conditions@.len() == 0,
    ensures
        fires(rule, m, logs),
{
}

/// Evaluation gives no more findings than there are rules, and gives them
/// by falling severity.
pub proof fn lemma_evaluate_ranked(rules: Seq<CompiledRule>, m: Metrics, logs: Option<Seq<char>>)
    ensures
        is_ranked(spec_evaluate(rules, m, logs)),
        spec_evaluate(rules, m, logs).len() <= rules.len(),
{
    lemma_fired_count(rules, m, logs, rules.len() as int);
    lemma_rank_is_ranked(fired_upto(rules, m, logs, rules.len() as int));
}

/// Of the first `upto` rules no more findings come than there are rules.
pub proof fn lemma_fired_count(
    rules: Seq<CompiledRule>,
    m: Metrics,
    logs: Option<Seq<char>>,
    upto: int,
)
    requires
        0 <= upto,
    ensures
        fired_upto(rules, m, logs, upto).len() <= upto,
    decreases upto,
{
    if upto > 0 {
        lemma_fired_count(rules, m, logs, upto - 1);
    }
}

} // verus!
