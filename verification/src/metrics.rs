//! One snapshot of what was observed of the machine. A field that is `None`
//! was not observed, which is not the same as zero.

use crate::number::Float;
use crate::text::{chars_of, contains, has_part, lowered, to_lower};
use vstd::prelude::*;

verus! {

/// The bit pattern of 0.001: the least total of GPU memory, in megabytes,
/// above which a share of it is taken to mean something.
pub const MEMORY_EPSILON_BITS: u32 = 0x3a83_126f;

/// What is known of the GPU.
#[derive(Clone, Debug)]
pub struct GpuDetails {
    pub vendor: String,
    pub model: Option<String>,
    pub driver: Option<String>,
    pub temperature: Option<Float>,
    pub utilization: Option<Float>,
    pub memory_total_mb: Option<Float>,
    pub memory_used_mb: Option<Float>,
    /// The memory in use as a percentage of the total: the quotient of the
    /// two fields above, times one hundred, as whoever filled them in
    /// computed it.
    pub memory_used_percent: Option<Float>,
    pub fan_speed_percent: Option<Float>,
}

impl GpuDetails {
    /// The share of GPU memory in use, in percent: known only where both the
    /// memory in use and the total are known and the total is above one
    /// thousandth of a megabyte.
    pub open spec fn spec_memory_utilization(self) -> Option<Float> {
        if self.memory_used_mb is Some && self.memory_total_mb is Some
            && self.memory_total_mb->Some_0.spec_gt(Float { bits: MEMORY_EPSILON_BITS }) {
            self.memory_used_percent
        } else {
            None
        }
    }

    /// The share of GPU memory in use, in percent, where it means something.
    pub fn memory_utilization(&self) -> (r: Option<Float>)
        ensures
            r == self.spec_memory_utilization(),
    {
        match (self.memory_used_mb, self.memory_total_mb) {
            (Some(_), Some(total)) => {
                if total.gt(Float::from_bits(MEMORY_EPSILON_BITS)) {
                    self.memory_used_percent
                } else {
                    None
                }
            },
            _ => None,
        }
    }
}

impl Default for GpuDetails {
    fn default() -> (r: GpuDetails)
        ensures
            r.vendor@ == Seq::<char>::empty(),
            r.model is None,
            r.driver is None,
            r.temperature is None,
            r.utilization is None,
            r.memory_total_mb is None,
            r.memory_used_mb is None,
            r.memory_used_percent is None,
            r.fan_speed_percent is None,
    {
        GpuDetails {
            vendor: String::new(),
            model: None,
            driver: None,
            temperature: None,
            utilization: None,
            memory_total_mb: None,
            memory_used_mb: None,
            memory_used_percent: None,
            fan_speed_percent: None,
        }
    }
}

/// The metrics of one evaluation.
#[derive(Clone, Debug)]
pub struct Metrics {
    pub cpu_usage: Float,
    pub mem_usage: Float,
    pub total_ram_mb: u64,
    pub disk_full_percent: Float,
    pub filesystem: Option<String>,
    pub snap_loops: Option<u32>,
    pub flatpak_unused: Option<u32>,
    pub battery_drain_w: Option<Float>,
    pub wifi_channel_count: Option<u32>,
    pub wifi_signal_dbm: Option<Float>,
    pub fan_speed_rpm: Option<Float>,
    pub temperature_c: Option<Float>,
    pub wayland_vs_x11: Option<String>,
    pub docker_dangling: Option<u32>,
    /// The names of the running processes, in lower case.
    pub process_names: Vec<String>,
    pub process_count: usize,
    pub pipewire_latency_ms: Option<Float>,
    pub firefox_soft_render: Option<bool>,
    pub zfs_arc_full_percent: Option<Float>,
    pub luks_device_count: Option<u32>,
    pub gpu: Option<GpuDetails>,
    pub prime_offload_enabled: bool,
    pub gamescope_running: bool,
    pub steam_running: bool,
    pub proton_failure_detected: bool,
    pub vulkan_loader_missing: bool,
}

impl Metrics {
    /// The same metrics with what is known of the GPU put in.
    pub fn with_gpu(self, gpu: Option<GpuDetails>) -> (r: Metrics)
        ensures
            r == (Metrics { gpu, ..self }),
    {
        let mut out = self;
        out.gpu = gpu;
        out
    }
}

/// The vendor that a GPU label names: `nvidia`, `amd` (also for `ati` and
/// `radeon`), `intel`, in that order of search and whatever the case of the
/// label, else `other`.
pub open spec fn spec_vendor_label(label: Seq<char>) -> Seq<char> {
    let lower = to_lower(label);
    if contains(lower, "nvidia"@) {
        "nvidia"@
    } else if contains(lower, "amd"@) || contains(lower, "ati"@) || contains(lower, "radeon"@) {
        "amd"@
    } else if contains(lower, "intel"@) {
        "intel"@
    } else {
        "other"@
    }
}

/// Names the vendor of a GPU from a label that a tool printed.
pub fn normalize_vendor_label(label: &str) -> (r: String)
    ensures
        r@ == spec_vendor_label(label@),
{
    let lower = lowered(&chars_of(label));
    let name = if has_part(&lower, &chars_of("nvidia")) {
        "nvidia"
    } else if has_part(&lower, &chars_of("amd")) || has_part(&lower, &chars_of("ati")) || has_part(
        &lower,
        &chars_of("radeon"),
    ) {
        "amd"
    } else if has_part(&lower, &chars_of("intel")) {
        "intel"
    } else {
        "other"
    };
    name.to_owned()
}

} // verus!
