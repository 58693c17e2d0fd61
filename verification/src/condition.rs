//! The conditions of the trigger language: thirty-one kinds of comparison,
//! each on one field of the metrics or on a value derived from it.

use crate::number::Float;
use crate::pattern::Pattern;
use vstd::prelude::*;

verus! {

/// How many kinds of condition there are.
pub const KEY_COUNT: usize = 31;

/// How the text after a clause's keyword is read.
#[derive(Clone, Copy, Debug, PartialEq, Eq, Structural)]
pub enum Operand {
    /// A floating-point number.
    Number,
    /// An unsigned integer.
    Count,
    /// A text, taken as it stands.
    Text,
    /// A text, taken in ASCII lower case.
    LowerText,
    /// A regular expression.
    Pattern,
    /// One of `true`, `1`, `yes`, `false`, `0`, `no`, in any case.
    Flag,
}

/// The kind of a condition: which field it reads and how it compares.
#[derive(Clone, Copy, Debug, PartialEq, Eq, Structural)]
pub enum Key {
    /// CPU usage above a percentage.
    CpuGreater,
    /// Memory usage above a percentage.
    MemGreater,
    /// Less installed memory than so many megabytes.
    TotalRamLess,
    /// Some process whose lower-cased name holds the text.
    ProcessContains,
    /// More processes than a number.
    ProcessCountGreater,
    /// The recent log text matches a pattern.
    LogContains,
    /// The root disk fuller than a percentage.
    DiskFullGreater,
    /// More snap loop devices than a number.
    SnapLoopsGreater,
    /// More unused flatpak runtimes than a number.
    FlatpakUnusedGreater,
    /// The battery drains faster than so many watts.
    BatteryDrainGreater,
    /// More wifi networks in sight than a number.
    WifiChannelCountGreater,
    /// The wifi signal weaker than so many dBm.
    WifiSignalLess,
    /// A fan faster than so many turns a minute.
    FanSpeedGreater,
    /// A sensor hotter than so many degrees.
    TemperatureGreater,
    /// The root file system is of this kind.
    FilesystemEquals,
    /// The desktop session is of this kind.
    WaylandVsX11,
    /// More dangling container images than a number.
    DockerDanglingGreater,
    /// Audio latency above so many milliseconds.
    PipewireLatencyGreater,
    /// Whether Firefox renders in software.
    FirefoxSoftRender,
    /// The ZFS cache fuller than a percentage.
    ZfsArcPercentGreater,
    /// More encrypted devices than a number.
    LuksDevicesGreater,
    /// The GPU is of this vendor, whatever the case of the letters.
    GpuVendorEquals,
    /// The GPU hotter than so many degrees.
    GpuTempGreater,
    /// The GPU cooler than so many degrees.
    GpuTempLess,
    /// The GPU busier than a percentage.
    GpuUtilGreater,
    /// GPU memory fuller than a percentage.
    GpuMemUtilGreater,
    /// Render offload is `enabled` or `disabled`.
    PrimeOffloadEquals,
    /// Whether gamescope is running.
    GamescopeRunning,
    /// Whether Steam is running.
    SteamRunning,
    /// Whether Proton failures were seen.
    ProtonFailures,
    /// Whether the Vulkan loader is missing.
    VulkanLoaderMissing,
}

impl Key {
    /// The kinds in the order in which a clause is held against their
    /// keywords.
    pub open spec fn spec_at(i: int) -> Key {
        if i == 0 {
            Key::CpuGreater
        } else if i == 1 {
            Key::MemGreater
        } else if i == 2 {
            Key::TotalRamLess
        } else if i == 3 {
            Key::ProcessContains
        } else if i == 4 {
            Key::ProcessCountGreater
        } else if i == 5 {
            Key::LogContains
        } else if i == 6 {
            Key::DiskFullGreater
        } else if i == 7 {
            Key::SnapLoopsGreater
        } else if i == 8 {
            Key::FlatpakUnusedGreater
        } else if i == 9 {
            Key::BatteryDrainGreater
        } else if i == 10 {
            Key::WifiChannelCountGreater
        } else if i == 11 {
            Key::WifiSignalLess
        } else if i == 12 {
            Key::FanSpeedGreater
        } else if i == 13 {
            Key::TemperatureGreater
        } else if i == 14 {
            Key::FilesystemEquals
        } else if i == 15 {
            Key::WaylandVsX11
        } else if i == 16 {
            Key::DockerDanglingGreater
        } else if i == 17 {
            Key::PipewireLatencyGreater
        } else if i == 18 {
            Key::FirefoxSoftRender
        } else if i == 19 {
            Key::ZfsArcPercentGreater
        } else if i == 20 {
            Key::LuksDevicesGreater
        } else if i == 21 {
            Key::GpuVendorEquals
        } else if i == 22 {
            Key::GpuTempGreater
        } else if i == 23 {
            Key::GpuTempLess
        } else if i == 24 {
            Key::GpuUtilGreater
        } else if i == 25 {
            Key::GpuMemUtilGreater
        } else if i == 26 {
            Key::PrimeOffloadEquals
        } else if i == 27 {
            Key::GamescopeRunning
        } else if i == 28 {
            Key::SteamRunning
        } else if i == 29 {
            Key::ProtonFailures
        } else {
            Key::VulkanLoaderMissing
        }
    }

    /// The kind at a place in that order.
    pub fn at(i: usize) -> (r: Key)
        requires
            i < KEY_COUNT,
        ensures
            r == Key::spec_at(i as int),
    {
        if i == 0 {
            Key::CpuGreater
        } else if i == 1 {
            Key::MemGreater
        } else if i == 2 {
            Key::TotalRamLess
        } else if i == 3 {
            Key::ProcessContains
        } else if i == 4 {
            Key::ProcessCountGreater
        } else if i == 5 {
            Key::LogContains
        } else if i == 6 {
            Key::DiskFullGreater
        } else if i == 7 {
            Key::SnapLoopsGreater
        } else if i == 8 {
            Key::FlatpakUnusedGreater
        } else if i == 9 {
            Key::BatteryDrainGreater
        } else if i == 10 {
            Key::WifiChannelCountGreater
        } else if i == 11 {
            Key::WifiSignalLess
        } else if i == 12 {
            Key::FanSpeedGreater
        } else if i == 13 {
            Key::TemperatureGreater
        } else if i == 14 {
            Key::FilesystemEquals
        } else if i == 15 {
            Key::WaylandVsX11
        } else if i == 16 {
            Key::DockerDanglingGreater
        } else if i == 17 {
            Key::PipewireLatencyGreater
        } else if i == 18 {
            Key::FirefoxSoftRender
        } else if i == 19 {
            Key::ZfsArcPercentGreater
        } else if i == 20 {
            Key::LuksDevicesGreater
        } else if i == 21 {
            Key::GpuVendorEquals
        } else if i == 22 {
            Key::GpuTempGreater
        } else if i == 23 {
            Key::GpuTempLess
        } else if i == 24 {
            Key::GpuUtilGreater
        } else if i == 25 {
            Key::GpuMemUtilGreater
        } else if i == 26 {
            Key::PrimeOffloadEquals
        } else if i == 27 {
            Key::GamescopeRunning
        } else if i == 28 {
            Key::SteamRunning
        } else if i == 29 {
            Key::ProtonFailures
        } else {
            Key::VulkanLoaderMissing
        }
    }

    /// The keyword that opens a clause of this kind, comparison sign
    /// included.
    pub open spec fn spec_keyword(self) -> Seq<char> {
        match self {
            Key::CpuGreater => "cpu>"@,
            Key::MemGreater => "mem>"@,
            Key::TotalRamLess => "total_ram<"@,
            Key::ProcessContains => "process="@,
            Key::ProcessCountGreater => "process_count>"@,
            Key::LogContains => "log_contains="@,
            Key::DiskFullGreater => "disk_full>"@,
            Key::SnapLoopsGreater => "snap loops>"@,
            Key::FlatpakUnusedGreater => "flatpak_unused>"@,
            Key::BatteryDrainGreater => "battery_drain>"@,
            Key::WifiChannelCountGreater => "wifi_channel_count>"@,
            Key::WifiSignalLess => "wifi_signal<"@,
            Key::FanSpeedGreater => "fan_speed>"@,
            Key::TemperatureGreater => "temp>"@,
            Key::FilesystemEquals => "filesystem="@,
            Key::WaylandVsX11 => "wayland_vs_x11="@,
            Key::DockerDanglingGreater => "docker_dangling>"@,
            Key::PipewireLatencyGreater => "pipewire_latency>"@,
            Key::FirefoxSoftRender => "firefox_soft_render="@,
            Key::ZfsArcPercentGreater => "zfs_arc_full>"@,
            Key::LuksDevicesGreater => "luks_devices>"@,
            Key::GpuVendorEquals => "gpu_vendor="@,
            Key::GpuTempGreater => "gpu_temp>"@,
            Key::GpuTempLess => "gpu_temp<"@,
            Key::GpuUtilGreater => "gpu_util>"@,
            Key::GpuMemUtilGreater => "gpu_mem_util>"@,
            Key::PrimeOffloadEquals => "prime_offload="@,
            Key::GamescopeRunning => "gamescope_running="@,
            Key::SteamRunning => "steam_running="@,
            Key::ProtonFailures => "proton_failures="@,
            Key::VulkanLoaderMissing => "vulkan_loader_missing="@,
        }
    }

    /// The keyword that opens a clause of this kind.
    pub fn keyword(self) -> (r: &'static str)
        ensures
            r@ == self.spec_keyword(),
    {
        match self {
            Key::CpuGreater => "cpu>",
            Key::MemGreater => "mem>",
            Key::TotalRamLess => "total_ram<",
            Key::ProcessContains => "process=",
            Key::ProcessCountGreater => "process_count>",
            Key::LogContains => "log_contains=",
            Key::DiskFullGreater => "disk_full>",
            Key::SnapLoopsGreater => "snap loops>",
            Key::FlatpakUnusedGreater => "flatpak_unused>",
            Key::BatteryDrainGreater => "battery_drain>",
            Key::WifiChannelCountGreater => "wifi_channel_count>",
            Key::WifiSignalLess => "wifi_signal<",
            Key::FanSpeedGreater => "fan_speed>",
            Key::TemperatureGreater => "temp>",
            Key::FilesystemEquals => "filesystem=",
            Key::WaylandVsX11 => "wayland_vs_x11=",
            Key::DockerDanglingGreater => "docker_dangling>",
            Key::PipewireLatencyGreater => "pipewire_latency>",
            Key::FirefoxSoftRender => "firefox_soft_render=",
            Key::ZfsArcPercentGreater => "zfs_arc_full>",
            Key::LuksDevicesGreater => "luks_devices>",
            Key::GpuVendorEquals => "gpu_vendor=",
            Key::GpuTempGreater => "gpu_temp>",
            Key::GpuTempLess => "gpu_temp<",
            Key::GpuUtilGreater => "gpu_util>",
            Key::GpuMemUtilGreater => "gpu_mem_util>",
            Key::PrimeOffloadEquals => "prime_offload=",
            Key::GamescopeRunning => "gamescope_running=",
            Key::SteamRunning => "steam_running=",
            Key::ProtonFailures => "proton_failures=",
            Key::VulkanLoaderMissing => "vulkan_loader_missing=",
        }
    }

    /// How the text after the keyword is read.
    pub open spec fn spec_operand(self) -> Operand {
        match self {
            Key::CpuGreater => Operand::Number,
            Key::MemGreater => Operand::Number,
            Key::TotalRamLess => Operand::Count,
            Key::ProcessContains => Operand::Text,
            Key::ProcessCountGreater => Operand::Count,
            Key::LogContains => Operand::Pattern,
            Key::DiskFullGreater => Operand::Number,
            Key::SnapLoopsGreater => Operand::Count,
            Key::FlatpakUnusedGreater => Operand::Count,
            Key::BatteryDrainGreater => Operand::Number,
            Key::WifiChannelCountGreater => Operand::Count,
            Key::WifiSignalLess => Operand::Number,
            Key::FanSpeedGreater => Operand::Number,
            Key::TemperatureGreater => Operand::Number,
            Key::FilesystemEquals => Operand::Text,
            Key::WaylandVsX11 => Operand::Text,
            Key::DockerDanglingGreater => Operand::Count,
            Key::PipewireLatencyGreater => Operand::Number,
            Key::FirefoxSoftRender => Operand::Flag,
            Key::ZfsArcPercentGreater => Operand::Number,
            Key::LuksDevicesGreater => Operand::Count,
            Key::GpuVendorEquals => Operand::LowerText,
            Key::GpuTempGreater => Operand::Number,
            Key::GpuTempLess => Operand::Number,
            Key::GpuUtilGreater => Operand::Number,
            Key::GpuMemUtilGreater => Operand::Number,
            Key::PrimeOffloadEquals => Operand::LowerText,
            Key::GamescopeRunning => Operand::Flag,
            Key::SteamRunning => Operand::Flag,
            Key::ProtonFailures => Operand::Flag,
            Key::VulkanLoaderMissing => Operand::Flag,
        }
    }

    /// How the text after the keyword is read.
    pub fn operand(self) -> (r: Operand)
        ensures
            r == self.spec_operand(),
    {
        match self {
            Key::CpuGreater => Operand::Number,
            Key::MemGreater => Operand::Number,
            Key::TotalRamLess => Operand::Count,
            Key::ProcessContains => Operand::Text,
            Key::ProcessCountGreater => Operand::Count,
            Key::LogContains => Operand::Pattern,
            Key::DiskFullGreater => Operand::Number,
            Key::SnapLoopsGreater => Operand::Count,
            Key::FlatpakUnusedGreater => Operand::Count,
            Key::BatteryDrainGreater => Operand::Number,
            Key::WifiChannelCountGreater => Operand::Count,
            Key::WifiSignalLess => Operand::Number,
            Key::FanSpeedGreater => Operand::Number,
            Key::TemperatureGreater => Operand::Number,
            Key::FilesystemEquals => Operand::Text,
            Key::WaylandVsX11 => Operand::Text,
            Key::DockerDanglingGreater => Operand::Count,
            Key::PipewireLatencyGreater => Operand::Number,
            Key::FirefoxSoftRender => Operand::Flag,
            Key::ZfsArcPercentGreater => Operand::Number,
            Key::LuksDevicesGreater => Operand::Count,
            Key::GpuVendorEquals => Operand::LowerText,
            Key::GpuTempGreater => Operand::Number,
            Key::GpuTempLess => Operand::Number,
            Key::GpuUtilGreater => Operand::Number,
            Key::GpuMemUtilGreater => Operand::Number,
            Key::PrimeOffloadEquals => Operand::LowerText,
            Key::GamescopeRunning => Operand::Flag,
            Key::SteamRunning => Operand::Flag,
            Key::ProtonFailures => Operand::Flag,
            Key::VulkanLoaderMissing => Operand::Flag,
        }
    }

    /// The largest count that a condition of this kind can hold.
    pub open spec fn spec_count_limit(self) -> nat {
        match self {
            Key::TotalRamLess => u64::MAX as nat,
            Key::ProcessCountGreater => usize::MAX as nat,
            _ => u32::MAX as nat,
        }
    }

    /// The largest count that a condition of this kind can hold.
    pub fn count_limit(self) -> (r: u64)
        ensures
            r == self.spec_count_limit(),
    {
        match self {
            Key::TotalRamLess => u64::MAX,
            Key::ProcessCountGreater => usize::MAX as u64,
            _ => u32::MAX as u64,
        }
    }
}

/// What a condition compares with.
pub enum Payload {
    /// A floating-point threshold.
    Number(Float),
    /// An unsigned threshold.
    Count(nat),
    /// A text to find or to equal, or the source of a pattern.
    Text(Seq<char>),
    /// The state that a flag is expected in.
    Flag(bool),
}

/// A condition as a value of the trigger language: its kind and what it
/// compares with.
pub struct ConditionModel {
    pub key: Key,
    pub payload: Payload,
}

impl ConditionModel {
    /// The floating-point threshold of a condition that has one.
    pub open spec fn number(self) -> Float {
        self.payload->Number_0
    }

    /// The unsigned threshold of a condition that has one.
    pub open spec fn count(self) -> nat {
        self.payload->Count_0
    }

    /// The text of a condition that has one.
    pub open spec fn text(self) -> Seq<char> {
        self.payload->Text_0
    }

    /// The expected state of a condition on a flag.
    pub open spec fn flag(self) -> bool {
        self.payload->Flag_0
    }

    /// Whether the payload is of the sort that the kind asks for, and a
    /// count within the kind's limit.
    pub open spec fn well_formed(self) -> bool {
        match self.key.spec_operand() {
            Operand::Number => self.payload is Number,
            Operand::Count => self.payload is Count && self.count() <= self.key.spec_count_limit(),
            Operand::Flag => self.payload is Flag,
            _ => self.payload is Text,
        }
    }
}

/// One compiled comparison of a trigger.
#[derive(Clone, Debug)]
pub enum Condition {
    CpuGreater(Float),
    MemGreater(Float),
    TotalRamLess(u64),
    ProcessContains(String),
    ProcessCountGreater(usize),
    LogContains(Pattern),
    DiskFullGreater(Float),
    SnapLoopsGreater(u32),
    FlatpakUnusedGreater(u32),
    BatteryDrainGreater(Float),
    WifiChannelCountGreater(u32),
    WifiSignalLess(Float),
    FanSpeedGreater(Float),
    TemperatureGreater(Float),
    FilesystemEquals(String),
    WaylandVsX11(String),
    DockerDanglingGreater(u32),
    PipewireLatencyGreater(Float),
    FirefoxSoftRender(bool),
    ZfsArcPercentGreater(Float),
    LuksDevicesGreater(u32),
    GpuVendorEquals(String),
    GpuTempGreater(Float),
    GpuTempLess(Float),
    GpuUtilGreater(Float),
    GpuMemUtilGreater(Float),
    PrimeOffloadEquals(String),
    GamescopeRunning(bool),
    SteamRunning(bool),
    ProtonFailures(bool),
    VulkanLoaderMissing(bool),
}

impl View for Condition {
    type V = ConditionModel;

    open spec fn view(&self) -> ConditionModel {
        match self {
            Condition::CpuGreater(v) => ConditionModel { key: Key::CpuGreater, payload: Payload::Number(*v) },
            Condition::MemGreater(v) => ConditionModel { key: Key::MemGreater, payload: Payload::Number(*v) },
            Condition::TotalRamLess(v) => ConditionModel { key: Key::TotalRamLess, payload: Payload::Count(*v as nat) },
            Condition::ProcessContains(v) => ConditionModel { key: Key::ProcessContains, payload: Payload::Text(v@) },
            Condition::ProcessCountGreater(v) => ConditionModel { key: Key::ProcessCountGreater, payload: Payload::Count(*v as nat) },
            Condition::LogContains(v) => ConditionModel { key: Key::LogContains, payload: Payload::Text(v@) },
            Condition::DiskFullGreater(v) => ConditionModel { key: Key::DiskFullGreater, payload: Payload::Number(*v) },
            Condition::SnapLoopsGreater(v) => ConditionModel { key: Key::SnapLoopsGreater, payload: Payload::Count(*v as nat) },
            Condition::FlatpakUnusedGreater(v) => ConditionModel { key: Key::FlatpakUnusedGreater, payload: Payload::Count(*v as nat) },
            Condition::BatteryDrainGreater(v) => ConditionModel { key: Key::BatteryDrainGreater, payload: Payload::Number(*v) },
            Condition::WifiChannelCountGreater(v) => ConditionModel { key: Key::WifiChannelCountGreater, payload: Payload::Count(*v as nat) },
            Condition::WifiSignalLess(v) => ConditionModel { key: Key::WifiSignalLess, payload: Payload::Number(*v) },
            Condition::FanSpeedGreater(v) => ConditionModel { key: Key::FanSpeedGreater, payload: Payload::Number(*v) },
            Condition::TemperatureGreater(v) => ConditionModel { key: Key::TemperatureGreater, payload: Payload::Number(*v) },
            Condition::FilesystemEquals(v) => ConditionModel { key: Key::FilesystemEquals, payload: Payload::Text(v@) },
            Condition::WaylandVsX11(v) => ConditionModel { key: Key::WaylandVsX11, payload: Payload::Text(v@) },
            Condition::DockerDanglingGreater(v) => ConditionModel { key: Key::DockerDanglingGreater, payload: Payload::Count(*v as nat) },
            Condition::PipewireLatencyGreater(v) => ConditionModel { key: Key::PipewireLatencyGreater, payload: Payload::Number(*v) },
            Condition::FirefoxSoftRender(v) => ConditionModel { key: Key::FirefoxSoftRender, payload: Payload::Flag(*v) },
            Condition::ZfsArcPercentGreater(v) => ConditionModel { key: Key::ZfsArcPercentGreater, payload: Payload::Number(*v) },
            Condition::LuksDevicesGreater(v) => ConditionModel { key: Key::LuksDevicesGreater, payload: Payload::Count(*v as nat) },
            Condition::GpuVendorEquals(v) => ConditionModel { key: Key::GpuVendorEquals, payload: Payload::Text(v@) },
            Condition::GpuTempGreater(v) => ConditionModel { key: Key::GpuTempGreater, payload: Payload::Number(*v) },
            Condition::GpuTempLess(v) => ConditionModel { key: Key::GpuTempLess, payload: Payload::Number(*v) },
            Condition::GpuUtilGreater(v) => ConditionModel { key: Key::GpuUtilGreater, payload: Payload::Number(*v) },
            Condition::GpuMemUtilGreater(v) => ConditionModel { key: Key::GpuMemUtilGreater, payload: Payload::Number(*v) },
            Condition::PrimeOffloadEquals(v) => ConditionModel { key: Key::PrimeOffloadEquals, payload: Payload::Text(v@) },
            Condition::GamescopeRunning(v) => ConditionModel { key: Key::GamescopeRunning, payload: Payload::Flag(*v) },
            Condition::SteamRunning(v) => ConditionModel { key: Key::SteamRunning, payload: Payload::Flag(*v) },
            Condition::ProtonFailures(v) => ConditionModel { key: Key::ProtonFailures, payload: Payload::Flag(*v) },
            Condition::VulkanLoaderMissing(v) => ConditionModel { key: Key::VulkanLoaderMissing, payload: Payload::Flag(*v) },
        }
    }
}

impl Condition {
    /// The kind of the condition.
    pub fn key(&self) -> (r: Key)
        ensures
            r == self@.key,
    {
        match self {
            Condition::CpuGreater(_) => Key::CpuGreater,
            Condition::MemGreater(_) => Key::MemGreater,
            Condition::TotalRamLess(_) => Key::TotalRamLess,
            Condition::ProcessContains(_) => Key::ProcessContains,
            Condition::ProcessCountGreater(_) => Key::ProcessCountGreater,
            Condition::LogContains(_) => Key::LogContains,
            Condition::DiskFullGreater(_) => Key::DiskFullGreater,
            Condition::SnapLoopsGreater(_) => Key::SnapLoopsGreater,
            Condition::FlatpakUnusedGreater(_) => Key::FlatpakUnusedGreater,
            Condition::BatteryDrainGreater(_) => Key::BatteryDrainGreater,
            Condition::WifiChannelCountGreater(_) => Key::WifiChannelCountGreater,
            Condition::WifiSignalLess(_) => Key::WifiSignalLess,
            Condition::FanSpeedGreater(_) => Key::FanSpeedGreater,
            Condition::TemperatureGreater(_) => Key::TemperatureGreater,
            Condition::FilesystemEquals(_) => Key::FilesystemEquals,
            Condition::WaylandVsX11(_) => Key::WaylandVsX11,
            Condition::DockerDanglingGreater(_) => Key::DockerDanglingGreater,
            Condition::PipewireLatencyGreater(_) => Key::PipewireLatencyGreater,
            Condition::FirefoxSoftRender(_) => Key::FirefoxSoftRender,
            Condition::ZfsArcPercentGreater(_) => Key::ZfsArcPercentGreater,
            Condition::LuksDevicesGreater(_) => Key::LuksDevicesGreater,
            Condition::GpuVendorEquals(_) => Key::GpuVendorEquals,
            Condition::GpuTempGreater(_) => Key::GpuTempGreater,
            Condition::GpuTempLess(_) => Key::GpuTempLess,
            Condition::GpuUtilGreater(_) => Key::GpuUtilGreater,
            Condition::GpuMemUtilGreater(_) => Key::GpuMemUtilGreater,
            Condition::PrimeOffloadEquals(_) => Key::PrimeOffloadEquals,
            Condition::GamescopeRunning(_) => Key::GamescopeRunning,
            Condition::SteamRunning(_) => Key::SteamRunning,
            Condition::ProtonFailures(_) => Key::ProtonFailures,
            Condition::VulkanLoaderMissing(_) => Key::VulkanLoaderMissing,
        }
    }

    /// The text that the condition holds, for the kinds that hold one; for a
    /// condition on the log, the source of its pattern.
    pub fn text(&self) -> (r: Option<String>)
        ensures
            match r {
                Some(t) => self@.payload == Payload::Text(t@),
                None => !(self@.payload is Text),
            },
    {
        match self {
            Condition::ProcessContains(t) => Some(t.clone()),
            Condition::LogContains(pattern) => Some(pattern.source()),
            Condition::FilesystemEquals(t) => Some(t.clone()),
            Condition::WaylandVsX11(t) => Some(t.clone()),
            Condition::GpuVendorEquals(t) => Some(t.clone()),
            Condition::PrimeOffloadEquals(t) => Some(t.clone()),
            _ => None,
        }
    }

    /// The condition of a kind that compares with a floating-point number.
    pub(crate) fn with_number(key: Key, value: Float) -> (r: Condition)
        requires
            key.spec_operand() == Operand::Number,
        ensures
            r@ == (ConditionModel { key, payload: Payload::Number(value) }),
    {
        match key {
            Key::CpuGreater => Condition::CpuGreater(value),
            Key::MemGreater => Condition::MemGreater(value),
            Key::DiskFullGreater => Condition::DiskFullGreater(value),
            Key::BatteryDrainGreater => Condition::BatteryDrainGreater(value),
            Key::WifiSignalLess => Condition::WifiSignalLess(value),
            Key::FanSpeedGreater => Condition::FanSpeedGreater(value),
            Key::TemperatureGreater => Condition::TemperatureGreater(value),
            Key::PipewireLatencyGreater => Condition::PipewireLatencyGreater(value),
            Key::ZfsArcPercentGreater => Condition::ZfsArcPercentGreater(value),
            Key::GpuTempGreater => Condition::GpuTempGreater(value),
            Key::GpuTempLess => Condition::GpuTempLess(value),
            Key::GpuUtilGreater => Condition::GpuUtilGreater(value),
            _ => Condition::GpuMemUtilGreater(value),
        }
    }

    /// The condition of a kind that compares with an unsigned integer.
    pub(crate) fn with_count(key: Key, value: u64) -> (r: Condition)
        requires
            key.spec_operand() == Operand::Count,
            value <= key.spec_count_limit(),
        ensures
            r@ == (ConditionModel { key, payload: Payload::Count(value as nat) }),
    {
        match key {
            Key::TotalRamLess => Condition::TotalRamLess(value),
            Key::ProcessCountGreater => Condition::ProcessCountGreater(value as usize),
            Key::SnapLoopsGreater => Condition::SnapLoopsGreater(value as u32),
            Key::FlatpakUnusedGreater => Condition::FlatpakUnusedGreater(value as u32),
            Key::WifiChannelCountGreater => Condition::WifiChannelCountGreater(value as u32),
            Key::DockerDanglingGreater => Condition::DockerDanglingGreater(value as u32),
            _ => Condition::LuksDevicesGreater(value as u32),
        }
    }

    /// The condition of a kind that holds a text.
    pub(crate) fn with_text(key: Key, value: String) -> (r: Condition)
        requires
            key.spec_operand() == Operand::Text || key.spec_operand() == Operand::LowerText,
        ensures
            r@ == (ConditionModel { key, payload: Payload::Text(value@) }),
    {
        match key {
            Key::ProcessContains => Condition::ProcessContains(value),
            Key::FilesystemEquals => Condition::FilesystemEquals(value),
            Key::WaylandVsX11 => Condition::WaylandVsX11(value),
            Key::GpuVendorEquals => Condition::GpuVendorEquals(value),
            _ => Condition::PrimeOffloadEquals(value),
        }
    }

    /// The condition of a kind that expects a flag in a state.
    pub(crate) fn with_flag(key: Key, value: bool) -> (r: Condition)
        requires
            key.spec_operand() == Operand::Flag,
        ensures
            r@ == (ConditionModel { key, payload: Payload::Flag(value) }),
    {
        match key {
            Key::FirefoxSoftRender => Condition::FirefoxSoftRender(value),
            Key::GamescopeRunning => Condition::GamescopeRunning(value),
            Key::SteamRunning => Condition::SteamRunning(value),
            Key::ProtonFailures => Condition::ProtonFailures(value),
            _ => Condition::VulkanLoaderMissing(value),
        }
    }
}

/// Every condition is well formed: its payload is of the sort that its kind
/// asks for.
pub proof fn lemma_condition_well_formed(c: Condition)
    ensures
        c@.well_formed(),
{
}

} // verus!
