//! The daemon's decisions: the requests a client sends, the answers it gets,
//! and the hardware and storage work each request calls for. The daemon's
//! I/O runs each `Effect` that `DaemonState::handle` hands back.
use vstd::prelude::*;
use crate::config::{Config, ConfigView};
use crate::named_map::Duplicate;
use crate::profile::{
    is_system_power_name, is_system_profile, is_system_thermal_name, is_system_thermal_profile,
    AdvancedSettings, PowerProfile, ThermalProfile,
};

verus! {

/// Lowest CPU clock cap the daemon applies, in MHz.
pub const CPU_CLOCK_MIN_MHZ: u32 = 800;

/// Highest CPU clock cap the daemon applies, in MHz.
pub const CPU_CLOCK_MAX_MHZ: u32 = 5000;

/// Lowest GPU clock lock the daemon applies, in MHz.
pub const GPU_CLOCK_MIN_MHZ: u32 = 200;

/// Highest GPU clock lock the daemon applies, in MHz.
pub const GPU_CLOCK_MAX_MHZ: u32 = 3500;

/// Lowest package power limit the daemon applies, in W.
pub const POWER_MIN_W: u32 = 10;

/// Highest package power limit the daemon applies, in W.
pub const POWER_MAX_W: u32 = 150;

/// Largest TjMax offset the daemon applies, in degrees Celsius.
pub const TJ_OFFSET_MAX: u32 = 20;

/// `v` brought into `[lo, hi]`.
pub open spec fn clamp(v: u32, lo: u32, hi: u32) -> u32 {
    if v < lo {
        lo
    } else if v > hi {
        hi
    } else {
        v
    }
}

/// `v` brought into `[lo, hi]`.
pub fn clamp_u32(v: u32, lo: u32, hi: u32) -> (r: u32)
    ensures
        r == clamp(v, lo, hi),
{
    if v < lo {
        lo
    } else if v > hi {
        hi
    } else {
        v
    }
}

/// The CPU clock cap that a requested one becomes.
pub open spec fn safe_cpu(v: u32) -> u32 {
    clamp(v, CPU_CLOCK_MIN_MHZ, CPU_CLOCK_MAX_MHZ)
}

/// The GPU clock lock that a requested one becomes.
pub open spec fn safe_gpu(v: u32) -> u32 {
    clamp(v, GPU_CLOCK_MIN_MHZ, GPU_CLOCK_MAX_MHZ)
}

/// The power limit that a requested one becomes.
pub open spec fn safe_power(v: u32) -> u32 {
    clamp(v, POWER_MIN_W, POWER_MAX_W)
}

/// The TjMax offset that a requested one becomes.
pub open spec fn safe_tj(v: u32) -> u32 {
    if v > TJ_OFFSET_MAX {
        TJ_OFFSET_MAX
    } else {
        v
    }
}

/// A request from the client.
#[derive(Debug, Clone)]
pub enum Action {
    GetTelemetry,
    GetConfig,
    SavePowerProfile(PowerProfile),
    SaveThermalProfile(ThermalProfile),
    DeletePowerProfile(String),
    DeleteThermalProfile(String),
    ApplyPowerProfile(String),
    ApplyThermalProfile(String),
    UpdateAdvanced(AdvancedSettings),
    SetCpuMaxClock(u32),
    SetGpuLockedClock(u32),
    SetPowerLimits { short: u32, long: u32 },
    SetThermalTarget(u32),
    SetGpuTempLimit(u32),
    ToggleECores(bool),
}

/// The part of the telemetry that the daemon itself decides: the profiles
/// and limits in force. The sensor readings come from the hardware.
#[derive(Debug, Clone, Default)]
pub struct ActiveStatus {
    pub active_power_profile: String,
    pub active_thermal_profile: String,
    pub active_cpu_limit: u32,
    pub active_gpu_limit: u32,
    pub active_thermal_limit: i32,
    pub active_gpu_temp_limit: u32,
    pub active_p_short: u32,
    pub active_p_long: u32,
}

/// An `ActiveStatus` with its names taken as character sequences.
pub struct ActiveStatusView {
    pub active_power_profile: Seq<char>,
    pub active_thermal_profile: Seq<char>,
    pub active_cpu_limit: u32,
    pub active_gpu_limit: u32,
    pub active_thermal_limit: i32,
    pub active_gpu_temp_limit: u32,
    pub active_p_short: u32,
    pub active_p_long: u32,
}

impl View for ActiveStatus {
    type V = ActiveStatusView;

    open spec fn view(&self) -> ActiveStatusView {
        ActiveStatusView {
            active_power_profile: self.active_power_profile@,
            active_thermal_profile: self.active_thermal_profile@,
            active_cpu_limit: self.active_cpu_limit,
            active_gpu_limit: self.active_gpu_limit,
            active_thermal_limit: self.active_thermal_limit,
            active_gpu_temp_limit: self.active_gpu_temp_limit,
            active_p_short: self.active_p_short,
            active_p_long: self.active_p_long,
        }
    }
}

impl Duplicate for ActiveStatus {
    fn duplicate(&self) -> (r: ActiveStatus) {
        ActiveStatus {
            active_power_profile: self.active_power_profile.clone(),
            active_thermal_profile: self.active_thermal_profile.clone(),
            active_cpu_limit: self.active_cpu_limit,
            active_gpu_limit: self.active_gpu_limit,
            active_thermal_limit: self.active_thermal_limit,
            active_gpu_temp_limit: self.active_gpu_temp_limit,
            active_p_short: self.active_p_short,
            active_p_long: self.active_p_long,
        }
    }
}

/// The daemon's answer to a request. `Telemetry` carries the part of the
/// telemetry that the daemon decides; the sensor readings join it on the way
/// out.
pub enum DaemonResponse {
    Telemetry(ActiveStatus),
    Config(Config),
    /// The request was carried out.
    Success,
    Error(String),
}

/// A `DaemonResponse` by the views of what it carries.
pub enum ResponseView {
    Telemetry(ActiveStatusView),
    Config(ConfigView),
    Success,
    Error(Seq<char>),
}

impl View for DaemonResponse {
    type V = ResponseView;

    open spec fn view(&self) -> ResponseView {
        match self {
            DaemonResponse::Telemetry(t) => ResponseView::Telemetry(t@),
            DaemonResponse::Config(c) => ResponseView::Config(c@),
            DaemonResponse::Success => ResponseView::Success,
            DaemonResponse::Error(e) => ResponseView::Error(e@),
        }
    }
}

/// Work outside the daemon's state that a request calls for, in the order
/// given.
#[derive(Debug, Clone, Copy, PartialEq, Eq, Structural)]
pub enum Effect {
    /// Cap the CPU clock at this many MHz (`cpupower frequency-set -u`).
    SetCpuMaxClock(u32),
    /// Lock the GPU clock up to this many MHz (`nvidia-smi --lock-gpu-clocks`).
    LockGpuClock(u32),
    /// Set the package power limits in W (intel-undervolt `power package`).
    SetPowerLimits { short: u32, long: u32 },
    /// Set the TjMax offset (intel-undervolt `tjoffset`).
    SetTjOffset(u32),
    /// Set the GPU's target temperature (`nvidia-smi -gpu-target-temp`).
    SetGpuTargetTemp(u32),
    /// Write the configuration to its file.
    SaveConfig,
}

/// The daemon's state: its configuration, the profiles last applied, and the
/// status it reports.
pub struct DaemonState {
    config: Config,
    active_power: String,
    active_thermal: String,
    status: ActiveStatus,
}

/// A `DaemonState` by its views.
#[verifier::ext_equal]
pub struct DaemonView {
    pub config: ConfigView,
    pub active_power: Seq<char>,
    pub active_thermal: Seq<char>,
    pub status: ActiveStatusView,
}

impl View for DaemonState {
    type V = DaemonView;

    closed spec fn view(&self) -> DaemonView {
        DaemonView {
            config: self.config@,
            active_power: self.active_power@,
            active_thermal: self.active_thermal@,
            status: self.status@,
        }
    }
}

/// The state that a configuration starts the daemon in: the "balanced" and
/// "Normal" profiles count as active, and their limits, where the
/// configuration holds them, are reported.
pub open spec fn initial_state(c: ConfigView) -> DaemonView {
    let p = c.power_profiles["balanced"@];
    let t = c.thermal_profiles["Normal"@];
    let has_p = c.power_profiles.dom().contains("balanced"@);
    let has_t = c.thermal_profiles.dom().contains("Normal"@);
    DaemonView {
        config: c,
        active_power: "balanced"@,
        active_thermal: "Normal"@,
        status: ActiveStatusView {
            active_power_profile: Seq::empty(),
            active_thermal_profile: Seq::empty(),
            active_cpu_limit: if has_p { safe_cpu(p.cpu_max_mhz) } else { 0 },
            active_gpu_limit: if has_p { safe_gpu(p.gpu_lock_mhz) } else { 0 },
            active_thermal_limit: if has_t { safe_tj(t.cpu_tj_offset) as i32 } else { 0 },
            active_gpu_temp_limit: if has_t { t.gpu_temp_limit } else { 0 },
            active_p_short: if has_p { safe_power(p.p_short_w) } else { 0 },
            active_p_long: if has_p { safe_power(p.p_long_w) } else { 0 },
        },
    }
}

/// `s` with the reported status replaced.
pub open spec fn with_status(s: DaemonView, status: ActiveStatusView) -> DaemonView {
    DaemonView { status, ..s }
}

/// `s` with the configuration replaced.
pub open spec fn with_config(s: DaemonView, config: ConfigView) -> DaemonView {
    DaemonView { config, ..s }
}

/// What a request does: the next state, the answer, and the work it calls
/// for. Every clock, power and offset value that reaches the hardware or the
/// reported limits is first brought within the safety limits.
pub open spec fn step(s: DaemonView, a: Action) -> (DaemonView, ResponseView, Seq<Effect>) {
    let c = s.config;
    let st = s.status;
    match a {
        Action::GetTelemetry => (s, ResponseView::Telemetry(st), seq![]),
        Action::GetConfig => (s, ResponseView::Config(c), seq![]),
        Action::SavePowerProfile(p) => (
            with_config(s, ConfigView { power_profiles: c.power_profiles.insert(p.name@, p@), ..c }),
            ResponseView::Success,
            seq![Effect::SaveConfig],
        ),
        Action::SaveThermalProfile(p) => (
            with_config(s, ConfigView { thermal_profiles: c.thermal_profiles.insert(p.name@, p@), ..c }),
            ResponseView::Success,
            seq![Effect::SaveConfig],
        ),
        Action::DeletePowerProfile(n) => if is_system_power_name(n@) {
            (s, ResponseView::Error("Cannot delete system profile"@), seq![])
        } else {
            (
                with_config(s, ConfigView { power_profiles: c.power_profiles.remove(n@), ..c }),
                ResponseView::Success,
                seq![Effect::SaveConfig],
            )
        },
        Action::DeleteThermalProfile(n) => if is_system_thermal_name(n@) {
            (s, ResponseView::Error("Cannot delete system profile"@), seq![])
        } else {
            (
                with_config(s, ConfigView { thermal_profiles: c.thermal_profiles.remove(n@), ..c }),
                ResponseView::Success,
                seq![Effect::SaveConfig],
            )
        },
        Action::ApplyPowerProfile(n) => if c.power_profiles.dom().contains(n@) {
            let p = c.power_profiles[n@];
            (
                DaemonView {
                    active_power: n@,
                    status: ActiveStatusView {
                        active_cpu_limit: safe_cpu(p.cpu_max_mhz),
                        active_gpu_limit: safe_gpu(p.gpu_lock_mhz),
                        active_p_short: safe_power(p.p_short_w),
                        active_p_long: safe_power(p.p_long_w),
                        ..st
                    },
                    ..s
                },
                ResponseView::Success,
                seq![
                    Effect::SetCpuMaxClock(safe_cpu(p.cpu_max_mhz)),
                    Effect::LockGpuClock(safe_gpu(p.gpu_lock_mhz)),
                    Effect::SetPowerLimits { short: safe_power(p.p_short_w), long: safe_power(p.p_long_w) },
                ],
            )
        } else {
            (s, ResponseView::Error("Not found"@), seq![])
        },
        Action::ApplyThermalProfile(n) => if c.thermal_profiles.dom().contains(n@) {
            let t = c.thermal_profiles[n@];
            (
                DaemonView {
                    active_thermal: n@,
                    status: ActiveStatusView {
                        active_thermal_limit: safe_tj(t.cpu_tj_offset) as i32,
                        active_gpu_temp_limit: t.gpu_temp_limit,
                        ..st
                    },
                    ..s
                },
                ResponseView::Success,
                seq![Effect::SetTjOffset(safe_tj(t.cpu_tj_offset)), Effect::SetGpuTargetTemp(t.gpu_temp_limit)],
            )
        } else {
            (s, ResponseView::Error("Not found"@), seq![])
        },
        Action::UpdateAdvanced(adv) => (
            with_config(s, ConfigView { advanced_settings: adv, ..c }),
            ResponseView::Success,
            seq![Effect::SaveConfig],
        ),
        Action::SetCpuMaxClock(m) => (
            with_status(s, ActiveStatusView { active_cpu_limit: safe_cpu(m), ..st }),
            ResponseView::Success,
            seq![Effect::SetCpuMaxClock(safe_cpu(m))],
        ),
        Action::SetGpuLockedClock(m) => (
            with_status(s, ActiveStatusView { active_gpu_limit: safe_gpu(m), ..st }),
            ResponseView::Success,
            seq![Effect::LockGpuClock(safe_gpu(m))],
        ),
        Action::SetPowerLimits { short, long } => (
            with_status(
                s,
                ActiveStatusView { active_p_short: safe_power(short), active_p_long: safe_power(long), ..st },
            ),
            ResponseView::Success,
            seq![Effect::SetPowerLimits { short: safe_power(short), long: safe_power(long) }],
        ),
        Action::SetThermalTarget(o) => (
            with_status(s, ActiveStatusView { active_thermal_limit: safe_tj(o) as i32, ..st }),
            ResponseView::Success,
            seq![Effect::SetTjOffset(safe_tj(o))],
        ),
        Action::SetGpuTempLimit(l) => (
            with_status(s, ActiveStatusView { active_gpu_temp_limit: l, ..st }),
            ResponseView::Success,
            seq![Effect::SetGpuTargetTemp(l)],
        ),
        Action::ToggleECores(_) => (s, ResponseView::Error("Not implemented"@), seq![]),
    }
}

/// The state after the periodic telemetry refresh: the reported profile
/// names catch up with the profiles last applied.
pub open spec fn refreshed(s: DaemonView) -> DaemonView {
    with_status(
        s,
        ActiveStatusView {
            active_power_profile: s.active_power,
            active_thermal_profile: s.active_thermal,
            ..s.status
        },
    )
}


impl DaemonState {
    /// The daemon's state on start, with the configuration it loaded.
    pub fn new(config: Config) -> (s: DaemonState)
        ensures
            s@ == initial_state(config@),
    {
        let balanced = "balanced".to_owned();
        let normal = "Normal".to_owned();
        let mut status = ActiveStatus {
            active_power_profile: String::new(),
            active_thermal_profile: String::new(),
            active_cpu_limit: 0,
            active_gpu_limit: 0,
            active_thermal_limit: 0,
            active_gpu_temp_limit: 0,
            active_p_short: 0,
            active_p_long: 0,
        };
        match config.power_profiles.get(&balanced) {
            Some(p) => {
                status.active_cpu_limit = clamp_u32(p.cpu_max_mhz, CPU_CLOCK_MIN_MHZ, CPU_CLOCK_MAX_MHZ);
                status.active_gpu_limit = clamp_u32(p.gpu_lock_mhz, GPU_CLOCK_MIN_MHZ, GPU_CLOCK_MAX_MHZ);
                status.active_p_short = clamp_u32(p.p_short_w, POWER_MIN_W, POWER_MAX_W);
                status.active_p_long = clamp_u32(p.p_long_w, POWER_MIN_W, POWER_MAX_W);
            },
            None => {},
        }
        match config.thermal_profiles.get(&normal) {
            Some(t) => {
                let o = clamp_u32(t.cpu_tj_offset, 0, TJ_OFFSET_MAX);
                status.active_thermal_limit = o as i32;
                status.active_gpu_temp_limit = t.gpu_temp_limit;
            },
            None => {},
        }
        let s = DaemonState { config, active_power: balanced, active_thermal: normal, status };
        assert(s@ =~= initial_state(config@));
        s
    }

    /// The configuration.
    pub fn config(&self) -> (c: &Config)
        ensures
            c@ == self@.config,
    {
        &self.config
    }

    /// The status the daemon reports.
    pub fn status(&self) -> (st: &ActiveStatus)
        ensures
            st@ == self@.status,
    {
        &self.status
    }

    /// The periodic telemetry refresh: the reported profile names catch up
    /// with the profiles last applied.
    pub fn refresh(&mut self)
        ensures
            final(self)@ == refreshed(old(self)@),
    {
        self.status.active_power_profile = self.active_power.clone();
        self.status.active_thermal_profile = self.active_thermal.clone();
        assert(self@ =~= refreshed(old(self)@));
    }

    /// Decides a request: updates the state and gives the answer and the work
    /// to carry out, in order.
    pub fn handle(&mut self, action: Action) -> (r: (DaemonResponse, Vec<Effect>))
        ensures
            final(self)@ == step(old(self)@, action).0,
            r.0@ == step(old(self)@, action).1,
            r.1@ == step(old(self)@, action).2,
    {
        let ghost a = action;
        let mut effects: Vec<Effect> = Vec::new();
        let resp = match action {
            Action::GetTelemetry => DaemonResponse::Telemetry(self.status.duplicate()),
            Action::GetConfig => DaemonResponse::Config(self.config.duplicate()),
            Action::SavePowerProfile(p) => {
                let key = p.name.clone();
                self.config.power_profiles.insert(key, p);
                effects.push(Effect::SaveConfig);
                DaemonResponse::Success
            },
            Action::SaveThermalProfile(p) => {
                let key = p.name.clone();
                self.config.thermal_profiles.insert(key, p);
                effects.push(Effect::SaveConfig);
                DaemonResponse::Success
            },
            Action::DeletePowerProfile(n) => {
                if is_system_profile(n.as_str()) {
                    DaemonResponse::Error("Cannot delete system profile".to_owned())
                } else {
                    self.config.power_profiles.remove(&n);
                    effects.push(Effect::SaveConfig);
                    DaemonResponse::Success
                }
            },
            Action::DeleteThermalProfile(n) => {
                if is_system_thermal_profile(n.as_str()) {
                    DaemonResponse::Error("Cannot delete system profile".to_owned())
                } else {
                    self.config.thermal_profiles.remove(&n);
                    effects.push(Effect::SaveConfig);
                    DaemonResponse::Success
                }
            },
            Action::ApplyPowerProfile(n) => {
                match self.config.power_profiles.get(&n) {
                    Some(p) => {
                        let cpu = clamp_u32(p.cpu_max_mhz, CPU_CLOCK_MIN_MHZ, CPU_CLOCK_MAX_MHZ);
                        let gpu = clamp_u32(p.gpu_lock_mhz, GPU_CLOCK_MIN_MHZ, GPU_CLOCK_MAX_MHZ);
                        let short = clamp_u32(p.p_short_w, POWER_MIN_W, POWER_MAX_W);
                        let long = clamp_u32(p.p_long_w, POWER_MIN_W, POWER_MAX_W);
                        effects.push(Effect::SetCpuMaxClock(cpu));
                        effects.push(Effect::LockGpuClock(gpu));
                        effects.push(Effect::SetPowerLimits { short, long });
                        self.active_power = n;
                        self.status.active_cpu_limit = cpu;
                        self.status.active_gpu_limit = gpu;
                        self.status.active_p_short = short;
                        self.status.active_p_long = long;
                        DaemonResponse::Success
                    },
                    None => DaemonResponse::Error("Not found".to_owned()),
                }
            },
            Action::ApplyThermalProfile(n) => {
                match self.config.thermal_profiles.get(&n) {
                    Some(t) => {
                        let o = clamp_u32(t.cpu_tj_offset, 0, TJ_OFFSET_MAX);
                        let g = t.gpu_temp_limit;
                        effects.push(Effect::SetTjOffset(o));
                        effects.push(Effect::SetGpuTargetTemp(g));
                        self.active_thermal = n;
                        self.status.active_thermal_limit = o as i32;
                        self.status.active_gpu_temp_limit = g;
                        DaemonResponse::Success
                    },
                    None => DaemonResponse::Error("Not found".to_owned()),
                }
            },
            Action::UpdateAdvanced(adv) => {
                self.config.advanced_settings = adv;
                effects.push(Effect::SaveConfig);
                DaemonResponse::Success
            },
            Action::SetCpuMaxClock(m) => {
                let v = clamp_u32(m, CPU_CLOCK_MIN_MHZ, CPU_CLOCK_MAX_MHZ);
                effects.push(Effect::SetCpuMaxClock(v));
                self.status.active_cpu_limit = v;
                DaemonResponse::Success
            },
            Action::SetGpuLockedClock(m) => {
                let v = clamp_u32(m, GPU_CLOCK_MIN_MHZ, GPU_CLOCK_MAX_MHZ);
                effects.push(Effect::LockGpuClock(v));
                self.status.active_gpu_limit = v;
                DaemonResponse::Success
            },
            Action::SetPowerLimits { short, long } => {
                let s = clamp_u32(short, POWER_MIN_W, POWER_MAX_W);
                let l = clamp_u32(long, POWER_MIN_W, POWER_MAX_W);
                effects.push(Effect::SetPowerLimits { short: s, long: l });
                self.status.active_p_short = s;
                self.status.active_p_long = l;
                DaemonResponse::Success
            },
            Action::SetThermalTarget(o) => {
                let v = clamp_u32(o, 0, TJ_OFFSET_MAX);
                effects.push(Effect::SetTjOffset(v));
                self.status.active_thermal_limit = v as i32;
                DaemonResponse::Success
            },
            Action::SetGpuTempLimit(l) => {
                effects.push(Effect::SetGpuTargetTemp(l));
                self.status.active_gpu_temp_limit = l;
                DaemonResponse::Success
            },
            Action::ToggleECores(_) => DaemonResponse::Error("Not implemented".to_owned()),
        };
        assert(self@ =~= step(old(self)@, a).0);
        assert(effects@ =~= step(old(self)@, a).2);
        (resp, effects)
    }
}

} // verus!
