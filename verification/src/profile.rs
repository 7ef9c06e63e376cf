//! Power and thermal profiles and the advanced settings, as the daemon
//! stores them and the client edits them.
use vstd::prelude::*;
use crate::named_map::Duplicate;
use crate::text::same_text;

verus! {

/// A named set of clock and power limits.
#[derive(Debug, Clone, Default)]
pub struct PowerProfile {
    pub name: String,
    pub description: String,
    pub cpu_max_mhz: u32,
    pub gpu_lock_mhz: u32,
    pub p_short_w: u32,
    pub p_long_w: u32,
}

/// A power profile with its texts taken as character sequences.
pub struct PowerProfileView {
    pub name: Seq<char>,
    pub description: Seq<char>,
    pub cpu_max_mhz: u32,
    pub gpu_lock_mhz: u32,
    pub p_short_w: u32,
    pub p_long_w: u32,
}

impl View for PowerProfile {
    type V = PowerProfileView;

    open spec fn view(&self) -> PowerProfileView {
        PowerProfileView {
            name: self.name@,
            description: self.description@,
            cpu_max_mhz: self.cpu_max_mhz,
            gpu_lock_mhz: self.gpu_lock_mhz,
            p_short_w: self.p_short_w,
            p_long_w: self.p_long_w,
        }
    }
}

impl Duplicate for PowerProfile {
    fn duplicate(&self) -> (r: Self) {
        PowerProfile {
            name: self.name.clone(),
            description: self.description.clone(),
            cpu_max_mhz: self.cpu_max_mhz,
            gpu_lock_mhz: self.gpu_lock_mhz,
            p_short_w: self.p_short_w,
            p_long_w: self.p_long_w,
        }
    }
}

/// A named pair of thermal limits: the CPU's TjMax offset and the GPU's
/// target temperature.
#[derive(Debug, Clone, Default)]
pub struct ThermalProfile {
    pub name: String,
    pub description: String,
    pub cpu_tj_offset: u32,
    pub gpu_temp_limit: u32,
}

/// A thermal profile with its texts taken as character sequences.
pub struct ThermalProfileView {
    pub name: Seq<char>,
    pub description: Seq<char>,
    pub cpu_tj_offset: u32,
    pub gpu_temp_limit: u32,
}

impl View for ThermalProfile {
    type V = ThermalProfileView;

    open spec fn view(&self) -> ThermalProfileView {
        ThermalProfileView {
            name: self.name@,
            description: self.description@,
            cpu_tj_offset: self.cpu_tj_offset,
            gpu_temp_limit: self.gpu_temp_limit,
        }
    }
}

impl Duplicate for ThermalProfile {
    fn duplicate(&self) -> (r: Self) {
        ThermalProfile {
            name: self.name.clone(),
            description: self.description.clone(),
            cpu_tj_offset: self.cpu_tj_offset,
            gpu_temp_limit: self.gpu_temp_limit,
        }
    }
}

/// Switches that are kept with the profiles.
#[derive(Debug, Clone, Copy, Default)]
pub struct AdvancedSettings {
    pub e_cores_enabled: bool,
    pub fan_boost: bool,
}

/// The names of the power profiles that cannot be deleted.
pub open spec fn is_system_power_name(name: Seq<char>) -> bool {
    name == "powersave"@ || name == "balanced"@ || name == "gmode-lite"@ || name == "gmode-max"@
        || name == "stock"@
}

/// The names of the thermal profiles that cannot be deleted.
pub open spec fn is_system_thermal_name(name: Seq<char>) -> bool {
    name == "Normal"@ || name == "None"@
}

/// Whether a power profile of this name is one of the system ones, which
/// cannot be deleted.
pub fn is_system_profile(name: &str) -> (r: bool)
    ensures
        r == is_system_power_name(name@),
{
    same_text(name, "powersave") || same_text(name, "balanced") || same_text(name, "gmode-lite")
        || same_text(name, "gmode-max") || same_text(name, "stock")
}

/// Whether a thermal profile of this name is one of the system ones, which
/// cannot be deleted.
pub fn is_system_thermal_profile(name: &str) -> (r: bool)
    ensures
        r == is_system_thermal_name(name@),
{
    same_text(name, "Normal") || same_text(name, "None")
}

} // verus!
