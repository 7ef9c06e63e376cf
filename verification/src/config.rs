//! The persisted configuration: the power and thermal profiles by name, the
//! advanced settings, and the system profiles that every configuration holds.
use vstd::prelude::*;
use crate::named_map::{Duplicate, NamedMap};
use crate::profile::{AdvancedSettings, PowerProfile, PowerProfileView, ThermalProfile, ThermalProfileView};

verus! {

/// Everything the daemon keeps in its configuration file.
pub struct Config {
    pub power_profiles: NamedMap<PowerProfile>,
    pub thermal_profiles: NamedMap<ThermalProfile>,
    pub advanced_settings: AdvancedSettings,
}

/// A configuration as maps from names to profiles.
#[verifier::ext_equal]
pub struct ConfigView {
    pub power_profiles: Map<Seq<char>, PowerProfileView>,
    pub thermal_profiles: Map<Seq<char>, ThermalProfileView>,
    pub advanced_settings: AdvancedSettings,
}

impl View for Config {
    type V = ConfigView;

    open spec fn view(&self) -> ConfigView {
        ConfigView {
            power_profiles: self.power_profiles@,
            thermal_profiles: self.thermal_profiles@,
            advanced_settings: self.advanced_settings,
        }
    }
}

impl Config {
    /// A configuration with no profiles and both switches off.
    pub fn new() -> (c: Config)
        ensures
            c@.power_profiles == Map::<Seq<char>, PowerProfileView>::empty(),
            c@.thermal_profiles == Map::<Seq<char>, ThermalProfileView>::empty(),
            c@.advanced_settings == (AdvancedSettings { e_cores_enabled: false, fan_boost: false }),
    {
        Config {
            power_profiles: NamedMap::new(),
            thermal_profiles: NamedMap::new(),
            advanced_settings: AdvancedSettings { e_cores_enabled: false, fan_boost: false },
        }
    }
}

impl Default for Config {
    fn default() -> (c: Config)
        ensures
            c@.power_profiles == Map::<Seq<char>, PowerProfileView>::empty(),
            c@.thermal_profiles == Map::<Seq<char>, ThermalProfileView>::empty(),
            c@.advanced_settings == (AdvancedSettings { e_cores_enabled: false, fan_boost: false }),
    {
        Config::new()
    }
}

impl Duplicate for Config {
    fn duplicate(&self) -> (r: Config) {
        Config {
            power_profiles: self.power_profiles.duplicate(),
            thermal_profiles: self.thermal_profiles.duplicate(),
            advanced_settings: self.advanced_settings,
        }
    }
}

/// The power profile that a system default stands for.
pub open spec fn power_default(
    name: Seq<char>,
    description: Seq<char>,
    cpu: u32,
    gpu: u32,
    p_short: u32,
    p_long: u32,
) -> (Seq<char>, PowerProfileView) {
    (
        name,
        PowerProfileView {
            name,
            description,
            cpu_max_mhz: cpu,
            gpu_lock_mhz: gpu,
            p_short_w: p_short,
            p_long_w: p_long,
        },
    )
}

/// The system power profiles, by name, in the order in which they are added.
pub open spec fn system_power_defaults() -> Seq<(Seq<char>, PowerProfileView)> {
    seq![
        power_default("powersave"@, "Maximum battery life."@, 1300, 210, 25, 25),
        power_default("balanced"@, "Standard daily use."@, 2200, 2010, 35, 30),
        power_default("gmode-lite"@, "Light gaming profile."@, 2000, 1905, 35, 30),
        power_default("gmode-max"@, "Maximum performance."@, 2800, 2400, 45, 40),
        power_default("stock"@, "Factory defaults (no limits)."@, 5000, 2500, 200, 200),
    ]
}

/// The thermal profile that a system default stands for.
pub open spec fn thermal_default(name: Seq<char>, description: Seq<char>, offset: u32, gpu: u32) -> (
    Seq<char>,
    ThermalProfileView,
) {
    (name, ThermalProfileView { name, description, cpu_tj_offset: offset, gpu_temp_limit: gpu })
}

/// The system thermal profiles, by name, in the order in which they are added.
pub open spec fn system_thermal_defaults() -> Seq<(Seq<char>, ThermalProfileView)> {
    seq![
        thermal_default("Normal"@, "Standard thermal limits."@, 10, 80),
        thermal_default("None"@, "Unrestricted thermals."@, 0, 90),
    ]
}

/// `m` with each default whose name it lacks added, in order.
pub open spec fn add_missing<W>(m: Map<Seq<char>, W>, d: Seq<(Seq<char>, W)>) -> Map<Seq<char>, W>
    decreases d.len(),
{
    if d.len() == 0 {
        m
    } else {
        let m2 = add_missing(m, d.drop_last());
        if m2.dom().contains(d.last().0) {
            m2
        } else {
            m2.insert(d.last().0, d.last().1)
        }
    }
}

/// A configuration completed with the system profiles it lacks; profiles it
/// has, system ones included, stay as they are.
pub open spec fn with_defaults(c: ConfigView) -> ConfigView {
    ConfigView {
        power_profiles: add_missing(c.power_profiles, system_power_defaults()),
        thermal_profiles: add_missing(c.thermal_profiles, system_thermal_defaults()),
        advanced_settings: c.advanced_settings,
    }
}

/// The configuration holds a profile under the name of each system profile.
pub open spec fn has_system_profiles(c: ConfigView) -> bool {
    &&& forall|i: int|
        0 <= i < system_power_defaults().len() ==> c.power_profiles.dom().contains(
            #[trigger] system_power_defaults()[i].0,
        )
    &&& forall|i: int|
        0 <= i < system_thermal_defaults().len() ==> c.thermal_profiles.dom().contains(
            #[trigger] system_thermal_defaults()[i].0,
        )
}

fn make_power(name: &str, description: &str, cpu: u32, gpu: u32, p_short: u32, p_long: u32) -> (p:
    PowerProfile)
    ensures
        p@ == power_default(name@, description@, cpu, gpu, p_short, p_long).1,
{
    PowerProfile {
        name: name.to_owned(),
        description: description.to_owned(),
        cpu_max_mhz: cpu,
        gpu_lock_mhz: gpu,
        p_short_w: p_short,
        p_long_w: p_long,
    }
}

fn make_thermal(name: &str, description: &str, offset: u32, gpu: u32) -> (p: ThermalProfile)
    ensures
        p@ == thermal_default(name@, description@, offset, gpu).1,
{
    ThermalProfile {
        name: name.to_owned(),
        description: description.to_owned(),
        cpu_tj_offset: offset,
        gpu_temp_limit: gpu,
    }
}

/// The system power profiles, in order.
pub fn system_power_profiles() -> (v: Vec<PowerProfile>)
    ensures
        v@.len() == system_power_defaults().len(),
        forall|i: int| 0 <= i < v@.len() ==> (#[trigger] v@[i])@ == system_power_defaults()[i].1,
{
    let mut v: Vec<PowerProfile> = Vec::new();
    v.push(make_power("powersave", "Maximum battery life.", 1300, 210, 25, 25));
    v.push(make_power("balanced", "Standard daily use.", 2200, 2010, 35, 30));
    v.push(make_power("gmode-lite", "Light gaming profile.", 2000, 1905, 35, 30));
    v.push(make_power("gmode-max", "Maximum performance.", 2800, 2400, 45, 40));
    v.push(make_power("stock", "Factory defaults (no limits).", 5000, 2500, 200, 200));
    v
}

/// The system thermal profiles, in order.
pub fn system_thermal_profiles() -> (v: Vec<ThermalProfile>)
    ensures
        v@.len() == system_thermal_defaults().len(),
        forall|i: int| 0 <= i < v@.len() ==> (#[trigger] v@[i])@ == system_thermal_defaults()[i].1,
{
    let mut v: Vec<ThermalProfile> = Vec::new();
    v.push(make_thermal("Normal", "Standard thermal limits.", 10, 80));
    v.push(make_thermal("None", "Unrestricted thermals.", 0, 90));
    v
}

/// The entries of a vector of named values, each by its views.
pub open spec fn entry_views<V: View>(v: Seq<(String, V)>) -> Seq<(Seq<char>, V::V)> {
    v.map_values(|e: (String, V)| (e.0@, e.1@))
}

/// Adds to `m` each entry of `defaults` whose name it lacks, in order; tells
/// whether it added any.
fn add_missing_entries<V: Duplicate>(m: &mut NamedMap<V>, defaults: &Vec<(String, V)>) -> (changed:
    bool)
    ensures
        final(m)@ == add_missing(old(m)@, entry_views(defaults@)),
        changed == (final(m)@ != old(m)@),
{
    let ghost d = entry_views(defaults@);
    let ghost start = m@;
    let mut changed = false;
    let mut i: usize = 0;
    while i < defaults.len()
        invariant
            i <= defaults@.len(),
            d == entry_views(defaults@),
            m@ == add_missing(start, d.subrange(0, i as int)),
            forall|k: Seq<char>| #[trigger] start.dom().contains(k) ==> m@.dom().contains(k),
            changed ==> exists|k: Seq<char>| #[trigger] m@.dom().contains(k) && !start.dom().contains(k),
            !changed ==> m@ == start,
        decreases defaults@.len() - i,
    {
        let ghost before = m@;
        assert(d.subrange(0, i + 1).drop_last() =~= d.subrange(0, i as int));
        assert(d.subrange(0, i + 1).last() == d[i as int]);
        if !m.contains_key(&defaults[i].0) {
            let k = defaults[i].0.clone();
            let v = defaults[i].1.duplicate();
            m.insert(k, v);
            assert(m@.dom().contains(d[i as int].0));
            changed = true;
        }
        i = i + 1;
    }
    assert(d.subrange(0, defaults@.len() as int) =~= d);
    proof {
        if changed {
            let k = choose|k: Seq<char>| #[trigger] m@.dom().contains(k) && !start.dom().contains(k);
            assert(m@.dom().contains(k) != start.dom().contains(k));
        }
    }
    changed
}

/// Adds to `config` each system profile whose name it lacks (as the daemon
/// does on loading its configuration); tells whether it added any, which is
/// when the configuration must be written back.
pub fn ensure_defaults(config: &mut Config) -> (changed: bool)
    ensures
        final(config)@ == with_defaults(old(config)@),
        changed == (final(config)@ != old(config)@),
{
    let powers = system_power_profiles();
    let mut power_entries: Vec<(String, PowerProfile)> = Vec::new();
    let mut i: usize = 0;
    while i < powers.len()
        invariant
            i <= powers@.len(),
            powers@.len() == system_power_defaults().len(),
            forall|j: int| 0 <= j < powers@.len() ==> (#[trigger] powers@[j])@ == system_power_defaults()[j].1,
            entry_views(power_entries@) == system_power_defaults().subrange(0, i as int),
        decreases powers@.len() - i,
    {
        let p = powers[i].duplicate();
        let ghost before = entry_views(power_entries@);
        power_entries.push((p.name.clone(), p));
        assert(entry_views(power_entries@) =~= before.push(system_power_defaults()[i as int]));
        assert(system_power_defaults().subrange(0, i + 1) =~= system_power_defaults().subrange(0, i as int).push(system_power_defaults()[i as int]));
        i = i + 1;
    }
    assert(system_power_defaults().subrange(0, powers@.len() as int) =~= system_power_defaults());
    let thermals = system_thermal_profiles();
    let mut thermal_entries: Vec<(String, ThermalProfile)> = Vec::new();
    let mut i: usize = 0;
    while i < thermals.len()
        invariant
            i <= thermals@.len(),
            thermals@.len() == system_thermal_defaults().len(),
            forall|j: int| 0 <= j < thermals@.len() ==> (#[trigger] thermals@[j])@ == system_thermal_defaults()[j].1,
            entry_views(thermal_entries@) == system_thermal_defaults().subrange(0, i as int),
        decreases thermals@.len() - i,
    {
        let p = thermals[i].duplicate();
        let ghost before = entry_views(thermal_entries@);
        thermal_entries.push((p.name.clone(), p));
        assert(entry_views(thermal_entries@) =~= before.push(system_thermal_defaults()[i as int]));
        assert(system_thermal_defaults().subrange(0, i + 1) =~= system_thermal_defaults().subrange(0, i as int).push(system_thermal_defaults()[i as int]));
        i = i + 1;
    }
    assert(system_thermal_defaults().subrange(0, thermals@.len() as int) =~= system_thermal_defaults());
    let ghost old_config = config@;
    let power_changed = add_missing_entries(&mut config.power_profiles, &power_entries);
    let thermal_changed = add_missing_entries(&mut config.thermal_profiles, &thermal_entries);
    assert(config@ =~= with_defaults(old_config));
    proof {
        if power_changed {
            assert(config@.power_profiles != old_config.power_profiles);
        }
        if thermal_changed {
            assert(config@.thermal_profiles != old_config.thermal_profiles);
        }
    }
    power_changed || thermal_changed
}

} // verus!
