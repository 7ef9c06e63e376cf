use capeit::config::{ensure_defaults, system_power_profiles, Config};
use capeit::profile::{PowerProfile, ThermalProfile};

#[test]
fn empty_config_gets_all_system_profiles() {
    let mut c = Config::new();
    assert!(ensure_defaults(&mut c));
    assert_eq!(c.power_profiles.entries().len(), 5);
    assert_eq!(c.thermal_profiles.entries().len(), 2);
    let p = c.power_profiles.get(&"powersave".to_string()).unwrap();
    assert_eq!(p.description, "Maximum battery life.");
    assert_eq!((p.cpu_max_mhz, p.gpu_lock_mhz, p.p_short_w, p.p_long_w), (1300, 210, 25, 25));
    let p = c.power_profiles.get(&"stock".to_string()).unwrap();
    assert_eq!((p.cpu_max_mhz, p.gpu_lock_mhz, p.p_short_w, p.p_long_w), (5000, 2500, 200, 200));
    let t = c.thermal_profiles.get(&"None".to_string()).unwrap();
    assert_eq!((t.cpu_tj_offset, t.gpu_temp_limit), (0, 90));
    assert_eq!(t.description, "Unrestricted thermals.");
}

#[test]
fn second_completion_changes_nothing() {
    let mut c = Config::new();
    assert!(ensure_defaults(&mut c));
    assert!(!ensure_defaults(&mut c));
    assert_eq!(c.power_profiles.entries().len(), 5);
}

#[test]
fn existing_profiles_are_kept() {
    let mut c = Config::new();
    c.power_profiles.insert(
        "balanced".to_string(),
        PowerProfile { name: "balanced".to_string(), description: "mine".to_string(), cpu_max_mhz: 1, gpu_lock_mhz: 2, p_short_w: 3, p_long_w: 4 },
    );
    c.thermal_profiles.insert(
        "Normal".to_string(),
        ThermalProfile { name: "Normal".to_string(), description: "mine".to_string(), cpu_tj_offset: 5, gpu_temp_limit: 6 },
    );
    c.thermal_profiles.insert(
        "None".to_string(),
        ThermalProfile { name: "None".to_string(), description: "mine".to_string(), cpu_tj_offset: 7, gpu_temp_limit: 8 },
    );
    assert!(ensure_defaults(&mut c));
    assert_eq!(c.power_profiles.get(&"balanced".to_string()).unwrap().description, "mine");
    assert_eq!(c.thermal_profiles.get(&"None".to_string()).unwrap().gpu_temp_limit, 8);
    assert_eq!(c.power_profiles.entries().len(), 5);
}

#[test]
fn complete_config_is_unchanged() {
    let mut c = Config::new();
    for p in system_power_profiles() {
        c.power_profiles.insert(p.name.clone(), p);
    }
    c.thermal_profiles.insert("Normal".to_string(), ThermalProfile::default());
    c.thermal_profiles.insert("None".to_string(), ThermalProfile::default());
    assert!(!ensure_defaults(&mut c));
}

#[test]
fn map_insert_get_remove() {
    let mut c = Config::new();
    let k = "a".to_string();
    assert!(!c.power_profiles.contains_key(&k));
    c.power_profiles.insert(k.clone(), PowerProfile::default());
    assert!(c.power_profiles.contains_key(&k));
    c.power_profiles.insert(k.clone(), PowerProfile { cpu_max_mhz: 9, ..PowerProfile::default() });
    assert_eq!(c.power_profiles.entries().len(), 1);
    assert_eq!(c.power_profiles.get(&k).unwrap().cpu_max_mhz, 9);
    c.power_profiles.remove(&k);
    assert!(c.power_profiles.get(&k).is_none());
    c.power_profiles.remove(&k);
    assert_eq!(c.power_profiles.entries().len(), 0);
}
