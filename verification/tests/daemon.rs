use capeit::config::{ensure_defaults, Config};
use capeit::daemon::{Action, ActiveStatus, DaemonResponse, DaemonState, Effect};
use capeit::profile::{AdvancedSettings, PowerProfile, ThermalProfile};

fn loaded() -> Config {
    let mut c = Config::new();
    assert!(ensure_defaults(&mut c));
    c
}

fn is_ok(r: &DaemonResponse) -> bool {
    matches!(r, DaemonResponse::Success)
}

fn error_text(r: &DaemonResponse) -> String {
    match r {
        DaemonResponse::Error(e) => e.clone(),
        _ => panic!("not an error"),
    }
}

fn status(s: &mut DaemonState) -> ActiveStatus {
    match s.handle(Action::GetTelemetry) {
        (DaemonResponse::Telemetry(t), e) => {
            assert!(e.is_empty());
            t
        }
        _ => panic!("no telemetry"),
    }
}

fn profile(name: &str, cpu: u32, gpu: u32, s: u32, l: u32) -> PowerProfile {
    PowerProfile {
        name: name.to_string(),
        description: "custom".to_string(),
        cpu_max_mhz: cpu,
        gpu_lock_mhz: gpu,
        p_short_w: s,
        p_long_w: l,
    }
}

#[test]
fn starts_with_balanced_and_normal_limits() {
    let mut s = DaemonState::new(loaded());
    let t = status(&mut s);
    assert_eq!(t.active_cpu_limit, 2200);
    assert_eq!(t.active_gpu_limit, 2010);
    assert_eq!(t.active_p_short, 35);
    assert_eq!(t.active_p_long, 30);
    assert_eq!(t.active_thermal_limit, 10);
    assert_eq!(t.active_gpu_temp_limit, 80);
    assert_eq!(t.active_power_profile, "");
    s.refresh();
    let t = status(&mut s);
    assert_eq!(t.active_power_profile, "balanced");
    assert_eq!(t.active_thermal_profile, "Normal");
}

#[test]
fn starts_with_zero_limits_without_profiles() {
    let mut s = DaemonState::new(Config::new());
    let t = status(&mut s);
    assert_eq!(t.active_cpu_limit, 0);
    assert_eq!(t.active_gpu_temp_limit, 0);
}

#[test]
fn applying_a_power_profile_sets_hardware_and_status() {
    let mut s = DaemonState::new(loaded());
    let (r, e) = s.handle(Action::ApplyPowerProfile("gmode-max".to_string()));
    assert!(is_ok(&r));
    assert_eq!(
        e,
        vec![
            Effect::SetCpuMaxClock(2800),
            Effect::LockGpuClock(2400),
            Effect::SetPowerLimits { short: 45, long: 40 }
        ]
    );
    s.refresh();
    let t = status(&mut s);
    assert_eq!(t.active_power_profile, "gmode-max");
    assert_eq!(t.active_cpu_limit, 2800);
    assert_eq!(t.active_p_long, 40);
}

#[test]
fn stock_power_is_held_to_the_safety_limit() {
    let mut s = DaemonState::new(loaded());
    let (r, e) = s.handle(Action::ApplyPowerProfile("stock".to_string()));
    assert!(is_ok(&r));
    assert_eq!(
        e,
        vec![
            Effect::SetCpuMaxClock(5000),
            Effect::LockGpuClock(2500),
            Effect::SetPowerLimits { short: 150, long: 150 }
        ]
    );
}

#[test]
fn manual_values_are_held_within_limits() {
    let mut s = DaemonState::new(loaded());
    assert_eq!(s.handle(Action::SetCpuMaxClock(100)).1, vec![Effect::SetCpuMaxClock(800)]);
    assert_eq!(s.handle(Action::SetCpuMaxClock(9000)).1, vec![Effect::SetCpuMaxClock(5000)]);
    assert_eq!(s.handle(Action::SetCpuMaxClock(3100)).1, vec![Effect::SetCpuMaxClock(3100)]);
    assert_eq!(s.handle(Action::SetGpuLockedClock(0)).1, vec![Effect::LockGpuClock(200)]);
    assert_eq!(s.handle(Action::SetGpuLockedClock(4000)).1, vec![Effect::LockGpuClock(3500)]);
    assert_eq!(
        s.handle(Action::SetPowerLimits { short: 5, long: 500 }).1,
        vec![Effect::SetPowerLimits { short: 10, long: 150 }]
    );
    assert_eq!(s.handle(Action::SetThermalTarget(35)).1, vec![Effect::SetTjOffset(20)]);
    assert_eq!(s.handle(Action::SetGpuTempLimit(95)).1, vec![Effect::SetGpuTargetTemp(95)]);
    let t = status(&mut s);
    assert_eq!(t.active_cpu_limit, 3100);
    assert_eq!(t.active_gpu_limit, 3500);
    assert_eq!(t.active_p_short, 10);
    assert_eq!(t.active_p_long, 150);
    assert_eq!(t.active_thermal_limit, 20);
    assert_eq!(t.active_gpu_temp_limit, 95);
}

#[test]
fn saved_profile_is_applied_by_name() {
    let mut s = DaemonState::new(loaded());
    let (r, e) = s.handle(Action::SavePowerProfile(profile("quiet", 1500, 600, 20, 15)));
    assert!(is_ok(&r));
    assert_eq!(e, vec![Effect::SaveConfig]);
    let (r, e) = s.handle(Action::ApplyPowerProfile("quiet".to_string()));
    assert!(is_ok(&r));
    assert_eq!(
        e,
        vec![
            Effect::SetCpuMaxClock(1500),
            Effect::LockGpuClock(600),
            Effect::SetPowerLimits { short: 20, long: 15 }
        ]
    );
}

#[test]
fn saving_over_a_profile_replaces_it() {
    let mut s = DaemonState::new(loaded());
    s.handle(Action::SavePowerProfile(profile("balanced", 1000, 500, 12, 11)));
    let (_, e) = s.handle(Action::ApplyPowerProfile("balanced".to_string()));
    assert_eq!(e[0], Effect::SetCpuMaxClock(1000));
    let c = match s.handle(Action::GetConfig).0 {
        DaemonResponse::Config(c) => c,
        _ => panic!("no config"),
    };
    assert_eq!(c.power_profiles.entries().len(), 5);
    assert_eq!(c.power_profiles.get(&"balanced".to_string()).unwrap().p_long_w, 11);
}

#[test]
fn system_profiles_cannot_be_deleted() {
    let mut s = DaemonState::new(loaded());
    for n in ["powersave", "balanced", "gmode-lite", "gmode-max", "stock"] {
        let (r, e) = s.handle(Action::DeletePowerProfile(n.to_string()));
        assert_eq!(error_text(&r), "Cannot delete system profile");
        assert!(e.is_empty());
    }
    for n in ["Normal", "None"] {
        let (r, e) = s.handle(Action::DeleteThermalProfile(n.to_string()));
        assert_eq!(error_text(&r), "Cannot delete system profile");
        assert!(e.is_empty());
    }
    assert_eq!(s.config().power_profiles.entries().len(), 5);
    assert_eq!(s.config().thermal_profiles.entries().len(), 2);
}

#[test]
fn deleted_profile_is_not_found() {
    let mut s = DaemonState::new(loaded());
    s.handle(Action::SavePowerProfile(profile("quiet", 1500, 600, 20, 15)));
    let (r, e) = s.handle(Action::DeletePowerProfile("quiet".to_string()));
    assert!(is_ok(&r));
    assert_eq!(e, vec![Effect::SaveConfig]);
    let (r, e) = s.handle(Action::ApplyPowerProfile("quiet".to_string()));
    assert_eq!(error_text(&r), "Not found");
    assert!(e.is_empty());
}

#[test]
fn deleting_an_absent_profile_still_saves() {
    let mut s = DaemonState::new(loaded());
    let (r, e) = s.handle(Action::DeleteThermalProfile("Quiet".to_string()));
    assert!(is_ok(&r));
    assert_eq!(e, vec![Effect::SaveConfig]);
}

#[test]
fn thermal_profiles_apply_and_are_found() {
    let mut s = DaemonState::new(loaded());
    let (r, e) = s.handle(Action::ApplyThermalProfile("None".to_string()));
    assert!(is_ok(&r));
    assert_eq!(e, vec![Effect::SetTjOffset(0), Effect::SetGpuTargetTemp(90)]);
    s.handle(Action::SaveThermalProfile(ThermalProfile {
        name: "Hot".to_string(),
        description: "x".to_string(),
        cpu_tj_offset: 30,
        gpu_temp_limit: 70,
    }));
    let (_, e) = s.handle(Action::ApplyThermalProfile("Hot".to_string()));
    assert_eq!(e, vec![Effect::SetTjOffset(20), Effect::SetGpuTargetTemp(70)]);
    s.refresh();
    let t = status(&mut s);
    assert_eq!(t.active_thermal_profile, "Hot");
    assert_eq!(t.active_thermal_limit, 20);
    let (r, _) = s.handle(Action::ApplyThermalProfile("Cold".to_string()));
    assert_eq!(error_text(&r), "Not found");
}

#[test]
fn advanced_settings_are_saved() {
    let mut s = DaemonState::new(loaded());
    let (r, e) = s.handle(Action::UpdateAdvanced(AdvancedSettings { e_cores_enabled: true, fan_boost: false }));
    assert!(is_ok(&r));
    assert_eq!(e, vec![Effect::SaveConfig]);
    assert!(s.config().advanced_settings.e_cores_enabled);
}

#[test]
fn e_core_toggle_is_not_implemented() {
    let mut s = DaemonState::new(loaded());
    let (r, e) = s.handle(Action::ToggleECores(true));
    assert_eq!(error_text(&r), "Not implemented");
    assert!(e.is_empty());
}

#[test]
fn config_query_changes_nothing() {
    let mut s = DaemonState::new(loaded());
    let (r, e) = s.handle(Action::GetConfig);
    assert!(e.is_empty());
    match r {
        DaemonResponse::Config(c) => {
            assert_eq!(c.power_profiles.entries().len(), 5);
            assert_eq!(c.thermal_profiles.get(&"Normal".to_string()).unwrap().gpu_temp_limit, 80);
        }
        _ => panic!("no config"),
    }
}

#[test]
fn control_requests_keep_the_config() {
    let mut s = DaemonState::new(loaded());
    for a in [
        Action::ApplyPowerProfile("stock".to_string()),
        Action::ApplyThermalProfile("None".to_string()),
        Action::SetCpuMaxClock(1),
        Action::SetGpuLockedClock(1),
        Action::SetPowerLimits { short: 1, long: 1 },
        Action::SetThermalTarget(1),
        Action::SetGpuTempLimit(1),
        Action::ToggleECores(false),
        Action::GetTelemetry,
        Action::GetConfig,
    ] {
        let (_, e) = s.handle(a);
        assert!(!e.contains(&Effect::SaveConfig));
    }
    let c = s.config();
    assert_eq!(c.power_profiles.entries().len(), 5);
    assert_eq!(c.power_profiles.get(&"stock".to_string()).unwrap().p_short_w, 200);
    assert_eq!(c.thermal_profiles.get(&"None".to_string()).unwrap().gpu_temp_limit, 90);
}

#[test]
fn telemetry_query_changes_nothing() {
    let mut s = DaemonState::new(loaded());
    let a = status(&mut s);
    let b = status(&mut s);
    assert_eq!(a.active_cpu_limit, b.active_cpu_limit);
    assert_eq!(a.active_thermal_profile, b.active_thermal_profile);
}

#[test]
fn reported_limits_stay_within_safety_limits() {
    let mut s = DaemonState::new(loaded());
    s.handle(Action::SavePowerProfile(profile("wild", 1, 99999, 0, 1000)));
    s.handle(Action::ApplyPowerProfile("wild".to_string()));
    let t = status(&mut s);
    assert_eq!(
        (t.active_cpu_limit, t.active_gpu_limit, t.active_p_short, t.active_p_long),
        (800, 3500, 10, 150)
    );
}
