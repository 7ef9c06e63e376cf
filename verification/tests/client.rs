use capeit::client::{format_uptime, manual_action, power_profile_rows, thermal_profile_rows, toast_for, AppState};
use capeit::config::{ensure_defaults, Config};
use capeit::daemon::{Action, DaemonResponse};
use capeit::profile::{is_system_profile, is_system_thermal_profile, PowerProfile};

#[test]
fn uptime_below_a_day_has_no_days() {
    assert_eq!(format_uptime(0), "0h 0m");
    assert_eq!(format_uptime(3599), "0h 59m");
    assert_eq!(format_uptime(86399), "23h 59m");
}

#[test]
fn uptime_with_days() {
    assert_eq!(format_uptime(86400), "1d 0h 0m");
    assert_eq!(format_uptime(90061), "1d 1h 1m");
    assert_eq!(format_uptime(10 * 86400 + 5 * 3600 + 7 * 60 + 59), "10d 5h 7m");
}

#[test]
fn uptime_of_largest_value() {
    assert_eq!(format_uptime(u64::MAX), "213503982334601d 7h 0m");
}

#[test]
fn system_power_profiles_are_recognised() {
    for n in ["powersave", "balanced", "gmode-lite", "gmode-max", "stock"] {
        assert!(is_system_profile(n));
    }
    for n in ["", "Balanced", "balanced ", "custom", "gmode"] {
        assert!(!is_system_profile(n));
    }
}

#[test]
fn system_thermal_profiles_are_recognised() {
    assert!(is_system_thermal_profile("Normal"));
    assert!(is_system_thermal_profile("None"));
    assert!(!is_system_thermal_profile("normal"));
    assert!(!is_system_thermal_profile("Quiet"));
}

#[test]
fn first_telemetry_is_noted_once() {
    let mut s = AppState::new();
    assert!(s.first_telemetry);
    assert!(s.take_first_telemetry());
    assert!(!s.take_first_telemetry());
    assert!(!s.take_first_telemetry());
}

#[test]
fn manual_controls_send_their_requests() {
    assert!(matches!(manual_action("cpu", 3000), Some(Action::SetCpuMaxClock(3000))));
    assert!(matches!(manual_action("thermal", 12), Some(Action::SetThermalTarget(12))));
    assert!(matches!(manual_action("gputemp", 75), Some(Action::SetGpuTempLimit(75))));
    assert!(manual_action("gpu", 1).is_none());
    assert!(manual_action("", 1).is_none());
}

#[test]
fn notices_for_answers() {
    let (m, e) = toast_for(&DaemonResponse::Success).unwrap();
    assert_eq!(m, "Action Applied Successfully!");
    assert!(!e);
    let (m, e) = toast_for(&DaemonResponse::Error("Not found".to_string())).unwrap();
    assert_eq!(m, "Error: Not found");
    assert!(e);
    assert!(toast_for(&DaemonResponse::Config(Config::new())).is_none());
}

#[test]
fn power_rows_are_sorted_by_name_and_marked() {
    let mut c = Config::new();
    ensure_defaults(&mut c);
    c.power_profiles.insert(
        "quiet".to_string(),
        PowerProfile {
            name: "quiet".to_string(),
            description: "d".to_string(),
            cpu_max_mhz: 4_000_000_000,
            gpu_lock_mhz: 300,
            p_short_w: 20,
            p_long_w: 15,
        },
    );
    let rows = power_profile_rows(&c);
    let names: Vec<&str> = rows.iter().map(|r| r.name.as_str()).collect();
    assert_eq!(names, vec!["balanced", "gmode-lite", "gmode-max", "powersave", "quiet", "stock"]);
    let quiet = rows.iter().find(|r| r.name == "quiet").unwrap();
    assert!(!quiet.is_system);
    assert_eq!(quiet.cpu_mhz, 4_000_000_000u32 as i32);
    assert_eq!(quiet.gpu_mhz, 300);
    assert!(rows.iter().filter(|r| r.name != "quiet").all(|r| r.is_system));
}

#[test]
fn rows_order_uppercase_before_lowercase() {
    let mut c = Config::new();
    ensure_defaults(&mut c);
    let rows = thermal_profile_rows(&c);
    let names: Vec<&str> = rows.iter().map(|r| r.name.as_str()).collect();
    assert_eq!(names, vec!["None", "Normal"]);
    assert!(rows.iter().all(|r| r.is_system));
    assert_eq!(rows[1].tj_offset, 10);
    assert_eq!(rows[1].gpu_limit, 80);
}
