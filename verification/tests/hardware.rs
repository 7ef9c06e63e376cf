use capeit::hardware::{
    ac_online, cpu_clock_mhz, cpu_model_name, cpupower_args, gpu_lock_args, gpu_target_temp_args,
    is_cpu_thermal_zone, kernel_release, meminfo_fields, parse_cpu_sample, parse_gpu_query,
    ticks_between, uptime_seconds_text, with_power_limits, with_tjoffset, CpuSample, StatError,
};

#[test]
fn command_arguments() {
    assert_eq!(cpupower_args(2200), vec!["frequency-set", "-u", "2200MHz"]);
    assert_eq!(gpu_lock_args(1905), vec!["--lock-gpu-clocks", "210,1905"]);
    assert_eq!(gpu_target_temp_args(80), vec!["-gpu-target-temp", "80"]);
    assert_eq!(cpupower_args(0), vec!["frequency-set", "-u", "0MHz"]);
    assert_eq!(gpu_target_temp_args(u32::MAX), vec!["-gpu-target-temp", "4294967295"]);
}

#[test]
fn power_limits_replace_existing_line() {
    let conf = "undervolt 0 'CPU' -50\npower package 10:enabled 20:enabled\ntjoffset -5\n";
    assert_eq!(
        with_power_limits(conf, 45, 40),
        "undervolt 0 'CPU' -50\npower package 45:enabled 40:enabled\ntjoffset -5"
    );
}

#[test]
fn power_limits_appended_when_absent() {
    assert_eq!(with_power_limits("a\r\nb\n", 35, 30), "a\nb\npower package 35:enabled 30:enabled");
    assert_eq!(with_power_limits("", 35, 30), "power package 35:enabled 30:enabled");
}

#[test]
fn every_matching_line_is_replaced() {
    assert_eq!(with_tjoffset("tjoffset -1\nx\ntjoffset -2", 10), "tjoffset -10\nx\ntjoffset -10");
    assert_eq!(with_tjoffset(" tjoffset -1", 3), " tjoffset -1\ntjoffset -3");
}

#[test]
fn cpu_model_from_cpuinfo() {
    let info = "processor\t: 0\nvendor_id\t: GenuineIntel\nmodel name\t: Intel(R) Core(TM) i7-12700H\nflags\t: fpu\nmodel name\t: other\n";
    assert_eq!(cpu_model_name(info), "Intel(R) Core(TM) i7-12700H");
    assert_eq!(cpu_model_name("processor : 0\n"), "Unknown");
    assert_eq!(cpu_model_name("model name without colon\n"), "Unknown");
    assert_eq!(cpu_model_name("model name: a: b\n"), "a");
    assert_eq!(cpu_model_name(""), "Unknown");
}

#[test]
fn kernel_from_version() {
    assert_eq!(kernel_release("Linux version 6.8.0-45-generic (buildd@lcy02) #45"), "6.8.0-45-generic");
    assert_eq!(kernel_release("Linux version"), "Unknown");
    assert_eq!(kernel_release("  a\t b \n c "), "c");
}

#[test]
fn uptime_first_word() {
    assert_eq!(uptime_seconds_text("12345.67 54321.00\n"), "12345.67");
    assert_eq!(uptime_seconds_text("   "), "0");
}

#[test]
fn cpu_sample_from_stat() {
    let stat = "cpu  10 20 30 40 50 60 70 0 0 0\ncpu0 1 2 3 4\n";
    assert_eq!(parse_cpu_sample(stat), Ok(CpuSample { total: 280, idle: 40 }));
    assert_eq!(parse_cpu_sample("cpu 1 x 3 4"), Ok(CpuSample { total: 8, idle: 4 }));
    assert_eq!(parse_cpu_sample("cpu +5 0 0 7"), Ok(CpuSample { total: 12, idle: 7 }));
}

#[test]
fn cpu_sample_errors() {
    assert_eq!(parse_cpu_sample(""), Err(StatError::NoStat));
    assert_eq!(parse_cpu_sample("cpu 1 2 3"), Err(StatError::InvalidStat));
    assert_eq!(parse_cpu_sample("\ncpu 1 2 3 4"), Err(StatError::InvalidStat));
    assert_eq!(
        parse_cpu_sample("cpu 18446744073709551615 1 0 0"),
        Err(StatError::Overflow)
    );
    assert_eq!(
        parse_cpu_sample("cpu 18446744073709551616 1 0 0"),
        Ok(CpuSample { total: 1, idle: 0 })
    );
}

#[test]
fn ticks_between_samples() {
    let a = CpuSample { total: 100, idle: 40 };
    let b = CpuSample { total: 250, idle: 90 };
    assert_eq!(ticks_between(a, b), (150, 50));
}

#[test]
fn meminfo_readings() {
    let m = "MemTotal:       16000000 kB\nMemFree:  100 kB\nMemAvailable:    8000000 kB\n";
    assert_eq!(meminfo_fields(m), ("16000000".to_string(), "8000000".to_string()));
    assert_eq!(meminfo_fields("MemTotal:\n"), ("0".to_string(), "0".to_string()));
    assert_eq!(
        meminfo_fields("MemTotal: 1\nMemTotal: 2\n"),
        ("2".to_string(), "0".to_string())
    );
}

#[test]
fn ac_and_thermal_zone_texts() {
    assert!(ac_online("1\n"));
    assert!(!ac_online("0\n"));
    assert!(!ac_online("11"));
    assert!(is_cpu_thermal_zone("x86_pkg_temp\n"));
    assert!(is_cpu_thermal_zone(" acpitz "));
    assert!(is_cpu_thermal_zone("TCPU"));
    assert!(!is_cpu_thermal_zone("iwlwifi_1"));
}

#[test]
fn cpu_clock_from_khz() {
    assert_eq!(cpu_clock_mhz("2400000\n"), 2400);
    assert_eq!(cpu_clock_mhz("999"), 0);
    assert_eq!(cpu_clock_mhz("abc"), 0);
    assert_eq!(cpu_clock_mhz("4294967296"), 0);
    assert_eq!(cpu_clock_mhz("4294967295"), 4294967);
}

#[test]
fn gpu_query_first_full_line() {
    let out = "short,line\nNVIDIA GeForce RTX 3060 Laptop GPU, 45, 1230, 7, 512, 6144\nother, 1, 2, 3, 4, 5\n";
    let g = parse_gpu_query(out).unwrap();
    assert_eq!(g.name, "NVIDIA GeForce RTX 3060 Laptop GPU");
    assert_eq!(g.temperature, "45");
    assert_eq!(g.clock_mhz, 1230);
    assert_eq!(g.utilization, "7");
    assert_eq!(g.vram_used_mb, 512);
    assert_eq!(g.vram_total_mb, 6144);
    let g = parse_gpu_query("x, [N/A], [N/A], 3, bad, 10, extra").unwrap();
    assert_eq!(g.clock_mhz, 0);
    assert_eq!(g.vram_used_mb, 0);
    assert_eq!(g.vram_total_mb, 10);
    assert!(parse_gpu_query("").is_none());
    assert!(parse_gpu_query("a,b,c,d,e").is_none());
}

#[test]
fn written_limits_read_back() {
    let conf = "a\r\npower package 1:enabled 2:enabled\r\nx\rpower package 9:enabled 9:enabled\r";
    let out = with_power_limits(conf, 30, 25);
    let lines: Vec<&str> = out.lines().collect();
    assert!(lines.contains(&"power package 30:enabled 25:enabled"));
    assert!(lines
        .iter()
        .filter(|l| l.starts_with("power package"))
        .all(|l| *l == "power package 30:enabled 25:enabled"));
    let out = with_tjoffset(&with_tjoffset("", 7), 12);
    assert_eq!(out, "tjoffset -12");
}
