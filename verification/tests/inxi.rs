use capeit::inxi::parse_inxi_output;

const REPORT: &str = "System:
  Kernel: 6.8.0-45-generic arch: x86_64 bits: 64 compiler: gcc v: 13.2.0
  Desktop: KDE Plasma v: 5.27.11 Distro: Ubuntu 24.04.1 LTS (Noble Numbat) base: Debian
Machine:
  Type: Laptop System: Dell product: G15 5520 v: N/A serial: <filter>
CPU:
  Info: 14-core model: 12th Gen Intel Core i7-12700H bits: 64 type: MST AMCP
Graphics:
  Device-1: Intel Alder Lake-P GT2 [Iris Xe Graphics] vendor: Dell driver: i915
  Device-2: NVIDIA GA106M model: GeForce RTX 3060 Mobile vendor: Dell driver: nvidia
  Device-3: NVIDIA GA106M model: GeForce RTX 3060 Mobile vendor: Dell driver: nvidia
  Device-4: Intel iGPU model: Iris Xe vendor: Dell
Info:
  Memory: total: 16 GiB note: est. available: 15.35 GiB used: 5.2 GiB
";

#[test]
fn summary_from_report() {
    let d = parse_inxi_output(true, REPORT, "").unwrap();
    assert_eq!(d.kernel, "6.8.0-45-generic");
    assert_eq!(d.desktop, "KDE Plasma v: 5.27.11");
    assert_eq!(d.distro, "Ubuntu 24.04.1 LTS (Noble Numbat)");
    assert_eq!(d.model, "G15 5520");
    assert_eq!(d.cpu, "12th Gen Intel Core i7-12700H");
    assert_eq!(d.gpu, "GeForce RTX 3060 Mobile | Iris Xe");
    assert_eq!(d.ram, "16 GiB");
    assert_eq!(d.raw, REPORT);
}

#[test]
fn failure_without_output_is_an_error() {
    let e = parse_inxi_output(false, "", "command not found").err().unwrap();
    assert_eq!(e, "inxi failed: command not found");
}

#[test]
fn failure_with_output_is_read() {
    let d = parse_inxi_output(false, "CPU:\n  model: X bits: 64\n", "warn").unwrap();
    assert_eq!(d.cpu, "X");
    assert_eq!(d.gpu, "Unknown");
    assert_eq!(d.raw, "CPU:\n  model: X bits: 64\n");
}

#[test]
fn empty_success_keeps_unknowns_and_shows_errors() {
    let d = parse_inxi_output(true, "", "some warning").unwrap();
    assert_eq!(d.kernel, "Unknown");
    assert_eq!(d.raw, "some warning");
}

#[test]
fn lines_outside_sections_are_ignored() {
    let d = parse_inxi_output(true, "  Kernel: 1 arch: x\nSystem:\n  Kernel: 2\n", "").unwrap();
    assert_eq!(d.kernel, "2");
}
