//! What holds of the daemon across requests, proved over `step`, and of the
//! system profiles, proved over `with_defaults`.
use vstd::prelude::*;
use crate::config::{add_missing, has_system_profiles, system_power_defaults, system_thermal_defaults, with_defaults, ConfigView};
use crate::profile::{is_system_power_name, is_system_thermal_name};
use crate::hardware::{power_package_text, tjoffset_text};
use crate::number::{decimal, is_digit, lemma_decimal_digits};
use crate::text::{lemma_set_line_read_back, lines, no_newline, set_line, starts_with};
use crate::daemon::{
    initial_state, refreshed, ActiveStatusView, safe_cpu, safe_gpu, safe_power, safe_tj,
    step, Action, DaemonView, Effect, ResponseView, CPU_CLOCK_MAX_MHZ, CPU_CLOCK_MIN_MHZ,
    GPU_CLOCK_MAX_MHZ, GPU_CLOCK_MIN_MHZ, POWER_MAX_W, POWER_MIN_W, TJ_OFFSET_MAX,
};
use crate::profile::{PowerProfile, ThermalProfile};

verus! {

/// An effect's clock, power and offset values lie within the safety limits.
pub open spec fn within_safety_limits(e: Effect) -> bool {
    match e {
        Effect::SetCpuMaxClock(v) => CPU_CLOCK_MIN_MHZ <= v <= CPU_CLOCK_MAX_MHZ,
        Effect::LockGpuClock(v) => GPU_CLOCK_MIN_MHZ <= v <= GPU_CLOCK_MAX_MHZ,
        Effect::SetPowerLimits { short, long } => POWER_MIN_W <= short <= POWER_MAX_W && POWER_MIN_W
            <= long <= POWER_MAX_W,
        Effect::SetTjOffset(v) => v <= TJ_OFFSET_MAX,
        Effect::SetGpuTargetTemp(_) => true,
        Effect::SaveConfig => true,
    }
}

/// Whatever the request, every value the daemon hands to the hardware lies
/// within the safety limits: CPU clock 800 to 5000 MHz, GPU clock 200 to
/// 3500 MHz, power 10 to 150 W, TjMax offset at most 20.
pub proof fn law_effects_within_safety_limits(s: DaemonView, a: Action)
    ensures
        forall|i: int|
            0 <= i < step(s, a).2.len() ==> within_safety_limits(#[trigger] step(s, a).2[i]),
{
}

/// A power profile that was saved is found by its name and applied: its
/// limits, brought within the safety limits, reach the hardware and the
/// reported status, and it becomes the active power profile.
pub proof fn law_saved_power_profile_applies(s: DaemonView, p: PowerProfile)
    ensures
        ({
            let s1 = step(s, Action::SavePowerProfile(p)).0;
            let r = step(s1, Action::ApplyPowerProfile(p.name));
            &&& r.1 == ResponseView::Success
            &&& r.0.active_power == p.name@
            &&& r.0.status.active_cpu_limit == safe_cpu(p.cpu_max_mhz)
            &&& r.0.status.active_gpu_limit == safe_gpu(p.gpu_lock_mhz)
            &&& r.0.status.active_p_short == safe_power(p.p_short_w)
            &&& r.0.status.active_p_long == safe_power(p.p_long_w)
            &&& r.2 == seq![
                Effect::SetCpuMaxClock(safe_cpu(p.cpu_max_mhz)),
                Effect::LockGpuClock(safe_gpu(p.gpu_lock_mhz)),
                Effect::SetPowerLimits { short: safe_power(p.p_short_w), long: safe_power(p.p_long_w) },
            ]
        }),
{
}

/// A thermal profile that was saved is found by its name and applied.
pub proof fn law_saved_thermal_profile_applies(s: DaemonView, t: ThermalProfile)
    ensures
        ({
            let s1 = step(s, Action::SaveThermalProfile(t)).0;
            let r = step(s1, Action::ApplyThermalProfile(t.name));
            &&& r.1 == ResponseView::Success
            &&& r.0.active_thermal == t.name@
            &&& r.0.status.active_thermal_limit == safe_tj(t.cpu_tj_offset) as i32
            &&& r.0.status.active_gpu_temp_limit == t.gpu_temp_limit
            &&& r.2 == seq![Effect::SetTjOffset(safe_tj(t.cpu_tj_offset)), Effect::SetGpuTargetTemp(t.gpu_temp_limit)]
        }),
{
}

/// A request to delete a system power profile is refused and changes
/// nothing.
pub proof fn law_system_power_profile_not_deleted(s: DaemonView, n: String)
    requires
        is_system_power_name(n@),
    ensures
        step(s, Action::DeletePowerProfile(n)) == (s, ResponseView::Error("Cannot delete system profile"@), Seq::<Effect>::empty()),
{
    assert(seq![] =~= Seq::<Effect>::empty());
}

/// A request to delete a system thermal profile is refused and changes
/// nothing.
pub proof fn law_system_thermal_profile_not_deleted(s: DaemonView, n: String)
    requires
        is_system_thermal_name(n@),
    ensures
        step(s, Action::DeleteThermalProfile(n)) == (s, ResponseView::Error("Cannot delete system profile"@), Seq::<Effect>::empty()),
{
    assert(seq![] =~= Seq::<Effect>::empty());
}

/// After a power profile is deleted, applying it is answered "Not found"
/// and changes nothing.
pub proof fn law_deleted_power_profile_not_found(s: DaemonView, n: String, m: String)
    requires
        !is_system_power_name(n@),
        m@ == n@,
    ensures
        ({
            let s1 = step(s, Action::DeletePowerProfile(n)).0;
            step(s1, Action::ApplyPowerProfile(m)) == (s1, ResponseView::Error("Not found"@), Seq::<Effect>::empty())
        }),
{
    assert(seq![] =~= Seq::<Effect>::empty());
}

/// After a thermal profile is deleted, applying it is answered "Not found"
/// and changes nothing.
pub proof fn law_deleted_thermal_profile_not_found(s: DaemonView, n: String, m: String)
    requires
        !is_system_thermal_name(n@),
        m@ == n@,
    ensures
        ({
            let s1 = step(s, Action::DeleteThermalProfile(n)).0;
            step(s1, Action::ApplyThermalProfile(m)) == (s1, ResponseView::Error("Not found"@), Seq::<Effect>::empty())
        }),
{
    assert(seq![] =~= Seq::<Effect>::empty());
}

/// Applying a profile that the configuration lacks is answered "Not found"
/// and changes nothing.
pub proof fn law_unknown_profile_not_applied(s: DaemonView, n: String)
    ensures
        !s.config.power_profiles.dom().contains(n@) ==> step(s, Action::ApplyPowerProfile(n)) == (s, ResponseView::Error("Not found"@), Seq::<Effect>::empty()),
        !s.config.thermal_profiles.dom().contains(n@) ==> step(s, Action::ApplyThermalProfile(n)) == (s, ResponseView::Error("Not found"@), Seq::<Effect>::empty()),
{
    assert(seq![] =~= Seq::<Effect>::empty());
}

/// Asking for the telemetry or the configuration changes nothing and
/// answers with what the state holds.
pub proof fn law_queries_change_nothing(s: DaemonView)
    ensures
        step(s, Action::GetTelemetry) == (s, ResponseView::Telemetry(s.status), Seq::<Effect>::empty()),
        step(s, Action::GetConfig) == (s, ResponseView::Config(s.config), Seq::<Effect>::empty()),
{
    assert(seq![] =~= Seq::<Effect>::empty());
}

/// Every request that changes the configuration has it written back.
pub proof fn law_config_changes_are_saved(s: DaemonView, a: Action)
    ensures
        step(s, a).0.config != s.config ==> step(s, a).2.contains(Effect::SaveConfig),
{
    let r = step(s, a);
    if r.0.config != s.config {
        match a {
            Action::SavePowerProfile(_) | Action::SaveThermalProfile(_) | Action::DeletePowerProfile(_)
            | Action::DeleteThermalProfile(_) | Action::UpdateAdvanced(_) => {
                assert(r.2[0] == Effect::SaveConfig);
            },
            _ => {},
        }
    }
}

proof fn lemma_system_names()
    ensures
        forall|i: int|
            0 <= i < system_power_defaults().len() ==> is_system_power_name(
                #[trigger] system_power_defaults()[i].0,
            ),
        forall|i: int|
            0 <= i < system_thermal_defaults().len() ==> is_system_thermal_name(
                #[trigger] system_thermal_defaults()[i].0,
            ),
{
    assert forall|i: int| 0 <= i < system_power_defaults().len() implies is_system_power_name(
        #[trigger] system_power_defaults()[i].0,
    ) by {
        assert(i == 0 || i == 1 || i == 2 || i == 3 || i == 4);
    }
    assert forall|i: int| 0 <= i < system_thermal_defaults().len() implies is_system_thermal_name(
        #[trigger] system_thermal_defaults()[i].0,
    ) by {
        assert(i == 0 || i == 1);
    }
}

/// Once the configuration holds every system profile, no request takes one
/// away.
pub proof fn law_system_profiles_persist(s: DaemonView, a: Action)
    requires
        has_system_profiles(s.config),
    ensures
        has_system_profiles(step(s, a).0.config),
{
    lemma_system_names();
}

proof fn lemma_add_missing<W>(m: Map<Seq<char>, W>, d: Seq<(Seq<char>, W)>)
    ensures
        forall|k: Seq<char>| #[trigger] m.dom().contains(k) ==> add_missing(m, d).dom().contains(k) && add_missing(m, d)[k] == m[k],
        forall|i: int| 0 <= i < d.len() ==> add_missing(m, d).dom().contains(#[trigger] d[i].0),
        forall|k: Seq<char>| #[trigger] add_missing(m, d).dom().contains(k) ==> m.dom().contains(k) || exists|i: int| 0 <= i < d.len() && d[i].0 == k,
    decreases d.len(),
{
    if d.len() > 0 {
        let p = d.drop_last();
        lemma_add_missing(m, p);
        assert forall|i: int| 0 <= i < d.len() implies add_missing(m, d).dom().contains(#[trigger] d[i].0) by {
            if i < d.len() - 1 {
                assert(d[i] == p[i]);
            }
        }
        assert forall|k: Seq<char>| #[trigger] add_missing(m, d).dom().contains(k) implies m.dom().contains(k) || exists|i: int| 0 <= i < d.len() && d[i].0 == k by {
            if add_missing(m, p).dom().contains(k) {
                if !m.dom().contains(k) {
                    let i = choose|i: int| 0 <= i < p.len() && p[i].0 == k;
                    assert(d[i] == p[i]);
                }
            } else {
                assert(d[d.len() - 1].0 == k);
            }
        }
    }
}

proof fn lemma_add_missing_idempotent<W>(m: Map<Seq<char>, W>, d: Seq<(Seq<char>, W)>)
    ensures
        add_missing(add_missing(m, d), d) == add_missing(m, d),
    decreases d.len(),
{
    let m1 = add_missing(m, d);
    lemma_add_missing(m, d);
    lemma_add_missing_present(m1, d);
}

proof fn lemma_add_missing_present<W>(m: Map<Seq<char>, W>, d: Seq<(Seq<char>, W)>)
    requires
        forall|i: int| 0 <= i < d.len() ==> m.dom().contains(#[trigger] d[i].0),
    ensures
        add_missing(m, d) == m,
    decreases d.len(),
{
    if d.len() > 0 {
        let p = d.drop_last();
        assert forall|i: int| 0 <= i < p.len() implies m.dom().contains(#[trigger] p[i].0) by {
            assert(p[i] == d[i]);
        }
        lemma_add_missing_present(m, p);
        assert(m.dom().contains(d[d.len() - 1].0));
    }
}

/// Completing a configuration with the system profiles leaves it holding all
/// of them, keeps every profile it had unchanged, adds no other, and a second
/// completion changes nothing.
pub proof fn law_defaults_complete(c: ConfigView)
    ensures
        has_system_profiles(with_defaults(c)),
        forall|k: Seq<char>| #[trigger] c.power_profiles.dom().contains(k) ==> with_defaults(c).power_profiles.dom().contains(k)
            && with_defaults(c).power_profiles[k] == c.power_profiles[k],
        forall|k: Seq<char>| #[trigger] c.thermal_profiles.dom().contains(k) ==> with_defaults(c).thermal_profiles.dom().contains(k)
            && with_defaults(c).thermal_profiles[k] == c.thermal_profiles[k],
        forall|k: Seq<char>| #[trigger] with_defaults(c).power_profiles.dom().contains(k) ==> c.power_profiles.dom().contains(k) || is_system_power_name(k),
        forall|k: Seq<char>| #[trigger] with_defaults(c).thermal_profiles.dom().contains(k) ==> c.thermal_profiles.dom().contains(k) || is_system_thermal_name(k),
        with_defaults(with_defaults(c)) == with_defaults(c),
{
    lemma_system_names();
    lemma_add_missing(c.power_profiles, system_power_defaults());
    lemma_add_missing(c.thermal_profiles, system_thermal_defaults());
    lemma_add_missing_idempotent(c.power_profiles, system_power_defaults());
    lemma_add_missing_idempotent(c.thermal_profiles, system_thermal_defaults());
    assert(with_defaults(with_defaults(c)) =~= with_defaults(c));
}

/// The refresh reports the profiles last applied and changes nothing else.
pub proof fn law_refresh_reports_active_profiles(s: DaemonView)
    ensures
        refreshed(s).status.active_power_profile == s.active_power,
        refreshed(s).status.active_thermal_profile == s.active_thermal,
        refreshed(s).config == s.config,
        refreshed(refreshed(s)) == refreshed(s),
{
}


/// The reported limits lie within the safety limits.
pub open spec fn status_within_safety_limits(st: ActiveStatusView) -> bool {
    &&& CPU_CLOCK_MIN_MHZ <= st.active_cpu_limit <= CPU_CLOCK_MAX_MHZ
    &&& GPU_CLOCK_MIN_MHZ <= st.active_gpu_limit <= GPU_CLOCK_MAX_MHZ
    &&& POWER_MIN_W <= st.active_p_short <= POWER_MAX_W
    &&& POWER_MIN_W <= st.active_p_long <= POWER_MAX_W
    &&& 0 <= st.active_thermal_limit <= TJ_OFFSET_MAX
}

/// A daemon started with a configuration that holds the system profiles
/// reports limits within the safety limits.
pub proof fn law_initial_status_within_safety_limits(c: ConfigView)
    requires
        has_system_profiles(c),
    ensures
        status_within_safety_limits(initial_state(c).status),
{
    assert(c.power_profiles.dom().contains(system_power_defaults()[1].0));
    assert(c.thermal_profiles.dom().contains(system_thermal_defaults()[0].0));
}

/// Reported limits within the safety limits stay so, whatever the request,
/// and through the telemetry refresh.
pub proof fn law_status_stays_within_safety_limits(s: DaemonView, a: Action)
    requires
        status_within_safety_limits(s.status),
    ensures
        status_within_safety_limits(step(s, a).0.status),
        status_within_safety_limits(refreshed(s).status),
{
}

/// Applying profiles, setting limits and querying never change the
/// configuration.
pub proof fn law_control_requests_keep_config(s: DaemonView, a: Action)
    ensures
        match a {
            Action::SavePowerProfile(_) | Action::SaveThermalProfile(_) | Action::DeletePowerProfile(_)
            | Action::DeleteThermalProfile(_) | Action::UpdateAdvanced(_) => true,
            _ => step(s, a).0.config == s.config,
        },
{
}


/// A line made of a literal and a decimal number, as the intel-undervolt
/// lines are, holds no `'\n'`.
proof fn lemma_number_no_newline(n: nat)
    ensures
        no_newline(decimal(n)),
        decimal(n).len() > 0,
        decimal(n).last() != '\r',
{
    lemma_decimal_digits(n);
    assert(is_digit(decimal(n)[decimal(n).len() - 1]));
}

/// After the power limits are set in intel-undervolt's configuration,
/// reading it back gives the new `power package` line, and every
/// `power package` line is that one.
pub proof fn law_power_limits_written(conf: Seq<char>, short: u32, long: u32)
    ensures
        ({
            let r = lines(set_line(conf, "power package"@, power_package_text(short, long)));
            &&& exists|k: int| 0 <= k < r.len() && r[k] == power_package_text(short, long)
            &&& forall|k: int|
                0 <= k < r.len() && starts_with(#[trigger] r[k], "power package"@) ==> r[k]
                    == power_package_text(short, long)
        }),
{
    reveal_strlit("power package ");
    reveal_strlit("power package");
    reveal_strlit(":enabled ");
    reveal_strlit(":enabled");
    lemma_number_no_newline(short as nat);
    lemma_number_no_newline(long as nat);
    let a = "power package "@;
    let b = decimal(short as nat);
    let c = ":enabled "@;
    let d = decimal(long as nat);
    let e = ":enabled"@;
    let line = power_package_text(short, long);
    assert(line == a + b + c + d + e);
    assert(line.subrange(0, 13) =~= "power package"@);
    assert forall|j: int| 0 <= j < line.len() implies line[j] != '\n' by {
        if j < a.len() {
        } else if j < a.len() + b.len() {
            assert(line[j] == b[j - a.len()]);
        } else if j < a.len() + b.len() + c.len() {
        } else if j < a.len() + b.len() + c.len() + d.len() {
            assert(line[j] == d[j - a.len() - b.len() - c.len()]);
        } else {
        }
    }
    assert(line.last() == 'd');
    lemma_set_line_read_back(conf, "power package"@, line);
}

/// After the TjMax offset is set in intel-undervolt's configuration,
/// reading it back gives the new `tjoffset` line, and every `tjoffset` line
/// is that one.
pub proof fn law_tjoffset_written(conf: Seq<char>, offset: u32)
    ensures
        ({
            let r = lines(set_line(conf, "tjoffset"@, tjoffset_text(offset)));
            &&& exists|k: int| 0 <= k < r.len() && r[k] == tjoffset_text(offset)
            &&& forall|k: int|
                0 <= k < r.len() && starts_with(#[trigger] r[k], "tjoffset"@) ==> r[k] == tjoffset_text(offset)
        }),
{
    reveal_strlit("tjoffset -");
    reveal_strlit("tjoffset");
    lemma_number_no_newline(offset as nat);
    let a = "tjoffset -"@;
    let b = decimal(offset as nat);
    let line = tjoffset_text(offset);
    assert(line.subrange(0, 8) =~= "tjoffset"@);
    assert forall|j: int| 0 <= j < line.len() implies line[j] != '\n' by {
        if j >= a.len() {
            assert(line[j] == b[j - a.len()]);
        }
    }
    assert(line.last() == b.last());
    lemma_set_line_read_back(conf, "tjoffset"@, line);
}


/// The CPU clock cap set by hand is the requested one where it lies within
/// 800 to 5000 MHz, and the nearer end of that range otherwise; it is what
/// reaches `cpupower` and what is reported.
pub proof fn law_manual_cpu_clock(s: DaemonView, m: u32)
    ensures
        ({
            let r = step(s, Action::SetCpuMaxClock(m));
            let v: u32 = if m < 800 { 800 } else if m > 5000 { 5000 } else { m };
            &&& r.1 == ResponseView::Success
            &&& r.2 == seq![Effect::SetCpuMaxClock(v)]
            &&& r.0.status.active_cpu_limit == v
            &&& r.0.config == s.config
            &&& r.0.status.active_gpu_limit == s.status.active_gpu_limit
        }),
        800 <= m <= 5000 ==> step(s, Action::SetCpuMaxClock(m)).2 == seq![Effect::SetCpuMaxClock(m)],
{
}

/// The GPU clock lock set by hand is the requested one where it lies within
/// 200 to 3500 MHz, and the nearer end of that range otherwise; it is what
/// reaches `nvidia-smi` and what is reported.
pub proof fn law_manual_gpu_clock(s: DaemonView, m: u32)
    ensures
        ({
            let r = step(s, Action::SetGpuLockedClock(m));
            let v: u32 = if m < 200 { 200 } else if m > 3500 { 3500 } else { m };
            &&& r.1 == ResponseView::Success
            &&& r.2 == seq![Effect::LockGpuClock(v)]
            &&& r.0.status.active_gpu_limit == v
            &&& r.0.config == s.config
            &&& r.0.status.active_cpu_limit == s.status.active_cpu_limit
        }),
        200 <= m <= 3500 ==> step(s, Action::SetGpuLockedClock(m)).2 == seq![Effect::LockGpuClock(m)],
{
}

/// The package power limits set by hand are the requested ones where they
/// lie within 10 to 150 W, and the nearer end of that range otherwise, each
/// on its own; the short limit stays the short one.
pub proof fn law_manual_power_limits(s: DaemonView, short: u32, long: u32)
    ensures
        ({
            let r = step(s, Action::SetPowerLimits { short, long });
            let vs: u32 = if short < 10 { 10 } else if short > 150 { 150 } else { short };
            let vl: u32 = if long < 10 { 10 } else if long > 150 { 150 } else { long };
            &&& r.1 == ResponseView::Success
            &&& r.2 == seq![Effect::SetPowerLimits { short: vs, long: vl }]
            &&& r.0.status.active_p_short == vs
            &&& r.0.status.active_p_long == vl
            &&& r.0.config == s.config
        }),
{
}

/// The TjMax offset set by hand is the requested one up to 20, and 20 above
/// it; it is what reaches intel-undervolt and what is reported.
pub proof fn law_manual_thermal_target(s: DaemonView, o: u32)
    ensures
        ({
            let r = step(s, Action::SetThermalTarget(o));
            &&& r.1 == ResponseView::Success
            &&& r.0.config == s.config
            &&& o <= 20 ==> r.2 == seq![Effect::SetTjOffset(o)] && r.0.status.active_thermal_limit == o as int
            &&& o > 20 ==> r.2 == seq![Effect::SetTjOffset(20)] && r.0.status.active_thermal_limit == 20
        }),
{
}

/// The GPU target temperature set by hand is applied and reported as it was
/// requested: no safety limit applies to it.
pub proof fn law_manual_gpu_temp(s: DaemonView, l: u32)
    ensures
        ({
            let r = step(s, Action::SetGpuTempLimit(l));
            &&& r.1 == ResponseView::Success
            &&& r.2 == seq![Effect::SetGpuTargetTemp(l)]
            &&& r.0.status.active_gpu_temp_limit == l
            &&& r.0.config == s.config
        }),
{
}

/// Applying a power profile whose values lie within the safety limits hands
/// them to the hardware unchanged, each to its own setting.
pub proof fn law_apply_power_profile_values(s: DaemonView, n: String)
    requires
        s.config.power_profiles.dom().contains(n@),
    ensures
        ({
            let p = s.config.power_profiles[n@];
            let r = step(s, Action::ApplyPowerProfile(n));
            800 <= p.cpu_max_mhz <= 5000 && 200 <= p.gpu_lock_mhz <= 3500 && 10 <= p.p_short_w <= 150
                && 10 <= p.p_long_w <= 150 ==> r.2 == seq![
                Effect::SetCpuMaxClock(p.cpu_max_mhz),
                Effect::LockGpuClock(p.gpu_lock_mhz),
                Effect::SetPowerLimits { short: p.p_short_w, long: p.p_long_w },
            ] && r.0.status.active_cpu_limit == p.cpu_max_mhz && r.0.status.active_gpu_limit
                == p.gpu_lock_mhz && r.0.status.active_p_short == p.p_short_w
                && r.0.status.active_p_long == p.p_long_w
        }),
{
}

/// Applying a thermal profile whose offset is at most 20 hands its offset
/// and its GPU target to the hardware unchanged.
pub proof fn law_apply_thermal_profile_values(s: DaemonView, n: String)
    requires
        s.config.thermal_profiles.dom().contains(n@),
    ensures
        ({
            let t = s.config.thermal_profiles[n@];
            let r = step(s, Action::ApplyThermalProfile(n));
            t.cpu_tj_offset <= 20 ==> r.2 == seq![
                Effect::SetTjOffset(t.cpu_tj_offset),
                Effect::SetGpuTargetTemp(t.gpu_temp_limit),
            ] && r.0.status.active_thermal_limit == t.cpu_tj_offset as int
                && r.0.status.active_gpu_temp_limit == t.gpu_temp_limit
        }),
{
}

/// Saving a power profile stores it exactly as sent, under its name, every
/// field included, and leaves every other profile as it was.
pub proof fn law_saved_power_profile_stored(s: DaemonView, p: PowerProfile)
    ensures
        ({
            let c = step(s, Action::SavePowerProfile(p)).0.config;
            &&& c.power_profiles.dom().contains(p.name@)
            &&& c.power_profiles[p.name@].name == p.name@
            &&& c.power_profiles[p.name@].description == p.description@
            &&& c.power_profiles[p.name@].cpu_max_mhz == p.cpu_max_mhz
            &&& c.power_profiles[p.name@].gpu_lock_mhz == p.gpu_lock_mhz
            &&& c.power_profiles[p.name@].p_short_w == p.p_short_w
            &&& c.power_profiles[p.name@].p_long_w == p.p_long_w
            &&& forall|k: Seq<char>|
                k != p.name@ ==> (#[trigger] c.power_profiles.dom().contains(k) == s.config.power_profiles.dom().contains(k)
                    && (s.config.power_profiles.dom().contains(k) ==> c.power_profiles[k] == s.config.power_profiles[k]))
            &&& c.thermal_profiles == s.config.thermal_profiles
            &&& c.advanced_settings == s.config.advanced_settings
        }),
{
}

/// Saving a thermal profile stores it exactly as sent, under its name, every
/// field included, and leaves every other profile as it was.
pub proof fn law_saved_thermal_profile_stored(s: DaemonView, t: ThermalProfile)
    ensures
        ({
            let c = step(s, Action::SaveThermalProfile(t)).0.config;
            &&& c.thermal_profiles.dom().contains(t.name@)
            &&& c.thermal_profiles[t.name@].name == t.name@
            &&& c.thermal_profiles[t.name@].description == t.description@
            &&& c.thermal_profiles[t.name@].cpu_tj_offset == t.cpu_tj_offset
            &&& c.thermal_profiles[t.name@].gpu_temp_limit == t.gpu_temp_limit
            &&& forall|k: Seq<char>|
                k != t.name@ ==> (#[trigger] c.thermal_profiles.dom().contains(k) == s.config.thermal_profiles.dom().contains(k)
                    && (s.config.thermal_profiles.dom().contains(k) ==> c.thermal_profiles[k] == s.config.thermal_profiles[k]))
            &&& c.power_profiles == s.config.power_profiles
            &&& c.advanced_settings == s.config.advanced_settings
        }),
{
}

} // verus!
