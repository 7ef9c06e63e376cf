//! The client's decisions: how it shows the daemon's answers and which
//! requests its controls send.
use vstd::prelude::*;
use crate::config::Config;
use crate::daemon::{Action, DaemonResponse};
use crate::text::push_str;
use crate::number::{decimal, push_decimal};
use crate::order::{sort_by_key, sorted_by_key, view_seq, Keyed};
use crate::profile::{
    is_system_power_name, is_system_profile, is_system_thermal_name, is_system_thermal_profile,
    PowerProfile, PowerProfileView, ThermalProfile, ThermalProfileView,
};

verus! {

/// How the client shows an uptime: `"<d>d <h>h <m>m"`, or `"<h>h <m>m"`
/// below one day, with the hours within the day and the minutes within the
/// hour.
pub open spec fn uptime_display(secs: u64) -> Seq<char> {
    let days = secs / 86400;
    let hours = (secs % 86400) / 3600;
    let mins = (secs % 3600) / 60;
    if days > 0 {
        decimal(days as nat) + "d "@ + decimal(hours as nat) + "h "@ + decimal(mins as nat) + "m"@
    } else {
        decimal(hours as nat) + "h "@ + decimal(mins as nat) + "m"@
    }
}

/// Shows an uptime given in seconds.
pub fn format_uptime(secs: u64) -> (s: String)
    ensures
        s@ == uptime_display(secs),
{
    let days = secs / 86400;
    let hours = (secs % 86400) / 3600;
    let mins = (secs % 3600) / 60;
    let mut s = String::new();
    if days > 0 {
        push_decimal(&mut s, days);
        push_str(&mut s, "d ");
    }
    push_decimal(&mut s, hours);
    push_str(&mut s, "h ");
    push_decimal(&mut s, mins);
    push_str(&mut s, "m");
    assert(s@ =~= uptime_display(secs));
    s
}

/// The client's own state: whether the next telemetry is the first one,
/// which also sets the manual controls.
pub struct AppState {
    pub first_telemetry: bool,
}

impl AppState {
    /// No telemetry has come yet.
    pub fn new() -> (s: AppState)
        ensures
            s.first_telemetry,
    {
        AppState { first_telemetry: true }
    }

    /// Notes that a telemetry came; tells whether it was the first.
    pub fn take_first_telemetry(&mut self) -> (first: bool)
        ensures
            first == old(self).first_telemetry,
            !final(self).first_telemetry,
    {
        let first = self.first_telemetry;
        self.first_telemetry = false;
        first
    }
}

/// The request that a manual control sends: "cpu" caps the CPU clock,
/// "thermal" sets the TjMax offset, "gputemp" the GPU's target temperature;
/// any other control sends nothing.
pub open spec fn manual_request(kind: Seq<char>, value: u32) -> Option<Action> {
    if kind == "cpu"@ {
        Some(Action::SetCpuMaxClock(value))
    } else if kind == "thermal"@ {
        Some(Action::SetThermalTarget(value))
    } else if kind == "gputemp"@ {
        Some(Action::SetGpuTempLimit(value))
    } else {
        None
    }
}

/// The request that the manual control `kind` sends for `value`.
pub fn manual_action(kind: &str, value: u32) -> (r: Option<Action>)
    ensures
        r == manual_request(kind@, value),
{
    let k = kind.to_owned();
    if k == "cpu".to_owned() {
        Some(Action::SetCpuMaxClock(value))
    } else if k == "thermal".to_owned() {
        Some(Action::SetThermalTarget(value))
    } else if k == "gputemp".to_owned() {
        Some(Action::SetGpuTempLimit(value))
    } else {
        None
    }
}

/// The notice the client shows for an answer, and whether it is an error:
/// for a success and for an error; other answers update the views instead.
pub open spec fn notice_for(r: crate::daemon::ResponseView) -> Option<(Seq<char>, bool)> {
    match r {
        crate::daemon::ResponseView::Success => Some(("Action Applied Successfully!"@, false)),
        crate::daemon::ResponseView::Error(e) => Some(("Error: "@ + e, true)),
        _ => None,
    }
}

/// The notice for an answer, if it calls for one.
pub fn toast_for(resp: &DaemonResponse) -> (r: Option<(String, bool)>)
    ensures
        match r {
            Some((m, e)) => notice_for(resp@) == Some((m@, e)),
            None => notice_for(resp@) is None,
        },
{
    match resp {
        DaemonResponse::Success => Some(("Action Applied Successfully!".to_owned(), false)),
        DaemonResponse::Error(e) => {
            let mut m = "Error: ".to_owned();
            push_str(&mut m, e.as_str());
            Some((m, true))
        },
        _ => None,
    }
}

/// A power profile as the client lists it.
#[derive(Debug, Clone)]
pub struct PowerProfileRow {
    pub name: String,
    pub description: String,
    pub cpu_mhz: i32,
    pub gpu_mhz: i32,
    pub p_short: i32,
    pub p_long: i32,
    pub is_system: bool,
}

/// A `PowerProfileRow` by the characters of its texts.
pub struct PowerProfileRowView {
    pub name: Seq<char>,
    pub description: Seq<char>,
    pub cpu_mhz: i32,
    pub gpu_mhz: i32,
    pub p_short: i32,
    pub p_long: i32,
    pub is_system: bool,
}

impl View for PowerProfileRow {
    type V = PowerProfileRowView;

    open spec fn view(&self) -> PowerProfileRowView {
        PowerProfileRowView {
            name: self.name@,
            description: self.description@,
            cpu_mhz: self.cpu_mhz,
            gpu_mhz: self.gpu_mhz,
            p_short: self.p_short,
            p_long: self.p_long,
            is_system: self.is_system,
        }
    }
}

impl Keyed for PowerProfileRow {
    open spec fn key_of(v: PowerProfileRowView) -> Seq<char> {
        v.name
    }

    fn key(&self) -> (k: &String) {
        &self.name
    }
}

/// The row that lists a power profile.
pub open spec fn power_row(p: PowerProfileView) -> PowerProfileRowView {
    PowerProfileRowView {
        name: p.name,
        description: p.description,
        cpu_mhz: p.cpu_max_mhz as i32,
        gpu_mhz: p.gpu_lock_mhz as i32,
        p_short: p.p_short_w as i32,
        p_long: p.p_long_w as i32,
        is_system: is_system_power_name(p.name),
    }
}

/// A thermal profile as the client lists it.
#[derive(Debug, Clone)]
pub struct ThermalProfileRow {
    pub name: String,
    pub description: String,
    pub tj_offset: i32,
    pub gpu_limit: i32,
    pub is_system: bool,
}

/// A `ThermalProfileRow` by the characters of its texts.
pub struct ThermalProfileRowView {
    pub name: Seq<char>,
    pub description: Seq<char>,
    pub tj_offset: i32,
    pub gpu_limit: i32,
    pub is_system: bool,
}

impl View for ThermalProfileRow {
    type V = ThermalProfileRowView;

    open spec fn view(&self) -> ThermalProfileRowView {
        ThermalProfileRowView {
            name: self.name@,
            description: self.description@,
            tj_offset: self.tj_offset,
            gpu_limit: self.gpu_limit,
            is_system: self.is_system,
        }
    }
}

impl Keyed for ThermalProfileRow {
    open spec fn key_of(v: ThermalProfileRowView) -> Seq<char> {
        v.name
    }

    fn key(&self) -> (k: &String) {
        &self.name
    }
}

/// The row that lists a thermal profile.
pub open spec fn thermal_row(t: ThermalProfileView) -> ThermalProfileRowView {
    ThermalProfileRowView {
        name: t.name,
        description: t.description,
        tj_offset: t.cpu_tj_offset as i32,
        gpu_limit: t.gpu_temp_limit as i32,
        is_system: is_system_thermal_name(t.name),
    }
}

/// The row shows the profile: its name, description, clocks and its short
/// and long power limits, each in its own column, and whether it is a system
/// profile.
pub open spec fn shows_power_profile(r: PowerProfileRowView, p: PowerProfileView) -> bool {
    &&& r.name == p.name
    &&& r.description == p.description
    &&& r.cpu_mhz == p.cpu_max_mhz as i32
    &&& r.gpu_mhz == p.gpu_lock_mhz as i32
    &&& r.p_short == p.p_short_w as i32
    &&& r.p_long == p.p_long_w as i32
    &&& r.is_system == is_system_power_name(p.name)
}

/// The row shows the thermal profile: its name, description, TjMax offset
/// and GPU target, and whether it is a system profile.
pub open spec fn shows_thermal_profile(r: ThermalProfileRowView, t: ThermalProfileView) -> bool {
    &&& r.name == t.name
    &&& r.description == t.description
    &&& r.tj_offset == t.cpu_tj_offset as i32
    &&& r.gpu_limit == t.gpu_temp_limit as i32
    &&& r.is_system == is_system_thermal_name(t.name)
}

/// Every listed row shows one power profile of the configuration, and every
/// profile is shown by a row: the row at `i` shows some profile, and the
/// profile at `k` is shown by some row.
pub proof fn law_power_rows_show_their_profiles(
    rows: Seq<PowerProfileRowView>,
    pairs: Seq<(Seq<char>, PowerProfileView)>,
    i: int,
    k: int,
)
    requires
        rows.to_multiset() == pairs.map_values(|e: (Seq<char>, PowerProfileView)| power_row(e.1)).to_multiset(),
    ensures
        rows.len() == pairs.len(),
        0 <= i < rows.len() ==> exists|j: int| 0 <= j < pairs.len() && #[trigger] shows_power_profile(rows[i], pairs[j].1),
        0 <= k < pairs.len() ==> exists|j: int| 0 <= j < rows.len() && #[trigger] shows_power_profile(rows[j], pairs[k].1),
{
    let mapped = pairs.map_values(|e: (Seq<char>, PowerProfileView)| power_row(e.1));
    rows.to_multiset_ensures();
    mapped.to_multiset_ensures();
    if 0 <= i < rows.len() {
        assert(rows.contains(rows[i]));
        assert(rows.to_multiset().count(rows[i]) > 0);
        assert(mapped.contains(rows[i]));
        let j = choose|j: int| 0 <= j < mapped.len() && mapped[j] == rows[i];
        assert(mapped[j] == power_row(pairs[j].1));
        assert(shows_power_profile(rows[i], pairs[j].1));
    }
    if 0 <= k < pairs.len() {
        assert(mapped[k] == power_row(pairs[k].1));
        assert(mapped.contains(mapped[k]));
        assert(mapped.to_multiset().count(mapped[k]) > 0);
        assert(rows.contains(mapped[k]));
        let j = choose|j: int| 0 <= j < rows.len() && rows[j] == mapped[k];
        assert(shows_power_profile(rows[j], pairs[k].1));
    }
}

/// Every listed row shows one thermal profile of the configuration, and every
/// profile is shown by a row: the row at `i` shows some profile, and the
/// profile at `k` is shown by some row.
pub proof fn law_thermal_rows_show_their_profiles(
    rows: Seq<ThermalProfileRowView>,
    pairs: Seq<(Seq<char>, ThermalProfileView)>,
    i: int,
    k: int,
)
    requires
        rows.to_multiset() == pairs.map_values(|e: (Seq<char>, ThermalProfileView)| thermal_row(e.1)).to_multiset(),
    ensures
        rows.len() == pairs.len(),
        0 <= i < rows.len() ==> exists|j: int| 0 <= j < pairs.len() && #[trigger] shows_thermal_profile(rows[i], pairs[j].1),
        0 <= k < pairs.len() ==> exists|j: int| 0 <= j < rows.len() && #[trigger] shows_thermal_profile(rows[j], pairs[k].1),
{
    let mapped = pairs.map_values(|e: (Seq<char>, ThermalProfileView)| thermal_row(e.1));
    rows.to_multiset_ensures();
    mapped.to_multiset_ensures();
    if 0 <= i < rows.len() {
        assert(rows.contains(rows[i]));
        assert(rows.to_multiset().count(rows[i]) > 0);
        assert(mapped.contains(rows[i]));
        let j = choose|j: int| 0 <= j < mapped.len() && mapped[j] == rows[i];
        assert(mapped[j] == thermal_row(pairs[j].1));
        assert(shows_thermal_profile(rows[i], pairs[j].1));
    }
    if 0 <= k < pairs.len() {
        assert(mapped[k] == thermal_row(pairs[k].1));
        assert(mapped.contains(mapped[k]));
        assert(mapped.to_multiset().count(mapped[k]) > 0);
        assert(rows.contains(mapped[k]));
        let j = choose|j: int| 0 <= j < rows.len() && rows[j] == mapped[k];
        assert(shows_thermal_profile(rows[j], pairs[k].1));
    }
}

/// The rows of the power profiles of a configuration, one for each, in
/// order of name.
pub fn power_profile_rows(config: &Config) -> (rows: Vec<PowerProfileRow>)
    ensures
        sorted_by_key::<PowerProfileRow>(view_seq(rows@)),
        view_seq(rows@).to_multiset() == config.power_profiles.pairs().map_values(
            |e: (Seq<char>, PowerProfileView)| power_row(e.1),
        ).to_multiset(),
{
    let entries = config.power_profiles.entries();
    let ghost want = config.power_profiles.pairs().map_values(
        |e: (Seq<char>, PowerProfileView)| power_row(e.1),
    );
    let mut rows: Vec<PowerProfileRow> = Vec::new();
    let mut i: usize = 0;
    while i < entries.len()
        invariant
            i <= entries@.len(),
            entries@.map_values(|e: (String, PowerProfile)| (e.0@, e.1@)) == config.power_profiles.pairs(),
            want == config.power_profiles.pairs().map_values(
                |e: (Seq<char>, PowerProfileView)| power_row(e.1),
            ),
            view_seq(rows@) == want.subrange(0, i as int),
        decreases entries@.len() - i,
    {
        let p = &entries[i].1;
        assert(config.power_profiles.pairs()[i as int].1 == p@);
        let row = PowerProfileRow {
            name: p.name.clone(),
            description: p.description.clone(),
            cpu_mhz: p.cpu_max_mhz as i32,
            gpu_mhz: p.gpu_lock_mhz as i32,
            p_short: p.p_short_w as i32,
            p_long: p.p_long_w as i32,
            is_system: is_system_profile(p.name.as_str()),
        };
        let ghost before = view_seq(rows@);
        rows.push(row);
        assert(view_seq(rows@) =~= before.push(want[i as int]));
        assert(want.subrange(0, i + 1) =~= want.subrange(0, i as int).push(want[i as int]));
        i = i + 1;
    }
    assert(want.subrange(0, entries@.len() as int) =~= want);
    sort_by_key(rows)
}

/// The rows of the thermal profiles of a configuration, one for each, in
/// order of name.
pub fn thermal_profile_rows(config: &Config) -> (rows: Vec<ThermalProfileRow>)
    ensures
        sorted_by_key::<ThermalProfileRow>(view_seq(rows@)),
        view_seq(rows@).to_multiset() == config.thermal_profiles.pairs().map_values(
            |e: (Seq<char>, ThermalProfileView)| thermal_row(e.1),
        ).to_multiset(),
{
    let entries = config.thermal_profiles.entries();
    let ghost want = config.thermal_profiles.pairs().map_values(
        |e: (Seq<char>, ThermalProfileView)| thermal_row(e.1),
    );
    let mut rows: Vec<ThermalProfileRow> = Vec::new();
    let mut i: usize = 0;
    while i < entries.len()
        invariant
            i <= entries@.len(),
            entries@.map_values(|e: (String, ThermalProfile)| (e.0@, e.1@)) == config.thermal_profiles.pairs(),
            want == config.thermal_profiles.pairs().map_values(
                |e: (Seq<char>, ThermalProfileView)| thermal_row(e.1),
            ),
            view_seq(rows@) == want.subrange(0, i as int),
        decreases entries@.len() - i,
    {
        let t = &entries[i].1;
        assert(config.thermal_profiles.pairs()[i as int].1 == t@);
        let row = ThermalProfileRow {
            name: t.name.clone(),
            description: t.description.clone(),
            tj_offset: t.cpu_tj_offset as i32,
            gpu_limit: t.gpu_temp_limit as i32,
            is_system: is_system_thermal_profile(t.name.as_str()),
        };
        let ghost before = view_seq(rows@);
        rows.push(row);
        assert(view_seq(rows@) =~= before.push(want[i as int]));
        assert(want.subrange(0, i + 1) =~= want.subrange(0, i as int).push(want[i as int]));
        i = i + 1;
    }
    assert(want.subrange(0, entries@.len() as int) =~= want);
    sort_by_key(rows)
}


/// The uptime text counts whole days, then the hours and minutes left over:
/// below one day it is the whole hours and the minutes past the hour, and
/// from one day on the whole days, the hours past the day and the minutes
/// past the hour.
pub proof fn law_uptime_display(secs: u64)
    ensures
        secs < 86400 ==> uptime_display(secs) == decimal((secs / 3600) as nat) + "h "@ + decimal(
            ((secs / 60) % 60) as nat,
        ) + "m"@,
        secs >= 86400 ==> uptime_display(secs) == decimal((secs / 86400) as nat) + "d "@ + decimal(
            ((secs / 3600) % 24) as nat,
        ) + "h "@ + decimal(((secs / 60) % 60) as nat) + "m"@,
{
    let x = secs as int;
    assert((x % 86400) / 3600 == (x / 3600) % 24) by (nonlinear_arith)
        requires
            x >= 0,
    {
        let q = x / 86400;
        let r = x % 86400;
        assert(x == q * 86400 + r && 0 <= r < 86400);
        assert(x / 3600 == q * 24 + r / 3600);
    }
    assert((x % 3600) / 60 == (x / 60) % 60) by (nonlinear_arith)
        requires
            x >= 0,
    {
        let q = x / 3600;
        let r = x % 3600;
        assert(x == q * 3600 + r && 0 <= r < 3600);
        assert(x / 60 == q * 60 + r / 60);
    }
}

/// Each manual control sends the request of its own setting, carrying the
/// value as given.
pub proof fn law_manual_controls(kind: Seq<char>, value: u32)
    ensures
        manual_request("cpu"@, value) == Some(Action::SetCpuMaxClock(value)),
        manual_request("thermal"@, value) == Some(Action::SetThermalTarget(value)),
        manual_request("gputemp"@, value) == Some(Action::SetGpuTempLimit(value)),
        kind != "cpu"@ && kind != "thermal"@ && kind != "gputemp"@ ==> manual_request(kind, value) is None,
{
    reveal_strlit("cpu");
    reveal_strlit("thermal");
    reveal_strlit("gputemp");
    assert("thermal"@.len() != "cpu"@.len());
    assert("gputemp"@.len() != "cpu"@.len());
    assert("gputemp"@[0] != "thermal"@[0]);
}

/// A success is noticed as such, not as an error; an error is noticed as an
/// error, with its message after "Error: ".
pub proof fn law_notices(e: Seq<char>)
    ensures
        notice_for(crate::daemon::ResponseView::Success) == Some(("Action Applied Successfully!"@, false)),
        notice_for(crate::daemon::ResponseView::Error(e)) == Some(("Error: "@ + e, true)),
        notice_for(crate::daemon::ResponseView::Error(e)).unwrap().0.subrange(7, 7int + e.len()) == e,
{
    reveal_strlit("Error: ");
    assert(("Error: "@ + e).subrange(7, 7int + e.len()) =~= e);
}

} // verus!
