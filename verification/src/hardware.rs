//! The text the daemon exchanges with the hardware tools and with /proc and
//! /sys: command arguments, the lines it writes into intel-undervolt's
//! configuration, and the readings it takes from the kernel's files.
use vstd::prelude::*;
use crate::number::{decimal, decimal_string, parse_decimal, parse_unsigned, push_decimal};
use crate::text::{
    chars_of, copy_chars, has_prefix, lines, lines_of, push_str, second_piece, second_piece_of,
    set_config_line, set_line, split_all, split_by, starts_with, string_of, trim, trim_chars, views,
    words, words_of,
};

verus! {

/// intel-undervolt's line for the package power limits:
/// `power package <short>:enabled <long>:enabled`.
pub open spec fn power_package_text(short: u32, long: u32) -> Seq<char> {
    "power package "@ + decimal(short as nat) + ":enabled "@ + decimal(long as nat) + ":enabled"@
}

/// intel-undervolt's line for the TjMax offset: `tjoffset -<offset>`.
pub open spec fn tjoffset_text(offset: u32) -> Seq<char> {
    "tjoffset -"@ + decimal(offset as nat)
}

/// The `power package` line for these limits.
pub fn power_package_line(short: u32, long: u32) -> (s: String)
    ensures
        s@ == power_package_text(short, long),
{
    let mut s = String::new();
    push_str(&mut s, "power package ");
    push_decimal(&mut s, short as u64);
    push_str(&mut s, ":enabled ");
    push_decimal(&mut s, long as u64);
    push_str(&mut s, ":enabled");
    assert(s@ =~= power_package_text(short, long));
    s
}

/// The `tjoffset` line for this offset.
pub fn tjoffset_line(offset: u32) -> (s: String)
    ensures
        s@ == tjoffset_text(offset),
{
    let mut s = String::new();
    push_str(&mut s, "tjoffset -");
    push_decimal(&mut s, offset as u64);
    assert(s@ =~= tjoffset_text(offset));
    s
}

/// intel-undervolt's configuration with the package power limits set.
pub fn with_power_limits(conf: &str, short: u32, long: u32) -> (r: String)
    ensures
        r@ == set_line(conf@, "power package"@, power_package_text(short, long)),
{
    let line = power_package_line(short, long);
    set_config_line(conf, "power package", &line)
}

/// intel-undervolt's configuration with the TjMax offset set.
pub fn with_tjoffset(conf: &str, offset: u32) -> (r: String)
    ensures
        r@ == set_line(conf@, "tjoffset"@, tjoffset_text(offset)),
{
    let line = tjoffset_line(offset);
    set_config_line(conf, "tjoffset", &line)
}


/// The characters of each string.
pub open spec fn texts(v: Seq<String>) -> Seq<Seq<char>> {
    v.map_values(|s: String| s@)
}

/// `cpupower`'s arguments that cap the CPU clock: `frequency-set -u <mhz>MHz`.
pub open spec fn cpupower_arg_texts(mhz: u32) -> Seq<Seq<char>> {
    seq!["frequency-set"@, "-u"@, decimal(mhz as nat) + "MHz"@]
}

/// `nvidia-smi`'s arguments that lock the GPU clock between 210 MHz and
/// `mhz`: `--lock-gpu-clocks 210,<mhz>`.
pub open spec fn gpu_lock_arg_texts(mhz: u32) -> Seq<Seq<char>> {
    seq!["--lock-gpu-clocks"@, "210,"@ + decimal(mhz as nat)]
}

/// `nvidia-smi`'s arguments that set the GPU's target temperature:
/// `-gpu-target-temp <limit>`.
pub open spec fn gpu_target_temp_arg_texts(limit: u32) -> Seq<Seq<char>> {
    seq!["-gpu-target-temp"@, decimal(limit as nat)]
}

/// The arguments for `cpupower` that cap the CPU clock at `mhz`.
pub fn cpupower_args(mhz: u32) -> (v: Vec<String>)
    ensures
        texts(v@) == cpupower_arg_texts(mhz),
{
    let mut v: Vec<String> = Vec::new();
    v.push("frequency-set".to_owned());
    v.push("-u".to_owned());
    let mut s = decimal_string(mhz as u64);
    push_str(&mut s, "MHz");
    v.push(s);
    assert(texts(v@) =~= cpupower_arg_texts(mhz));
    v
}

/// The arguments for `nvidia-smi` that lock the GPU clock up to `mhz`.
pub fn gpu_lock_args(mhz: u32) -> (v: Vec<String>)
    ensures
        texts(v@) == gpu_lock_arg_texts(mhz),
{
    let mut v: Vec<String> = Vec::new();
    v.push("--lock-gpu-clocks".to_owned());
    let mut s = "210,".to_owned();
    push_decimal(&mut s, mhz as u64);
    v.push(s);
    assert(texts(v@) =~= gpu_lock_arg_texts(mhz));
    v
}

/// The arguments for `nvidia-smi` that set the GPU's target temperature.
pub fn gpu_target_temp_args(limit: u32) -> (v: Vec<String>)
    ensures
        texts(v@) == gpu_target_temp_arg_texts(limit),
{
    let mut v: Vec<String> = Vec::new();
    v.push("-gpu-target-temp".to_owned());
    v.push(decimal_string(limit as u64));
    assert(texts(v@) =~= gpu_target_temp_arg_texts(limit));
    v
}

/// The first of the lines that begins with `pfx`.
pub open spec fn first_prefixed(ls: Seq<Seq<char>>, pfx: Seq<char>) -> Option<Seq<char>>
    decreases ls.len(),
{
    if ls.len() == 0 {
        None
    } else if starts_with(ls[0], pfx) {
        Some(ls[0])
    } else {
        first_prefixed(ls.drop_first(), pfx)
    }
}

/// The first of the lines that begins with `pfx`.
fn find_prefixed(ls: &Vec<Vec<char>>, pfx: &Vec<char>) -> (r: Option<usize>)
    ensures
        match r {
            Some(i) => i < ls@.len() && first_prefixed(views(ls@), pfx@) == Some(ls@[i as int]@),
            None => first_prefixed(views(ls@), pfx@) is None,
        },
{
    let mut i: usize = 0;
    assert(views(ls@).subrange(0, ls@.len() as int) =~= views(ls@));
    while i < ls.len()
        invariant
            i <= ls@.len(),
            first_prefixed(views(ls@), pfx@) == first_prefixed(views(ls@).subrange(i as int, ls@.len() as int), pfx@),
        decreases ls@.len() - i,
    {
        let ghost rest = views(ls@).subrange(i as int, ls@.len() as int);
        assert(rest[0] == ls@[i as int]@);
        if has_prefix(&ls[i], pfx) {
            return Some(i);
        }
        assert(rest.drop_first() =~= views(ls@).subrange(i + 1, ls@.len() as int));
        i = i + 1;
    }
    None
}

/// The processor's model name from /proc/cpuinfo: what follows the `':'` on
/// the first line that begins with "model name", trimmed, or "Unknown".
pub open spec fn cpu_model_text(cpuinfo: Seq<char>) -> Seq<char> {
    match first_prefixed(lines(cpuinfo), "model name"@) {
        Some(l) => trim(
            match second_piece(l, ":"@) {
                Some(v) => v,
                None => "Unknown"@,
            },
        ),
        None => "Unknown"@,
    }
}

/// The processor's model name from the text of /proc/cpuinfo.
pub fn cpu_model_name(cpuinfo: &str) -> (r: String)
    ensures
        r@ == cpu_model_text(cpuinfo@),
{
    let cv = chars_of(cpuinfo);
    let ls = lines_of(&cv);
    let pfx = chars_of("model name");
    match find_prefixed(&ls, &pfx) {
        Some(i) => {
            let colon = chars_of(":");
            let piece = match second_piece_of(&ls[i], &colon) {
                Some(v) => v,
                None => chars_of("Unknown"),
            };
            string_of(&trim_chars(&piece))
        },
        None => "Unknown".to_owned(),
    }
}

/// The word at `k` among the words of `s`, or `default` where there are
/// fewer.
pub open spec fn word_or(s: Seq<char>, k: int, default: Seq<char>) -> Seq<char> {
    if 0 <= k < words(s).len() {
        words(s)[k]
    } else {
        default
    }
}

/// The word at `k` of `s`, or `default`.
pub fn nth_word(s: &str, k: usize, default: &str) -> (r: String)
    ensures
        r@ == word_or(s@, k as int, default@),
{
    let cv = chars_of(s);
    let ws = words_of(&cv);
    if k < ws.len() {
        assert(views(ws@)[k as int] == ws@[k as int]@);
        string_of(&ws[k])
    } else {
        default.to_owned()
    }
}

/// The kernel release from /proc/version: its third word, or "Unknown".
pub fn kernel_release(version: &str) -> (r: String)
    ensures
        r@ == word_or(version@, 2, "Unknown"@),
{
    nth_word(version, 2, "Unknown")
}

/// The seconds since boot from /proc/uptime, as text: its first word, or
/// "0".
pub fn uptime_seconds_text(uptime: &str) -> (r: String)
    ensures
        r@ == word_or(uptime@, 0, "0"@),
{
    nth_word(uptime, 0, "0")
}

/// The word after the key on the last of the lines that begins with `pfx`,
/// or "0" where there is no such line or word (a /proc/meminfo reading).
pub open spec fn last_field(ls: Seq<Seq<char>>, pfx: Seq<char>) -> Seq<char>
    decreases ls.len(),
{
    if ls.len() == 0 {
        "0"@
    } else if starts_with(ls.last(), pfx) {
        word_or(ls.last(), 1, "0"@)
    } else {
        last_field(ls.drop_last(), pfx)
    }
}

/// The "MemTotal:" and "MemAvailable:" readings of /proc/meminfo, in kB, as
/// text; "0" where one is missing.
pub fn meminfo_fields(meminfo: &str) -> (r: (String, String))
    ensures
        r.0@ == last_field(lines(meminfo@), "MemTotal:"@),
        r.1@ == last_field(lines(meminfo@), "MemAvailable:"@),
{
    let cv = chars_of(meminfo);
    let ls = lines_of(&cv);
    let tot_key = chars_of("MemTotal:");
    let av_key = chars_of("MemAvailable:");
    let mut tot: Vec<char> = chars_of("0");
    let mut av: Vec<char> = chars_of("0");
    let mut i: usize = 0;
    while i < ls.len()
        invariant
            i <= ls@.len(),
            tot_key@ == "MemTotal:"@,
            av_key@ == "MemAvailable:"@,
            tot@ == last_field(views(ls@).subrange(0, i as int), "MemTotal:"@),
            av@ == last_field(views(ls@).subrange(0, i as int), "MemAvailable:"@),
        decreases ls@.len() - i,
    {
        let ghost p = views(ls@).subrange(0, i + 1);
        assert(p.drop_last() =~= views(ls@).subrange(0, i as int));
        assert(p.last() == ls@[i as int]@);
        let ws = words_of(&ls[i]);
        if has_prefix(&ls[i], &tot_key) {
            if ws.len() > 1 {
                assert(views(ws@)[1] == ws@[1]@);
                tot = copy_chars(&ws[1]);
            } else {
                tot = chars_of("0");
            }
        }
        if has_prefix(&ls[i], &av_key) {
            if ws.len() > 1 {
                assert(views(ws@)[1] == ws@[1]@);
                av = copy_chars(&ws[1]);
            } else {
                av = chars_of("0");
            }
        }
        i = i + 1;
    }
    assert(views(ls@).subrange(0, ls@.len() as int) =~= views(ls@));
    (string_of(&tot), string_of(&av))
}

/// Whether the AC adapter's `online` file reads "1".
pub fn ac_online(online: &str) -> (b: bool)
    ensures
        b == (trim(online@) == "1"@),
{
    let t = string_of(&trim_chars(&chars_of(online)));
    t == "1".to_owned()
}

/// The thermal zone types that measure the CPU package.
pub open spec fn is_cpu_zone_type(t: Seq<char>) -> bool {
    t == "x86_pkg_temp"@ || t == "acpitz"@ || t == "TCPU"@
}

/// Whether a thermal zone whose `type` file reads `zone_type` measures the
/// CPU.
pub fn is_cpu_thermal_zone(zone_type: &str) -> (b: bool)
    ensures
        b == is_cpu_zone_type(trim(zone_type@)),
{
    let t = string_of(&trim_chars(&chars_of(zone_type)));
    t == "x86_pkg_temp".to_owned() || t == "acpitz".to_owned() || t == "TCPU".to_owned()
}

/// The CPU clock in MHz from `scaling_cur_freq` (in kHz): its trimmed text
/// read as a `u32` and divided by 1000, or 0 where it is no `u32`.
pub fn cpu_clock_mhz(scaling_cur_freq: &str) -> (mhz: u32)
    ensures
        mhz == match parse_unsigned(trim(scaling_cur_freq@), u32::MAX as nat) {
            Some(v) => (v / 1000) as u32,
            None => 0,
        },
{
    let t = trim_chars(&chars_of(scaling_cur_freq));
    match parse_decimal(&t, u32::MAX as u64) {
        Some(v) => (v / 1000) as u32,
        None => 0,
    }
}


/// A reading of the CPU time counters: the sum of all of them, and the idle
/// one, in clock ticks.
#[derive(Debug, Clone, Copy, PartialEq, Eq, Structural)]
pub struct CpuSample {
    pub total: u64,
    pub idle: u64,
}

/// Why /proc/stat gave no CPU sample.
#[derive(Debug, Clone, Copy, PartialEq, Eq, Structural)]
pub enum StatError {
    /// The text has no line.
    NoStat,
    /// The first line has fewer than four counters.
    InvalidStat,
    /// The counters add up to more than a `u64` holds.
    Overflow,
}

/// A counter's value: the word read as a `u64`, or 0 where it is none.
pub open spec fn counter_value(w: Seq<char>) -> nat {
    match parse_unsigned(w, u64::MAX as nat) {
        Some(v) => v,
        None => 0,
    }
}

/// The counters of the first line of /proc/stat: its words after the first.
pub open spec fn stat_counters(first: Seq<char>) -> Seq<nat> {
    if words(first).len() == 0 {
        seq![]
    } else {
        words(first).skip(1).map_values(|w: Seq<char>| counter_value(w))
    }
}

/// The sum of the numbers.
pub open spec fn sum(v: Seq<nat>) -> nat
    decreases v.len(),
{
    if v.len() == 0 {
        0
    } else {
        sum(v.drop_last()) + v.last()
    }
}

/// The CPU sample that the text of /proc/stat gives: from its first line,
/// the sum of the counters and the fourth counter (idle time).
pub open spec fn cpu_sample_of(stat: Seq<char>) -> Result<CpuSample, StatError> {
    if lines(stat).len() == 0 {
        Err(StatError::NoStat)
    } else {
        let c = stat_counters(lines(stat)[0]);
        if c.len() < 4 {
            Err(StatError::InvalidStat)
        } else if sum(c) > u64::MAX {
            Err(StatError::Overflow)
        } else {
            Ok(CpuSample { total: sum(c) as u64, idle: c[3] as u64 })
        }
    }
}

/// Reads the CPU time counters from the text of /proc/stat.
pub fn parse_cpu_sample(stat: &str) -> (r: Result<CpuSample, StatError>)
    ensures
        r == cpu_sample_of(stat@),
{
    let cv = chars_of(stat);
    let ls = lines_of(&cv);
    if ls.len() == 0 {
        return Err(StatError::NoStat);
    }
    assert(views(ls@)[0] == ls@[0]@);
    let ws = words_of(&ls[0]);
    let ghost c = stat_counters(ls@[0]@);
    let n = ws.len();
    if n < 5 {
        assert(c.len() < 4);
        return Err(StatError::InvalidStat);
    }
    let mut total: u64 = 0;
    let mut idle: u64 = 0;
    let mut overflow = false;
    let mut i: usize = 1;
    while i < n
        invariant
            1 <= i <= n,
            n == ws@.len(),
            n >= 5,
            c == views(ws@).skip(1).map_values(|w: Seq<char>| counter_value(w)),
            c.len() == n - 1,
            !overflow ==> total as nat == sum(c.subrange(0, i - 1)),
            overflow ==> sum(c.subrange(0, i - 1)) > u64::MAX,
            i > 4 ==> idle as nat == c[3],
        decreases n - i,
    {
        assert(c[i - 1] == counter_value(ws@[i as int]@));
        let v: u64 = match parse_decimal(&ws[i], u64::MAX) {
            Some(v) => v,
            None => 0,
        };
        let ghost p = c.subrange(0, i as int);
        assert(p.drop_last() =~= c.subrange(0, i - 1));
        assert(p.last() == c[i - 1]);
        if i == 4 {
            idle = v;
        }
        if !overflow {
            match total.checked_add(v) {
                Some(t) => total = t,
                None => overflow = true,
            }
        }
        i = i + 1;
    }
    assert(c.subrange(0, n - 1) =~= c);
    if overflow {
        Err(StatError::Overflow)
    } else {
        Ok(CpuSample { total, idle })
    }
}

/// The ticks that passed between two samples, in all and idle.
pub fn ticks_between(prev: CpuSample, next: CpuSample) -> (r: (u64, u64))
    requires
        prev.total <= next.total,
        prev.idle <= next.idle,
    ensures
        r.0 == next.total - prev.total,
        r.1 == next.idle - prev.idle,
{
    (next.total - prev.total, next.idle - prev.idle)
}

/// A `u32` reading: the text read as a `u32`, or 0 where it is none.
pub open spec fn u32_or_zero(t: Seq<char>) -> u32 {
    match parse_unsigned(t, u32::MAX as nat) {
        Some(v) => v as u32,
        None => 0,
    }
}

/// The fields of the first of the lines that has at least six
/// comma-separated fields, each trimmed.
pub open spec fn first_gpu_row(ls: Seq<Seq<char>>) -> Option<Seq<Seq<char>>>
    decreases ls.len(),
{
    if ls.len() == 0 {
        None
    } else if split_all(ls[0], ","@).len() >= 6 {
        Some(split_all(ls[0], ","@).map_values(|f: Seq<char>| trim(f)))
    } else {
        first_gpu_row(ls.drop_first())
    }
}

/// One GPU's line of `nvidia-smi --query-gpu=name,temperature.gpu,clocks.sm,
/// utilization.gpu,memory.used,memory.total --format=csv,noheader,nounits`.
/// The temperature and the utilization stay text: they are decimals.
#[derive(Debug, Clone)]
pub struct GpuReading {
    pub name: String,
    pub temperature: String,
    pub clock_mhz: u32,
    pub utilization: String,
    pub vram_used_mb: u32,
    pub vram_total_mb: u32,
}

/// Reads the first GPU line of `nvidia-smi`'s query output: the first line
/// with at least six fields.
pub fn parse_gpu_query(out: &str) -> (r: Option<GpuReading>)
    ensures
        match first_gpu_row(lines(out@)) {
            Some(f) => r is Some && {
                let g = r->0;
                &&& g.name@ == f[0]
                &&& g.temperature@ == f[1]
                &&& g.clock_mhz == u32_or_zero(f[2])
                &&& g.utilization@ == f[3]
                &&& g.vram_used_mb == u32_or_zero(f[4])
                &&& g.vram_total_mb == u32_or_zero(f[5])
            },
            None => r is None,
        },
{
    let cv = chars_of(out);
    let ls = lines_of(&cv);
    let comma = chars_of(",");
    proof {
        reveal_strlit(",");
    }
    assert(comma@.len() > 0);
    let mut i: usize = 0;
    assert(views(ls@).subrange(0, ls@.len() as int) =~= views(ls@));
    while i < ls.len()
        invariant
            i <= ls@.len(),
            comma@ == ","@,
            comma@.len() > 0,
            views(ls@) == lines(out@),
            first_gpu_row(views(ls@)) == first_gpu_row(views(ls@).subrange(i as int, ls@.len() as int)),
        decreases ls@.len() - i,
    {
        let ghost rest = views(ls@).subrange(i as int, ls@.len() as int);
        assert(rest[0] == ls@[i as int]@);
        let f = split_by(&ls[i], &comma);
        if f.len() >= 6 {
            let ghost fv = split_all(ls@[i as int]@, ","@);
            assert(views(f@) == fv);
            assert(first_gpu_row(views(ls@)) == Some(fv.map_values(|x: Seq<char>| trim(x))));
            assert(forall|k: int| 0 <= k < 6 ==> views(f@)[k] == #[trigger] f@[k]@);
            let name = string_of(&trim_chars(&f[0]));
            let temperature = string_of(&trim_chars(&f[1]));
            let clock = match parse_decimal(&trim_chars(&f[2]), u32::MAX as u64) {
                Some(v) => v as u32,
                None => 0,
            };
            let utilization = string_of(&trim_chars(&f[3]));
            let used = match parse_decimal(&trim_chars(&f[4]), u32::MAX as u64) {
                Some(v) => v as u32,
                None => 0,
            };
            let total = match parse_decimal(&trim_chars(&f[5]), u32::MAX as u64) {
                Some(v) => v as u32,
                None => 0,
            };
            let ghost ff = fv.map_values(|x: Seq<char>| trim(x));
            assert(name@ == ff[0]);
            assert(temperature@ == ff[1]);
            assert(clock == u32_or_zero(ff[2]));
            assert(utilization@ == ff[3]);
            assert(used == u32_or_zero(ff[4]));
            assert(total == u32_or_zero(ff[5]));
            return Some(
                GpuReading {
                    name,
                    temperature,
                    clock_mhz: clock,
                    utilization,
                    vram_used_mb: used,
                    vram_total_mb: total,
                },
            );
        }
        assert(rest.drop_first() =~= views(ls@).subrange(i + 1, ls@.len() as int));
        i = i + 1;
    }
    None
}

} // verus!
