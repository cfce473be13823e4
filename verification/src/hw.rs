//! The machine's hardware: what the system files say about it, and the
//! performance profile that follows from it.
use vstd::prelude::*;
use crate::text::{
    chars_of, count_lines_with_prefix, count_prefixed, find_line_with_prefix, first_prefixed, lines,
    lowercase, parse_u32, parse_u32_window, parse_u64, parse_u64_window, starts_with, str_starts_with,
    to_lowercase, trim, trim_window, window_is, window_starts_with, words, words_in,
};

verus! {

#[derive(Clone, Copy, Debug, PartialEq, Eq, Structural)]
pub enum GpuVendor {
    Intel,
    Amd,
    Nvidia,
    Generic,
}

#[derive(Clone, Copy, Debug, PartialEq, Eq, Structural)]
pub enum Profile {
    Potato,
    Mid,
    High,
}

/// What the launcher knows of the machine.
#[derive(Clone, Copy, Debug, PartialEq, Eq, Structural)]
pub struct HwInfo {
    pub gpu_vendor: GpuVendor,
    pub vram_mb: u64,
    pub is_igpu: bool,
    pub cpu_threads: u32,
    pub cpu_mhz: u32,
    pub ram_mb: u64,
}

/// One entry of `/sys/class/drm`: its name and the device files read from it
/// (`None` where a file could not be read).
pub struct DrmCard {
    pub name: String,
    /// `device/vendor`
    pub vendor: Option<String>,
    /// `device/class`
    pub class: Option<String>,
    /// `device/mem_info_vram_total`
    pub vram_total: Option<String>,
}

/// The system files that hardware detection reads (`None` where one could not be read).
pub struct SystemReadings {
    /// The entries of `/sys/class/drm`, in directory order.
    pub cards: Vec<DrmCard>,
    /// `/proc/cpuinfo`
    pub cpuinfo: Option<String>,
    /// `/sys/devices/system/cpu/cpu0/cpufreq/cpuinfo_max_freq`
    pub cpu_max_freq: Option<String>,
    /// `/proc/meminfo`
    pub meminfo: Option<String>,
}

// ---------------------------------------------------------------------
// Profile
// ---------------------------------------------------------------------

/// A machine with an integrated GPU, under 2 GiB of VRAM or under 6 GiB of RAM is a
/// potato; one with at least 8 GiB of VRAM and 16 GiB of RAM is high-end; the rest is mid.
pub open spec fn profile_of(hw: HwInfo) -> Profile {
    if hw.is_igpu || hw.vram_mb < 2048 || hw.ram_mb < 6144 {
        Profile::Potato
    } else if hw.vram_mb >= 8192 && hw.ram_mb >= 16384 {
        Profile::High
    } else {
        Profile::Mid
    }
}

pub open spec fn profile_rank(p: Profile) -> int {
    match p {
        Profile::Potato => 0,
        Profile::Mid => 1,
        Profile::High => 2,
    }
}

pub fn classify(hw: &HwInfo) -> (p: Profile)
    ensures
        p == profile_of(*hw),
{
    if hw.is_igpu || hw.vram_mb < 2048 || hw.ram_mb < 6144 {
        return Profile::Potato;
    }
    if hw.vram_mb >= 8192 && hw.ram_mb >= 16384 {
        return Profile::High;
    }
    Profile::Mid
}

/// More VRAM, more RAM, or a dedicated GPU in place of an integrated one never
/// gives a lower profile.
pub proof fn classify_monotone(a: HwInfo, b: HwInfo)
    requires
        a.vram_mb <= b.vram_mb,
        a.ram_mb <= b.ram_mb,
        b.is_igpu ==> a.is_igpu,
    ensures
        profile_rank(profile_of(a)) <= profile_rank(profile_of(b)),
{
}

/// Only a dedicated GPU with at least 8 GiB of VRAM, on a machine with at least 16 GiB
/// of RAM, is high-end; and every such machine is.
pub proof fn high_profile_needs_a_large_dedicated_gpu(hw: HwInfo)
    ensures
        profile_of(hw) == Profile::High <==> (!hw.is_igpu && hw.vram_mb >= 8192 && hw.ram_mb
            >= 16384),
{
}

/// An integrated GPU, under 2 GiB of VRAM or under 6 GiB of RAM makes a machine a
/// potato, and nothing else does.
pub proof fn potato_profile_is_a_weak_machine(hw: HwInfo)
    ensures
        profile_of(hw) == Profile::Potato <==> (hw.is_igpu || hw.vram_mb < 2048 || hw.ram_mb < 6144),
{
}

/// The name a profile is shown by.
pub open spec fn profile_label(p: Profile) -> Seq<char> {
    match p {
        Profile::Potato => "Potato"@,
        Profile::Mid => "Mid"@,
        Profile::High => "High"@,
    }
}

pub fn profile_name(p: Profile) -> (s: &'static str)
    ensures
        s@ == profile_label(p),
{
    match p {
        Profile::Potato => "Potato",
        Profile::Mid => "Mid",
        Profile::High => "High",
    }
}

/// The name a GPU vendor is shown and cached by.
pub open spec fn vendor_label(v: GpuVendor) -> Seq<char> {
    match v {
        GpuVendor::Intel => "Intel"@,
        GpuVendor::Amd => "Amd"@,
        GpuVendor::Nvidia => "Nvidia"@,
        GpuVendor::Generic => "Generic"@,
    }
}

pub fn vendor_name(v: GpuVendor) -> (s: &'static str)
    ensures
        s@ == vendor_label(v),
{
    match v {
        GpuVendor::Intel => "Intel",
        GpuVendor::Amd => "Amd",
        GpuVendor::Nvidia => "Nvidia",
        GpuVendor::Generic => "Generic",
    }
}

// ---------------------------------------------------------------------
// Detection: specifications
// ---------------------------------------------------------------------

pub open spec fn text_of(o: Option<String>) -> Option<Seq<char>> {
    match o {
        Some(s) => Some(s@),
        None => None,
    }
}

/// A DRM entry that is a GPU (`card0`), not one of its connectors (`card0-HDMI-A-1`).
pub open spec fn is_gpu_card(name: Seq<char>) -> bool {
    starts_with(name, "card"@) && !name.contains('-')
}

/// The vendor that a PCI vendor id names.
pub open spec fn vendor_from_id(id: Seq<char>) -> GpuVendor {
    if id == "0x8086"@ {
        GpuVendor::Intel
    } else if id == "0x1002"@ {
        GpuVendor::Amd
    } else if id == "0x10de"@ {
        GpuVendor::Nvidia
    } else {
        GpuVendor::Generic
    }
}

/// The vendor of the first GPU whose vendor file could be read (names compared in
/// lower case); `Generic` when there is none.
pub open spec fn gpu_vendor_of(cards: Seq<DrmCard>) -> GpuVendor
    decreases cards.len(),
{
    if cards.len() == 0 {
        GpuVendor::Generic
    } else {
        let c = cards[0];
        match c.vendor {
            Some(v) => if is_gpu_card(lowercase(c.name@)) {
                vendor_from_id(trim(v@))
            } else {
                gpu_vendor_of(cards.drop_first())
            },
            None => gpu_vendor_of(cards.drop_first()),
        }
    }
}

/// The VRAM in MiB that a GPU reports, if it reports a positive byte count.
pub open spec fn card_vram_mb(c: DrmCard) -> Option<u64> {
    match c.vram_total {
        Some(t) => if is_gpu_card(c.name@) {
            match parse_u64(trim(t@)) {
                Some(b) => if b > 0 {
                    Some((b / 1048576) as u64)
                } else {
                    None
                },
                None => None,
            }
        } else {
            None
        },
        None => None,
    }
}

/// The VRAM guessed from the RAM when no GPU reports it.
pub open spec fn vram_guess(ram_mb: u64) -> u64 {
    if ram_mb >= 16384 {
        1024
    } else if ram_mb >= 8192 {
        512
    } else {
        256
    }
}

/// The VRAM of the first GPU that reports it, else the guess from the RAM.
pub open spec fn vram_mb_of(cards: Seq<DrmCard>, ram_mb: u64) -> u64
    decreases cards.len(),
{
    if cards.len() == 0 {
        vram_guess(ram_mb)
    } else {
        match card_vram_mb(cards[0]) {
            Some(m) => m,
            None => vram_mb_of(cards.drop_first(), ram_mb),
        }
    }
}

/// An Intel display controller, or an AMD GPU on a machine with under 512 MiB of VRAM.
pub open spec fn card_is_igpu(c: DrmCard, vram_mb: u64) -> bool {
    is_gpu_card(c.name@) && match (c.vendor, c.class) {
        (Some(v), Some(k)) => {
            let vendor = trim(v@);
            let class = trim(k@);
            ||| vendor == "0x8086"@ && (starts_with(class, "0x0300"@) || class == "0x030000"@)
            ||| vendor == "0x1002"@ && vram_mb < 512
        },
        _ => false,
    }
}

pub open spec fn is_igpu_of(cards: Seq<DrmCard>, vram_mb: u64) -> bool {
    exists|i: int| 0 <= i < cards.len() && card_is_igpu(#[trigger] cards[i], vram_mb)
}

/// Whether a GPU is integrated is decided by the cards and the detected VRAM alone:
/// two readings with the same cards and the same detected VRAM agree on it, whatever
/// else (the RAM, the CPU) differs.
pub proof fn integrated_gpu_follows_the_vram(r1: SystemReadings, r2: SystemReadings)
    requires
        r1.cards@ == r2.cards@,
        hw_of(r1).vram_mb == hw_of(r2).vram_mb,
    ensures
        hw_of(r1).is_igpu == hw_of(r2).is_igpu,
{
}

/// An AMD GPU (vendor `0x1002`) with a readable class, on a machine whose detected VRAM
/// is under 512 MiB, is taken as integrated (an APU), whatever the RAM.
pub proof fn amd_gpu_with_little_vram_is_integrated(r: SystemReadings, i: int)
    requires
        0 <= i < r.cards.len(),
        is_gpu_card(r.cards@[i].name@),
        r.cards@[i].vendor matches Some(v) && trim(v@) == "0x1002"@,
        r.cards@[i].class is Some,
        hw_of(r).vram_mb < 512,
    ensures
        hw_of(r).is_igpu,
{
    let vram = hw_of(r).vram_mb;
    assert(card_is_igpu(r.cards@[i], vram));
}

/// An Intel display controller (vendor `0x8086`, class `0x0300..`) is taken as
/// integrated, whatever the VRAM and RAM.
pub proof fn intel_display_controller_is_integrated(r: SystemReadings, i: int)
    requires
        0 <= i < r.cards.len(),
        is_gpu_card(r.cards@[i].name@),
        r.cards@[i].vendor matches Some(v) && trim(v@) == "0x8086"@,
        r.cards@[i].class matches Some(k) && starts_with(trim(k@), "0x0300"@),
    ensures
        hw_of(r).is_igpu,
{
    let vram = hw_of(r).vram_mb;
    assert(card_is_igpu(r.cards@[i], vram));
}

/// Without an Intel display controller, and without an AMD GPU while the detected VRAM
/// is under 512 MiB, the GPU is taken as dedicated.
pub proof fn other_gpus_are_dedicated(r: SystemReadings)
    requires
        forall|i: int|
            0 <= i < r.cards.len() ==> match (#[trigger] r.cards@[i]).vendor {
                Some(v) => {
                    &&& trim(v@) == "0x8086"@ ==> (r.cards@[i].class matches Some(k) && !starts_with(
                        trim(k@),
                        "0x0300"@,
                    ) && trim(k@) != "0x030000"@)
                    &&& trim(v@) == "0x1002"@ ==> hw_of(r).vram_mb >= 512
                },
                None => true,
            },
    ensures
        !hw_of(r).is_igpu,
{
    let vram = hw_of(r).vram_mb;
    assert forall|i: int| 0 <= i < r.cards.len() implies !card_is_igpu(#[trigger] r.cards@[i], vram) by {
        let c = r.cards@[i];
        match (c.vendor, c.class) {
            (Some(v), Some(k)) => {},
            _ => {},
        }
    }
}

/// The number of `processor` lines of `/proc/cpuinfo` (kept to 32 bits), else 2.
pub open spec fn cpu_threads_of(cpuinfo: Option<Seq<char>>) -> u32 {
    match cpuinfo {
        Some(c) => count_prefixed(lines(c), "processor"@) as u32,
        None => 2,
    }
}

/// The maximum frequency in MHz from its kHz file, else 2000.
pub open spec fn cpu_mhz_of(max_freq: Option<Seq<char>>) -> u32 {
    match max_freq {
        Some(s) => match parse_u32(trim(s)) {
            Some(k) => (k / 1000) as u32,
            None => 2000,
        },
        None => 2000,
    }
}

/// The value in MiB of the first `/proc/meminfo` line that starts with `key`
/// (its second word, in kB), else `default`.
pub open spec fn meminfo_mb(meminfo: Option<Seq<char>>, key: Seq<char>, default: u64) -> u64 {
    match meminfo {
        Some(c) => match first_prefixed(lines(c), key) {
            Some(l) => if words(l).len() >= 2 {
                match parse_u64(words(l)[1]) {
                    Some(k) => (k / 1024) as u64,
                    None => default,
                }
            } else {
                default
            },
            None => default,
        },
        None => default,
    }
}

pub open spec fn ram_mb_of(meminfo: Option<Seq<char>>) -> u64 {
    meminfo_mb(meminfo, "MemTotal:"@, 4096)
}

pub open spec fn ram_free_mb_of(meminfo: Option<Seq<char>>) -> u64 {
    meminfo_mb(meminfo, "MemAvailable:"@, 2048)
}

pub open spec fn hw_of(r: SystemReadings) -> HwInfo {
    let ram = ram_mb_of(text_of(r.meminfo));
    let vram = vram_mb_of(r.cards@, ram);
    HwInfo {
        gpu_vendor: gpu_vendor_of(r.cards@),
        vram_mb: vram,
        is_igpu: is_igpu_of(r.cards@, vram),
        cpu_threads: cpu_threads_of(text_of(r.cpuinfo)),
        cpu_mhz: cpu_mhz_of(text_of(r.cpu_max_freq)),
        ram_mb: ram,
    }
}

/// The first of `vals` that reads as a `u32` (surrounding whitespace allowed).
pub open spec fn first_u32(vals: Seq<String>) -> Option<u32>
    decreases vals.len(),
{
    if vals.len() == 0 {
        None
    } else {
        match parse_u32(trim(vals[0]@)) {
            Some(n) => Some(n),
            None => first_u32(vals.drop_first()),
        }
    }
}

// ---------------------------------------------------------------------
// Detection: executable
// ---------------------------------------------------------------------

fn trimmed_is(s: &str, p: &str) -> (b: bool)
    ensures
        b == (trim(s@) == p@),
{
    let v = chars_of(s);
    assert(v@.subrange(0, v.len() as int) == v@);
    let (a, z) = trim_window(&v, 0, v.len());
    window_is(&v, a, z, p)
}

fn trimmed_starts_with(s: &str, p: &str) -> (b: bool)
    ensures
        b == starts_with(trim(s@), p@),
{
    let v = chars_of(s);
    assert(v@.subrange(0, v.len() as int) == v@);
    let (a, z) = trim_window(&v, 0, v.len());
    window_starts_with(&v, a, z, p)
}

fn trimmed_u64(s: &str) -> (r: Option<u64>)
    ensures
        r == parse_u64(trim(s@)),
{
    let v = chars_of(s);
    assert(v@.subrange(0, v.len() as int) == v@);
    let (a, z) = trim_window(&v, 0, v.len());
    parse_u64_window(&v, a, z)
}

fn trimmed_u32(s: &str) -> (r: Option<u32>)
    ensures
        r == parse_u32(trim(s@)),
{
    let v = chars_of(s);
    assert(v@.subrange(0, v.len() as int) == v@);
    let (a, z) = trim_window(&v, 0, v.len());
    parse_u32_window(&v, a, z)
}

/// Whether a DRM entry name is that of a GPU.
pub fn is_gpu_card_name(name: &str) -> (b: bool)
    ensures
        b == is_gpu_card(name@),
{
    if !str_starts_with(name, "card") {
        return false;
    }
    let v = chars_of(name);
    let mut i: usize = 0;
    while i < v.len()
        invariant
            v@ == name@,
            i <= v.len(),
            forall|j: int| 0 <= j < i ==> v@[j] != '-',
        decreases v.len() - i,
    {
        if v[i] == '-' {
            assert(name@.contains('-'));
            return false;
        }
        i = i + 1;
    }
    true
}

/// The vendor that the (whitespace-padded) PCI vendor id names.
pub fn gpu_vendor_from_id(id: &str) -> (g: GpuVendor)
    ensures
        g == vendor_from_id(trim(id@)),
{
    if trimmed_is(id, "0x8086") {
        GpuVendor::Intel
    } else if trimmed_is(id, "0x1002") {
        GpuVendor::Amd
    } else if trimmed_is(id, "0x10de") {
        GpuVendor::Nvidia
    } else {
        GpuVendor::Generic
    }
}

pub fn detect_gpu_vendor(cards: &Vec<DrmCard>) -> (g: GpuVendor)
    ensures
        g == gpu_vendor_of(cards@),
{
    let mut i: usize = 0;
    assert(cards@.skip(0) == cards@);
    while i < cards.len()
        invariant
            i <= cards.len(),
            gpu_vendor_of(cards@) == gpu_vendor_of(cards@.skip(i as int)),
        decreases cards.len() - i,
    {
        assert(cards@.skip(i as int).drop_first() == cards@.skip(i + 1));
        assert(cards@.skip(i as int)[0] == cards@[i as int]);
        let c = &cards[i];
        match &c.vendor {
            Some(v) => {
                let lower = to_lowercase(c.name.as_str());
                if is_gpu_card_name(lower.as_str()) {
                    return gpu_vendor_from_id(v.as_str());
                }
            },
            None => {},
        }
        i = i + 1;
    }
    GpuVendor::Generic
}

fn card_vram(c: &DrmCard) -> (r: Option<u64>)
    ensures
        r == card_vram_mb(*c),
{
    match &c.vram_total {
        Some(t) => {
            if !is_gpu_card_name(c.name.as_str()) {
                return None;
            }
            match trimmed_u64(t.as_str()) {
                Some(b) => if b > 0 {
                    Some(b / 1048576)
                } else {
                    None
                },
                None => None,
            }
        },
        None => None,
    }
}

pub fn detect_vram_mb(cards: &Vec<DrmCard>, ram_mb: u64) -> (m: u64)
    ensures
        m == vram_mb_of(cards@, ram_mb),
{
    let mut i: usize = 0;
    assert(cards@.skip(0) == cards@);
    while i < cards.len()
        invariant
            i <= cards.len(),
            vram_mb_of(cards@, ram_mb) == vram_mb_of(cards@.skip(i as int), ram_mb),
        decreases cards.len() - i,
    {
        assert(cards@.skip(i as int).drop_first() == cards@.skip(i + 1));
        assert(cards@.skip(i as int)[0] == cards@[i as int]);
        match card_vram(&cards[i]) {
            Some(m) => {
                return m;
            },
            None => {},
        }
        i = i + 1;
    }
    if ram_mb >= 16384 {
        1024
    } else if ram_mb >= 8192 {
        512
    } else {
        256
    }
}

fn card_igpu(c: &DrmCard, vram_mb: u64) -> (b: bool)
    ensures
        b == card_is_igpu(*c, vram_mb),
{
    if !is_gpu_card_name(c.name.as_str()) {
        return false;
    }
    match (&c.vendor, &c.class) {
        (Some(v), Some(k)) => {
            let intel = trimmed_is(v.as_str(), "0x8086");
            if intel && (trimmed_starts_with(k.as_str(), "0x0300") || trimmed_is(
                k.as_str(),
                "0x030000",
            )) {
                return true;
            }
            trimmed_is(v.as_str(), "0x1002") && vram_mb < 512
        },
        _ => false,
    }
}

pub fn detect_is_igpu(cards: &Vec<DrmCard>, vram_mb: u64) -> (b: bool)
    ensures
        b == is_igpu_of(cards@, vram_mb),
{
    let mut i: usize = 0;
    while i < cards.len()
        invariant
            i <= cards.len(),
            forall|j: int| 0 <= j < i ==> !card_is_igpu(#[trigger] cards@[j], vram_mb),
        decreases cards.len() - i,
    {
        if card_igpu(&cards[i], vram_mb) {
            return true;
        }
        i = i + 1;
    }
    false
}

pub fn detect_cpu_threads(cpuinfo: &Option<String>) -> (n: u32)
    ensures
        n == cpu_threads_of(text_of(*cpuinfo)),
{
    match cpuinfo {
        Some(c) => {
            let v = chars_of(c.as_str());
            let n = count_lines_with_prefix(&v, "processor");
            #[verifier::truncate]
            (n as u32)
        },
        None => 2,
    }
}

pub fn detect_cpu_mhz(max_freq: &Option<String>) -> (m: u32)
    ensures
        m == cpu_mhz_of(text_of(*max_freq)),
{
    match max_freq {
        Some(s) => match trimmed_u32(s.as_str()) {
            Some(k) => k / 1000,
            None => 2000,
        },
        None => 2000,
    }
}

fn meminfo_value(meminfo: &Option<String>, key: &str, default: u64) -> (m: u64)
    ensures
        m == meminfo_mb(text_of(*meminfo), key@, default),
{
    match meminfo {
        Some(c) => {
            let v = chars_of(c.as_str());
            match find_line_with_prefix(&v, key) {
                Some((a, b)) => {
                    let ws = words_in(&v, a, b);
                    if ws.len() >= 2 {
                        let (x, y) = ws[1];
                        match parse_u64_window(&v, x, y) {
                            Some(k) => k / 1024,
                            None => default,
                        }
                    } else {
                        default
                    }
                },
                None => default,
            }
        },
        None => default,
    }
}

pub fn detect_ram_mb(meminfo: &Option<String>) -> (m: u64)
    ensures
        m == ram_mb_of(text_of(*meminfo)),
{
    meminfo_value(meminfo, "MemTotal:", 4096)
}

pub fn detect_ram_free_mb(meminfo: &Option<String>) -> (m: u64)
    ensures
        m == ram_free_mb_of(text_of(*meminfo)),
{
    meminfo_value(meminfo, "MemAvailable:", 2048)
}

/// Everything the launcher knows of the machine, from its system files.
pub fn detect_hw(r: &SystemReadings) -> (hw: HwInfo)
    ensures
        hw == hw_of(*r),
{
    let ram_mb = detect_ram_mb(&r.meminfo);
    let vram_mb = detect_vram_mb(&r.cards, ram_mb);
    HwInfo {
        gpu_vendor: detect_gpu_vendor(&r.cards),
        vram_mb,
        is_igpu: detect_is_igpu(&r.cards, vram_mb),
        cpu_threads: detect_cpu_threads(&r.cpuinfo),
        cpu_mhz: detect_cpu_mhz(&r.cpu_max_freq),
        ram_mb,
    }
}

/// The first of `vals` that reads as a `u32`.
pub fn first_u32_of(vals: &Vec<String>) -> (r: Option<u32>)
    ensures
        r == first_u32(vals@),
{
    let mut i: usize = 0;
    assert(vals@.skip(0) == vals@);
    while i < vals.len()
        invariant
            i <= vals.len(),
            first_u32(vals@) == first_u32(vals@.skip(i as int)),
        decreases vals.len() - i,
    {
        assert(vals@.skip(i as int).drop_first() == vals@.skip(i + 1));
        assert(vals@.skip(i as int)[0] == vals@[i as int]);
        match trimmed_u32(vals[i].as_str()) {
            Some(n) => {
                return Some(n);
            },
            None => {},
        }
        i = i + 1;
    }
    None
}

/// The CPU temperature in °C from the thermal zone files read (in millidegrees),
/// the first that reads as a number.
pub fn read_cpu_temp(zones: &Vec<String>) -> (t: Option<u32>)
    ensures
        t == (match first_u32(zones@) {
            Some(m) => Some((m / 1000) as u32),
            None => None,
        }),
{
    match first_u32_of(zones) {
        Some(m) => Some(m / 1000),
        None => None,
    }
}

/// The GPU clock in MHz from the sysfs files read: the first `rps_cur_freq_mhz`
/// that reads as a number, else the first hwmon `freq1_input` (in kHz).
pub fn gpu_freq_from_sysfs(rps: &Vec<String>, hwmon: &Vec<String>) -> (f: Option<u32>)
    ensures
        f == (match first_u32(rps@) {
            Some(n) => Some(n),
            None => match first_u32(hwmon@) {
                Some(k) => Some((k / 1000) as u32),
                None => None,
            },
        }),
{
    match first_u32_of(rps) {
        Some(n) => Some(n),
        None => match first_u32_of(hwmon) {
            Some(k) => Some(k / 1000),
            None => None,
        },
    }
}

/// The GPU clock in MHz from `nvidia-smi --query-gpu=clocks.gr` output: its first word.
pub fn gpu_freq_from_nvidia(output: &str) -> (f: Option<u32>)
    ensures
        f == (if words(trim(output@)).len() > 0 {
            parse_u32(words(trim(output@))[0])
        } else {
            None
        }),
{
    let v = chars_of(output);
    assert(v@.subrange(0, v.len() as int) == v@);
    let (a, b) = trim_window(&v, 0, v.len());
    let ws = words_in(&v, a, b);
    if ws.len() > 0 {
        let (x, y) = ws[0];
        parse_u32_window(&v, x, y)
    } else {
        None
    }
}

/// `nvidia-smi` is asked for the clock only when the sysfs files gave none.
pub fn nvidia_query_needed(sysfs: Option<u32>) -> (b: bool)
    ensures
        b == (sysfs is None),
{
    sysfs.is_none()
}

/// The live GPU clock in MHz: the one from the sysfs files, else the one in
/// `nvidia-smi`'s output, when it ran and gave one.
pub fn gpu_freq_mhz(sysfs: Option<u32>, nvidia_output: Option<&str>) -> (f: Option<u32>)
    ensures
        f == (match sysfs {
            Some(n) => Some(n),
            None => match nvidia_output {
                Some(o) => if words(trim(o@)).len() > 0 {
                    parse_u32(words(trim(o@))[0])
                } else {
                    None
                },
                None => None,
            },
        }),
{
    match sysfs {
        Some(n) => Some(n),
        None => match nvidia_output {
            Some(o) => gpu_freq_from_nvidia(o),
            None => None,
        },
    }
}

} // verus!
