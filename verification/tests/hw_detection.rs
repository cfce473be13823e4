use split_bridge::hw::{
    classify, detect_cpu_mhz, detect_cpu_threads, detect_gpu_vendor, detect_hw, detect_is_igpu,
    detect_ram_free_mb, detect_ram_mb, detect_vram_mb, gpu_freq_from_nvidia, gpu_freq_from_sysfs, gpu_freq_mhz, nvidia_query_needed,
    gpu_vendor_from_id, is_gpu_card_name, profile_name, read_cpu_temp, vendor_name, DrmCard,
    GpuVendor, HwInfo, Profile, SystemReadings,
};

fn hw(vendor: GpuVendor, vram_mb: u64, is_igpu: bool, ram_mb: u64) -> HwInfo {
    HwInfo { gpu_vendor: vendor, vram_mb, is_igpu, cpu_threads: 8, cpu_mhz: 3000, ram_mb }
}

fn card(name: &str, vendor: Option<&str>, class: Option<&str>, vram: Option<&str>) -> DrmCard {
    DrmCard {
        name: name.to_string(),
        vendor: vendor.map(|s| s.to_string()),
        class: class.map(|s| s.to_string()),
        vram_total: vram.map(|s| s.to_string()),
    }
}

#[test]
fn classify_integrated_gpu_is_potato() {
    assert_eq!(classify(&hw(GpuVendor::Intel, 16384, true, 32768)), Profile::Potato);
}

#[test]
fn classify_thresholds() {
    assert_eq!(classify(&hw(GpuVendor::Amd, 2047, false, 32768)), Profile::Potato);
    assert_eq!(classify(&hw(GpuVendor::Amd, 4096, false, 6143)), Profile::Potato);
    assert_eq!(classify(&hw(GpuVendor::Amd, 2048, false, 6144)), Profile::Mid);
    assert_eq!(classify(&hw(GpuVendor::Nvidia, 8192, false, 16383)), Profile::Mid);
    assert_eq!(classify(&hw(GpuVendor::Nvidia, 8191, false, 16384)), Profile::Mid);
    assert_eq!(classify(&hw(GpuVendor::Nvidia, 8192, false, 16384)), Profile::High);
}

#[test]
fn classify_more_memory_never_lowers_profile() {
    let rank = |p: Profile| match p {
        Profile::Potato => 0,
        Profile::Mid => 1,
        Profile::High => 2,
    };
    let small = hw(GpuVendor::Amd, 4096, false, 8192);
    let big = hw(GpuVendor::Amd, 12288, false, 32768);
    assert!(rank(classify(&small)) <= rank(classify(&big)));
}

#[test]
fn names_of_profiles_and_vendors() {
    assert_eq!(profile_name(Profile::Potato), "Potato");
    assert_eq!(profile_name(Profile::Mid), "Mid");
    assert_eq!(profile_name(Profile::High), "High");
    assert_eq!(vendor_name(GpuVendor::Intel), "Intel");
    assert_eq!(vendor_name(GpuVendor::Amd), "Amd");
    assert_eq!(vendor_name(GpuVendor::Nvidia), "Nvidia");
    assert_eq!(vendor_name(GpuVendor::Generic), "Generic");
}

#[test]
fn gpu_card_names() {
    assert!(is_gpu_card_name("card0"));
    assert!(is_gpu_card_name("card12"));
    assert!(!is_gpu_card_name("card0-HDMI-A-1"));
    assert!(!is_gpu_card_name("renderD128"));
    assert!(!is_gpu_card_name("CARD0"));
}

#[test]
fn vendor_ids() {
    assert_eq!(gpu_vendor_from_id("0x8086\n"), GpuVendor::Intel);
    assert_eq!(gpu_vendor_from_id(" 0x1002 "), GpuVendor::Amd);
    assert_eq!(gpu_vendor_from_id("0x10de"), GpuVendor::Nvidia);
    assert_eq!(gpu_vendor_from_id("0x1af4"), GpuVendor::Generic);
    assert_eq!(gpu_vendor_from_id("0X8086"), GpuVendor::Generic);
}

#[test]
fn gpu_vendor_from_first_readable_card() {
    let cards = vec![
        card("card0-DP-1", Some("0x10de\n"), None, None),
        card("card0", None, None, None),
        card("card1", Some("0x8086\n"), None, None),
        card("card2", Some("0x1002\n"), None, None),
    ];
    assert_eq!(detect_gpu_vendor(&cards), GpuVendor::Intel);
    assert_eq!(detect_gpu_vendor(&vec![]), GpuVendor::Generic);
}

#[test]
fn gpu_vendor_card_names_compared_in_lower_case() {
    let cards = vec![card("CARD0", Some("0x1002\n"), None, None)];
    assert_eq!(detect_gpu_vendor(&cards), GpuVendor::Amd);
}

#[test]
fn vram_from_first_reporting_card() {
    let cards = vec![
        card("card0", None, None, Some("0\n")),
        card("card1", None, None, Some("not a number")),
        card("card2-eDP-1", None, None, Some("8589934592")),
        card("card3", None, None, Some(" 4294967296\n")),
    ];
    assert_eq!(detect_vram_mb(&cards, 4096), 4096);
}

#[test]
fn vram_guessed_from_ram() {
    assert_eq!(detect_vram_mb(&vec![], 16384), 1024);
    assert_eq!(detect_vram_mb(&vec![], 16383), 512);
    assert_eq!(detect_vram_mb(&vec![], 8192), 512);
    assert_eq!(detect_vram_mb(&vec![], 8191), 256);
    let cards = vec![card("card0", None, None, Some("0"))];
    assert_eq!(detect_vram_mb(&cards, 32000), 1024);
}

#[test]
fn integrated_gpus() {
    let intel = vec![card("card0", Some("0x8086\n"), Some("0x030000\n"), None)];
    assert!(detect_is_igpu(&intel, 8192));
    let intel_other = vec![card("card0", Some("0x8086\n"), Some("0x038000\n"), None)];
    assert!(!detect_is_igpu(&intel_other, 8192));
    let amd = vec![card("card0", Some("0x1002"), Some("0x030000"), None)];
    assert!(detect_is_igpu(&amd, 511));
    assert!(!detect_is_igpu(&amd, 512));
    let no_class = vec![card("card0", Some("0x8086"), None, None)];
    assert!(!detect_is_igpu(&no_class, 256));
    let connector = vec![card("card0-DP-1", Some("0x8086"), Some("0x030000"), None)];
    assert!(!detect_is_igpu(&connector, 256));
}

#[test]
fn cpu_threads_count_processor_lines() {
    let info = "processor\t: 0\nmodel name\t: x\n\nprocessor\t: 1\nprocessor\t: 2\n".to_string();
    assert_eq!(detect_cpu_threads(&Some(info)), 3);
    assert_eq!(detect_cpu_threads(&Some(String::new())), 0);
    assert_eq!(detect_cpu_threads(&None), 2);
}

#[test]
fn cpu_mhz_from_khz() {
    assert_eq!(detect_cpu_mhz(&Some("3400000\n".to_string())), 3400);
    assert_eq!(detect_cpu_mhz(&Some("2999\n".to_string())), 2);
    assert_eq!(detect_cpu_mhz(&Some("fast".to_string())), 2000);
    assert_eq!(detect_cpu_mhz(&None), 2000);
}

#[test]
fn ram_from_meminfo() {
    let info = "MemTotal:       16384000 kB\nMemFree:  100 kB\nMemAvailable:    8000000 kB\n".to_string();
    assert_eq!(detect_ram_mb(&Some(info.clone())), 16000);
    assert_eq!(detect_ram_free_mb(&Some(info)), 7812);
    assert_eq!(detect_ram_mb(&None), 4096);
    assert_eq!(detect_ram_free_mb(&None), 2048);
    assert_eq!(detect_ram_mb(&Some("MemTotal:\nMemTotal: 2048 kB\n".to_string())), 4096);
    assert_eq!(detect_ram_mb(&Some("MemFree: 2048 kB\n".to_string())), 4096);
}

#[test]
fn detect_hw_from_readings() {
    let r = SystemReadings {
        cards: vec![card("card0", Some("0x8086\n"), Some("0x030000\n"), None)],
        cpuinfo: Some("processor : 0\nprocessor : 1\nprocessor : 2\nprocessor : 3\n".to_string()),
        cpu_max_freq: Some("2400000\n".to_string()),
        meminfo: Some("MemTotal: 8192000 kB\n".to_string()),
    };
    let h = detect_hw(&r);
    assert_eq!(
        h,
        HwInfo {
            gpu_vendor: GpuVendor::Intel,
            vram_mb: 256,
            is_igpu: true,
            cpu_threads: 4,
            cpu_mhz: 2400,
            ram_mb: 8000,
        }
    );
    assert_eq!(classify(&h), Profile::Potato);
}

#[test]
fn detect_hw_without_any_file() {
    let r = SystemReadings { cards: vec![], cpuinfo: None, cpu_max_freq: None, meminfo: None };
    assert_eq!(
        detect_hw(&r),
        HwInfo {
            gpu_vendor: GpuVendor::Generic,
            vram_mb: 256,
            is_igpu: false,
            cpu_threads: 2,
            cpu_mhz: 2000,
            ram_mb: 4096,
        }
    );
}

#[test]
fn cpu_temperature_from_zones() {
    assert_eq!(read_cpu_temp(&vec!["garbage".to_string(), "45000\n".to_string()]), Some(45));
    assert_eq!(read_cpu_temp(&vec!["81999\n".to_string()]), Some(81));
    assert_eq!(read_cpu_temp(&vec![]), None);
}

#[test]
fn gpu_frequency_from_sysfs() {
    assert_eq!(gpu_freq_from_sysfs(&vec!["".to_string(), "1100\n".to_string()], &vec![]), Some(1100));
    assert_eq!(gpu_freq_from_sysfs(&vec![], &vec!["x".to_string(), "1200000\n".to_string()]), Some(1200));
    assert_eq!(gpu_freq_from_sysfs(&vec!["350".to_string()], &vec!["1200000".to_string()]), Some(350));
    assert_eq!(gpu_freq_from_sysfs(&vec![], &vec![]), None);
}

#[test]
fn gpu_frequency_from_nvidia_smi() {
    assert_eq!(gpu_freq_from_nvidia("  1350 MHz\n"), Some(1350));
    assert_eq!(gpu_freq_from_nvidia("210\n"), Some(210));
    assert_eq!(gpu_freq_from_nvidia("[N/A]\n"), None);
    assert_eq!(gpu_freq_from_nvidia(""), None);
}

#[test]
fn nvidia_smi_only_without_a_sysfs_clock() {
    assert!(nvidia_query_needed(None));
    assert!(!nvidia_query_needed(Some(300)));
    assert_eq!(gpu_freq_mhz(Some(300), Some("1350 MHz")), Some(300));
    assert_eq!(gpu_freq_mhz(None, Some(" 1350 MHz\n")), Some(1350));
    assert_eq!(gpu_freq_mhz(None, Some("[N/A]")), None);
    assert_eq!(gpu_freq_mhz(None, None), None);
}
