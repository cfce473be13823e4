use split_bridge::cache::{cache_is_fresh, cache_path, cached_hw, load_hw_cache, save_hw_cache};
use split_bridge::hw::{detect_cpu_threads, detect_ram_mb, GpuVendor, HwInfo};
use split_bridge::text::{
    parse_u64_str, replace_text, str_contains, str_ends_with, str_eq, str_starts_with, trimmed,
};

fn sample() -> HwInfo {
    HwInfo {
        gpu_vendor: GpuVendor::Intel,
        vram_mb: 512,
        is_igpu: true,
        cpu_threads: 4,
        cpu_mhz: 2400,
        ram_mb: 8000,
    }
}

#[test]
fn decimal_parsing_follows_str_parse() {
    assert_eq!(parse_u64_str("42"), Some(42));
    assert_eq!(parse_u64_str("+42"), Some(42));
    assert_eq!(parse_u64_str("007"), Some(7));
    assert_eq!(parse_u64_str("18446744073709551615"), Some(u64::MAX));
    assert_eq!(parse_u64_str("18446744073709551616"), None);
    assert_eq!(parse_u64_str("-1"), None);
    assert_eq!(parse_u64_str("+"), None);
    assert_eq!(parse_u64_str(""), None);
    assert_eq!(parse_u64_str(" 1"), None);
    assert_eq!(parse_u64_str("1a"), None);
    for s in ["0", "1", "99", "65535", "123456789012"] {
        assert_eq!(parse_u64_str(s), s.parse::<u64>().ok());
    }
}

#[test]
fn trimming_follows_str_trim() {
    for s in ["  a b  ", "\u{3000}x\u{2028}", "\t\n\r", "", "\u{85}y\u{a0}", "z"] {
        assert_eq!(trimmed(s), s.trim());
    }
}

#[test]
fn replacing_follows_str_replace() {
    for (s, p, r) in [("a.exe.exe", ".exe", ""), ("a b  c", " ", "_"), ("aaa", "aa", "b"), ("x", "yz", "q")] {
        assert_eq!(replace_text(s, p, r), s.replace(p, r));
    }
}

#[test]
fn text_predicates() {
    assert!(str_contains("a MangoHud Overlay|b", "MangoHud Overlay"));
    assert!(!str_contains("Mango", "MangoHud"));
    assert!(str_contains("abc", ""));
    assert!(str_starts_with("processor : 0", "processor"));
    assert!(!str_starts_with("proc", "processor"));
    assert!(str_ends_with("game.exe", ".exe"));
    assert!(!str_ends_with("game.EXE", ".exe"));
    assert!(str_eq("info", "info"));
    assert!(!str_eq("info", "info "));
}

#[test]
fn cache_text_layout() {
    assert_eq!(
        save_hw_cache(&sample()),
        "gpu_vendor  = \"Intel\"\nvram_mb     = 512\nis_igpu     = true\ncpu_threads = 4\ncpu_mhz     = 2400\nram_mb      = 8000\n"
    );
}

#[test]
fn cache_reads_back_what_was_saved() {
    let all = [
        sample(),
        HwInfo {
            gpu_vendor: GpuVendor::Generic,
            vram_mb: u64::MAX,
            is_igpu: false,
            cpu_threads: u32::MAX,
            cpu_mhz: 0,
            ram_mb: 0,
        },
        HwInfo { gpu_vendor: GpuVendor::Nvidia, vram_mb: 8192, is_igpu: false, cpu_threads: 16, cpu_mhz: 5200, ram_mb: 65536 },
        HwInfo { gpu_vendor: GpuVendor::Amd, vram_mb: 256, is_igpu: true, cpu_threads: 2, cpu_mhz: 1800, ram_mb: 4000 },
    ];
    for h in all {
        assert_eq!(load_hw_cache(&save_hw_cache(&h)), Some(h));
    }
}

#[test]
fn cache_with_missing_number_is_not_used() {
    let text = "gpu_vendor = \"Amd\"\nvram_mb = 512\nis_igpu = false\ncpu_threads = 4\nram_mb = 8000\n";
    assert_eq!(load_hw_cache(text), None);
    assert_eq!(load_hw_cache(""), None);
}

#[test]
fn cache_with_unknown_vendor_and_odd_spacing() {
    let text = "cpu_mhz=1000\ngpu_vendor=Voodoo\nvram_mb =\"64\"\ncpu_threads= 1 \nram_mb\t=  2048=junk\nis_igpu = True\n";
    assert_eq!(
        load_hw_cache(text),
        Some(HwInfo {
            gpu_vendor: GpuVendor::Generic,
            vram_mb: 64,
            is_igpu: false,
            cpu_threads: 1,
            cpu_mhz: 1000,
            ram_mb: 2048,
        })
    );
}

#[test]
fn cache_first_matching_line_wins() {
    let text = "vram_mb = 1\nvram_mb = 2\ncpu_threads = 1\ncpu_mhz = 1\nram_mb = 1\n";
    assert_eq!(load_hw_cache(text).map(|h| h.vram_mb), Some(1));
}

#[test]
fn cache_freshness() {
    assert!(cache_is_fresh(0));
    assert!(cache_is_fresh(604799));
    assert!(!cache_is_fresh(604800));
    let text = save_hw_cache(&sample());
    assert_eq!(cached_hw(Some(3600), Some(text.as_str())), Some(sample()));
    assert_eq!(cached_hw(Some(604800), Some(text.as_str())), None);
    assert_eq!(cached_hw(None, Some(text.as_str())), None);
    assert_eq!(cached_hw(Some(10), None), None);
    assert_eq!(cached_hw(Some(10), Some("garbage")), None);
}

#[test]
fn cache_location() {
    assert_eq!(cache_path("/home/u"), "/home/u/.config/split/hw.cache");
}

#[test]
fn line_and_word_handling_follows_std() {
    for text in [
        "processor 0\r\nprocessor 1\rprocessor 2\n",
        "\nprocessor\n\nprocessor",
        "processor\r",
        " processor\nprocessorX\n",
        "",
        "\n\n",
    ] {
        let expected = text.lines().filter(|l| l.starts_with("processor")).count() as u32;
        assert_eq!(detect_cpu_threads(&Some(text.to_string())), expected);
    }
    for text in [
        "MemTotal:\u{3000}4096\u{a0}kB\n",
        "MemTotal:   \t 10240 kB\r\n",
        "x\nMemTotal:2048 kB\n",
        "MemTotal: 99999999999999999999999 kB\n",
    ] {
        let expected = text
            .lines()
            .find(|l| l.starts_with("MemTotal:"))
            .and_then(|l| l.split_whitespace().nth(1))
            .and_then(|v| v.parse::<u64>().ok())
            .map(|k| k / 1024)
            .unwrap_or(4096);
        assert_eq!(detect_ram_mb(&Some(text.to_string())), expected);
    }
}
