use llmspec::hardware::primary_gpu_name;
use llmspec::hardware::{
    backend_for, gpu_table, gpus_reaching, lookup_gpu, matches_fragment, matches_vendor,
    normalize_gpu_name, sum, Backend, Vendor,
};

#[test]
fn every_card_in_the_table_has_a_printable_name() {
    for spec in gpu_table() {
        assert!(
            !spec.display().is_empty() && !spec.display().contains("  "),
            "{} has no usable display name",
            spec.fragment()
        );
        assert!(spec.bandwidth_gb_s > 0 && spec.vram_gb > 0, "{}", spec.fragment());
    }
}

#[test]
fn gpu_table_prefers_specific_names() {
    let laptop = lookup_gpu("NVIDIA GeForce RTX 4090 Laptop GPU").unwrap();
    assert_eq!(laptop.display(), "RTX 4090 Laptop");
    assert_eq!(laptop.vram_gb, 16);
    assert_eq!(laptop.bandwidth_gb_s, 576);
    let desktop = lookup_gpu("NVIDIA GeForce RTX 4090").unwrap();
    assert_eq!(desktop.display(), "RTX 4090");
    assert_eq!(desktop.vram_gb, 24);
    assert_eq!(desktop.bandwidth_gb_s, 1008);
}

#[test]
fn gpu_names_match_through_vendor_decorations() {
    assert_eq!(
        normalize_gpu_name("Intel(R) Arc(TM) A770 Graphics"),
        "intel arc a770 graphics"
    );
    assert_eq!(lookup_gpu("Intel(R) Arc(TM) A770 Graphics").unwrap().vram_gb, 16);
    assert_eq!(lookup_gpu("NVIDIA H100 80GB HBM3").unwrap().vram_gb, 80);
    assert_eq!(lookup_gpu("AMD Radeon RX 9070 XT").unwrap().vram_gb, 16);
}

#[test]
fn short_fragments_do_not_match_longer_model_numbers() {
    assert!(lookup_gpu("Tesla M40").is_none());
    assert_eq!(lookup_gpu("NVIDIA L40S").unwrap().vram_gb, 48);
    assert_eq!(lookup_gpu("NVIDIA L4").unwrap().vram_gb, 24);
    assert_eq!(lookup_gpu("Apple M4 Max").unwrap().bandwidth_gb_s, 546);
    assert!(lookup_gpu("Completely Unknown Card").is_none());
}

#[test]
fn gpus_reaching_names_the_least_sufficient_card_first() {
    let hits = gpus_reaching(700, 24);
    assert!(
        hits.iter().all(|s| s.bandwidth_gb_s >= 700 && s.vram_gb >= 24),
        "every hit must clear both bars"
    );
    assert!(
        hits.windows(2).all(|w| w[0].bandwidth_gb_s <= w[1].bandwidth_gb_s),
        "hits must be ordered slowest first"
    );
    let names: Vec<&str> = hits.iter().map(|s| s.display()).collect();
    assert!(names.contains(&"RX 7900 XTX"), "got {names:?}");
    assert!(!names.contains(&"RTX 5080"), "got {names:?}");
    assert!(!names.contains(&"RX 7900 XT"), "got {names:?}");
    assert!(gpus_reaching(99_000, 8).is_empty());
}

#[test]
fn cards_of_equal_bandwidth_keep_their_table_order() {
    let hits = gpus_reaching(864, 48);
    let names: Vec<&str> = hits.iter().map(|s| s.display()).collect();
    let l40s = names.iter().position(|n| *n == "L40S").unwrap();
    let l40 = names.iter().position(|n| *n == "L40").unwrap();
    assert!(l40s < l40, "got {names:?}");
    assert_eq!(hits[0].bandwidth_gb_s, 864);
}

#[test]
fn normalisation_collapses_punctuation_and_marks() {
    assert_eq!(normalize_gpu_name("  NVIDIA® GeForce™ RTX-4090  "), "nvidia geforce rtx 4090");
    assert_eq!(normalize_gpu_name("AMD Radeon (TM) RX 7900 XTX [Navi 31]"), "amd radeon rx 7900 xtx navi 31");
    assert_eq!(normalize_gpu_name(""), "");
}

#[test]
fn fragments_match_whole_words_in_order() {
    assert!(matches_fragment("nvidia geforce rtx 4090 laptop gpu", "4090 laptop"));
    assert!(!matches_fragment("nvidia geforce rtx 4090", "4090 laptop"));
    assert!(!matches_fragment("tesla m40", "m4"));
    assert!(matches_fragment("m4", "m4"));
    assert!(!matches_fragment("laptop 4090", "4090 laptop"));
}

#[test]
fn vendors_are_recognised_from_adapter_names() {
    assert!(matches_vendor("AMD Radeon RX 7900 XTX", Vendor::Amd));
    assert!(matches_vendor("Intel(R) Arc(TM) A770 Graphics", Vendor::Intel));
    assert!(!matches_vendor("Intel(R) UHD Graphics", Vendor::Amd));
    assert!(matches_vendor("NVIDIA GeForce RTX 4090", Vendor::Nvidia));
    assert!(matches_vendor("Apple M2", Vendor::Apple));
    assert!(matches_vendor("anything", Vendor::Unknown));
}

#[test]
fn the_backend_follows_the_first_gpu_or_the_cpu() {
    assert_eq!(backend_for(Some(Vendor::Apple), "aarch64"), Backend::Metal);
    assert_eq!(backend_for(Some(Vendor::Nvidia), "x86_64"), Backend::Cuda);
    assert_eq!(backend_for(Some(Vendor::Amd), "x86_64"), Backend::Rocm);
    assert_eq!(backend_for(Some(Vendor::Intel), "x86_64"), Backend::Sycl);
    assert_eq!(backend_for(Some(Vendor::Unknown), "x86_64"), Backend::Cuda);
    assert_eq!(backend_for(None, "aarch64"), Backend::CpuArm);
    assert_eq!(backend_for(None, "armv7"), Backend::CpuArm);
    assert_eq!(backend_for(None, "x86_64"), Backend::CpuX86);
}

#[test]
fn labels_read_as_people_write_them() {
    assert_eq!(Backend::CpuArm.label(), "CPU (ARM)");
    assert_eq!(Backend::Rocm.label(), "ROCm");
    assert_eq!(Vendor::Nvidia.label(), "NVIDIA");
}

#[test]
fn the_probe_sum_wraps() {
    assert_eq!(sum(&[1, 2, 3]), 6);
    assert_eq!(sum(&[u64::MAX, 2]), 1);
    assert_eq!(sum(&[]), 0);
}

use llmspec::hardware::{amd_line, intel_line, nvidia_line, windows_adapter};

const BYTES_PER_GB: f64 = 1024.0 * 1024.0 * 1024.0;

#[test]
fn windows_adapter_lines_are_parsed() {
    let (name, size) = windows_adapter("AMD Radeon RX 7900 XTX|25753026560", Vendor::Amd).unwrap();
    assert_eq!(name, "AMD Radeon RX 7900 XTX");
    let vram_gb = size.parse::<f64>().unwrap() / BYTES_PER_GB;
    assert!((vram_gb - 24.0).abs() < 0.1, "got {vram_gb}");
    assert_eq!(lookup_gpu(&name).map(|g| g.bandwidth_gb_s), Some(960));
}

#[test]
fn windows_adapter_without_a_size_falls_back_to_the_table() {
    let (name, size) = windows_adapter("Intel(R) Arc(TM) A770 Graphics|", Vendor::Intel).unwrap();
    assert!(size.is_empty(), "no size was reported");
    assert_eq!(lookup_gpu(&name).map(|g| g.vram_gb), Some(16));
}

#[test]
fn windows_adapter_lines_are_filtered_by_vendor() {
    assert!(windows_adapter("NVIDIA GeForce RTX 4090|100", Vendor::Amd).is_none());
    assert!(windows_adapter("|1024", Vendor::Amd).is_none());
    assert!(windows_adapter("no separator", Vendor::Amd).is_none());
    assert_eq!(
        windows_adapter("  NVIDIA GeForce RTX 4090 | 100 ", Vendor::Nvidia),
        Some(("NVIDIA GeForce RTX 4090".to_string(), "100".to_string()))
    );
}

#[test]
fn nvidia_lines_give_the_name_and_the_memory_column() {
    assert_eq!(
        nvidia_line("NVIDIA GeForce RTX 4090, 24564"),
        Some(("NVIDIA GeForce RTX 4090".to_string(), Some("24564".to_string())))
    );
    assert_eq!(
        nvidia_line("Tesla T4, [N/A], extra"),
        Some(("Tesla T4".to_string(), Some("[N/A], extra".to_string())))
    );
    assert_eq!(nvidia_line("NVIDIA A100"), Some(("NVIDIA A100".to_string(), None)));
    assert_eq!(nvidia_line("  , 1024"), None);
    assert_eq!(nvidia_line(""), None);
}

#[test]
fn only_intel_arc_vga_lines_are_read() {
    assert_eq!(
        intel_line("03:00.0 VGA compatible controller: Intel Corporation DG2 [Arc A770] (rev 08)"),
        Some("Intel Corporation DG2 [Arc A770] (rev 08)".to_string())
    );
    assert_eq!(intel_line("00:02.0 VGA compatible controller: Intel Corporation UHD Graphics 630"), None);
    assert_eq!(intel_line("01:00.0 Audio device: Intel Arc HDMI"), None);
}

#[test]
fn rocm_rows_name_the_card_or_fall_back() {
    let (name, fields) = amd_line("card0, AMD Radeon RX 7900 XTX, 25753026560, 1024").unwrap();
    assert_eq!(name, "AMD Radeon RX 7900 XTX");
    assert_eq!(fields, vec!["card0", "AMD Radeon RX 7900 XTX", "25753026560", "1024"]);
    let (name, _) = amd_line("card1,0x744c,17163091968").unwrap();
    assert_eq!(name, "AMD GPU");
    assert_eq!(amd_line("device,Card series,VRAM Total Memory (B)"), None);
    assert_eq!(amd_line("card0"), None);
}

use llmspec::hardware::{size_unit, split_size, SizeUnit};

/// A size in GB, read the way `--memory` and `--ram` read one.
fn size_gb(input: &str) -> Result<f64, String> {
    let raw = input.trim();
    let (number, suffix) = split_size(input).ok_or_else(|| "empty size".to_string())?;
    let value: f64 = number.parse().map_err(|_| format!("invalid size '{raw}': expected a number like 32G"))?;
    Ok(match size_unit(&suffix)? {
        SizeUnit::Giga => value,
        SizeUnit::Mega => value / 1024.0,
        SizeUnit::Tera => value * 1024.0,
        SizeUnit::Kilo => value / (1024.0 * 1024.0),
    })
}

#[test]
fn parses_sizes() {
    assert_eq!(size_gb("32G").unwrap(), 32.0);
    assert_eq!(size_gb("128gb").unwrap(), 128.0);
    assert_eq!(size_gb("16GiB").unwrap(), 16.0);
    assert_eq!(size_gb("512M").unwrap(), 0.5);
    assert_eq!(size_gb("1T").unwrap(), 1024.0);
    assert_eq!(size_gb("24").unwrap(), 24.0);
    assert!(size_gb("abc").is_err());
    assert!(size_gb("12X").is_err());
}

#[test]
fn a_size_splits_into_its_number_and_its_unit() {
    assert_eq!(split_size(" 24.5 GiB "), Some(("24.5".to_string(), " GiB".to_string())));
    assert_eq!(split_size("   "), None);
    assert_eq!(split_size("G"), Some((String::new(), "G".to_string())));
    assert_eq!(size_unit(" Mb "), Ok(SizeUnit::Mega));
    assert_eq!(size_unit(""), Ok(SizeUnit::Giga));
    assert_eq!(size_unit("X"), Err("unknown unit 'x': use G, M or T".to_string()));
}

#[test]
fn several_gpus_are_named_by_the_first_and_their_count() {
    assert_eq!(primary_gpu_name(None, 0), "none");
    assert_eq!(primary_gpu_name(Some("RTX 4090"), 1), "RTX 4090");
    assert_eq!(primary_gpu_name(Some("RTX 4090"), 2), "RTX 4090 x2");
}
